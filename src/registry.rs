//! The registry of spawned helper processes, and what each way of ending a
//! run does with it.
use vstd::prelude::*;

verus! {

/// How a run ends.
#[derive(Clone, Copy, Debug, PartialEq, Eq, Structural)]
pub enum ExitPath {
    /// The decoder's stream ended and playback finished.
    Finished,
    /// The user interrupted playback.
    Interrupted,
    /// Startup failed before playback began.
    StartupFailed,
}

/// The process exit status of a run that ends by `path`: success unless
/// startup failed.
pub open spec fn spec_exit_code(path: ExitPath) -> i32 {
    match path {
        ExitPath::StartupFailed => 1,
        _ => 0,
    }
}

/// The process ids that a teardown by `path` of a registry holding `pids`
/// asks to terminate: every one of them, in the order they were registered,
/// on every path.
pub open spec fn teardown_targets(pids: Seq<u32>, path: ExitPath) -> Seq<u32> {
    pids
}

/// What to do to end a run: terminate each process in `kill`, then exit with
/// `exit_code`.
pub struct Teardown {
    pub kill: Vec<u32>,
    pub exit_code: i32,
}

/// The ids of the helper processes spawned so far, in the order of spawning.
/// Ids are only ever added.
pub struct ProcessRegistry {
    pids: Vec<u32>,
}

impl View for ProcessRegistry {
    type V = Seq<u32>;

    closed spec fn view(&self) -> Seq<u32> {
        self.pids@
    }
}

impl ProcessRegistry {
    /// An empty registry.
    pub fn new() -> (r: ProcessRegistry)
        ensures
            r@ == Seq::<u32>::empty(),
    {
        ProcessRegistry { pids: Vec::new() }
    }

    /// Records a spawned process.
    pub fn register(&mut self, pid: u32)
        ensures
            final(self)@ == old(self)@.push(pid),
    {
        self.pids.push(pid);
    }

    /// The number of processes registered.
    pub fn len(&self) -> (r: usize)
        ensures
            r == self@.len(),
    {
        self.pids.len()
    }

    /// Whether `pid` has been registered.
    pub fn contains(&self, pid: u32) -> (r: bool)
        ensures
            r == self@.contains(pid),
    {
        let mut i: usize = 0;
        while i < self.pids.len()
            invariant
                i <= self.pids@.len(),
                forall|j: int| 0 <= j < i ==> self.pids@[j] != pid,
            decreases self.pids@.len() - i,
        {
            if self.pids[i] == pid {
                return true;
            }
            i = i + 1;
        }
        false
    }

    /// Plans the end of a run by `path`: every registered process is to be
    /// terminated, whatever the path. The registry is left as it is, so a
    /// second teardown plans the same terminations again, which are harmless
    /// for processes already gone.
    pub fn teardown(&self, path: ExitPath) -> (r: Teardown)
        ensures
            r.kill@ == teardown_targets(self@, path),
            r.exit_code == spec_exit_code(path),
    {
        let mut kill: Vec<u32> = Vec::new();
        let mut i: usize = 0;
        while i < self.pids.len()
            invariant
                i <= self.pids@.len(),
                kill@ == self.pids@.subrange(0, i as int),
            decreases self.pids@.len() - i,
        {
            kill.push(self.pids[i]);
            assert(kill@ =~= self.pids@.subrange(0, i + 1));
            i = i + 1;
        }
        assert(kill@ =~= self.pids@);
        let exit_code: i32 = match path {
            ExitPath::StartupFailed => 1,
            _ => 0,
        };
        Teardown { kill, exit_code }
    }
}

/// Whatever the way a run ends, and however often teardown runs, every
/// process id that was registered is among the ones it terminates, and a
/// repeated teardown asks for the same terminations as the first.
pub proof fn lemma_teardown_covers_registered(pids: Seq<u32>, first: ExitPath, second: ExitPath)
    ensures
        forall|i: int| 0 <= i < pids.len() ==> teardown_targets(pids, first).contains(#[trigger] pids[i]),
        teardown_targets(pids, first) == teardown_targets(pids, second),
{
    assert forall|i: int| 0 <= i < pids.len() implies teardown_targets(pids, first).contains(#[trigger] pids[i]) by {
        assert(teardown_targets(pids, first)[i] == pids[i]);
    }
}

} // verus!
