//! The helper programs and their command lines: the decoder that streams raw
//! frames, the prober that reports the source size, and the audio player.
use vstd::prelude::*;
use crate::decimal::{append_decimal, dec};

verus! {

/// Relies on `which::which`: whether an executable of that name is found on
/// the search path. The answer depends on the machine, so nothing is promised
/// of it.
#[verifier::external_body]
fn on_path(name: &str) -> (r: bool) {
    which::which(name).is_ok()
}

/// Whether `r` is the position of the first `true` in `found`, or `None`
/// where there is none.
pub open spec fn is_first_found(found: Seq<bool>, r: Option<usize>) -> bool {
    match r {
        Some(i) => i < found.len() && found[i as int] && forall|j: int| 0 <= j < i ==> !found[j],
        None => forall|j: int| 0 <= j < found.len() ==> !found[j],
    }
}

/// The position of the first candidate that was found, or `None` where none
/// was.
pub fn first_found(found: &[bool]) -> (r: Option<usize>)
    ensures
        is_first_found(found@, r),
{
    let mut i: usize = 0;
    while i < found.len()
        invariant
            i <= found@.len(),
            forall|j: int| 0 <= j < i ==> !found@[j],
        decreases found@.len() - i,
    {
        if found[i] {
            return Some(i);
        }
        i = i + 1;
    }
    None
}

/// The first of `names` that is found on the search path, or `None` where
/// none is: each name is looked up, and the answers decide as `first_found`
/// does.
pub fn find_program(names: &[&str]) -> (r: Option<String>)
    ensures
        exists|found: Seq<bool>, i: Option<usize>|
            found.len() == names@.len() && #[trigger] is_first_found(found, i) && match i {
                Some(k) => r matches Some(s) && s@ == names@[k as int]@,
                None => r is None,
            },
        names@.len() == 0 ==> r is None,
{
    let mut found: Vec<bool> = Vec::new();
    let mut i: usize = 0;
    while i < names.len()
        invariant
            i <= names@.len(),
            found@.len() == i,
        decreases names@.len() - i,
    {
        found.push(on_path(names[i]));
        i = i + 1;
    }
    let first = first_found(found.as_slice());
    match first {
        Some(k) => {
            let s = names[k].to_owned();
            assert(is_first_found(found@, first));
            Some(s)
        },
        None => {
            assert(is_first_found(found@, first));
            None
        },
    }
}

/// The `-vf` filter of the decoder: `fps=F,scale=W:H`.
pub open spec fn decoder_filter(fps: u32, w: u32, h: u32) -> Seq<char> {
    "fps="@ + dec(fps as nat) + ",scale="@ + dec(w as nat) + ":"@ + dec(h as nat)
}

/// The decoder's arguments: read `input` without audio, resample it to `fps`
/// and scale it to `w` by `h`, and write headerless RGB frames, three bytes a
/// pixel, to standard output.
pub open spec fn decoder_arg_list(input: Seq<char>, fps: u32, w: u32, h: u32) -> Seq<Seq<char>> {
    seq![
        "-hide_banner"@, "-loglevel"@, "error"@, "-nostdin"@, "-i"@, input, "-an"@, "-vf"@,
        decoder_filter(fps, w, h), "-f"@, "rawvideo"@, "-pix_fmt"@, "rgb24"@, "pipe:1"@,
    ]
}

/// The prober's arguments: the width and height of the first video stream of
/// `input`, printed as `WxH`.
pub open spec fn probe_arg_list(input: Seq<char>) -> Seq<Seq<char>> {
    seq![
        "-v"@, "error"@, "-select_streams"@, "v:0"@, "-show_entries"@, "stream=width,height"@,
        "-of"@, "csv=p=0:s=x"@, input,
    ]
}

/// The views of a list of strings.
pub open spec fn views(v: Seq<String>) -> Seq<Seq<char>> {
    v.map_values(|s: String| s@)
}

/// Builds the decoder filter text.
pub fn decoder_filter_text(fps: u32, w: u32, h: u32) -> (r: String)
    ensures
        r@ == decoder_filter(fps, w, h),
{
    let mut s = String::new();
    s.append("fps=");
    append_decimal(&mut s, fps);
    s.append(",scale=");
    append_decimal(&mut s, w);
    s.append(":");
    append_decimal(&mut s, h);
    assert(s@ =~= decoder_filter(fps, w, h));
    s
}

/// The decoder's command-line arguments for `input` at `fps` frames per
/// second and `w` by `h` pixels.
pub fn decoder_args(input: &str, fps: u32, w: u32, h: u32) -> (r: Vec<String>)
    ensures
        views(r@) == decoder_arg_list(input@, fps, w, h),
{
    let mut v: Vec<String> = Vec::new();
    v.push("-hide_banner".to_owned());
    v.push("-loglevel".to_owned());
    v.push("error".to_owned());
    v.push("-nostdin".to_owned());
    v.push("-i".to_owned());
    v.push(input.to_owned());
    v.push("-an".to_owned());
    v.push("-vf".to_owned());
    v.push(decoder_filter_text(fps, w, h));
    v.push("-f".to_owned());
    v.push("rawvideo".to_owned());
    v.push("-pix_fmt".to_owned());
    v.push("rgb24".to_owned());
    v.push("pipe:1".to_owned());
    assert(views(v@) =~= decoder_arg_list(input@, fps, w, h));
    v
}

/// The prober's command-line arguments for `input`.
pub fn probe_args(input: &str) -> (r: Vec<String>)
    ensures
        views(r@) == probe_arg_list(input@),
{
    let mut v: Vec<String> = Vec::new();
    v.push("-v".to_owned());
    v.push("error".to_owned());
    v.push("-select_streams".to_owned());
    v.push("v:0".to_owned());
    v.push("-show_entries".to_owned());
    v.push("stream=width,height".to_owned());
    v.push("-of".to_owned());
    v.push("csv=p=0:s=x".to_owned());
    v.push(input.to_owned());
    assert(views(v@) =~= probe_arg_list(input@));
    v
}

} // verus!
