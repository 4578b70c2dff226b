//! Output geometry: the render width and height of the text picture, and the
//! byte size of one raw frame.
use vstd::prelude::*;
use vstd::arithmetic::div_mod::lemma_fundamental_div_mod;

verus! {

/// The render width: the requested width in ASCII mode; in color mode half of
/// it, as each pixel takes two terminal columns. Never below one.
pub open spec fn spec_render_width(requested: u32, color: bool) -> nat {
    let w: nat = if color { requested as nat / 2 } else { requested as nat };
    if w < 1 { 1 } else { w }
}

/// `v` brought into `1 ..= u32::MAX`.
pub open spec fn clamp_height(v: int) -> nat {
    if v < 1 { 1 } else if v > u32::MAX { u32::MAX as nat } else { v as nat }
}

/// `round(src_h * render_w / src_w * 0.55)`, halves rounded up: the source's
/// aspect ratio, squeezed because a character cell is taller than wide.
pub open spec fn probed_height(render_w: nat, src_w: nat, src_h: nat) -> int
    recommends
        src_w > 0,
{
    ((src_h * render_w * 11 + src_w * 10) / (src_w * 20)) as int
}

/// `round(render_w * 9 / 16)`, halves rounded up: a 16:9 picture.
pub open spec fn fallback_height(render_w: nat) -> int {
    ((render_w * 9 + 8) / 16) as int
}

/// The target height: a positive override wins; otherwise the probed source
/// size decides, and without a usable probe (none, or a zero width) a 16:9
/// picture is assumed.
pub open spec fn spec_target_height(render_w: nat, height_override: i32, probe: Option<(u32, u32)>) -> nat {
    if height_override > 0 {
        height_override as nat
    } else {
        match probe {
            Some((src_w, src_h)) if src_w > 0 => clamp_height(probed_height(render_w, src_w as nat, src_h as nat)),
            _ => clamp_height(fallback_height(render_w)),
        }
    }
}

/// Computes the render width for the requested width and mode.
pub fn render_width(requested: u32, color: bool) -> (r: u32)
    ensures
        r == spec_render_width(requested, color),
        r >= 1,
{
    let w = if color { requested / 2 } else { requested };
    if w < 1 { 1 } else { w }
}

/// Computes the target height from the override and the optional probe result
/// (source width, source height).
pub fn target_height(render_w: u32, height_override: i32, probe: Option<(u32, u32)>) -> (r: u32)
    ensures
        r == spec_target_height(render_w as nat, height_override, probe),
        r >= 1,
        height_override > 0 ==> r == height_override,
{
    if height_override > 0 {
        return height_override as u32;
    }
    let v: u128 = match probe {
        Some((src_w, src_h)) if src_w > 0 => {
            let sw = src_w as u128;
            let sh = src_h as u128;
            let rw = render_w as u128;
            assert(sh * rw <= 0xffff_ffff * 0xffff_ffff) by (nonlinear_arith)
                requires sh <= 0xffff_ffff, rw <= 0xffff_ffff;
            (sh * rw * 11 + sw * 10) / (sw * 20)
        },
        _ => ((render_w as u128) * 9 + 8) / 16,
    };
    if v < 1 {
        1
    } else if v > u32::MAX as u128 {
        u32::MAX
    } else {
        v as u32
    }
}

/// Resolves the (render width, target height) pair: both at least one.
pub fn resolve_dimensions(requested_width: u32, height_override: i32, color: bool, probe: Option<(u32, u32)>) -> (r: (u32, u32))
    ensures
        r.0 == spec_render_width(requested_width, color),
        r.1 == spec_target_height(r.0 as nat, height_override, probe),
        r.0 >= 1 && r.1 >= 1,
{
    let w = render_width(requested_width, color);
    (w, target_height(w, height_override, probe))
}

/// The byte size of one frame, three bytes per pixel, or `None` where it does
/// not fit in memory's index range.
pub fn frame_size(w: u32, h: u32) -> (r: Option<usize>)
    ensures
        r == (if w * h * 3 <= usize::MAX { Some((w * h * 3) as usize) } else { None::<usize> }),
{
    assert((w as int) * (h as int) <= 0xffff_ffff * 0xffff_ffff) by (nonlinear_arith)
        requires w <= 0xffff_ffffu32, h <= 0xffff_ffffu32;
    let n: u128 = (w as u128) * (h as u128) * 3;
    if n <= usize::MAX as u128 {
        Some(n as usize)
    } else {
        None
    }
}

/// Without an override, a usable probe gives the nearest whole number to
/// `src_h * render_w / src_w * 0.55` (halves rounded up), brought into
/// `1 ..= u32::MAX`.
pub proof fn lemma_probed_height_rounds(render_w: u32, height_override: i32, src_w: u32, src_h: u32)
    requires
        height_override <= 0,
        src_w > 0,
    ensures
        ({
            let p = probed_height(render_w as nat, src_w as nat, src_h as nat);
            let exact = src_h * render_w * 11;
            &&& p * (src_w * 20) <= exact + src_w * 10
            &&& exact + src_w * 10 < (p + 1) * (src_w * 20)
            &&& spec_target_height(render_w as nat, height_override, Some((src_w, src_h))) == clamp_height(p)
            &&& 1 <= p <= u32::MAX ==> spec_target_height(render_w as nat, height_override, Some((src_w, src_h))) == p
        }),
{
    let n: int = src_h * render_w * 11 + src_w * 10;
    let d: int = src_w * 20;
    lemma_fundamental_div_mod(n, d);
    assert(0 <= n % d < d);
    assert((n / d) * d + d == (n / d + 1) * d) by (nonlinear_arith);
}

} // verus!
