//! Placement of the in-app mini player inside the main window.
use vstd::prelude::*;

verus! {

/// `v` limited to `lo ..= hi`, as std's `Ord::clamp` computes it for `lo <= hi`.
pub open spec fn clamped(v: int, lo: int, hi: int) -> int {
    if v < lo {
        lo
    } else if v > hi {
        hi
    } else {
        v
    }
}

/// Integer division rounding toward zero, as Rust's `/` on signed integers does.
pub open spec fn div_toward_zero(a: int, b: int) -> int {
    if a >= 0 {
        a / b
    } else {
        -((-a) / b)
    }
}

pub open spec fn min_of(a: int, b: int) -> int {
    if a <= b { a } else { b }
}

pub open spec fn max_of(a: int, b: int) -> int {
    if a >= b { a } else { b }
}

/// The widest the mini player may be in a `width` × `height` window: 24 pixels narrower
/// than the window, short enough to leave 24 pixels of height at 16:9, and 1 to 800 wide.
pub open spec fn mini_max_width(width: int, height: int) -> int {
    clamped(min_of(width - 24, div_toward_zero((height - 24) * 16, 9)), 1, 800)
}

/// Where a requested mini-player rectangle `(x, y, w, h)` is placed: at least 240 pixels
/// wide where the window allows it, no wider than `mini_max_width`, 16:9 high, and kept
/// 12 pixels inside the window edges where the window is large enough.
pub open spec fn mini_placement(rect: (i32, i32, i32, i32), width: int, height: int) -> (int, int, int, int) {
    let max_width = mini_max_width(width, height);
    let w = clamped(rect.2 as int, min_of(240, max_width), max_width);
    let h = max_of(w * 9 / 16, 1);
    let x = clamped(rect.0 as int, min_of(12, width - w), max_of(width - w - 12, min_of(12, width - w)));
    let y = clamped(rect.1 as int, min_of(12, height - h), max_of(height - h - 12, min_of(12, height - h)));
    (x, y, w, h)
}

fn clamp_i32(v: i32, lo: i32, hi: i32) -> (r: i32)
    requires
        lo <= hi,
    ensures
        r == clamped(v as int, lo as int, hi as int),
{
    if v < lo {
        lo
    } else if v > hi {
        hi
    } else {
        v
    }
}

/// Keep the mini player's rectangle inside the window and at a 16:9 ratio.
pub fn bounded(rect: (i32, i32, i32, i32), width: i32, height: i32) -> (r: (i32, i32, i32, i32))
    requires
        width >= i32::MIN + 812,
        -134_217_704 <= height <= 134_217_751,
    ensures
        (r.0 as int, r.1 as int, r.2 as int, r.3 as int) == mini_placement(rect, width as int, height as int),
        1 <= r.2 <= 800,
        r.3 == max_of(r.2 * 9 / 16, 1),
        width >= 25 && height >= 25 ==> 12 <= r.0 && r.0 + r.2 + 12 <= width && 12 <= r.1 && r.1 + r.3 + 12 <= height,
{
    let tall = (height - 24) * 16;
    let by_height = tall / 9;
    assert(by_height as int == div_toward_zero(tall as int, 9));
    let narrower = if width - 24 <= by_height { width - 24 } else { by_height };
    let max_width = clamp_i32(narrower, 1, 800);
    let low_width = if 240 <= max_width { 240 } else { max_width };
    let w = clamp_i32(rect.2, low_width, max_width);
    let scaled = w * 9 / 16;
    let h = if scaled >= 1 { scaled } else { 1 };
    let low_x = if 12 <= width - w { 12 } else { width - w };
    let high_x = if width - w - 12 >= low_x { width - w - 12 } else { low_x };
    let x = clamp_i32(rect.0, low_x, high_x);
    let low_y = if 12 <= height - h { 12 } else { height - h };
    let high_y = if height - h - 12 >= low_y { height - h - 12 } else { low_y };
    let y = clamp_i32(rect.1, low_y, high_y);
    proof {
        if width >= 25 && height >= 25 {
            assert(w <= (height - 24) * 16 / 9);
            assert(w * 9 / 16 <= height - 24);
        }
    }
    (x, y, w, h)
}

/// A placed mini player stays where it is when placed again in the same window, so its
/// remembered size and position survive later adjustments.
pub proof fn lemma_placement_is_stable(rect: (i32, i32, i32, i32), width: i32, height: i32)
    requires
        width >= i32::MIN + 812,
        -134_217_704 <= height <= 134_217_751,
    ensures
        ({
            let p = mini_placement(rect, width as int, height as int);
            &&& i32::MIN <= p.0 <= i32::MAX && i32::MIN <= p.1 <= i32::MAX
            &&& i32::MIN <= p.2 <= i32::MAX && i32::MIN <= p.3 <= i32::MAX
            &&& mini_placement((p.0 as i32, p.1 as i32, p.2 as i32, p.3 as i32), width as int, height as int) == p
        }),
{
    let p = mini_placement(rect, width as int, height as int);
    let max_width = mini_max_width(width as int, height as int);
    assert(1 <= max_width <= 800);
    assert(1 <= p.2 <= 800);
    assert(p.3 == max_of(p.2 * 9 / 16, 1));
    assert(1 <= p.3 <= 450);
}

} // verus!
