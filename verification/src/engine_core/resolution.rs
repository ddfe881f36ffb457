use vstd::prelude::*;
use crate::engine_core::config::VirtualResolution;

verus! {

/// The scale factor between the virtual resolution and the actual window size.
#[derive(Debug, Clone, Copy, PartialEq, Eq, Structural)]
pub struct PixelScale {
    pub factor: u32,
    pub offset_x: u32,
    pub offset_y: u32,
}

/// The integer scale factor: the largest whole multiple of the virtual
/// resolution that fits the window, but at least 1.
pub open spec fn scale_factor(vw: nat, vh: nat, ww: nat, wh: nat) -> nat
    recommends
        vw > 0,
        vh > 0,
{
    let sx = ww / vw;
    let sy = wh / vh;
    let m = if sx <= sy { sx } else { sy };
    if m >= 1 { m } else { 1 }
}

impl PixelScale {
    /// Calculate the integer scale factor and centering offsets
    /// to fit the virtual resolution within the actual window size.
    ///
    /// The window must be at least as large as the virtual resolution:
    /// otherwise the centering offset would be negative.
    pub fn calculate(virtual_res: &VirtualResolution, window_width: u32, window_height: u32) -> (s: Self)
        requires
            virtual_res.width > 0,
            virtual_res.height > 0,
            window_width >= virtual_res.width,
            window_height >= virtual_res.height,
        ensures
            s.factor == scale_factor(virtual_res.width as nat, virtual_res.height as nat,
                window_width as nat, window_height as nat),
            s.offset_x == (window_width - virtual_res.width * s.factor) / 2,
            s.offset_y == (window_height - virtual_res.height * s.factor) / 2,
            s.factor >= 1,
            virtual_res.width * s.factor <= window_width,
            virtual_res.height * s.factor <= window_height,
    {
        let scale_x = window_width / virtual_res.width;
        let scale_y = window_height / virtual_res.height;
        let m = if scale_x <= scale_y { scale_x } else { scale_y };
        let factor = if m >= 1 { m } else { 1 };
        proof {
            lemma_scaled_fits(virtual_res.width as nat, window_width as nat, factor as nat);
            lemma_scaled_fits(virtual_res.height as nat, window_height as nat, factor as nat);
        }
        let scaled_width = virtual_res.width * factor;
        let scaled_height = virtual_res.height * factor;

        let offset_x = (window_width - scaled_width) / 2;
        let offset_y = (window_height - scaled_height) / 2;

        PixelScale { factor, offset_x, offset_y }
    }
}

/// If `f <= w / v` (and `f >= 1`, `v <= w`), then `v * f <= w`.
proof fn lemma_scaled_fits(v: nat, w: nat, f: nat)
    requires
        v > 0,
        v <= w,
        1 <= f,
        f <= w / v || f == 1,
    ensures
        v * f <= w,
{
    if f == 1 {
        assert(v * 1 == v) by (nonlinear_arith);
    } else {
        assert(v * f <= v * (w / v)) by (nonlinear_arith)
            requires f <= w / v, v > 0;
        vstd::arithmetic::div_mod::lemma_fundamental_div_mod(w as int, v as int);
        assert(v * (w / v) <= w) by (nonlinear_arith)
            requires v > 0, w == v * (w / v) + w % v, w % v >= 0;
    }
}

/// The picture is centred: the margins left and right (and above and
/// below) differ by at most one pixel.
pub proof fn law_pixel_scale_centred(ww: nat, scaled: nat, offset: nat)
    requires
        scaled <= ww,
        offset == (ww - scaled) / 2,
    ensures
        ww - scaled - 2 * offset == 0 || ww - scaled - 2 * offset == 1,
{
}

/// The scale factor is the largest that fits: one step larger would
/// overflow the window in width or in height (unless even 1 does not fit).
pub proof fn law_pixel_scale_largest(vw: nat, vh: nat, ww: nat, wh: nat)
    requires
        vw > 0,
        vh > 0,
        ww >= vw,
        wh >= vh,
    ensures
        vw * (scale_factor(vw, vh, ww, wh) + 1) > ww || vh * (scale_factor(vw, vh, ww, wh) + 1) > wh,
        vw * scale_factor(vw, vh, ww, wh) <= ww,
        vh * scale_factor(vw, vh, ww, wh) <= wh,
{
    let f = scale_factor(vw, vh, ww, wh);
    let sx = ww / vw;
    let sy = wh / vh;
    vstd::arithmetic::div_mod::lemma_fundamental_div_mod(ww as int, vw as int);
    vstd::arithmetic::div_mod::lemma_fundamental_div_mod(wh as int, vh as int);
    assert(sx >= 1) by {
        vstd::arithmetic::div_mod::lemma_div_is_ordered(vw as int, ww as int, vw as int);
        vstd::arithmetic::div_mod::lemma_div_by_self(vw as int);
    }
    assert(sy >= 1) by {
        vstd::arithmetic::div_mod::lemma_div_is_ordered(vh as int, wh as int, vh as int);
        vstd::arithmetic::div_mod::lemma_div_by_self(vh as int);
    }
    lemma_scaled_fits(vw, ww, f);
    lemma_scaled_fits(vh, wh, f);
    if sx <= sy {
        assert(f == sx);
        assert(vw * (sx + 1) > ww) by (nonlinear_arith)
            requires ww == vw * sx + ww % vw, ww % vw < vw, vw > 0;
    } else {
        assert(f == sy);
        assert(vh * (sy + 1) > wh) by (nonlinear_arith)
            requires wh == vh * sy + wh % vh, wh % vh < vh, vh > 0;
    }
}

} // verus!
