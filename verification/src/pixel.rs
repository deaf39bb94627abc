//! BT.601 limited-range YUV to RGB conversion of a single pixel.

use vstd::prelude::*;

verus! {

/// The byte that a signed colour value saturates to.
pub open spec fn clamp_byte(v: int) -> u8 {
    if v < 0 {
        0
    } else if v > 255 {
        255
    } else {
        v as u8
    }
}

/// Red channel before saturation: `(298·(Y−16) + 409·(V−128) + 128) >> 8`.
pub open spec fn bt601_red(y: u8, u: u8, v: u8) -> int {
    (298 * (y - 16) + 409 * (v - 128) + 128) / 256
}

/// Green channel before saturation: `(298·(Y−16) − 100·(U−128) − 208·(V−128) + 128) >> 8`.
pub open spec fn bt601_green(y: u8, u: u8, v: u8) -> int {
    (298 * (y - 16) - 100 * (u - 128) - 208 * (v - 128) + 128) / 256
}

/// Blue channel before saturation: `(298·(Y−16) + 516·(U−128) + 128) >> 8`.
pub open spec fn bt601_blue(y: u8, u: u8, v: u8) -> int {
    (298 * (y - 16) + 516 * (u - 128) + 128) / 256
}

/// The RGB triple of one YUV sample (BT.601, limited range).
pub open spec fn bt601_rgb(y: u8, u: u8, v: u8) -> Seq<u8> {
    seq![
        clamp_byte(bt601_red(y, u, v)),
        clamp_byte(bt601_green(y, u, v)),
        clamp_byte(bt601_blue(y, u, v)),
    ]
}

/// Saturate a signed value to `0..=255`.
pub fn clamp_u8(v: i32) -> (r: u8)
    ensures
        r == clamp_byte(v as int),
{
    if v < 0 {
        0
    } else if v > 255 {
        255
    } else {
        v as u8
    }
}

/// Arithmetic shift right by 8 (floor division by 256) of a value bounded as
/// the colour sums are.
fn shr8(x: i32) -> (q: i32)
    requires
        -131072 <= x <= 1_000_000,
    ensures
        q as int == (x as int) / 256,
{
    let t: i32 = x + 131072;
    let q: i32 = t / 256;
    proof {
        let xi = x as int;
        vstd::arithmetic::div_mod::lemma_fundamental_div_mod(xi, 256);
        vstd::arithmetic::div_mod::lemma_fundamental_div_mod_converse(
            t as int,
            256,
            xi / 256 + 512,
            xi % 256,
        );
    }
    q - 512
}

/// Convert one BT.601 limited-range YUV sample to RGB.
pub fn yuv_to_rgb_bt601(y: u8, u: u8, v: u8) -> (rgb: [u8; 3])
    ensures
        rgb@ == bt601_rgb(y, u, v),
{
    let yc: i32 = y as i32 - 16;
    let uc: i32 = u as i32 - 128;
    let vc: i32 = v as i32 - 128;
    let r: i32 = shr8(298 * yc + 409 * vc + 128);
    let g: i32 = shr8(298 * yc - 100 * uc - 208 * vc + 128);
    let b: i32 = shr8(298 * yc + 516 * uc + 128);
    let rgb = [clamp_u8(r), clamp_u8(g), clamp_u8(b)];
    assert(rgb@ =~= bt601_rgb(y, u, v));
    rgb
}

} // verus!
