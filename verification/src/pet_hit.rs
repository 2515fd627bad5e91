//! Pixel-accurate clicks on the pet: the pet window lets the cursor through where
//! the pet picture is transparent.
use vstd::prelude::*;

verus! {

/// Below this alpha a pixel of the pet picture counts as transparent.
pub const HIT_ALPHA_MIN: u8 = 8;

/// The alpha channel of an RGBA picture, pixel by pixel.
pub fn alpha_channel(data: &Vec<u8>) -> (r: Vec<u8>)
    requires
        data.len() % 4 == 0,
    ensures
        r.len() == data.len() / 4,
        forall|k: int| 0 <= k < r.len() ==> #[trigger] r@[k] == data@[4 * k + 3],
{
    let n = data.len() / 4;
    let mut out: Vec<u8> = Vec::new();
    let mut k: usize = 0;
    while k < n
        invariant
            n == data.len() / 4,
            k <= n,
            out.len() == k,
            forall|j: int| 0 <= j < k ==> #[trigger] out@[j] == data@[4 * j + 3],
        decreases n - k,
    {
        out.push(data[4 * k + 3]);
        k += 1;
    }
    out
}

/// Whether the picture is transparent at column `u`, row `v`.
pub fn transparent_at(alpha: &Vec<u8>, width: u32, u: u32, v: u32) -> (r: bool)
    requires
        u < width,
        (v as int) * (width as int) + (u as int) < alpha.len(),
    ensures
        r == (alpha@[(v as int) * (width as int) + (u as int)] < HIT_ALPHA_MIN),
{
    let idx = (v as usize) * (width as usize) + (u as usize);
    alpha[idx] < HIT_ALPHA_MIN
}

/// Whether the pet window lets the cursor through: only a photo pet can, and only
/// where the cursor is not on the picture (`over_transparent`); the default cat is
/// always clickable.
pub fn passes_cursor_through(photo_enabled: bool, has_photo: bool, over_transparent: bool) -> (r: bool)
    ensures
        r == (photo_enabled && has_photo && over_transparent),
{
    photo_enabled && has_photo && over_transparent
}

} // verus!
