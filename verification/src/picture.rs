//! The picture, in the byte order a host reads.
use vstd::prelude::*;

verus! {

/// How many bytes a picture of this size takes: four to a pixel.
pub open spec fn byte_count(width: u32, height: u32) -> int {
    4 * (width * height)
}

/// A picture as it comes back from the renderer: red, green, blue, alpha.
pub struct Picture {
    pub width: u32,
    pub height: u32,
    pub rgba: Vec<u8>,
}

impl Picture {
    /// Every pixel is there, and nothing else is.
    pub open spec fn well_formed(self) -> bool {
        self.rgba@.len() == byte_count(self.width, self.height)
    }

    /// Whether every pixel is there, and nothing else is.
    pub fn is_whole(&self) -> (b: bool)
        ensures
            b == self.well_formed(),
    {
        let (w, h): (u128, u128) = (self.width as u128, self.height as u128);
        assert(0 <= w * h <= 0xffff_ffff * 0xffff_ffff) by (nonlinear_arith)
            requires
                0 <= w <= 0xffff_ffff,
                0 <= h <= 0xffff_ffff,
        ;
        self.rgba.len() as u128 == 4 * (w * h)
    }
}

/// Whether a picture of this size can be held in memory at all.
pub fn holdable(width: u32, height: u32) -> (b: bool)
    ensures
        b == (byte_count(width, height) <= isize::MAX),
{
    let (w, h): (u128, u128) = (width as u128, height as u128);
    assert(0 <= w * h <= 0xffff_ffff * 0xffff_ffff) by (nonlinear_arith)
        requires
            0 <= w <= 0xffff_ffff,
            0 <= h <= 0xffff_ffff,
    ;
    4 * (w * h) <= isize::MAX as u128
}

/// A picture of this size that shows nothing: every byte zero.
pub open spec fn blank_pixels(width: u32, height: u32) -> Seq<u8> {
    Seq::new(byte_count(width, height) as nat, |i: int| 0u8)
}

/// A picture of this size that shows nothing.
pub fn blank(width: u32, height: u32) -> (v: Vec<u8>)
    requires
        byte_count(width, height) <= isize::MAX,
    ensures
        v@ == blank_pixels(width, height),
        v@.len() == byte_count(width, height),
{
    assert(width * height >= 0) by (nonlinear_arith);
    let n: usize = (4 * (width as u128 * height as u128)) as usize;
    let v: Vec<u8> = vec![0; n];
    assert(v@ =~= blank_pixels(width, height));
    v
}

/// Where channel `c` of a pixel stands when red and blue change places.
pub open spec fn swapped_channel(c: int) -> int {
    if c == 0 {
        2
    } else if c == 2 {
        0
    } else {
        c
    }
}

/// The whole pixels of `px` with red and blue in each other's place.
pub open spec fn red_blue_swapped(px: Seq<u8>) -> Seq<u8> {
    Seq::new(
        (px.len() / 4 * 4) as nat,
        |i: int| px[i / 4 * 4 + swapped_channel(i % 4)],
    )
}

/// Writes a picture's pixels over `out`, blue first.
pub fn to_bgra(out: &mut Vec<u8>, rgba: &[u8])
    ensures
        final(out)@ == red_blue_swapped(rgba@),
{
    out.clear();
    let len: usize = rgba.len();
    let pixels: usize = len / 4;
    for p in 0usize..pixels
        invariant
            len == rgba@.len(),
            pixels == len / 4,
            out@ == red_blue_swapped(rgba@).take(4 * p),
    {
        out.push(rgba[p * 4 + 2]);
        out.push(rgba[p * 4 + 1]);
        out.push(rgba[p * 4]);
        out.push(rgba[p * 4 + 3]);
        assert(out@ =~= red_blue_swapped(rgba@).take(4 * p + 4));
    }
    assert(out@ =~= red_blue_swapped(rgba@));
}

/// Swapping keeps every pixel of a picture that has them all.
pub proof fn swapping_keeps_the_size(px: Seq<u8>, width: u32, height: u32)
    requires
        px.len() == byte_count(width, height),
    ensures
        red_blue_swapped(px).len() == byte_count(width, height),
{
}

/// Nothing is lost: swapping red and blue again gives the pixels back.
pub proof fn swapping_twice_is_nothing(px: Seq<u8>)
    requires
        px.len() % 4 == 0,
    ensures
        red_blue_swapped(red_blue_swapped(px)) == px,
{
    let once = red_blue_swapped(px);
    assert forall|i: int| 0 <= i < px.len() implies red_blue_swapped(once)[i] == px[i] by {
        let j = i / 4 * 4 + swapped_channel(i % 4);
        assert(0 <= j < px.len());
        assert(j / 4 == i / 4);
        assert(j % 4 == swapped_channel(i % 4));
        assert(red_blue_swapped(once)[i] == once[j]);
        assert(once[j] == px[j / 4 * 4 + swapped_channel(j % 4)]);
    }
    assert(red_blue_swapped(once) =~= px);
}

/// A picture takes four bytes for each of its pixels.
pub proof fn a_pixel_takes_four_bytes(width: u32, height: u32)
    ensures
        byte_count(width, height) == 4 * width * height,
        blank_pixels(width, height).len() == 4 * width * height,
        forall|i: int| 0 <= i < 4 * width * height ==> blank_pixels(width, height)[i] == 0,
{
    assert(4 * (width * height) == 4 * width * height) by (nonlinear_arith);
    assert(width * height >= 0) by (nonlinear_arith);
}

/// Every whole pixel, whatever its values, comes out blue, green, red and alpha
/// where it went in red, green, blue and alpha. No pixel is left out, moved or
/// added.
pub proof fn every_pixel_is_turned_round(px: Seq<u8>, p: int)
    requires
        0 <= p,
        4 * p + 3 < px.len(),
    ensures
        red_blue_swapped(px).len() == px.len() - px.len() % 4,
        red_blue_swapped(px)[4 * p] == px[4 * p + 2],
        red_blue_swapped(px)[4 * p + 1] == px[4 * p + 1],
        red_blue_swapped(px)[4 * p + 2] == px[4 * p],
        red_blue_swapped(px)[4 * p + 3] == px[4 * p + 3],
{
}

} // verus!
