//! Screen capture: captured frames and the capturer of builds without a
//! native capture backend.
use vstd::prelude::*;

use crate::error::Error;

verus! {

/// A frame captured from a display (RGBA, row after row).
#[derive(Debug, Clone)]
pub struct Frame {
    pub data: Vec<u8>,
    pub width: u32,
    pub height: u32,
    pub stride: u32,
    pub display_id: usize,
    pub timestamp: u64,
}

/// The byte at `i` after swapping the first and third byte of every whole
/// 4-byte pixel of `p`.
pub open spec fn spec_swap_red_blue(p: Seq<u8>, i: int) -> u8 {
    if i < p.len() - p.len() % 4 {
        if i % 4 == 0 {
            p[i + 2]
        } else if i % 4 == 2 {
            p[i - 2]
        } else {
            p[i]
        }
    } else {
        p[i]
    }
}

/// Byte `j` of pixel `k` (4 bytes per pixel).
pub open spec fn spec_pixel_byte(p: Seq<u8>, k: int, j: int) -> u8 {
    p[4 * k + j]
}

/// The number of whole 4-byte pixels in `p`.
pub open spec fn spec_pixel_count(p: Seq<u8>) -> int {
    p.len() as int / 4
}

/// Pixel `k` of `q` is pixel `k` of `p` with its first and third bytes
/// exchanged and its other two bytes kept.
pub open spec fn spec_pixel_swapped(p: Seq<u8>, q: Seq<u8>, k: int) -> bool {
    &&& spec_pixel_byte(q, k, 0) == spec_pixel_byte(p, k, 2)
    &&& spec_pixel_byte(q, k, 1) == spec_pixel_byte(p, k, 1)
    &&& spec_pixel_byte(q, k, 2) == spec_pixel_byte(p, k, 0)
    &&& spec_pixel_byte(q, k, 3) == spec_pixel_byte(p, k, 3)
}

/// Turns BGRA pixels into RGBA (and back) by swapping the first and third
/// byte of every whole 4-byte pixel; trailing bytes are left alone.
pub fn swap_red_blue(pixels: &mut Vec<u8>)
    ensures
        final(pixels)@.len() == old(pixels)@.len(),
        forall|i: int|
            0 <= i < old(pixels)@.len() ==> #[trigger] final(pixels)@[i] == spec_swap_red_blue(old(pixels)@, i),
        forall|k: int|
            0 <= k < spec_pixel_count(old(pixels)@) ==> #[trigger] spec_pixel_swapped(old(pixels)@, final(pixels)@, k),
        forall|i: int|
            4 * spec_pixel_count(old(pixels)@) <= i < old(pixels)@.len() ==> #[trigger] final(pixels)@[i] == old(
                pixels,
            )@[i],
{
    let ghost orig = pixels@;
    let len = pixels.len();
    let n = len / 4;
    let mut k: usize = 0;
    while k < n
        invariant
            len == orig.len(),
            n == orig.len() / 4,
            k <= n,
            pixels@.len() == orig.len(),
            forall|i: int|
                0 <= i < 4 * k ==> #[trigger] pixels@[i] == spec_swap_red_blue(orig, i),
            forall|i: int| 4 * k <= i < orig.len() ==> #[trigger] pixels@[i] == orig[i],
        decreases n - k,
    {
        assert(4 * k + 3 < len - len % 4) by (nonlinear_arith)
            requires
                k < n,
                n == len / 4,
        {
        }
        let b = pixels[4 * k];
        let r = pixels[4 * k + 2];
        pixels.set(4 * k, r);
        pixels.set(4 * k + 2, b);
        proof {
            assert forall|i: int| 4 * k <= i < 4 * k + 4 implies #[trigger] pixels@[i] == spec_swap_red_blue(orig, i) by {
                assert(i % 4 == i - 4 * k) by (nonlinear_arith)
                    requires
                        4 * k <= i < 4 * k + 4,
                {
                }
            }
        }
        k = k + 1;
    }
    assert(4 * n == orig.len() - orig.len() % 4) by (nonlinear_arith)
        requires
            n == orig.len() / 4,
    {
    }
    proof {
        law_swap_red_blue_pixels(orig);
        assert forall|k: int| 0 <= k < spec_pixel_count(orig) implies #[trigger] spec_pixel_swapped(
            orig,
            pixels@,
            k,
        ) by {
            assert(spec_pixel_swapped(orig, spec_swapped(orig), k));
            assert(0 <= 4 * k && 4 * k + 3 < orig.len()) by (nonlinear_arith)
                requires
                    0 <= k < orig.len() / 4,
            {
            }
            assert(pixels@[4 * k] == spec_swapped(orig)[4 * k]);
            assert(pixels@[4 * k + 1] == spec_swapped(orig)[4 * k + 1]);
            assert(pixels@[4 * k + 2] == spec_swapped(orig)[4 * k + 2]);
            assert(pixels@[4 * k + 3] == spec_swapped(orig)[4 * k + 3]);
        }
        assert forall|i: int| 4 * spec_pixel_count(orig) <= i < orig.len() implies #[trigger] pixels@[i] == orig[i] by {
            assert(pixels@[i] == spec_swap_red_blue(orig, i));
        }
    }
}

impl Frame {
    /// A frame from BGRA pixels as a display hands them out: the pixels are
    /// turned into RGBA and each row is `4 * width` bytes.
    pub fn from_bgra(bgra: Vec<u8>, width: u32, height: u32, display_id: usize, timestamp: u64) -> (res: Frame)
        requires
            4 * width <= u32::MAX,
        ensures
            res.data@.len() == bgra@.len(),
            forall|i: int| 0 <= i < bgra@.len() ==> #[trigger] res.data@[i] == spec_swap_red_blue(bgra@, i),
            forall|k: int| 0 <= k < spec_pixel_count(bgra@) ==> #[trigger] spec_pixel_swapped(bgra@, res.data@, k),
            forall|i: int| 4 * spec_pixel_count(bgra@) <= i < bgra@.len() ==> #[trigger] res.data@[i] == bgra@[i],
            res.width == width,
            res.height == height,
            res.stride == 4 * width,
            res.display_id == display_id,
            res.timestamp == timestamp,
    {
        let mut data = bgra;
        swap_red_blue(&mut data);
        Frame { data, width, height, stride: width * 4, display_id, timestamp }
    }
}

/// The capturer of builds without a native capture backend: it reports a
/// 1920x1080 display and never has a frame.
pub struct Capturer {
    display_id: usize,
    width: u32,
    height: u32,
}

impl Capturer {
    /// The display index.
    pub closed spec fn spec_display_id(&self) -> usize {
        self.display_id
    }

    /// The display width.
    pub closed spec fn spec_width(&self) -> u32 {
        self.width
    }

    /// The display height.
    pub closed spec fn spec_height(&self) -> u32 {
        self.height
    }

    /// A capturer for display `display_index` (1920x1080).
    pub fn new(display_index: usize) -> (res: Result<Self, Error>)
        ensures
            res matches Ok(c) && c.spec_display_id() == display_index && c.spec_width() == 1920
                && c.spec_height() == 1080,
    {
        Ok(Capturer { display_id: display_index, width: 1920, height: 1080 })
    }

    /// Capture one frame; there is never one without a capture backend.
    pub fn capture_frame(&mut self, _timeout_ms: u64) -> (res: Result<Option<Frame>, Error>)
        ensures
            res matches Ok(None),
            final(self).spec_display_id() == old(self).spec_display_id(),
            final(self).spec_width() == old(self).spec_width(),
            final(self).spec_height() == old(self).spec_height(),
    {
        Ok(None)
    }

    /// The display width.
    pub fn width(&self) -> (res: u32)
        ensures
            res == self.spec_width(),
    {
        self.width
    }

    /// The display height.
    pub fn height(&self) -> (res: u32)
        ensures
            res == self.spec_height(),
    {
        self.height
    }

    /// The display index.
    pub fn display_id(&self) -> (res: usize)
        ensures
            res == self.spec_display_id(),
    {
        self.display_id
    }

    /// The display's name.
    pub fn display_name(&self) -> (res: String)
        ensures
            res@ == "Stub Display"@,
    {
        String::from_str("Stub Display")
    }
}


/// The pixels after swapping red and blue.
pub open spec fn spec_swapped(p: Seq<u8>) -> Seq<u8> {
    Seq::new(p.len(), |i: int| spec_swap_red_blue(p, i))
}

/// Swapping red and blue exchanges, in every whole pixel, the first byte
/// with the third and keeps the second and fourth, whatever the bytes are;
/// bytes after the last whole pixel are kept.
pub proof fn law_swap_red_blue_pixels(p: Seq<u8>)
    ensures
        spec_swapped(p).len() == p.len(),
        forall|k: int| 0 <= k < spec_pixel_count(p) ==> #[trigger] spec_pixel_swapped(p, spec_swapped(p), k),
        forall|i: int| 4 * spec_pixel_count(p) <= i < p.len() ==> #[trigger] spec_swapped(p)[i] == p[i],
{
    let q = spec_swapped(p);
    assert forall|k: int| 0 <= k < spec_pixel_count(p) implies #[trigger] spec_pixel_swapped(p, q, k) by {
        assert(4 * k + 3 < p.len() - p.len() % 4 && 0 <= 4 * k) by (nonlinear_arith)
            requires
                0 <= k < p.len() / 4,
        {
        }
        assert((4 * k) % 4 == 0);
        assert((4 * k + 1) % 4 == 1);
        assert((4 * k + 2) % 4 == 2);
        assert((4 * k + 3) % 4 == 3);
    }
    assert forall|i: int| 4 * spec_pixel_count(p) <= i < p.len() implies #[trigger] q[i] == p[i] by {
        assert(4 * (p.len() as int / 4) == p.len() - p.len() % 4);
    }
}

/// Swapping red and blue twice gives back the original pixels (RGBA and
/// BGRA convert into each other by the same swap).
pub proof fn law_swap_red_blue_involutive(p: Seq<u8>)
    ensures
        spec_swapped(spec_swapped(p)) == p,
{
    let q = spec_swapped(p);
    assert forall|i: int| 0 <= i < p.len() implies #[trigger] spec_swapped(q)[i] == p[i] by {
        if i < p.len() - p.len() % 4 {
            if i % 4 == 0 {
                assert((i + 2) % 4 == 2);
                assert(i + 2 < p.len() - p.len() % 4) by (nonlinear_arith)
                    requires
                        i % 4 == 0,
                        0 <= i < p.len() - p.len() % 4,
                {
                }
            } else if i % 4 == 2 {
                assert((i - 2) % 4 == 0);
            }
        }
    }
    assert(spec_swapped(q) =~= p);
}

} // verus!
