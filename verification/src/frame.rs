//! Pixels on their way to the frame buffer.

use vstd::prelude::*;

verus! {

/// Copies a frame to the frame buffer, as far as both reach.
pub fn copy_frame(pixels: &Vec<u8>, target: &mut [u8])
    ensures
        final(target)@.len() == old(target)@.len(),
        forall|i: int|
            0 <= i < old(target)@.len() ==> #[trigger] final(target)@[i] == (if i < pixels@.len() {
                pixels@[i]
            } else {
                old(target)@[i]
            }),
{
    let mut i: usize = 0;
    while i < pixels.len() && i < target.len()
        invariant
            i <= pixels@.len(),
            i <= target@.len(),
            target@.len() == old(target)@.len(),
            forall|j: int| 0 <= j < i ==> #[trigger] target@[j] == pixels@[j],
            forall|j: int| i <= j < target@.len() ==> #[trigger] target@[j] == old(target)@[j],
        decreases pixels.len() - i,
    {
        target[i] = pixels[i];
        i += 1;
    }
}

/// The bit of a bitmap for a pixel: bytes in order, the lowest bit first.
pub open spec fn bitmap_bit(bitmap: Seq<u8>, pixel: int) -> bool {
    (bitmap[pixel / 8] >> ((pixel % 8) as u8)) & 1 == 1
}

/// A byte of the picture that a bitmap stands for: a pixel has four bytes, all
/// 255 where its bit is clear, all zero where it is set.
pub open spec fn bitmap_byte(bitmap: Seq<u8>, at: int) -> u8 {
    if bitmap_bit(bitmap, at / 4) {
        0
    } else {
        0xff
    }
}

/// Draws a bitmap at the start of the frame buffer.
pub fn draw_bitmap(bitmap: &[u8], target: &mut [u8])
    requires
        old(target)@.len() >= 32 * bitmap@.len(),
    ensures
        final(target)@.len() == old(target)@.len(),
        forall|i: int|
            0 <= i < old(target)@.len() ==> #[trigger] final(target)@[i] == (if i < 32
                * bitmap@.len() {
                bitmap_byte(bitmap@, i)
            } else {
                old(target)@[i]
            }),
{
    let room: usize = target.len();
    let mut k: usize = 0;
    while k < bitmap.len()
        invariant
            k <= bitmap@.len(),
            target@.len() == old(target)@.len(),
            target@.len() == room,
            room >= 32 * bitmap@.len(),
            forall|j: int| 0 <= j < 32 * k ==> #[trigger] target@[j] == bitmap_byte(bitmap@, j),
            forall|j: int| 32 * k <= j < target@.len() ==> #[trigger] target@[j] == old(target)@[j],
        decreases bitmap.len() - k,
    {
        let byte = bitmap[k];
        let mut b: u8 = 0;
        while b < 8
            invariant
                k < bitmap@.len(),
                byte == bitmap@[k as int],
                b <= 8,
                target@.len() == old(target)@.len(),
                target@.len() == room,
                room >= 32 * bitmap@.len(),
                forall|j: int|
                    0 <= j < 32 * k + 4 * b ==> #[trigger] target@[j] == bitmap_byte(bitmap@, j),
                forall|j: int|
                    32 * k + 4 * b <= j < target@.len() ==> #[trigger] target@[j] == old(
                        target,
                    )@[j],
            decreases 8 - b,
        {
            let color: u8 = if (byte >> b) & 1 == 0 {
                0xff
            } else {
                0
            };
            proof {
                assert((byte >> b) & 1 == 0 || (byte >> b) & 1 == 1) by (bit_vector);
            }
            let at: usize = 32 * k + 4 * b as usize;
            target[at] = color;
            target[at + 1] = color;
            target[at + 2] = color;
            target[at + 3] = color;
            proof {
                assert forall|j: int| at <= j < at + 4 implies #[trigger] bitmap_byte(bitmap@, j)
                    == color by {
                    assert(j / 4 == 8 * k + b);
                    assert((j / 4) / 8 == k);
                    assert((j / 4) % 8 == b);
                }
            }
            b += 1;
        }
        k += 1;
    }
}

/// The four bytes of a pixel are the same: dark where its bit is set, bright
/// where it is clear. The bits of a byte belong to eight pixels in a row, the
/// lowest to the first.
pub proof fn pixels_follow_bits(bitmap: Seq<u8>, byte: int, bit: u8, channel: int)
    requires
        0 <= byte < bitmap.len(),
        bit < 8,
        0 <= channel < 4,
    ensures
        ({
            let at = 32 * byte + 4 * bit + channel;
            &&& (bitmap[byte] >> bit) & 1 == 1 ==> bitmap_byte(bitmap, at) == 0
            &&& (bitmap[byte] >> bit) & 1 == 0 ==> bitmap_byte(bitmap, at) == 255
        }),
{
    let at = 32 * byte + 4 * bit + channel;
    assert(at / 4 == 8 * byte + bit);
    assert((at / 4) / 8 == byte);
    assert((at / 4) % 8 == bit);
}

} // verus!
