//! The picture that is left on the bar after a crash.

use vstd::prelude::*;

verus! {

/// How many pixels of a picture fit: eight for each of its bytes, four bytes for
/// each on the screen.
pub open spec fn pixels(bitmap: Seq<u8>, room: int) -> int {
    if 8 * bitmap.len() < room / 4 {
        8 * bitmap.len() as int
    } else {
        room / 4
    }
}

/// One pixel: white where the bit of the picture is clear. The bits of a byte
/// count from the lowest.
pub open spec fn pixel(bitmap: Seq<u8>, i: int) -> u8 {
    if (bitmap[i / 8] >> ((i % 8) as u8)) & 1 == 0 {
        0xFF
    } else {
        0
    }
}

/// The bytes that a picture puts at the start of a screen of that many bytes.
pub open spec fn expanded(bitmap: Seq<u8>, room: int) -> Seq<u8> {
    Seq::new((4 * pixels(bitmap, room)) as nat, |i: int| pixel(bitmap, i / 4))
}

/// Turns a picture of one bit a pixel into the bytes for a screen.
pub fn crash_picture(bitmap: &[u8], room: usize) -> (r: Vec<u8>)
    ensures
        r@ == expanded(bitmap@, room as int),
        r@.len() <= room,
{
    let mut out: Vec<u8> = Vec::new();
    let n = bitmap.len();
    let whole: usize = room / 4;
    let mut b: usize = 0;
    let mut k: u8 = 0;
    while b < n && out.len() / 4 < whole
        invariant
            b <= n,
            n == bitmap@.len(),
            k < 8,
            whole == room / 4,
            out@.len() == 4 * (8 * b + k),
            8 * b + k <= whole,
            b == n ==> k == 0,
            forall|i: int| 0 <= i < out@.len() ==> (#[trigger] out@[i]) == pixel(bitmap@, i / 4),
        decreases 8 * (n - b) - k,
    {
        let byte: u8 = bitmap[b];
        let color: u8 = if (byte >> k) & 1 == 0 {
            0xFF
        } else {
            0
        };
        let ghost at = 8 * b + k;
        assert(at / 8 == b && at % 8 == k);
        assert(color == pixel(bitmap@, at));
        let ghost before = out@;
        out.push(color);
        out.push(color);
        out.push(color);
        out.push(color);
        assert forall|i: int| 0 <= i < out@.len() implies (#[trigger] out@[i]) == pixel(
            bitmap@,
            i / 4,
        ) by {
            if i < before.len() {
                assert(out@[i] == before[i]);
            } else {
                assert(i / 4 == at);
            }
        }
        if k == 7 {
            k = 0;
            b += 1;
        } else {
            k += 1;
        }
    }
    assert(out@ =~= expanded(bitmap@, room as int));
    out
}

/// The picture has one pixel for each bit, as far as there is room: four equal
/// bytes, white where the bit is clear and black where it is set. The bits of a
/// byte count from the lowest.
pub proof fn each_bit_is_a_pixel(bitmap: Seq<u8>, room: int, i: int, k: int)
    requires
        0 <= i < 8 * bitmap.len(),
        4 * i + 4 <= room,
        0 <= k < 4,
    ensures
        ({
            let out = expanded(bitmap, room);
            let byte = bitmap[i / 8];
            let bit = seq![1int, 2, 4, 8, 16, 32, 64, 128][i % 8];
            &&& 4 * i + k < out.len() <= room
            &&& (byte as int / bit) % 2 == 0 ==> out[4 * i + k] == 255
            &&& (byte as int / bit) % 2 == 1 ==> out[4 * i + k] == 0
        }),
{
    let byte = bitmap[i / 8];
    let n = (i % 8) as u8;
    assert((4 * i + k) / 4 == i);
    lemma_bit(byte, n);
}

proof fn lemma_bit(byte: u8, n: u8)
    requires
        n < 8,
    ensures
        ({
            let bit = seq![1int, 2, 4, 8, 16, 32, 64, 128][n as int];
            ((byte >> n) & 1) as int == (byte as int / bit) % 2
        }),
{
    assert((byte >> 0u8) & 1 == byte % 2 && (byte >> 1u8) & 1 == (byte / 2) % 2 && (byte >> 2u8) & 1
        == (byte / 4) % 2 && (byte >> 3u8) & 1 == (byte / 8) % 2 && (byte >> 4u8) & 1 == (byte / 16)
        % 2 && (byte >> 5u8) & 1 == (byte / 32) % 2 && (byte >> 6u8) & 1 == (byte / 64) % 2 && (byte
        >> 7u8) & 1 == (byte / 128) % 2) by (bit_vector);
    let bits = seq![1int, 2, 4, 8, 16, 32, 64, 128];
    if n == 0 {
        assert(byte >> n == byte >> 0u8 && bits[n as int] == 1);
    } else if n == 1 {
        assert(byte >> n == byte >> 1u8 && bits[n as int] == 2);
    } else if n == 2 {
        assert(byte >> n == byte >> 2u8 && bits[n as int] == 4);
    } else if n == 3 {
        assert(byte >> n == byte >> 3u8 && bits[n as int] == 8);
    } else if n == 4 {
        assert(byte >> n == byte >> 4u8 && bits[n as int] == 16);
    } else if n == 5 {
        assert(byte >> n == byte >> 5u8 && bits[n as int] == 32);
    } else if n == 6 {
        assert(byte >> n == byte >> 6u8 && bits[n as int] == 64);
    } else {
        assert(byte >> n == byte >> 7u8 && bits[n as int] == 128);
    }
}

} // verus!
