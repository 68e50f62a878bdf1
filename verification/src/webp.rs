//! Animated WebP files whose first picture does not fit the frame it is drawn
//! in.
use vstd::prelude::*;

use crate::num;
use crate::office;

verus! {

/// The four bytes from `at` on are `mark`.
pub open spec fn marked(bytes: Seq<u8>, at: int, mark: Seq<u8>) -> bool {
    0 <= at && at + 4 <= bytes.len() && bytes.subrange(at, at + 4) == mark
}

/// A WebP file that declares itself animated: the marks of the container and
/// of its extended header, and the animation flag of that header.
pub open spec fn animated(bytes: Seq<u8>) -> bool {
    bytes.len() > 20 && marked(bytes, 0, seq![0x52u8, 0x49u8, 0x46u8, 0x46u8]) && marked(
        bytes,
        8,
        seq![0x57u8, 0x45u8, 0x42u8, 0x50u8],
    ) && marked(bytes, 12, seq![0x56u8, 0x50u8, 0x38u8, 0x58u8]) && bytes[20] as int / 2 % 2 == 1
}

/// The bytes that a chunk's content takes up: its size, made even.
pub open spec fn padded(size: int) -> int {
    num::lesser(size + size % 2, 0xFFFF_FFFF)
}

/// Where the chunk after the one at `at` begins.
pub open spec fn next_chunk(bytes: Seq<u8>, at: int) -> int {
    at + 8 + padded(office::le32(bytes, at + 4))
}

/// The first frame among the chunks that begin from `at` on and before `end`.
pub open spec fn first_frame(bytes: Seq<u8>, at: int, end: int) -> Option<int>
    decreases num::less(bytes.len() as int, at),
{
    if at < 0 || at >= end || at + 8 > bytes.len() {
        None
    } else if marked(bytes, at, seq![0x41u8, 0x4Eu8, 0x4Du8, 0x46u8]) {
        Some(at)
    } else {
        first_frame(bytes, next_chunk(bytes, at), end)
    }
}

/// A number of three bytes, the lowest first.
pub open spec fn le24(bytes: Seq<u8>, at: int) -> int {
    office::le16(bytes, at) + 65536 * bytes[at + 2]
}

/// A picture of `width` by `height` cannot be drawn row by row into room for
/// `pixels` pixels: it is empty, or larger than the room, or what the room
/// has left over after the first row and pairs of rows is not taken up by a
/// last row.
pub open spec fn misfits(width: int, height: int, pixels: int) -> bool {
    width == 0 || height == 0 || width * height > pixels || ({
        let rest = (pixels - width) % (2 * width);
        rest > 0 && (height % 2 == 1 || (width % 2 == 0 && rest % 2 == 1))
    })
}

/// The frame at `at` opens with an alpha chunk, and the picture in the chunk
/// after it misfits the frame.
pub open spec fn frame_overrun(bytes: Seq<u8>, at: int) -> bool {
    at + 32 <= bytes.len() && marked(bytes, at + 24, seq![0x41u8, 0x4Cu8, 0x50u8, 0x48u8]) && ({
        let picture = next_chunk(bytes, at + 24);
        picture + 18 <= bytes.len() && misfits(
            office::le16(bytes, picture + 14) % 16384,
            office::le16(bytes, picture + 16) % 16384,
            (le24(bytes, at + 14) + 1) * (le24(bytes, at + 17) + 1),
        )
    })
}

/// The bytes are an animated WebP file whose first frame has an alpha chunk
/// and a picture that misfits the frame. No picture comes out of such a file.
pub open spec fn overrun(bytes: Seq<u8>) -> bool {
    animated(bytes) && ({
        let start = next_chunk(bytes, 12);
        match first_frame(bytes, start, start + num::less(office::le32(bytes, 4), 12)) {
            Some(at) => frame_overrun(bytes, at),
            None => false,
        }
    })
}

/// Whether the four bytes from `at` on are these.
fn is_marked(bytes: &[u8], at: usize, a: u8, b: u8, c: u8, d: u8) -> (r: bool)
    requires
        at + 4 <= bytes@.len(),
    ensures
        r == marked(bytes@, at as int, seq![a, b, c, d]),
{
    let r = bytes[at] == a && bytes[at + 1] == b && bytes[at + 2] == c && bytes[at + 3] == d;
    proof {
        let four = bytes@.subrange(at as int, at + 4);
        if r {
            assert(four =~= seq![a, b, c, d]);
        } else {
            assert(four[0] == bytes@[at as int] && four[1] == bytes@[at + 1] && four[2] == bytes@[at
                + 2] && four[3] == bytes@[at + 3]);
        }
    }
    r
}

/// Whether the bytes are a WebP file that declares itself animated.
fn is_animated(bytes: &[u8]) -> (r: bool)
    ensures
        r == animated(bytes@),
{
    bytes.len() > 20 && is_marked(bytes, 0, 0x52, 0x49, 0x46, 0x46) && is_marked(
        bytes,
        8,
        0x57,
        0x45,
        0x42,
        0x50,
    ) && is_marked(bytes, 12, 0x56, 0x50, 0x38, 0x58) && bytes[20] / 2 % 2 == 1
}

/// The number of four bytes at `at`.
fn size_at(bytes: &[u8], at: usize) -> (r: u64)
    requires
        at + 4 <= bytes@.len(),
    ensures
        r == office::le32(bytes@, at as int),
        r <= 0xFFFF_FFFF,
{
    bytes[at] as u64 + 256 * bytes[at + 1] as u64 + 65536 * (bytes[at + 2] as u64 + 256 * bytes[at
        + 3] as u64)
}

/// Where the chunk after the one at `at` begins.
fn chunk_after(bytes: &[u8], at: usize) -> (r: u128)
    requires
        at + 8 <= bytes@.len(),
    ensures
        r == next_chunk(bytes@, at as int),
        at + 8 <= r <= at + 8 + 0xFFFF_FFFF,
{
    assert(at + 8 <= bytes.len());
    let size = size_at(bytes, at + 4);
    let even: u64 = size + size % 2;
    let taken: u64 = if even < 0xFFFF_FFFF {
        even
    } else {
        0xFFFF_FFFF
    };
    at as u128 + 8 + taken as u128
}

/// The first frame among the chunks that begin from `start` on and before
/// `end`.
fn find_frame(bytes: &[u8], start: u128, end: u128) -> (r: Option<usize>)
    requires
        start <= u64::MAX + 0x1_0000_0000,
    ensures
        match first_frame(bytes@, start as int, end as int) {
            Some(i) => r is Some && r->0 == i && i + 8 <= bytes@.len(),
            None => r is None,
        },
{
    let mut at: u128 = start;
    while at < end && at + 8 <= bytes.len() as u128
        invariant
            at <= u64::MAX + 0x1_0000_0007,
            first_frame(bytes@, start as int, end as int) == first_frame(
                bytes@,
                at as int,
                end as int,
            ),
        decreases num::less(bytes@.len() as int, at as int),
    {
        let i: usize = at as usize;
        if is_marked(bytes, i, 0x41, 0x4E, 0x4D, 0x46) {
            return Some(i);
        }
        at = chunk_after(bytes, i);
    }
    None
}

/// Whether a picture of `width` by `height` cannot be drawn row by row into
/// room for `pixels` pixels.
pub fn does_misfit(width: u16, height: u16, pixels: u64) -> (r: bool)
    ensures
        r == misfits(width as int, height as int, pixels as int),
{
    if width == 0 || height == 0 {
        return true;
    }
    let w: u64 = width as u64;
    let h: u64 = height as u64;
    proof {
        assert(w * h <= 0xFFFF * 0xFFFF) by (nonlinear_arith)
            requires
                w <= 0xFFFF,
                h <= 0xFFFF,
        ;
        assert(w <= w * h) by (nonlinear_arith)
            requires
                h >= 1,
        ;
    }
    if w * h > pixels {
        return true;
    }
    let rest: u64 = (pixels - w) % (2 * w);
    rest > 0 && (h % 2 == 1 || (w % 2 == 0 && rest % 2 == 1))
}

/// Whether the frame at `at` opens with an alpha chunk, and the picture in
/// the chunk after it misfits the frame.
fn is_frame_overrun(bytes: &[u8], at: usize) -> (r: bool)
    requires
        at + 8 <= bytes@.len(),
    ensures
        r == frame_overrun(bytes@, at as int),
{
    if bytes.len() - at < 32 || !is_marked(bytes, at + 24, 0x41, 0x4C, 0x50, 0x48) {
        return false;
    }
    let picture = chunk_after(bytes, at + 24);
    if picture + 18 > bytes.len() as u128 {
        return false;
    }
    let p: usize = picture as usize;
    let width: u16 = (bytes[p + 14] as u16 + 256 * bytes[p + 15] as u16) % 16384;
    let height: u16 = (bytes[p + 16] as u16 + 256 * bytes[p + 17] as u16) % 16384;
    let across: u64 = bytes[at + 14] as u64 + 256 * bytes[at + 15] as u64 + 65536 * bytes[at
        + 16] as u64 + 1;
    let down: u64 = bytes[at + 17] as u64 + 256 * bytes[at + 18] as u64 + 65536 * bytes[at
        + 19] as u64 + 1;
    proof {
        assert(across * down <= 0x100_0000 * 0x100_0000) by (nonlinear_arith)
            requires
                across <= 0x100_0000,
                down <= 0x100_0000,
        ;
    }
    does_misfit(width, height, across * down)
}

/// Whether the bytes are an animated WebP file whose first frame has an alpha
/// chunk and a picture that misfits the frame.
pub fn is_overrun(bytes: &[u8]) -> (r: bool)
    ensures
        r == overrun(bytes@),
{
    if !is_animated(bytes) {
        return false;
    }
    let start = chunk_after(bytes, 12);
    let size = size_at(bytes, 4);
    let room: u128 = if size < 12 {
        0
    } else {
        (size - 12) as u128
    };
    match find_frame(bytes, start, start + room) {
        Some(at) => is_frame_overrun(bytes, at),
        None => false,
    }
}

/// A picture that takes up its room exactly fits it, and one that is empty or
/// larger than its room does not.
pub proof fn law_a_picture_fits_its_own_room(width: int, height: int, pixels: int)
    requires
        0 <= width,
        0 <= height,
    ensures
        width > 0 && height > 0 && height % 2 == 1 && width * height == pixels ==> !misfits(
            width,
            height,
            pixels,
        ),
        width == 0 || height == 0 || width * height > pixels ==> misfits(width, height, pixels),
{
    if width > 0 && height > 0 && height % 2 == 1 && width * height == pixels {
        let half = height / 2;
        assert(pixels - width == half * (2 * width)) by (nonlinear_arith)
            requires
                pixels == width * height,
                height == 2 * half + 1,
        ;
        vstd::arithmetic::div_mod::lemma_mod_multiples_basic(half, 2 * width);
    }
}

/// The content of a chunk takes up its size, and one byte more where that is odd,
/// so that chunks begin at even distances.
pub proof fn law_chunks_begin_evenly(size: int)
    requires
        0 <= size < 0xFFFF_FFFF,
    ensures
        padded(size) % 2 == 0,
        size <= padded(size) <= size + 1,
{
}

/// A number of three bytes has its lowest first.
pub proof fn law_three_bytes_are_a_number(bytes: Seq<u8>, at: int)
    ensures
        le24(bytes, at) == bytes[at] + 256 * bytes[at + 1] + 65536 * bytes[at + 2],
        0 <= le24(bytes, at) < 16_777_216,
{
}

/// The frame that is found is marked as one, stands among the chunks, and no
/// frame is passed over: a chunk that is marked so is found at once.
pub proof fn law_the_first_frame_is_found(bytes: Seq<u8>, at: int, end: int)
    ensures
        first_frame(bytes, at, end) matches Some(i) ==> at <= i < end && i + 8 <= bytes.len()
            && bytes[i] == 0x41 && bytes[i + 1] == 0x4E && bytes[i + 2] == 0x4D && bytes[i + 3]
            == 0x46,
        0 <= at < end && at + 8 <= bytes.len() && bytes[at] == 0x41 && bytes[at + 1] == 0x4E
            && bytes[at + 2] == 0x4D && bytes[at + 3] == 0x46 ==> first_frame(bytes, at, end)
            == Some(at),
    decreases num::less(bytes.len() as int, at),
{
    let mark = seq![0x41u8, 0x4Eu8, 0x4Du8, 0x46u8];
    if 0 <= at < end && at + 8 <= bytes.len() {
        let here = bytes.subrange(at, at + 4);
        assert(here[0] == bytes[at] && here[1] == bytes[at + 1] && here[2] == bytes[at + 2]
            && here[3] == bytes[at + 3]);
        if bytes[at] == 0x41 && bytes[at + 1] == 0x4E && bytes[at + 2] == 0x4D && bytes[at + 3]
            == 0x46 {
            assert(here =~= mark);
        }
        if !marked(bytes, at, mark) {
            law_the_first_frame_is_found(bytes, next_chunk(bytes, at), end);
        } else {
            assert(mark[0] == 0x41 && mark[1] == 0x4E && mark[2] == 0x4D && mark[3] == 0x46);
        }
    }
}

/// Only a file that declares itself animated can overrun its frame.
pub proof fn law_only_animations_overrun(bytes: Seq<u8>)
    ensures
        overrun(bytes) ==> bytes.len() > 20 && bytes[0] == 0x52 && bytes[8] == 0x57 && bytes[12]
            == 0x56 && bytes[20] as int / 2 % 2 == 1,
        bytes.len() <= 20 ==> !overrun(bytes),
{
    if overrun(bytes) {
        assert(bytes.subrange(0, 4)[0] == bytes[0]);
        assert(bytes.subrange(8, 12)[0] == bytes[8]);
        assert(bytes.subrange(12, 16)[0] == bytes[12]);
    }
}

} // verus!
