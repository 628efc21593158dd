//! Finding the frame header of a JPEG file, to tell lossless files apart
//! before they are decoded. The bytes are walked as a decoder walks them:
//! marker by marker, over the segments that may stand before the frame.

use vstd::prelude::*;

verus! {

/// Where the next marker's code stands at or behind `at`. A marker is a byte
/// `0xFF`, any number of further bytes `0xFF`, and a code that is not zero;
/// what stands before it is passed over. `seen_ff` says whether the byte
/// before `at` was `0xFF`. `None` where the bytes end first.
pub open spec fn next_marker(bytes: Seq<u8>, at: int, seen_ff: bool) -> Option<int>
    decreases bytes.len() - at,
{
    if at < 0 || at >= bytes.len() {
        None
    } else if bytes[at] == 0xFF {
        next_marker(bytes, at + 1, true)
    } else if seen_ff && bytes[at] != 0 {
        Some(at)
    } else {
        next_marker(bytes, at + 1, false)
    }
}

/// Whether `code` starts a frame: one of the codes `0xC0` to `0xCF` but for
/// the three that name tables and extensions.
pub open spec fn is_frame_code(code: u8) -> bool {
    0xC0 <= code <= 0xCF && code != 0xC4 && code != 0xC8 && code != 0xCC
}

/// Whether `code` starts a segment that may stand before the frame and is
/// passed over by its length: Huffman and quantization tables, the restart
/// interval, comments and application data.
pub open spec fn is_passed_code(code: u8) -> bool {
    code == 0xC4 || code == 0xDB || code == 0xDD || code == 0xFE || 0xE0 <= code <= 0xEF
}

/// The length that the segment with its code at `code_at` gives for itself:
/// the two bytes behind the code, the high one first. It counts these two
/// bytes and what follows them.
pub open spec fn segment_length(bytes: Seq<u8>, code_at: int) -> int {
    bytes[code_at + 1] * 256 + bytes[code_at + 2]
}

/// The code of the first frame that is met from `at` on, where segments that
/// may stand before the frame are passed over by their lengths. `None` where
/// the bytes end, a length is short of two, or another marker comes first.
pub open spec fn first_frame(bytes: Seq<u8>, at: int) -> Option<u8>
    decreases bytes.len() - at,
{
    match next_marker(bytes, at, false) {
        Some(i) => {
            if i < at || i >= bytes.len() {
                None
            } else if is_frame_code(bytes[i]) {
                Some(bytes[i])
            } else if is_passed_code(bytes[i]) && i + 2 < bytes.len() && segment_length(bytes, i)
                >= 2 && i + 1 + segment_length(bytes, i) <= bytes.len() {
                first_frame(bytes, i + 1 + segment_length(bytes, i))
            } else {
                None
            }
        },
        None => None,
    }
}

/// Whether the bytes are a JPEG file whose frame is lossless: they begin
/// with the start-of-image marker and a further `0xFF`, and the first frame
/// met behind the start-of-image marker has the code `0xC3`.
pub open spec fn lossless_jpeg(bytes: Seq<u8>) -> bool {
    &&& bytes.len() >= 3
    &&& bytes[0] == 0xFF
    &&& bytes[1] == 0xD8
    &&& bytes[2] == 0xFF
    &&& first_frame(bytes, 2) == Some(0xC3u8)
}

/// Finds the next marker's code at or behind `from`.
fn find_marker(bytes: &Vec<u8>, from: usize) -> (found: Option<usize>)
    requires
        from <= bytes.len(),
    ensures
        match found {
            Some(i) => next_marker(bytes@, from as int, false) == Some(i as int) && from <= i
                < bytes.len(),
            None => next_marker(bytes@, from as int, false) is None,
        },
{
    let mut at: usize = from;
    let mut seen_ff = false;
    while at < bytes.len()
        invariant
            from <= at <= bytes.len(),
            next_marker(bytes@, from as int, false) == next_marker(bytes@, at as int, seen_ff),
        decreases bytes.len() - at,
    {
        let byte = bytes[at];
        if byte == 0xFF {
            seen_ff = true;
        } else if seen_ff && byte != 0 {
            return Some(at);
        } else {
            seen_ff = false;
        }
        at += 1;
    }
    None
}

/// Tells whether the bytes are a JPEG file whose frame is lossless.
pub fn is_lossless_jpeg(bytes: &Vec<u8>) -> (yes: bool)
    ensures
        yes == lossless_jpeg(bytes@),
{
    if bytes.len() < 3 || bytes[0] != 0xFF || bytes[1] != 0xD8 || bytes[2] != 0xFF {
        return false;
    }
    let mut at: usize = 2;
    loop
        invariant
            2 <= at <= bytes.len(),
            bytes[0] == 0xFF && bytes[1] == 0xD8 && bytes[2] == 0xFF,
            first_frame(bytes@, 2) == first_frame(bytes@, at as int),
        decreases bytes.len() - at,
    {
        let i = match find_marker(bytes, at) {
            Some(i) => i,
            None => {
                return false;
            },
        };
        let code = bytes[i];
        if 0xC0 <= code && code <= 0xCF && code != 0xC4 && code != 0xC8 && code != 0xCC {
            return code == 0xC3;
        }
        let passed = code == 0xC4 || code == 0xDB || code == 0xDD || code == 0xFE || (0xE0 <= code
            && code <= 0xEF);
        if !passed || bytes.len() - i < 3 {
            return false;
        }
        let high: usize = bytes[i + 1] as usize;
        let low: usize = bytes[i + 2] as usize;
        let length: usize = high * 256 + low;
        if length < 2 || length > bytes.len() - i - 1 {
            return false;
        }
        at = i + 1 + length;
    }
}

} // verus!
