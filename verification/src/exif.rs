//! Metadata carry-over for JPEG sources: locating the application segment
//! with marker 0xE1 in the source byte stream, and splicing an identical
//! segment into freshly encoded output right after the start-of-image
//! marker, before the first existing segment. Nothing else is preserved.

use vstd::prelude::*;
use crate::paths::{append_bytes, sub_bytes};

verus! {

/// Whether the bytes open with the JPEG start-of-image marker.
pub open spec fn is_soi(b: Seq<u8>) -> bool {
    b.len() >= 2 && b[0] == 0xFF && b[1] == 0xD8
}

/// The big-endian length field of the segment starting at `i`: it counts
/// itself and the payload, but not the marker pair before it.
pub open spec fn seg_len_field(b: Seq<u8>, i: int) -> int {
    256 * (b[i + 2] as int) + (b[i + 3] as int)
}

/// Scans the segment chain from offset `i` for the first segment with
/// marker 0xE1, the application segment that carries camera metadata. The
/// scan stops at a malformed segment or at the start-of-scan marker.
pub open spec fn find_app1_from(b: Seq<u8>, i: int) -> Option<int>
    decreases b.len() - i when 0 <= i <= b.len()
{
    if i + 4 > b.len() {
        None
    } else if b[i] != 0xFF {
        None
    } else if b[i + 1] == 0xDA {
        None
    } else if seg_len_field(b, i) < 2 {
        None
    } else if i + 2 + seg_len_field(b, i) > b.len() {
        None
    } else if b[i + 1] == 0xE1 {
        Some(i)
    } else {
        find_app1_from(b, i + 2 + seg_len_field(b, i))
    }
}

/// The metadata segment of a JPEG byte stream, marker pair and length field
/// included, when the stream opens with the start-of-image marker and the
/// chain holds one.
pub open spec fn app1_segment(b: Seq<u8>) -> Option<Seq<u8>> {
    if is_soi(b) {
        match find_app1_from(b, 2) {
            Some(i) => Some(b.subrange(i, i + 2 + seg_len_field(b, i))),
            None => None,
        }
    } else {
        None
    }
}

/// The output bytes after metadata carry-over: when the encoded stream
/// opens with the start-of-image marker and the source holds a metadata
/// segment, that segment is inserted right after the marker; otherwise the
/// encoded bytes pass through unchanged.
pub open spec fn with_carried_metadata(src: Seq<u8>, encoded: Seq<u8>) -> Seq<u8> {
    match app1_segment(src) {
        Some(seg) => if is_soi(encoded) {
            encoded.take(2) + seg + encoded.skip(2)
        } else {
            encoded
        },
        None => encoded,
    }
}

/// Finds the metadata segment of a JPEG source: its offset and total byte
/// length, walking the segment chain from just after the start marker.
pub fn find_app1(b: &Vec<u8>) -> (r: Option<(usize, usize)>)
    ensures
        match r {
            Some(p) => {
                &&& find_app1_from(b@, 2) == Some(p.0 as int)
                &&& p.1 == 2 + seg_len_field(b@, p.0 as int)
                &&& p.0 + p.1 <= b@.len()
                &&& app1_segment(b@) == Some(b@.subrange(p.0 as int, p.0 + p.1))
            },
            None => app1_segment(b@) is None,
        },
{
    if b.len() < 2 {
        return None;
    }
    if !(b[0] == 0xFF && b[1] == 0xD8) {
        return None;
    }
    let mut i: usize = 2;
    loop
        invariant
            2 <= i <= b@.len(),
            is_soi(b@),
            find_app1_from(b@, 2) == find_app1_from(b@, i as int),
        decreases b@.len() - i,
    {
        if b.len() - i < 4 {
            return None;
        }
        if b[i] != 0xFF {
            return None;
        }
        let marker = b[i + 1];
        if marker == 0xDA {
            return None;
        }
        let seg_len: usize = 256 * (b[i + 2] as usize) + (b[i + 3] as usize);
        if seg_len < 2 {
            return None;
        }
        if b.len() - i < 2 + seg_len {
            return None;
        }
        if marker == 0xE1 {
            return Some((i, 2 + seg_len));
        }
        i = i + 2 + seg_len;
    }
}

/// Splices the given segment into the encoded bytes right after the
/// start-of-image marker, before every existing segment.
pub fn inject_segment(encoded: &Vec<u8>, seg: &Vec<u8>) -> (r: Vec<u8>)
    requires
        encoded@.len() >= 2,
    ensures
        r@ == encoded@.take(2) + seg@ + encoded@.skip(2),
{
    let n: usize = encoded.len();
    let mut r = sub_bytes(encoded, 0, 2);
    append_bytes(&mut r, seg);
    let tail = sub_bytes(encoded, 2, n);
    append_bytes(&mut r, &tail);
    proof {
        assert(r@ =~= encoded@.take(2) + seg@ + encoded@.skip(2));
    }
    r
}

/// Carries the source's metadata segment, when there is one, into the
/// freshly encoded bytes. Encoded streams that do not open with the
/// start-of-image marker, and sources without the segment, pass through
/// unchanged.
pub fn preserve_metadata(src: &Vec<u8>, encoded: Vec<u8>) -> (r: Vec<u8>)
    ensures
        r@ == with_carried_metadata(src@, encoded@),
{
    if encoded.len() < 2 {
        return encoded;
    }
    if !(encoded[0] == 0xFF && encoded[1] == 0xD8) {
        return encoded;
    }
    let src_len: usize = src.len();
    match find_app1(src) {
        Some((off, len)) => {
            proof {
                assert(off + len <= src_len);
            }
            let seg = sub_bytes(src, off, off + len);
            inject_segment(&encoded, &seg)
        },
        None => encoded,
    }
}

} // verus!
