//! The ResolutionInfo image resource (`0x03ED`): reading the document
//! resolution from a PSD file and building the block for the writer.
//!
//! Resolutions are 16.16 fixed-point pixels per inch, kept here as the raw
//! signed 32-bit values; conversion to and from floating point is the
//! caller's.

use vstd::prelude::*;

use super::header::PSD_HEADER_LEN;
use super::writer::{be16, be16_bytes, be32, be32_bytes, bei32};

verus! {

/// Image-resource id of ResolutionInfo.
pub const RESOLUTION_INFO_ID: u16 = 0x03ED;

/// The big-endian `u32` at `off` of `b` (meaningful when it fits).
pub open spec fn be_u32_at(b: Seq<u8>, off: int) -> u32 {
    (b[off] as int * 0x100_0000 + b[off + 1] as int * 0x1_0000 + b[off + 2] as int * 0x100 + b[off + 3] as int) as u32
}

/// Read a big-endian `u32` at `off`, or `None` if out of bounds.
pub fn be_u32(b: &[u8], off: usize) -> (r: Option<u32>)
    ensures
        r == (if off + 4 <= b@.len() { Some(be_u32_at(b@, off as int)) } else { None::<u32> }),
{
    if off > b.len() || b.len() - off < 4 {
        return None;
    }
    let v: u32 = (b[off] as u32) * 0x100_0000 + (b[off + 1] as u32) * 0x1_0000 + (b[off + 2] as u32) * 0x100 + (b[off
        + 3] as u32);
    Some(v)
}

/// The resolution held by a ResolutionInfo payload `d`: the horizontal
/// (`d[0..4]`) and vertical (`d[8..12]`) 16.16 fixed-point values, when both
/// are present and positive.
pub open spec fn resolution_of(d: Seq<u8>) -> Option<(i32, i32)> {
    if d.len() < 12 {
        None
    } else {
        let h = be_u32_at(d, 0) as i32;
        let v = be_u32_at(d, 8) as i32;
        if h > 0 && v > 0 {
            Some((h, v))
        } else {
            None
        }
    }
}

/// Parse a ResolutionInfo payload: horizontal resolution at `[0..4]`,
/// vertical at `[8..12]`; `None` unless both are positive.
pub fn parse_resolution_info(d: &[u8]) -> (r: Option<(i32, i32)>)
    ensures
        r == resolution_of(d@),
{
    let h = match be_u32(d, 0) {
        Some(x) => x as i32,
        None => {
            return None;
        },
    };
    let v = match be_u32(d, 8) {
        Some(x) => x as i32,
        None => {
            return None;
        },
    };
    if h > 0 && v > 0 {
        Some((h, v))
    } else {
        None
    }
}

/// Whether `s[p..p + 4]` is the `8BIM` resource signature.
pub open spec fn is_8bim(s: Seq<u8>, p: int) -> bool {
    s[p] == 0x38 && s[p + 1] == 0x42 && s[p + 2] == 0x49 && s[p + 3] == 0x4D
}

/// The resolution found by walking the resource blocks of `section` from
/// offset `p`: each block is `8BIM`, a big-endian id, a Pascal name padded
/// to even length, a big-endian size and data padded to even length. The
/// walk stops at the first ResolutionInfo block, or gives `None` at a
/// malformed or truncated block or at the end.
pub open spec fn scan_resolution(section: Seq<u8>, pos: nat) -> Option<(i32, i32)>
    decreases section.len() + 1 - pos,
{
    let len = section.len() as int;
    let p = pos as int;
    if p + 4 > len {
        None
    } else if !is_8bim(section, p) {
        None
    } else if p + 6 > len {
        None
    } else {
        let id = section[p + 4] as int * 256 + section[p + 5] as int;
        if p + 6 >= len {
            None
        } else {
            let name_field = 1 + section[p + 6] as int;
            let q = p + 6 + name_field + name_field % 2;
            if q + 4 > len {
                None
            } else {
                let size = be_u32_at(section, q) as int;
                let data_start = q + 4;
                if data_start + size > len {
                    None
                } else if id == RESOLUTION_INFO_ID as int {
                    resolution_of(section.subrange(data_start, data_start + size))
                } else {
                    scan_resolution(section, (data_start + size + size % 2) as nat)
                }
            }
        }
    }
}

/// Walk the resource blocks of an image-resources `section`, returning the
/// resolution from the first ResolutionInfo block.
pub fn find_resolution(section: &[u8]) -> (r: Option<(i32, i32)>)
    requires
        section@.len() <= isize::MAX,
    ensures
        r == scan_resolution(section@, 0),
{
    let mut p: usize = 0;
    while p <= section.len() && section.len() - p >= 4
        invariant
            p <= section@.len() + 1,
            section@.len() <= isize::MAX,
            scan_resolution(section@, p as nat) == scan_resolution(section@, 0),
        decreases section@.len() + 1 - p,
    {
        if !(section[p] == 0x38 && section[p + 1] == 0x42 && section[p + 2] == 0x49 && section[p + 3] == 0x4D) {
            return None;
        }
        let ghost p0 = p;
        p = p + 4;
        if section.len() - p < 2 {
            return None;
        }
        let id: u16 = (section[p] as u16) * 256 + (section[p + 1] as u16);
        p = p + 2;
        if p >= section.len() {
            return None;
        }
        let name_field: usize = 1 + section[p] as usize;
        if section.len() - p < name_field + name_field % 2 {
            return None;
        }
        p = p + name_field + name_field % 2;
        let size = match be_u32(section, p) {
            Some(s) => s as usize,
            None => {
                return None;
            },
        };
        p = p + 4;
        if size > section.len() - p {
            return None;
        }
        if id == RESOLUTION_INFO_ID {
            let data = slice_range(section, p, p + size);
            return parse_resolution_info(data);
        }
        p = p + size + size % 2;
        proof {
            assert(scan_resolution(section@, p0 as nat) == scan_resolution(section@, p as nat));
        }
    }
    proof {
        if p <= section@.len() {
            assert(p + 4 > section@.len());
        }
    }
    None
}

/// The sub-slice `b[start..end]`.
fn slice_range(b: &[u8], start: usize, end: usize) -> (r: &[u8])
    requires
        start <= end <= b@.len(),
    ensures
        r@ == b@.subrange(start as int, end as int),
{
    let s = b.split_at(start).1;
    s.split_at(end - start).0
}

/// What [`read_resolution`] finds in `bytes`: past the 26-byte header, the
/// colour-mode data section (a big-endian length and its data), then the
/// image-resources section (a big-endian length and its blocks).
pub open spec fn read_resolution_spec(bytes: Seq<u8>) -> Option<(i32, i32)> {
    let len = bytes.len() as int;
    if PSD_HEADER_LEN + 4 > len {
        None
    } else {
        let cmd_len = be_u32_at(bytes, PSD_HEADER_LEN as int) as int;
        let res_off = PSD_HEADER_LEN + 4 + cmd_len;
        if res_off + 4 > len {
            None
        } else {
            let res_len = be_u32_at(bytes, res_off) as int;
            let start = res_off + 4;
            if start + res_len > len {
                None
            } else {
                scan_resolution(bytes.subrange(start, start + res_len), 0)
            }
        }
    }
}

/// Read the document resolution (16.16 fixed-point, horizontal then
/// vertical) from a PSD file's image resources, or `None` if there is no
/// ResolutionInfo block or the file is malformed or truncated.
pub fn read_resolution(bytes: &[u8]) -> (r: Option<(i32, i32)>)
    requires
        bytes@.len() <= isize::MAX,
    ensures
        r == read_resolution_spec(bytes@),
{
    let cmd_len = match be_u32(bytes, PSD_HEADER_LEN) {
        Some(v) => v as usize,
        None => {
            return None;
        },
    };
    let res_off = match (PSD_HEADER_LEN + 4).checked_add(cmd_len) {
        Some(v) => v,
        None => {
            return None;
        },
    };
    let res_len = match be_u32(bytes, res_off) {
        Some(v) => v as usize,
        None => {
            return None;
        },
    };
    let start = res_off + 4;
    let end = match start.checked_add(res_len) {
        Some(v) => v,
        None => {
            return None;
        },
    };
    if end > bytes.len() {
        return None;
    }
    find_resolution(slice_range(bytes, start, end))
}

/// The ResolutionInfo block for resolutions `h` and `v` (16.16 fixed
/// point): `8BIM`, the id, an empty padded name, the payload size 16, then
/// `h`, pixels-per-inch and inch units, `v`, and the same units.
pub open spec fn resolution_bytes(h: i32, v: i32) -> Seq<u8> {
    seq![0x38u8, 0x42u8, 0x49u8, 0x4Du8] + be16_bytes(RESOLUTION_INFO_ID) + seq![0u8, 0u8] + be32_bytes(16)
        + be32_bytes(h as u32) + be16_bytes(1) + be16_bytes(1) + be32_bytes(v as u32) + be16_bytes(1)
        + be16_bytes(1)
}

/// Build a complete ResolutionInfo image-resource block for the writer.
pub fn resolution_resource(h: i32, v: i32) -> (r: Vec<u8>)
    ensures
        r@ == resolution_bytes(h, v),
{
    let mut b: Vec<u8> = Vec::new();
    b.push(0x38);
    b.push(0x42);
    b.push(0x49);
    b.push(0x4D);
    be16(&mut b, RESOLUTION_INFO_ID);
    b.push(0);
    b.push(0);
    be32(&mut b, 16);
    bei32(&mut b, h);
    be16(&mut b, 1);
    be16(&mut b, 1);
    bei32(&mut b, v);
    be16(&mut b, 1);
    be16(&mut b, 1);
    proof {
        assert(b@ =~= resolution_bytes(h, v));
    }
    b
}

/// The resolution block the writer builds reads back as the resolutions
/// written, when both are positive, and as none otherwise.
pub proof fn law_resolution_round_trip(h: i32, v: i32)
    ensures
        scan_resolution(resolution_bytes(h, v), 0) == (if h > 0 && v > 0 {
            Some((h, v))
        } else {
            None::<(i32, i32)>
        }),
{
    let s = resolution_bytes(h, v);
    assert(s.len() == 28);
    assert(is_8bim(s, 0));
    let hu = h as u32;
    let vu = v as u32;
    assert(be_u32_at(s, 8) == 16) by {
        assert(s[8] == 0 && s[9] == 0 && s[10] == 0 && s[11] == 16);
    }
    let d = s.subrange(12, 28);
    assert(be_u32_at(d, 0) == hu) by {
        assert(d[0] == (hu / 0x100_0000) as u8);
        assert(d[1] == ((hu / 0x1_0000) % 256) as u8);
        assert(d[2] == ((hu / 0x100) % 256) as u8);
        assert(d[3] == (hu % 256) as u8);
        assert(hu == (hu / 0x100_0000) * 0x100_0000 + ((hu / 0x1_0000) % 256) * 0x1_0000 + ((hu / 0x100) % 256)
            * 0x100 + hu % 256) by (nonlinear_arith);
    }
    assert(be_u32_at(d, 8) == vu) by {
        assert(d[8] == (vu / 0x100_0000) as u8);
        assert(d[9] == ((vu / 0x1_0000) % 256) as u8);
        assert(d[10] == ((vu / 0x100) % 256) as u8);
        assert(d[11] == (vu % 256) as u8);
        assert(vu == (vu / 0x100_0000) * 0x100_0000 + ((vu / 0x1_0000) % 256) * 0x1_0000 + ((vu / 0x100) % 256)
            * 0x100 + vu % 256) by (nonlinear_arith);
    }
    assert((hu as i32) == h) by (bit_vector)
        requires hu == h as u32;
    assert((vu as i32) == v) by (bit_vector)
        requires vu == v as u32;
}

} // verus!
