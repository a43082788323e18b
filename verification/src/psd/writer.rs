//! Byte-level PSD writing: big-endian fields, Pascal names, the file
//! header, the merged image data and the layer records.

use vstd::prelude::*;

use vstd::string::StringSliceAdditionalSpecFns;

verus! {

/// The largest width or height a PSD file allows.
pub const PSD_MAX_DIM: u32 = 30_000;

/// The big-endian bytes of `v`.
pub open spec fn be16_bytes(v: u16) -> Seq<u8> {
    seq![(v / 0x100) as u8, (v % 0x100) as u8]
}

/// The big-endian bytes of `v`.
pub open spec fn be32_bytes(v: u32) -> Seq<u8> {
    seq![(v / 0x100_0000) as u8, ((v / 0x1_0000) % 0x100) as u8, ((v / 0x100) % 0x100) as u8, (v % 0x100) as u8]
}

/// Append `v` big-endian.
pub fn be16(buf: &mut Vec<u8>, v: u16)
    ensures
        final(buf)@ == old(buf)@ + be16_bytes(v),
{
    buf.push((v / 0x100) as u8);
    buf.push((v % 0x100) as u8);
    assert(buf@ =~= old(buf)@ + be16_bytes(v));
}

/// Append `v` big-endian.
pub fn be32(buf: &mut Vec<u8>, v: u32)
    ensures
        final(buf)@ == old(buf)@ + be32_bytes(v),
{
    buf.push((v / 0x100_0000) as u8);
    buf.push(((v / 0x1_0000) % 0x100) as u8);
    buf.push(((v / 0x100) % 0x100) as u8);
    buf.push((v % 0x100) as u8);
    assert(buf@ =~= old(buf)@ + be32_bytes(v));
}

/// Append `v` big-endian, in two's complement.
pub fn bei32(buf: &mut Vec<u8>, v: i32)
    ensures
        final(buf)@ == old(buf)@ + be32_bytes(v as u32),
{
    be32(buf, v as u32);
}

/// The padded length of a Pascal name of `len` bytes, without its length
/// byte: the name plus the zeros that make `1 + len` a multiple of 4.
pub open spec fn padded(len: nat) -> nat {
    len + ((4 - ((len + 1) % 4)) % 4) as nat
}

/// The length of `name` as stored in a Pascal name: at most 255 bytes.
pub open spec fn stored_len(name: Seq<u8>) -> nat {
    if name.len() < 255 {
        name.len()
    } else {
        255
    }
}

/// A Pascal name: the stored length, the first (at most 255) bytes of the
/// name, then zeros so that the whole is a multiple of 4 bytes long.
pub open spec fn pascal_bytes(name: Seq<u8>) -> Seq<u8> {
    let len = stored_len(name);
    seq![len as u8] + name.subrange(0, len as int) + Seq::new((padded(len) - len) as nat, |i: int| 0u8)
}

/// The padded byte length of a Pascal name (excluding the leading length
/// byte).
pub fn name_padded_len(name: &str) -> (r: usize)
    ensures
        r == padded(stored_len(name.spec_bytes())),
{
    let n = name.as_bytes().len();
    let len = if n < 255 { n } else { 255 };
    len + (4 - ((len + 1) % 4)) % 4
}

/// Append `name` as a Pascal name padded so `1 + len` is a multiple of 4.
pub fn pascal_name(buf: &mut Vec<u8>, name: &str)
    ensures
        final(buf)@ == old(buf)@ + pascal_bytes(name.spec_bytes()),
{
    let bytes = name.as_bytes();
    let len = if bytes.len() < 255 { bytes.len() } else { 255 };
    let ghost start = buf@;
    buf.push(len as u8);
    let mut i: usize = 0;
    while i < len
        invariant
            len <= bytes@.len(),
            len == stored_len(bytes@),
            bytes@ == name.spec_bytes(),
            i <= len,
            buf@ == start + seq![len as u8] + bytes@.subrange(0, i as int),
        decreases len - i,
    {
        buf.push(bytes[i]);
        i = i + 1;
        assert(buf@ =~= start + seq![len as u8] + bytes@.subrange(0, i as int));
    }
    let pad = (4 - ((len + 1) % 4)) % 4;
    let mut j: usize = 0;
    while j < pad
        invariant
            len <= bytes@.len(),
            len == stored_len(bytes@),
            bytes@ == name.spec_bytes(),
            pad == (4 - ((len + 1) % 4)) % 4,
            j <= pad,
            buf@ == start + seq![len as u8] + bytes@.subrange(0, len as int) + Seq::new(j as nat, |i: int| 0u8),
        decreases pad - j,
    {
        buf.push(0);
        j = j + 1;
        assert(buf@ =~= start + seq![len as u8] + bytes@.subrange(0, len as int) + Seq::new(j as nat, |i: int| 0u8));
    }
    assert(buf@ =~= start + pascal_bytes(name.spec_bytes()));
}

/// The 26-byte PSD file header: signature, version 1, six reserved zero
/// bytes, 4 channels, height, width, depth 8 and the RGB colour mode.
pub open spec fn file_header_bytes(width: u32, height: u32) -> Seq<u8> {
    seq![0x38u8, 0x42u8, 0x50u8, 0x53u8] + be16_bytes(1) + seq![0u8, 0u8, 0u8, 0u8, 0u8, 0u8] + be16_bytes(4)
        + be32_bytes(height) + be32_bytes(width) + be16_bytes(8) + be16_bytes(3)
}

/// 26-byte PSD file header (version 1, 8-bit, RGB colour mode, RGBA
/// channels).
pub fn file_header(width: u32, height: u32) -> (r: Vec<u8>)
    ensures
        r@ == file_header_bytes(width, height),
        r@.len() == 26,
{
    let mut h: Vec<u8> = Vec::new();
    h.push(0x38);
    h.push(0x42);
    h.push(0x50);
    h.push(0x53);
    be16(&mut h, 1);
    let mut i: usize = 0;
    while i < 6
        invariant
            i <= 6,
            h@ == seq![0x38u8, 0x42u8, 0x50u8, 0x53u8] + be16_bytes(1) + Seq::new(i as nat, |k: int| 0u8),
        decreases 6 - i,
    {
        h.push(0);
        i = i + 1;
        assert(h@ =~= seq![0x38u8, 0x42u8, 0x50u8, 0x53u8] + be16_bytes(1) + Seq::new(i as nat, |k: int| 0u8));
    }
    assert(Seq::new(6, |k: int| 0u8) =~= seq![0u8, 0u8, 0u8, 0u8, 0u8, 0u8]);
    let channels: u16 = 4;
    let depth: u16 = 8;
    let rgb_mode: u16 = 3;
    be16(&mut h, channels);
    be32(&mut h, height);
    be32(&mut h, width);
    be16(&mut h, depth);
    be16(&mut h, rgb_mode);
    assert(h@ =~= file_header_bytes(width, height));
    h
}

/// The planar image data of `px` pixels of interleaved RGBA `merged`: all
/// red bytes, then green, blue and alpha, a missing byte read as zero.
pub open spec fn planar(merged: Seq<u8>, px: nat) -> Seq<u8> {
    Seq::new(
        4 * px,
        |k: int|
            {
                let c = k / px as int;
                let i = k % px as int;
                if i * 4 + c < merged.len() {
                    merged[i * 4 + c]
                } else {
                    0u8
                }
            },
    )
}

/// Append the image-data section: raw compression, then planar R, G, B, A
/// of the merged image.
pub fn write_image_data(buf: &mut Vec<u8>, merged: &[u8], width: u32, height: u32)
    requires
        width * height <= u32::MAX,
        4 * (width * height) + 3 <= usize::MAX,
    ensures
        final(buf)@ == old(buf)@ + be16_bytes(0) + planar(merged@, (width * height) as nat),
{
    be16(buf, 0);
    let px: usize = (width * height) as usize;
    let ghost start = buf@;
    let ghost all = planar(merged@, px as nat);
    let mut channel: usize = 0;
    while channel < 4
        invariant
            channel <= 4,
            px == width * height,
            4 * px + 3 <= usize::MAX,
            all == planar(merged@, px as nat),
            buf@.len() == start.len() + channel * px,
            buf@.subrange(0, start.len() as int) == start,
            forall|k: int| 0 <= k < channel * px ==> buf@[start.len() + k] == all[k],
        decreases 4 - channel,
    {
        let mut i: usize = 0;
        while i < px
            invariant
                channel < 4,
                px == width * height,
                4 * px + 3 <= usize::MAX,
                all == planar(merged@, px as nat),
                i <= px,
                buf@.len() == start.len() + channel * px + i,
                buf@.subrange(0, start.len() as int) == start,
                forall|k: int| 0 <= k < channel * px + i ==> buf@[start.len() + k] == all[k],
            decreases px - i,
        {
            proof {
                assert(i * 4 + channel <= 4 * px + 3) by (nonlinear_arith)
                    requires i < px, channel < 4;
            }
            let b: u8 = if i * 4 + channel < merged.len() { merged[i * 4 + channel] } else { 0 };
            proof {
                let k = channel * px + i;
                assert(k < 4 * px) by (nonlinear_arith)
                    requires k == channel * px + i, i < px, channel < 4;
                assert(k / px as int == channel as int && k % px as int == i as int) by (nonlinear_arith)
                    requires k == channel * px + i, i < px, px > 0;
                assert(all[k] == b);
            }
            buf.push(b);
            proof {
                assert(buf@.subrange(0, start.len() as int) =~= start);
            }
            i = i + 1;
        }
        proof {
            assert((channel + 1) * px == channel * px + px) by (nonlinear_arith);
        }
        channel = channel + 1;
    }
    proof {
        assert(buf@ =~= start + all);
    }
}

/// The fields every layer record shares: the `8BIM` signature, the blend
/// key, opacity, the clipping byte (`0` clips to the layer below, `1` is a
/// base layer), the visibility flags, a filler byte, and the extra-data
/// length followed by empty mask and blending-range sections.
pub open spec fn common_bytes(
    blend_key: Seq<u8>,
    opacity: u8,
    clipping_mask: bool,
    visible: bool,
    name: Seq<u8>,
    trailer_len: nat,
) -> Seq<u8> {
    seq![0x38u8, 0x42u8, 0x49u8, 0x4Du8] + blend_key + seq![
        opacity,
        if clipping_mask { 0u8 } else { 1u8 },
        if visible { 2u8 } else { 0u8 },
        0u8,
    ] + be32_bytes((4 + 4 + 1 + padded(stored_len(name)) + trailer_len) as u32) + be32_bytes(0) + be32_bytes(0)
}

/// Write the fields shared by every layer record. `name` is the Pascal
/// name the caller appends next; `trailer` is any additional layer
/// information appended after the name.
pub fn write_common(
    record: &mut Vec<u8>,
    blend_key: &[u8; 4],
    opacity: u8,
    clipping_mask: bool,
    visible: bool,
    name: &str,
    trailer: &[u8],
)
    requires
        trailer@.len() <= 0x1000_0000,
    ensures
        final(record)@ == old(record)@ + common_bytes(
            blend_key@,
            opacity,
            clipping_mask,
            visible,
            name.spec_bytes(),
            trailer@.len(),
        ),
{
    let ghost start = record@;
    record.push(0x38);
    record.push(0x42);
    record.push(0x49);
    record.push(0x4D);
    record.push(blend_key[0]);
    record.push(blend_key[1]);
    record.push(blend_key[2]);
    record.push(blend_key[3]);
    let clipping_byte: u8 = if clipping_mask { 0 } else { 1 };
    let flags: u8 = if visible { 2 } else { 0 };
    record.push(opacity);
    record.push(clipping_byte);
    record.push(flags);
    record.push(0);
    let extra_len = 9 + name_padded_len(name) + trailer.len();
    be32(record, extra_len as u32);
    let empty_section: u32 = 0;
    be32(record, empty_section);
    be32(record, empty_section);
    proof {
        assert(blend_key@ =~= seq![blend_key@[0], blend_key@[1], blend_key@[2], blend_key@[3]]);
        assert(record@ =~= start + common_bytes(
            blend_key@,
            opacity,
            clipping_mask,
            visible,
            name.spec_bytes(),
            trailer@.len(),
        ));
    }
}

/// Stateless writer that serialises documents to PSD bytes.
pub struct PsdWriter;

} // verus!
