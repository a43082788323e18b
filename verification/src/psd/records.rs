//! Layer-and-mask section records: pixel layer records with their channel
//! image data, group section dividers, and the section itself.

use vstd::prelude::*;
use vstd::string::StringSliceAdditionalSpecFns;

use super::writer::{be16, be16_bytes, be32, be32_bytes, bei32, common_bytes, pascal_bytes, pascal_name, write_common};

verus! {

/// An 8-bit RGBA rendering of a pixel layer, positioned on the canvas.
pub struct Rgba8Layer {
    /// Width in pixels.
    pub width: u32,
    /// Height in pixels.
    pub height: u32,
    /// Left edge on the canvas.
    pub offset_x: i32,
    /// Top edge on the canvas.
    pub offset_y: i32,
    /// Interleaved straight-alpha RGBA bytes, row by row.
    pub rgba: Vec<u8>,
}

/// How a layer record is composited: its four-byte blend key and its
/// opacity byte.
#[derive(Debug, Clone, Copy)]
pub struct RecordStyle {
    /// Photoshop blend-mode key, such as `norm`.
    pub blend_key: [u8; 4],
    /// Opacity, `0` transparent to `255` opaque.
    pub opacity: u8,
}

/// Append all of `src` to `buf`.
pub fn append(buf: &mut Vec<u8>, src: &[u8])
    ensures
        final(buf)@ == old(buf)@ + src@,
{
    let ghost start = buf@;
    let mut i: usize = 0;
    while i < src.len()
        invariant
            i <= src@.len(),
            buf@ == start + src@.subrange(0, i as int),
        decreases src@.len() - i,
    {
        buf.push(src[i]);
        i = i + 1;
        assert(buf@ =~= start + src@.subrange(0, i as int));
    }
    assert(src@.subrange(0, src@.len() as int) =~= src@);
}

/// One raw channel: raw compression, then byte `channel` of each of `plane`
/// pixels of `rgba` (zero where missing).
pub open spec fn channel_bytes(rgba: Seq<u8>, plane: nat, channel: int) -> Seq<u8> {
    be16_bytes(0) + Seq::new(
        plane,
        |i: int|
            if i * 4 + channel < rgba.len() {
                rgba[i * 4 + channel]
            } else {
                0u8
            },
    )
}

/// The record of a pixel layer: its bounds (top, left, bottom, right), four
/// channels (R, G, B and alpha, each `2 + plane` bytes long), the shared
/// fields, and its name.
pub open spec fn pixel_record_bytes(
    px_w: u32,
    px_h: u32,
    ox: i32,
    oy: i32,
    style: RecordStyle,
    clipping_mask: bool,
    visible: bool,
    name: Seq<u8>,
) -> Seq<u8> {
    let plane = (px_w * px_h) as u32;
    be32_bytes(oy as u32) + be32_bytes(ox as u32) + be32_bytes((oy + px_h) as i32 as u32) + be32_bytes(
        (ox + px_w) as i32 as u32,
    ) + be16_bytes(4) + be16_bytes(0) + be32_bytes((2 + plane) as u32) + be16_bytes(1) + be32_bytes(
        (2 + plane) as u32,
    ) + be16_bytes(2) + be32_bytes((2 + plane) as u32) + be16_bytes(0xFFFF) + be32_bytes((2 + plane) as u32)
        + common_bytes(style.blend_key@, style.opacity, clipping_mask, visible, name, 0) + pascal_bytes(name)
}

/// The channel image data of a pixel layer: its R, G, B and alpha planes,
/// in that order, each raw.
pub open spec fn channel_data(rgba: Seq<u8>, plane: nat) -> Seq<u8> {
    channel_bytes(rgba, plane, 0) + channel_bytes(rgba, plane, 1) + channel_bytes(rgba, plane, 2) + channel_bytes(
        rgba,
        plane,
        3,
    )
}

/// Byte `j` of `rgba`, zero past its end.
pub open spec fn rgba_or_zero(rgba: Seq<u8>, j: int) -> u8 {
    if 0 <= j < rgba.len() {
        rgba[j]
    } else {
        0u8
    }
}

/// Byte `i` of the `k`-th plane of channel data whose planes each hold
/// `plane` pixels after two bytes of compression tag.
pub open spec fn plane_byte(data: Seq<u8>, plane: int, k: int, i: int) -> u8 {
    data[k * (2 + plane) + 2 + i]
}

/// The RGBA byte of pixel `i` that Photoshop channel `id` names (see
/// [`psd_channel_byte`]).
pub open spec fn channel_value(rgba: Seq<u8>, id: int, i: int) -> u8 {
    rgba_or_zero(rgba, 4 * i + psd_channel_byte(id))
}

/// The id of the `k`-th channel a layer record lists (read big-endian from
/// its channel-info entry, after the 16 bytes of bounds and the count).
pub open spec fn record_channel_id(rec: Seq<u8>, k: int) -> int {
    rec[18 + 6 * k] as int * 0x100 + rec[19 + 6 * k] as int
}

/// Which byte of an RGBA pixel a Photoshop channel id stands for: `0` red,
/// `1` green, `2` blue, `-1` (`0xFFFF`) the transparency mask; `-1` for any
/// other id.
pub open spec fn psd_channel_byte(id: int) -> int {
    if id == 0 {
        0
    } else if id == 1 {
        1
    } else if id == 2 {
        2
    } else if id == 0xFFFF {
        3
    } else {
        -1
    }
}

/// A pixel layer record lists four channels, and the `k`-th plane of its
/// channel data carries, for each pixel, the RGBA byte that the `k`-th
/// listed channel id names; no id is listed twice.
pub proof fn law_pixel_channels_match(
    px_w: u32,
    px_h: u32,
    ox: i32,
    oy: i32,
    style: RecordStyle,
    clipping_mask: bool,
    visible: bool,
    name: Seq<u8>,
    rgba: Seq<u8>,
)
    requires
        px_w * px_h + 2 <= u32::MAX,
    ensures
        ({
            let rec = pixel_record_bytes(px_w, px_h, ox, oy, style, clipping_mask, visible, name);
            let plane = px_w * px_h;
            let data = channel_data(rgba, plane as nat);
            &&& rec[16] == 0 && rec[17] == 4
            &&& forall|k1: int, k2: int|
                0 <= k1 < 4 && 0 <= k2 < 4 && k1 != k2 ==> record_channel_id(rec, k1) != record_channel_id(rec, k2)
            &&& forall|k: int| 0 <= k < 4 ==> 0 <= #[trigger] psd_channel_byte(record_channel_id(rec, k)) < 4
            &&& forall|k: int, i: int|
                0 <= k < 4 && 0 <= i < plane ==> #[trigger] plane_byte(data, plane, k, i) == channel_value(
                    rgba,
                    record_channel_id(rec, k),
                    i,
                )
        }),
{
    let rec = pixel_record_bytes(px_w, px_h, ox, oy, style, clipping_mask, visible, name);
    let plane = px_w * px_h;
    let len = (2 + plane) as u32;
    let bounds = be32_bytes(oy as u32) + be32_bytes(ox as u32) + be32_bytes((oy + px_h) as i32 as u32) + be32_bytes(
        (ox + px_w) as i32 as u32,
    );
    let info = be16_bytes(4) + be16_bytes(0) + be32_bytes(len) + be16_bytes(1) + be32_bytes(len) + be16_bytes(2)
        + be32_bytes(len) + be16_bytes(0xFFFF) + be32_bytes(len);
    let head = bounds + info;
    assert(bounds.len() == 16);
    assert(info.len() == 26);
    assert(forall|j: int| 0 <= j < 42 ==> rec[j] == head[j]);
    assert(info =~= seq![
        0u8, 4u8,
        0u8, 0u8, be32_bytes(len)[0], be32_bytes(len)[1], be32_bytes(len)[2], be32_bytes(len)[3],
        0u8, 1u8, be32_bytes(len)[0], be32_bytes(len)[1], be32_bytes(len)[2], be32_bytes(len)[3],
        0u8, 2u8, be32_bytes(len)[0], be32_bytes(len)[1], be32_bytes(len)[2], be32_bytes(len)[3],
        0xFFu8, 0xFFu8, be32_bytes(len)[0], be32_bytes(len)[1], be32_bytes(len)[2], be32_bytes(len)[3]
    ]);
    assert(record_channel_id(rec, 0) == 0);
    assert(record_channel_id(rec, 1) == 1);
    assert(record_channel_id(rec, 2) == 2);
    assert(record_channel_id(rec, 3) == 0xFFFF);
    let c0 = channel_bytes(rgba, plane as nat, 0);
    let c1 = channel_bytes(rgba, plane as nat, 1);
    let c2 = channel_bytes(rgba, plane as nat, 2);
    let c3 = channel_bytes(rgba, plane as nat, 3);
    let data = channel_data(rgba, plane as nat);
    assert forall|k: int, i: int|
        0 <= k < 4 && 0 <= i < plane implies #[trigger] plane_byte(data, plane, k, i) == channel_value(
        rgba,
        record_channel_id(rec, k),
        i,
    ) by {
        assert(c0.len() == 2 + plane && c1.len() == 2 + plane && c2.len() == 2 + plane && c3.len() == 2 + plane);
        if k == 0 {
            assert(data[2 + i] == c0[2 + i]);
        } else if k == 1 {
            assert(data[(2 + plane) + 2 + i] == c1[2 + i]);
        } else if k == 2 {
            assert(data[2 * (2 + plane) + 2 + i] == c2[2 + i]);
        } else {
            assert(data[3 * (2 + plane) + 2 + i] == c3[2 + i]);
        }
    }
}

/// Build the record and the channel image data for an RGBA pixel layer.
pub fn pixel_record(px: &Rgba8Layer, style: RecordStyle, clipping_mask: bool, visible: bool, name: &str) -> (r: (
    Vec<u8>,
    Vec<u8>,
))
    requires
        px.width <= i32::MAX,
        px.height <= i32::MAX,
        px.width * px.height + 2 <= u32::MAX,
        4 * (px.width * px.height) + 3 <= usize::MAX,
        i32::MIN <= px.offset_y + px.height <= i32::MAX,
        i32::MIN <= px.offset_x + px.width <= i32::MAX,
    ensures
        r.0@ == pixel_record_bytes(
            px.width,
            px.height,
            px.offset_x,
            px.offset_y,
            style,
            clipping_mask,
            visible,
            name.spec_bytes(),
        ),
        r.1@ == channel_data(px.rgba@, (px.width * px.height) as nat),
        r.0@[16] == 0 && r.0@[17] == 4,
        forall|k: int| 0 <= k < 4 ==> 0 <= #[trigger] psd_channel_byte(record_channel_id(r.0@, k)) < 4,
        forall|k: int, i: int|
            0 <= k < 4 && 0 <= i < px.width * px.height ==> #[trigger] plane_byte(
                r.1@,
                px.width * px.height,
                k,
                i,
            ) == channel_value(px.rgba@, record_channel_id(r.0@, k), i),
{
    let w = px.width;
    let h = px.height;
    let plane: u32 = w * h;
    assert(h as i32 == h && w as i32 == w);
    let (top, left) = (px.offset_y, px.offset_x);
    let (bottom, right) = (top + h as i32, left + w as i32);
    let channel_len: u32 = 2 + plane;
    let mut record: Vec<u8> = Vec::new();
    bei32(&mut record, top);
    bei32(&mut record, left);
    bei32(&mut record, bottom);
    bei32(&mut record, right);
    be16(&mut record, 4);
    be16(&mut record, 0);
    be32(&mut record, channel_len);
    be16(&mut record, 1);
    be32(&mut record, channel_len);
    be16(&mut record, 2);
    be32(&mut record, channel_len);
    be16(&mut record, 0xFFFF);
    be32(&mut record, channel_len);
    let empty: [u8; 0] = [];
    write_common(&mut record, &style.blend_key, style.opacity, clipping_mask, visible, name, &empty);
    pascal_name(&mut record, name);
    proof {
        assert(h as i32 == h && w as i32 == w);
        assert(record@ =~= pixel_record_bytes(
            w,
            h,
            px.offset_x,
            px.offset_y,
            style,
            clipping_mask,
            visible,
            name.spec_bytes(),
        ));
    }
    let mut data: Vec<u8> = Vec::new();
    let ghost pl = plane as nat;
    let mut channel: usize = 0;
    while channel < 4
        invariant
            channel <= 4,
            plane == w * h,
            pl == plane,
            4 * plane + 3 <= usize::MAX,
            data@ == (if channel == 0 {
                Seq::<u8>::empty()
            } else if channel == 1 {
                channel_bytes(px.rgba@, pl, 0)
            } else if channel == 2 {
                channel_bytes(px.rgba@, pl, 0) + channel_bytes(px.rgba@, pl, 1)
            } else if channel == 3 {
                channel_bytes(px.rgba@, pl, 0) + channel_bytes(px.rgba@, pl, 1) + channel_bytes(px.rgba@, pl, 2)
            } else {
                channel_bytes(px.rgba@, pl, 0) + channel_bytes(px.rgba@, pl, 1) + channel_bytes(px.rgba@, pl, 2)
                    + channel_bytes(px.rgba@, pl, 3)
            }),
        decreases 4 - channel,
    {
        let ghost before = data@;
        be16(&mut data, 0);
        let mut i: usize = 0;
        while i < plane as usize
            invariant
                channel < 4,
                plane == w * h,
                4 * plane + 3 <= usize::MAX,
                i <= plane,
                data@ == before + be16_bytes(0) + Seq::new(
                    i as nat,
                    |k: int|
                        if k * 4 + channel < px.rgba@.len() {
                            px.rgba@[k * 4 + channel]
                        } else {
                            0u8
                        },
                ),
            decreases plane - i,
        {
            proof {
                assert(i * 4 + channel <= 4 * plane + 3) by (nonlinear_arith)
                    requires i < plane, channel < 4;
            }
            let b: u8 = if i * 4 + channel < px.rgba.len() { px.rgba[i * 4 + channel] } else { 0 };
            data.push(b);
            i = i + 1;
            assert(data@ =~= before + be16_bytes(0) + Seq::new(
                i as nat,
                |k: int|
                    if k * 4 + channel < px.rgba@.len() {
                        px.rgba@[k * 4 + channel]
                    } else {
                        0u8
                    },
            ));
        }
        proof {
            assert(data@ =~= before + channel_bytes(px.rgba@, pl, channel as int));
        }
        channel = channel + 1;
    }
    proof {
        law_pixel_channels_match(
            px.width,
            px.height,
            px.offset_x,
            px.offset_y,
            style,
            clipping_mask,
            visible,
            name.spec_bytes(),
            px.rgba@,
        );
        let plane = px.width * px.height;
        assert(data@ == channel_data(px.rgba@, plane as nat));
        assert forall|k: int, i: int| 0 <= k < 4 && 0 <= i < plane implies #[trigger] plane_byte(
            data@,
            plane,
            k,
            i,
        ) == channel_value(px.rgba@, record_channel_id(record@, k), i) by {
            assert(plane_byte(channel_data(px.rgba@, plane as nat), plane, k, i) == channel_value(
                px.rgba@,
                record_channel_id(record@, k),
                i,
            ));
        }
    }
    (record, data)
}

/// The `lsct` section-divider information of type `divider_type`
/// (`1` open folder, `3` bounding section).
pub open spec fn lsct_bytes(divider_type: i32) -> Seq<u8> {
    seq![0x38u8, 0x42u8, 0x49u8, 0x4Du8, 0x6Cu8, 0x73u8, 0x63u8, 0x74u8] + be32_bytes(4) + be32_bytes(
        divider_type as u32,
    )
}

/// A section-divider record: an empty rectangle, no channels, the shared
/// fields, the name, then the `lsct` information.
pub open spec fn divider_record_bytes(
    style: RecordStyle,
    clipping_mask: bool,
    visible: bool,
    divider_type: i32,
    name: Seq<u8>,
) -> Seq<u8> {
    be32_bytes(0) + be32_bytes(0) + be32_bytes(0) + be32_bytes(0) + be16_bytes(0) + common_bytes(
        style.blend_key@,
        style.opacity,
        clipping_mask,
        visible,
        name,
        16,
    ) + pascal_bytes(name) + lsct_bytes(divider_type)
}

/// Build a section-divider record (no channels) with an `lsct` divider
/// type: `1` opens a folder, `3` is the bounding section.
pub fn divider_record(style: RecordStyle, clipping_mask: bool, visible: bool, divider_type: i32, name: &str) -> (r:
    Vec<u8>)
    ensures
        r@ == divider_record_bytes(style, clipping_mask, visible, divider_type, name.spec_bytes()),
{
    let mut lsct: Vec<u8> = Vec::new();
    lsct.push(0x38);
    lsct.push(0x42);
    lsct.push(0x49);
    lsct.push(0x4D);
    lsct.push(0x6C);
    lsct.push(0x73);
    lsct.push(0x63);
    lsct.push(0x74);
    be32(&mut lsct, 4);
    bei32(&mut lsct, divider_type);
    assert(lsct@ =~= lsct_bytes(divider_type));
    let mut record: Vec<u8> = Vec::new();
    bei32(&mut record, 0);
    bei32(&mut record, 0);
    bei32(&mut record, 0);
    bei32(&mut record, 0);
    be16(&mut record, 0);
    write_common(&mut record, &style.blend_key, style.opacity, clipping_mask, visible, name, lsct.as_slice());
    pascal_name(&mut record, name);
    append(&mut record, lsct.as_slice());
    assert(record@ =~= divider_record_bytes(style, clipping_mask, visible, divider_type, name.spec_bytes()));
    record
}

/// The byte sequence held by each vector of `parts`.
pub open spec fn views(parts: Seq<Vec<u8>>) -> Seq<Seq<u8>> {
    parts.map_values(|v: Vec<u8>| v@)
}

/// The byte sequences of `parts`, concatenated.
pub open spec fn joined(parts: Seq<Vec<u8>>) -> Seq<u8> {
    views(parts).flatten()
}

/// Push `part` onto `parts`.
pub fn push_part(parts: &mut Vec<Vec<u8>>, part: Vec<u8>)
    ensures
        views(final(parts)@) == views(old(parts)@).push(part@),
{
    let ghost p = part@;
    parts.push(part);
    assert(views(parts@) =~= views(old(parts)@).push(p));
}

/// The layer-and-mask information section for the records and channel data
/// given (in file order): a zero length when there are none; otherwise the
/// section length, the layer-info length, the record count, the records,
/// the channel data, and an empty global layer mask.
pub open spec fn layer_section_bytes(records: Seq<Seq<u8>>, channels: Seq<Seq<u8>>) -> Seq<u8> {
    if records.len() == 0 {
        be32_bytes(0)
    } else {
        let body = be16_bytes(records.len() as u16) + records.flatten() + channels.flatten();
        be32_bytes((4 + body.len() + 4) as u32) + be32_bytes(body.len() as u32) + body + be32_bytes(0)
    }
}

/// Append every part of `parts` to `buf`, in order.
fn append_all(buf: &mut Vec<u8>, parts: &Vec<Vec<u8>>)
    requires
        old(buf)@.len() + joined(parts@).len() <= usize::MAX,
    ensures
        final(buf)@ == old(buf)@ + joined(parts@),
{
    let ghost start = buf@;
    let mut i: usize = 0;
    while i < parts.len()
        invariant
            i <= parts@.len(),
            buf@ == start + joined(parts@.subrange(0, i as int)),
        decreases parts@.len() - i,
    {
        let ghost pre = parts@.subrange(0, i as int);
        append(buf, parts[i].as_slice());
        proof {
            assert(parts@.subrange(0, i + 1) =~= pre.push(parts@[i as int]));
            assert(pre.push(parts@[i as int]).map_values(|v: Vec<u8>| v@) =~= pre.map_values(|v: Vec<u8>| v@).push(
                parts@[i as int]@,
            ));
            pre.map_values(|v: Vec<u8>| v@).lemma_flatten_push(parts@[i as int]@);
        }
        i = i + 1;
    }
    assert(parts@.subrange(0, parts@.len() as int) =~= parts@);
}

/// Append the layer-and-mask information section holding the given
/// records and channel data (in file order).
pub fn write_section(buf: &mut Vec<u8>, records: &Vec<Vec<u8>>, channels: &Vec<Vec<u8>>)
    requires
        old(buf)@.len() + joined(records@).len() + joined(channels@).len() + 16 <= usize::MAX,
    ensures
        final(buf)@ == old(buf)@ + layer_section_bytes(views(records@), views(channels@)),
{
    if records.len() == 0 {
        be32(buf, 0);
        return;
    }
    let mut body: Vec<u8> = Vec::new();
    be16(&mut body, records.len() as u16);
    append_all(&mut body, records);
    append_all(&mut body, channels);
    let section_len = 4 + body.len() + 4;
    be32(buf, section_len as u32);
    be32(buf, body.len() as u32);
    append(buf, body.as_slice());
    be32(buf, 0);
    proof {
        assert(buf@ =~= old(buf)@ + layer_section_bytes(views(records@), views(channels@)));
    }
}

} // verus!
