//! The BSATN argument products the client sends with its reducer calls.
use vstd::bytes::*;
use vstd::prelude::*;
use vstd::utf8::*;

use crate::bsatn::{write_bytes, write_str, write_u32, write_u64, write_u8};
use crate::decode::ElementData;
use crate::point::{encode_points, spec_encode_points};
use crate::types::{kind_of_tag, kind_tag, lemma_kind_tag_round_trip};

verus! {

/// The arguments of `create_element` for an element, fields concatenated in
/// the reducer's parameter order: room, kind tag, x, y, width, height, stroke
/// and fill colours, stroke width, opacity, font size, the text (length
/// prefixed) and the compactly encoded points (length prefixed).
pub open spec fn spec_create_element_args(e: ElementData) -> Seq<u8> {
    let pts = spec_encode_points(e.points@);
    let text = encode_utf8(e.text_content@);
    spec_u64_to_le_bytes(e.room_id) + seq![kind_tag(e.kind)] + spec_u64_to_le_bytes(e.x)
        + spec_u64_to_le_bytes(e.y) + spec_u64_to_le_bytes(e.width) + spec_u64_to_le_bytes(
        e.height,
    ) + spec_u32_to_le_bytes(e.stroke_color) + spec_u32_to_le_bytes(e.fill_color)
        + spec_u32_to_le_bytes(e.stroke_width) + spec_u32_to_le_bytes(e.opacity)
        + spec_u32_to_le_bytes(e.font_size) + spec_u32_to_le_bytes(text.len() as u32) + text
        + spec_u32_to_le_bytes(pts.len() as u32) + pts
}

/// The BSATN arguments of the `create_element` reducer for a locally created
/// element (the product encoding: each field's serialization in turn).
pub fn create_element_args(elem: &ElementData) -> (args: Vec<u8>)
    requires
        4 + elem.points@.len() * 16 <= u32::MAX,
        4 + elem.points@.len() * 16 <= isize::MAX,
        encode_utf8(elem.text_content@).len() <= u32::MAX,
    ensures
        args@ == spec_create_element_args(*elem),
{
    let points_bytes = encode_points(elem.points.as_slice());
    proof {
        vstd::bytes::lemma_auto_spec_u32_to_from_le_bytes();
        crate::point::lemma_points_body_prefix(elem.points@, 0);
    }
    let mut args: Vec<u8> = Vec::new();
    write_u64(&mut args, elem.room_id);
    write_u8(&mut args, elem.kind.tag());
    write_u64(&mut args, elem.x);
    write_u64(&mut args, elem.y);
    write_u64(&mut args, elem.width);
    write_u64(&mut args, elem.height);
    write_u32(&mut args, elem.stroke_color);
    write_u32(&mut args, elem.fill_color);
    write_u32(&mut args, elem.stroke_width);
    write_u32(&mut args, elem.opacity);
    write_u32(&mut args, elem.font_size);
    let t = write_str(&mut args, elem.text_content.as_str());
    let p = write_bytes(&mut args, points_bytes.as_slice());
    assert(args@ =~= spec_create_element_args(*elem));
    args
}

/// The BSATN arguments of a reducer that takes one `u64` (the element of
/// `delete_element`, the room of `undo` and `redo`): its eight bytes.
pub fn id_args(id: u64) -> (args: Vec<u8>)
    ensures
        args@ == spec_u64_to_le_bytes(id),
{
    let mut args: Vec<u8> = Vec::new();
    write_u64(&mut args, id);
    assert(args@ =~= spec_u64_to_le_bytes(id));
    args
}

/// Read back field by field, in the reducer's parameter order, the
/// `create_element` arguments give the element back: the room at offset 0, a
/// tag naming the kind at 8, then x, y, width and height as `u64`s at 9, 17,
/// 25 and 33, the stroke and fill colours, stroke width, opacity and font
/// size as `u32`s at 41, 45, 49, 53 and 57, then the text's UTF-8 length and
/// bytes, and the encoded points' length and bytes.
pub proof fn law_create_element_args_read_back(e: ElementData)
    requires
        encode_utf8(e.text_content@).len() <= u32::MAX,
        spec_encode_points(e.points@).len() <= u32::MAX,
    ensures
        ({
            let a = spec_create_element_args(e);
            let text = encode_utf8(e.text_content@);
            let pts = spec_encode_points(e.points@);
            let tl = text.len() as int;
            &&& spec_u64_from_le_bytes(a.subrange(0, 8)) == e.room_id
            &&& kind_of_tag(a[8]) == Some(e.kind)
            &&& spec_u64_from_le_bytes(a.subrange(9, 17)) == e.x
            &&& spec_u64_from_le_bytes(a.subrange(17, 25)) == e.y
            &&& spec_u64_from_le_bytes(a.subrange(25, 33)) == e.width
            &&& spec_u64_from_le_bytes(a.subrange(33, 41)) == e.height
            &&& spec_u32_from_le_bytes(a.subrange(41, 45)) == e.stroke_color
            &&& spec_u32_from_le_bytes(a.subrange(45, 49)) == e.fill_color
            &&& spec_u32_from_le_bytes(a.subrange(49, 53)) == e.stroke_width
            &&& spec_u32_from_le_bytes(a.subrange(53, 57)) == e.opacity
            &&& spec_u32_from_le_bytes(a.subrange(57, 61)) == e.font_size
            &&& spec_u32_from_le_bytes(a.subrange(61, 65)) == tl
            &&& a.subrange(65, 65 + tl) == text
            &&& spec_u32_from_le_bytes(a.subrange(65 + tl, 69 + tl)) == pts.len()
            &&& a.subrange(69 + tl, a.len() as int) == pts
        }),
{
    vstd::bytes::lemma_auto_spec_u64_to_from_le_bytes();
    vstd::bytes::lemma_auto_spec_u32_to_from_le_bytes();
    lemma_kind_tag_round_trip(e.kind);
    let a = spec_create_element_args(e);
    let text = encode_utf8(e.text_content@);
    let pts = spec_encode_points(e.points@);
    let tl = text.len() as int;
    let u8s = |v: u64| spec_u64_to_le_bytes(v);
    let u4s = |v: u32| spec_u32_to_le_bytes(v);
    assert(a.subrange(0, 8) =~= u8s(e.room_id));
    assert(a[8] == kind_tag(e.kind));
    assert(a.subrange(9, 17) =~= u8s(e.x));
    assert(a.subrange(17, 25) =~= u8s(e.y));
    assert(a.subrange(25, 33) =~= u8s(e.width));
    assert(a.subrange(33, 41) =~= u8s(e.height));
    assert(a.subrange(41, 45) =~= u4s(e.stroke_color));
    assert(a.subrange(45, 49) =~= u4s(e.fill_color));
    assert(a.subrange(49, 53) =~= u4s(e.stroke_width));
    assert(a.subrange(53, 57) =~= u4s(e.opacity));
    assert(a.subrange(57, 61) =~= u4s(e.font_size));
    assert(a.subrange(61, 65) =~= u4s(tl as u32));
    assert(a.subrange(65, 65 + tl) =~= text);
    assert(a.subrange(65 + tl, 69 + tl) =~= u4s(pts.len() as u32));
    assert(a.subrange(69 + tl, a.len() as int) =~= pts);
}

} // verus!
