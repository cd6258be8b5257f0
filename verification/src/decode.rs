//! Decoding the element and cursor rows that SpacetimeDB sends, each row a
//! BSATN product whose fields come in the order of the server's table.
use vstd::prelude::*;
use vstd::string::*;
use vstd::utf8::*;

use crate::bsatn::{
    bool_error, bytes_error, field_error, field_message, le_u32, le_u64, read_bool,
    read_bytes, read_i32, read_identity, read_string, read_u32, read_u64, read_u8, short_text,
    string_error, unknown_kind_tag, unknown_kind_text,
};
use crate::color::hex_byte;
use crate::point::{decode_points, spec_decode_points, Point, PointsError};
use crate::types::{kind_of_tag, ElementKind};

verus! {

/// Client-side representation of an element (mirrors the server's element
/// table). Coordinates, sizes and the rotation are IEEE-754 double bits;
/// stroke width, opacity and font size are IEEE-754 single bits.
#[derive(Clone, Debug)]
pub struct ElementData {
    pub id: u64,
    pub room_id: u64,
    pub kind: ElementKind,
    pub x: u64,
    pub y: u64,
    pub width: u64,
    pub height: u64,
    pub rotation: u64,
    pub points: Vec<Point>,
    pub stroke_color: u32,
    pub fill_color: u32,
    pub stroke_width: u32,
    pub opacity: u32,
    pub font_size: u32,
    pub text_content: String,
    pub z_index: i32,
}

/// Client-side cursor representation; the position as IEEE-754 double bits.
#[derive(Clone, Debug)]
pub struct CursorData {
    pub x: u64,
    pub y: u64,
    pub name: String,
    pub color: u32,
}

/// The mathematical value of a client element.
pub struct ElementDataView {
    pub id: u64,
    pub room_id: u64,
    pub kind: ElementKind,
    pub x: u64,
    pub y: u64,
    pub width: u64,
    pub height: u64,
    pub rotation: u64,
    pub points: Seq<Point>,
    pub stroke_color: u32,
    pub fill_color: u32,
    pub stroke_width: u32,
    pub opacity: u32,
    pub font_size: u32,
    pub text_content: Seq<char>,
    pub z_index: i32,
}

impl View for ElementData {
    type V = ElementDataView;

    open spec fn view(&self) -> ElementDataView {
        ElementDataView {
            id: self.id,
            room_id: self.room_id,
            kind: self.kind,
            x: self.x,
            y: self.y,
            width: self.width,
            height: self.height,
            rotation: self.rotation,
            points: self.points@,
            stroke_color: self.stroke_color,
            fill_color: self.fill_color,
            stroke_width: self.stroke_width,
            opacity: self.opacity,
            font_size: self.font_size,
            text_content: self.text_content@,
            z_index: self.z_index,
        }
    }
}

/// The mathematical value of a client cursor.
pub struct CursorDataView {
    pub x: u64,
    pub y: u64,
    pub name: Seq<char>,
    pub color: u32,
}

impl View for CursorData {
    type V = CursorDataView;

    open spec fn view(&self) -> CursorDataView {
        CursorDataView { x: self.x, y: self.y, name: self.name@, color: self.color }
    }
}

/// The lower-case hexadecimal text of an identity given by its little-endian
/// bytes: the bytes from most to least significant, two digits each.
pub open spec fn spec_identity_hex(le: Seq<u8>) -> Seq<char>
    decreases le.len(),
{
    if le.len() == 0 {
        Seq::empty()
    } else {
        hex_byte(le.last() as nat) + spec_identity_hex(le.drop_last())
    }
}

/// `Identity::to_hex` of the identity with these little-endian bytes
/// (`Identity::from_byte_array`), as a `String`.
#[verifier::external_body]
pub(crate) fn identity_hex(le_bytes: &[u8; 32]) -> (s: String)
    ensures
        s@ == spec_identity_hex(le_bytes@),
{
    spacetimedb_lib::Identity::from_byte_array(*le_bytes).to_hex().to_string()
}

/// The bytes of `b` from offset `off` on.
pub open spec fn from(b: Seq<u8>, off: int) -> Seq<u8> {
    b.subrange(off, b.len() as int)
}

/// Offsets in an element row: the element's fixed part ends at 57, where the
/// points' length prefix starts; `after_points` is where the stroke colour
/// starts; `after_text` is where the z-index starts.
pub open spec fn points_len(b: Seq<u8>) -> int {
    le_u32(from(b, 57)) as int
}

pub open spec fn after_points(b: Seq<u8>) -> int {
    61 + points_len(b)
}

pub open spec fn text_len(b: Seq<u8>) -> int {
    le_u32(from(b, after_points(b) + 20)) as int
}

pub open spec fn after_text(b: Seq<u8>) -> int {
    after_points(b) + 24 + text_len(b)
}

/// The bytes of the stored points and of the text of an element row.
pub open spec fn points_raw(b: Seq<u8>) -> Seq<u8> {
    b.subrange(61, after_points(b))
}

pub open spec fn text_raw(b: Seq<u8>) -> Seq<u8> {
    b.subrange(after_points(b) + 24, after_text(b))
}

/// The first field of an element row that cannot be decoded, in field order,
/// with the decoder's text for it, or `None` when the whole row decodes.
pub open spec fn element_failure(b: Seq<u8>) -> Option<(Seq<char>, Seq<char>)> {
    let n = b.len() as int;
    let a = after_points(b);
    let t = after_text(b);
    if n < 8 {
        Some(("id"@, short_text("u64"@, 8, n as nat)))
    } else if n < 16 {
        Some(("room_id"@, short_text("u64"@, 8, (n - 8) as nat)))
    } else if n < 17 {
        Some(("kind"@, short_text("u8"@, 1, (n - 16) as nat)))
    } else if kind_of_tag(b[16]) is None {
        Some(("kind"@, unknown_kind_text(b[16])))
    } else if n < 25 {
        Some(("x"@, short_text("u64"@, 8, (n - 17) as nat)))
    } else if n < 33 {
        Some(("y"@, short_text("u64"@, 8, (n - 25) as nat)))
    } else if n < 41 {
        Some(("width"@, short_text("u64"@, 8, (n - 33) as nat)))
    } else if n < 49 {
        Some(("height"@, short_text("u64"@, 8, (n - 41) as nat)))
    } else if n < 57 {
        Some(("rotation"@, short_text("u64"@, 8, (n - 49) as nat)))
    } else if n < 61 || n < a {
        Some(("points"@, bytes_error(from(b, 57))))
    } else if n < a + 4 {
        Some(("stroke_color"@, short_text("u32"@, 4, (n - a) as nat)))
    } else if n < a + 8 {
        Some(("fill_color"@, short_text("u32"@, 4, (n - a - 4) as nat)))
    } else if n < a + 12 {
        Some(("stroke_width"@, short_text("u32"@, 4, (n - a - 8) as nat)))
    } else if n < a + 16 {
        Some(("opacity"@, short_text("u32"@, 4, (n - a - 12) as nat)))
    } else if n < a + 20 {
        Some(("font_size"@, short_text("u32"@, 4, (n - a - 16) as nat)))
    } else if n < a + 24 || n < t || !valid_utf8(text_raw(b)) {
        Some(("text_content"@, string_error(from(b, a + 20))))
    } else if n < t + 4 {
        Some(("z_index"@, short_text("i32"@, 4, (n - t) as nat)))
    } else if n < t + 12 {
        Some(("version"@, short_text("u64"@, 8, (n - t - 4) as nat)))
    } else if n < t + 44 {
        Some(("updated_by"@, short_text("u256"@, 32, (n - t - 12) as nat)))
    } else if n < t + 45 || b[t + 44] >= 2 {
        Some(("deleted"@, bool_error(from(b, t + 44))))
    } else {
        None
    }
}

/// Whether a decodable element row is marked deleted.
pub open spec fn row_deleted(b: Seq<u8>) -> bool {
    b[after_text(b) + 44] == 1
}

/// The text `decode_points` gives for a points failure.
pub open spec fn points_error_text(e: PointsError) -> Seq<char> {
    match e {
        PointsError::NoCount => "data too short for point count"@,
        PointsError::Truncated => "data too short for declared point count"@,
    }
}

/// The points of an element row: none when no bytes are stored, else what
/// the compact point encoding decodes to.
pub open spec fn row_points(b: Seq<u8>) -> Result<Seq<Point>, PointsError> {
    if points_raw(b).len() == 0 {
        Ok(Seq::empty())
    } else {
        spec_decode_points(points_raw(b))
    }
}

/// `d` holds exactly the fields of the decodable element row `b`, with the
/// given points.
pub open spec fn element_matches(d: ElementData, b: Seq<u8>, ps: Seq<Point>) -> bool {
    let a = after_points(b);
    let t = after_text(b);
    &&& d.id == le_u64(b)
    &&& d.room_id == le_u64(from(b, 8))
    &&& kind_of_tag(b[16]) == Some(d.kind)
    &&& d.x == le_u64(from(b, 17))
    &&& d.y == le_u64(from(b, 25))
    &&& d.width == le_u64(from(b, 33))
    &&& d.height == le_u64(from(b, 41))
    &&& d.rotation == le_u64(from(b, 49))
    &&& d.points@ == ps
    &&& d.stroke_color == le_u32(from(b, a))
    &&& d.fill_color == le_u32(from(b, a + 4))
    &&& d.stroke_width == le_u32(from(b, a + 8))
    &&& d.opacity == le_u32(from(b, a + 12))
    &&& d.font_size == le_u32(from(b, a + 16))
    &&& d.text_content@ == decode_utf8(text_raw(b))
    &&& d.z_index == le_u32(from(b, t)) as i32
}

/// The element that the decodable row `b` holds, with the given points.
pub open spec fn row_element(b: Seq<u8>, ps: Seq<Point>) -> ElementDataView {
    let a = after_points(b);
    let t = after_text(b);
    ElementDataView {
        id: le_u64(b),
        room_id: le_u64(from(b, 8)),
        kind: match kind_of_tag(b[16]) {
            Some(k) => k,
            None => ElementKind::Rectangle,
        },
        x: le_u64(from(b, 17)),
        y: le_u64(from(b, 25)),
        width: le_u64(from(b, 33)),
        height: le_u64(from(b, 41)),
        rotation: le_u64(from(b, 49)),
        points: ps,
        stroke_color: le_u32(from(b, a)),
        fill_color: le_u32(from(b, a + 4)),
        stroke_width: le_u32(from(b, a + 8)),
        opacity: le_u32(from(b, a + 12)),
        font_size: le_u32(from(b, a + 16)),
        text_content: decode_utf8(text_raw(b)),
        z_index: le_u32(from(b, t)) as i32,
    }
}

/// What a row of the cursor table holds, when it decodes.
pub open spec fn row_cursor(b: Seq<u8>) -> CursorDataView {
    CursorDataView {
        x: le_u64(from(b, 40)),
        y: le_u64(from(b, 48)),
        name: decode_utf8(cursor_name_raw(b)),
        color: le_u32(from(b, 60 + cursor_name_len(b))),
    }
}

/// An element decoded from a row is the row's element.
pub proof fn lemma_matches_row_element(d: ElementData, b: Seq<u8>, ps: Seq<Point>)
    requires
        element_failure(b) is None,
        element_matches(d, b, ps),
    ensures
        d@ == row_element(b, ps),
{
}

proof fn lemma_from_from(b: Seq<u8>, i: int, j: int)
    requires
        0 <= i <= j <= b.len(),
    ensures
        from(from(b, i), j - i) == from(b, j),
{
    assert(from(from(b, i), j - i) =~= from(b, j));
}

/// Decode a full Element row from BSATN bytes.
///
/// Returns `Ok(None)` if the element has `deleted == true`.
pub fn decode_element(row_bytes: &[u8]) -> (r: Result<Option<ElementData>, String>)
    ensures
        match element_failure(row_bytes@) {
            Some((f, d)) => r matches Err(e) && e@ == field_message(f, d),
            None => if row_deleted(row_bytes@) {
                r matches Ok(None)
            } else {
                match row_points(row_bytes@) {
                    Ok(ps) => r matches Ok(Some(d)) && element_matches(d, row_bytes@, ps),
                    Err(pe) => r matches Err(e) && e@ == "decode_points: "@ + points_error_text(pe),
                }
            },
        },
{
    let ghost b = row_bytes@;
    let ghost len = b.len() as int;
    proof {
        assert(from(b, 0) =~= b);
    }
    let rd = row_bytes;
    let (id, rd) = match read_u64(rd) {
        Ok(v) => v,
        Err(e) => return Err(field_error("id", e)),
    };
    let (room_id, rd) = match read_u64(rd) {
        Ok(v) => v,
        Err(e) => return Err(field_error("room_id", e)),
    };
    proof { lemma_from_from(b, 8, 16); }
    let (tag, rd) = match read_u8(rd) {
        Ok(v) => v,
        Err(e) => return Err(field_error("kind", e)),
    };
    proof { lemma_from_from(b, 16, 17); }
    let kind = match ElementKind::from_tag(tag) {
        Some(k) => k,
        None => return Err(field_error("kind", unknown_kind_tag(tag))),
    };
    let (x, rd) = match read_u64(rd) {
        Ok(v) => v,
        Err(e) => return Err(field_error("x", e)),
    };
    proof { lemma_from_from(b, 17, 25); }
    let (y, rd) = match read_u64(rd) {
        Ok(v) => v,
        Err(e) => return Err(field_error("y", e)),
    };
    proof { lemma_from_from(b, 25, 33); }
    let (width, rd) = match read_u64(rd) {
        Ok(v) => v,
        Err(e) => return Err(field_error("width", e)),
    };
    proof { lemma_from_from(b, 33, 41); }
    let (height, rd) = match read_u64(rd) {
        Ok(v) => v,
        Err(e) => return Err(field_error("height", e)),
    };
    proof { lemma_from_from(b, 41, 49); }
    let (rotation, rd) = match read_u64(rd) {
        Ok(v) => v,
        Err(e) => return Err(field_error("rotation", e)),
    };
    proof { lemma_from_from(b, 49, 57); }
    let (points_raw_v, rd) = match read_bytes(rd) {
        Ok(v) => v,
        Err(e) => return Err(field_error("points", e)),
    };
    let ghost a = after_points(b);
    proof {
        assert(points_raw_v@ =~= points_raw(b));
        assert(rd@ =~= from(b, a));
    }
    let (stroke_color, rd) = match read_u32(rd) {
        Ok(v) => v,
        Err(e) => return Err(field_error("stroke_color", e)),
    };
    proof { lemma_from_from(b, a, a + 4); }
    let (fill_color, rd) = match read_u32(rd) {
        Ok(v) => v,
        Err(e) => return Err(field_error("fill_color", e)),
    };
    proof { lemma_from_from(b, a + 4, a + 8); }
    let (stroke_width, rd) = match read_u32(rd) {
        Ok(v) => v,
        Err(e) => return Err(field_error("stroke_width", e)),
    };
    proof { lemma_from_from(b, a + 8, a + 12); }
    let (opacity, rd) = match read_u32(rd) {
        Ok(v) => v,
        Err(e) => return Err(field_error("opacity", e)),
    };
    proof { lemma_from_from(b, a + 12, a + 16); }
    let (font_size, rd) = match read_u32(rd) {
        Ok(v) => v,
        Err(e) => return Err(field_error("font_size", e)),
    };
    proof { lemma_from_from(b, a + 16, a + 20); }
    let ghost before_text = rd@;
    let (text_content, rd) = match read_string(rd) {
        Ok(v) => v,
        Err(e) => {
            proof {
                if before_text.len() >= 4 && before_text.len() >= 4 + le_u32(before_text) {
                    assert(before_text.subrange(4, 4 + le_u32(before_text) as int) =~= text_raw(b));
                }
            }
            return Err(field_error("text_content", e));
        },
    };
    let ghost t = after_text(b);
    proof {
        assert(before_text.subrange(4, 4 + le_u32(before_text) as int) =~= text_raw(b));
        assert(rd@ =~= from(b, t));
    }
    let (z_index, rd) = match read_i32(rd) {
        Ok(v) => v,
        Err(e) => return Err(field_error("z_index", e)),
    };
    proof { lemma_from_from(b, t, t + 4); }
    let (_version, rd) = match read_u64(rd) {
        Ok(v) => v,
        Err(e) => return Err(field_error("version", e)),
    };
    proof { lemma_from_from(b, t + 4, t + 12); }
    let (_updated_by, rd) = match read_identity(rd) {
        Ok(v) => v,
        Err(e) => return Err(field_error("updated_by", e)),
    };
    proof { lemma_from_from(b, t + 12, t + 44); }
    let (deleted, _rd) = match read_bool(rd) {
        Ok(v) => v,
        Err(e) => return Err(field_error("deleted", e)),
    };
    if deleted {
        return Ok(None);
    }
    let points = if points_raw_v.len() == 0 {
        Vec::new()
    } else {
        match decode_points(points_raw_v.as_slice()) {
            Ok(ps) => ps,
            Err(e) => {
                let mut msg = String::from_str("decode_points: ");
                msg.append(e);
                return Err(msg);
            },
        }
    };
    Ok(
        Some(
            ElementData {
                id,
                room_id,
                kind,
                x,
                y,
                width,
                height,
                rotation,
                points,
                stroke_color,
                fill_color,
                stroke_width,
                opacity,
                font_size,
                text_content,
                z_index,
            },
        ),
    )
}


/// Where a cursor row's colour starts: after its name.
pub open spec fn cursor_name_len(b: Seq<u8>) -> int {
    le_u32(from(b, 56)) as int
}

pub open spec fn cursor_name_raw(b: Seq<u8>) -> Seq<u8> {
    b.subrange(60, 60 + cursor_name_len(b))
}

/// The first field of a cursor row that cannot be decoded, with the
/// decoder's text for it, or `None`.
pub open spec fn cursor_failure(b: Seq<u8>) -> Option<(Seq<char>, Seq<char>)> {
    let n = b.len() as int;
    let c = 60 + cursor_name_len(b);
    if n < 32 {
        Some(("user_id"@, short_text("u256"@, 32, n as nat)))
    } else if n < 40 {
        Some(("room_id"@, short_text("u64"@, 8, (n - 32) as nat)))
    } else if n < 48 {
        Some(("x"@, short_text("u64"@, 8, (n - 40) as nat)))
    } else if n < 56 {
        Some(("y"@, short_text("u64"@, 8, (n - 48) as nat)))
    } else if n < 60 || n < c || !valid_utf8(cursor_name_raw(b)) {
        Some(("name"@, string_error(from(b, 56))))
    } else if n < c + 4 {
        Some(("color"@, short_text("u32"@, 4, (n - c) as nat)))
    } else {
        None
    }
}

/// Decode a full Cursor row from BSATN bytes.
///
/// Returns `(identity_hex_key, CursorData)`.
pub fn decode_cursor(row_bytes: &[u8]) -> (r: Result<(String, CursorData), String>)
    ensures
        match cursor_failure(row_bytes@) {
            Some((f, d)) => r matches Err(e) && e@ == field_message(f, d),
            None => r matches Ok((key, c)) && {
                let b = row_bytes@;
                &&& key@ == spec_identity_hex(b.subrange(0, 32))
                &&& c.x == le_u64(from(b, 40))
                &&& c.y == le_u64(from(b, 48))
                &&& c.name@ == decode_utf8(cursor_name_raw(b))
                &&& c.color == le_u32(from(b, 60 + cursor_name_len(b)))
            },
        },
{
    let ghost b = row_bytes@;
    proof {
        assert(from(b, 0) =~= b);
    }
    let rd = row_bytes;
    let (user_id, rd) = match read_identity(rd) {
        Ok(v) => v,
        Err(e) => return Err(field_error("user_id", e)),
    };
    let (_room_id, rd) = match read_u64(rd) {
        Ok(v) => v,
        Err(e) => return Err(field_error("room_id", e)),
    };
    proof { lemma_from_from(b, 32, 40); }
    let (x, rd) = match read_u64(rd) {
        Ok(v) => v,
        Err(e) => return Err(field_error("x", e)),
    };
    proof { lemma_from_from(b, 40, 48); }
    let (y, rd) = match read_u64(rd) {
        Ok(v) => v,
        Err(e) => return Err(field_error("y", e)),
    };
    proof { lemma_from_from(b, 48, 56); }
    let ghost before_name = rd@;
    let (name, rd) = match read_string(rd) {
        Ok(v) => v,
        Err(e) => {
            proof {
                if before_name.len() >= 4 && before_name.len() >= 4 + le_u32(before_name) {
                    assert(before_name.subrange(4, 4 + le_u32(before_name) as int) =~= cursor_name_raw(b));
                }
            }
            return Err(field_error("name", e));
        },
    };
    proof {
        assert(before_name.subrange(4, 4 + le_u32(before_name) as int) =~= cursor_name_raw(b));
        assert(rd@ =~= from(b, 60 + cursor_name_len(b)));
    }
    let (color, _rd) = match read_u32(rd) {
        Ok(v) => v,
        Err(e) => return Err(field_error("color", e)),
    };
    let identity_hex_key = identity_hex(&user_id);
    Ok((identity_hex_key, CursorData { x, y, name, color }))
}

/// Decode just the element `id` (first field) from BSATN row bytes.
/// Used for processing deletes where we only need the primary key.
pub fn decode_element_id(row_bytes: &[u8]) -> (r: Result<u64, String>)
    ensures
        row_bytes@.len() >= 8 ==> r == Ok::<u64, String>(le_u64(row_bytes@)),
        row_bytes@.len() < 8 ==> (r matches Err(e) && e@ == field_message(
            "id"@,
            short_text("u64"@, 8, row_bytes@.len()),
        )),
{
    match read_u64(row_bytes) {
        Ok((id, _)) => Ok(id),
        Err(e) => Err(field_error("id", e)),
    }
}

/// Decode just the cursor `user_id` (first field) from BSATN row bytes.
/// Used for processing deletes where we only need the primary key.
pub fn decode_cursor_key(row_bytes: &[u8]) -> (r: Result<String, String>)
    ensures
        row_bytes@.len() >= 32 ==> (r matches Ok(k) && k@ == spec_identity_hex(row_bytes@.subrange(0, 32))),
        row_bytes@.len() < 32 ==> (r matches Err(e) && e@ == field_message(
            "user_id"@,
            short_text("u256"@, 32, row_bytes@.len()),
        )),
{
    match read_identity(row_bytes) {
        Ok((user_id, _)) => Ok(identity_hex(&user_id)),
        Err(e) => Err(field_error("user_id", e)),
    }
}

/// Every row that decodes as an element also yields its id alone, and the
/// same id: both read the row's first eight bytes.
pub proof fn lemma_element_id_agrees(b: Seq<u8>, d: ElementData, ps: Seq<Point>)
    requires
        element_failure(b) is None,
        element_matches(d, b, ps),
    ensures
        b.len() >= 8,
        d.id == le_u64(b),
{
}

/// Every row that decodes as a cursor also yields its key alone, and the
/// same key: both read the row's first 32 bytes.
pub proof fn lemma_cursor_key_agrees(b: Seq<u8>)
    requires
        cursor_failure(b) is None,
    ensures
        b.len() >= 32,
{
}

} // verus!
