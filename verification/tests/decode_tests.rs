use collaborate::decode::{decode_cursor, decode_cursor_key, decode_element, decode_element_id};
use collaborate::point::{encode_points, Point};
use collaborate::types::ElementKind;

fn row(id: u64, room: u64, kind: u8, x: f64, points: &[u8], text: &str, z: i32, deleted: bool) -> Vec<u8> {
    let mut b = Vec::new();
    b.extend_from_slice(&id.to_le_bytes());
    b.extend_from_slice(&room.to_le_bytes());
    b.push(kind);
    b.extend_from_slice(&x.to_le_bytes());
    b.extend_from_slice(&2.0f64.to_le_bytes());
    b.extend_from_slice(&30.0f64.to_le_bytes());
    b.extend_from_slice(&40.0f64.to_le_bytes());
    b.extend_from_slice(&0.5f64.to_le_bytes());
    b.extend_from_slice(&(points.len() as u32).to_le_bytes());
    b.extend_from_slice(points);
    b.extend_from_slice(&0xFF0000FFu32.to_le_bytes());
    b.extend_from_slice(&0u32.to_le_bytes());
    b.extend_from_slice(&2.0f32.to_le_bytes());
    b.extend_from_slice(&1.0f32.to_le_bytes());
    b.extend_from_slice(&20.0f32.to_le_bytes());
    b.extend_from_slice(&(text.len() as u32).to_le_bytes());
    b.extend_from_slice(text.as_bytes());
    b.extend_from_slice(&z.to_le_bytes());
    b.extend_from_slice(&7u64.to_le_bytes());
    b.extend_from_slice(&[3u8; 32]);
    b.push(deleted as u8);
    b
}

fn cursor_row(user: [u8; 32], room: u64, x: f64, y: f64, name: &str, color: u32) -> Vec<u8> {
    let mut b = Vec::new();
    b.extend_from_slice(&user);
    b.extend_from_slice(&room.to_le_bytes());
    b.extend_from_slice(&x.to_le_bytes());
    b.extend_from_slice(&y.to_le_bytes());
    b.extend_from_slice(&(name.len() as u32).to_le_bytes());
    b.extend_from_slice(name.as_bytes());
    b.extend_from_slice(&color.to_le_bytes());
    b
}

#[test]
fn decodes_a_live_element() {
    let pts = encode_points(&[Point { x: 1.0f64.to_bits(), y: 2.0f64.to_bits() }]);
    let b = row(42, 7, 2, 10.5, &pts, "héllo", -3, false);
    let e = decode_element(&b).unwrap().unwrap();
    assert_eq!(e.id, 42);
    assert_eq!(e.room_id, 7);
    assert_eq!(e.kind, ElementKind::Arrow);
    assert_eq!(f64::from_bits(e.x), 10.5);
    assert_eq!(f64::from_bits(e.y), 2.0);
    assert_eq!(f64::from_bits(e.width), 30.0);
    assert_eq!(f64::from_bits(e.height), 40.0);
    assert_eq!(f64::from_bits(e.rotation), 0.5);
    assert_eq!(e.points, vec![Point { x: 1.0f64.to_bits(), y: 2.0f64.to_bits() }]);
    assert_eq!(e.stroke_color, 0xFF0000FF);
    assert_eq!(e.fill_color, 0);
    assert_eq!(f32::from_bits(e.stroke_width), 2.0);
    assert_eq!(f32::from_bits(e.opacity), 1.0);
    assert_eq!(f32::from_bits(e.font_size), 20.0);
    assert_eq!(e.text_content, "héllo");
    assert_eq!(e.z_index, -3);
}

#[test]
fn empty_points_decode_to_no_points() {
    let e = decode_element(&row(1, 1, 0, 0.0, &[], "", 0, false)).unwrap().unwrap();
    assert!(e.points.is_empty());
}

#[test]
fn deleted_element_decodes_to_none() {
    let b = row(5, 1, 0, 0.0, &[], "", 0, true);
    assert!(decode_element(&b).unwrap().is_none());
    assert_eq!(decode_element_id(&b), Ok(5));
}

#[test]
fn element_errors_name_the_field() {
    assert!(decode_element(&[1, 2, 3]).unwrap_err().starts_with("failed to decode field 'id': "));
    let b = row(5, 1, 9, 0.0, &[], "", 0, false);
    assert!(decode_element(&b).unwrap_err().starts_with("failed to decode field 'kind': "));
    let full = row(5, 1, 0, 0.0, &[], "abc", 0, false);
    let cut = &full[..full.len() - 1];
    assert!(decode_element(cut).unwrap_err().starts_with("failed to decode field 'deleted': "));
    let mut bad_flag = full.clone();
    *bad_flag.last_mut().unwrap() = 2;
    assert!(decode_element(&bad_flag).unwrap_err().starts_with("failed to decode field 'deleted': "));
}

#[test]
fn bad_points_are_reported() {
    let b = row(5, 1, 5, 0.0, &[1, 0, 0, 0], "", 0, false);
    assert_eq!(decode_element(&b).unwrap_err(), "decode_points: data too short for declared point count");
}

#[test]
fn element_id_needs_eight_bytes() {
    assert_eq!(decode_element_id(&[1, 0, 0, 0, 0, 0, 0, 0, 9]), Ok(1));
    assert!(decode_element_id(&[1, 0, 0]).unwrap_err().starts_with("failed to decode field 'id': "));
}

#[test]
fn decodes_a_cursor_keyed_by_identity_hex() {
    let mut user = [0u8; 32];
    user[0] = 0xAB;
    user[31] = 0x01;
    let b = cursor_row(user, 3, 1.5, -2.5, "ann", 0xFF8080FF);
    let (key, c) = decode_cursor(&b).unwrap();
    let expected = spacetimedb_lib::Identity::from_byte_array(user).to_hex().to_string();
    assert_eq!(key, expected);
    assert!(key.starts_with("01") && key.ends_with("ab"));
    assert_eq!(f64::from_bits(c.x), 1.5);
    assert_eq!(f64::from_bits(c.y), -2.5);
    assert_eq!(c.name, "ann");
    assert_eq!(c.color, 0xFF8080FF);
    assert_eq!(decode_cursor_key(&b), Ok(expected));
}

#[test]
fn cursor_errors_name_the_field() {
    assert!(decode_cursor(&[0; 10]).unwrap_err().starts_with("failed to decode field 'user_id': "));
    let b = cursor_row([0; 32], 3, 1.5, -2.5, "ann", 1);
    assert!(decode_cursor(&b[..b.len() - 2]).unwrap_err().starts_with("failed to decode field 'color': "));
    assert!(decode_cursor_key(&[0; 31]).unwrap_err().starts_with("failed to decode field 'user_id': "));
}

fn field_err(field: &str, detail: &str) -> String {
    format!("failed to decode field '{field}': {detail}")
}

#[test]
fn element_error_texts_are_the_decoders() {
    assert_eq!(decode_element(&[1, 2, 3]).unwrap_err(), field_err("id", "data too short for u64: Expected 8, given 3"));
    let b = row(5, 1, 9, 0.0, &[], "", 0, false);
    assert_eq!(decode_element(&b).unwrap_err(), field_err("kind", "unknown tag 0x9 for sum type ElementKind"));
    let b = row(5, 1, 200, 0.0, &[], "", 0, false);
    assert_eq!(decode_element(&b).unwrap_err(), field_err("kind", "unknown tag 0xc8 for sum type ElementKind"));
    let full = row(5, 1, 0, 0.0, &[], "abc", 0, false);
    assert_eq!(full.len(), 133);
    assert_eq!(decode_element(&full[..16]).unwrap_err(), field_err("kind", "data too short for u8: Expected 1, given 0"));
    assert_eq!(decode_element(&full[..30]).unwrap_err(), field_err("y", "data too short for u64: Expected 8, given 5"));
    assert_eq!(decode_element(&full[..59]).unwrap_err(), field_err("points", "data too short for u32: Expected 4, given 2"));
    let with_points = row(5, 1, 0, 0.0, &[1, 2, 3], "abc", 0, false);
    assert_eq!(decode_element(&with_points[..62]).unwrap_err(), field_err("points", "data too short for [u8]: Expected 3, given 1"));
    assert_eq!(decode_element(&full[..63]).unwrap_err(), field_err("stroke_color", "data too short for u32: Expected 4, given 2"));
    assert_eq!(decode_element(&full[..82]).unwrap_err(), field_err("text_content", "data too short for u32: Expected 4, given 1"));
    assert_eq!(decode_element(&full[..86]).unwrap_err(), field_err("text_content", "data too short for [u8]: Expected 3, given 1"));
    let mut bad_text = full.clone();
    bad_text[85] = 0xFF;
    assert_eq!(decode_element(&bad_text).unwrap_err(), field_err("text_content", "invalid utf8"));
    assert_eq!(decode_element(&full[..90]).unwrap_err(), field_err("z_index", "data too short for i32: Expected 4, given 2"));
    assert_eq!(decode_element(&full[..95]).unwrap_err(), field_err("version", "data too short for u64: Expected 8, given 3"));
    assert_eq!(decode_element(&full[..110]).unwrap_err(), field_err("updated_by", "data too short for u256: Expected 32, given 10"));
    assert_eq!(decode_element(&full[..132]).unwrap_err(), field_err("deleted", "data too short for u8: Expected 1, given 0"));
    let mut bad_flag = full.clone();
    *bad_flag.last_mut().unwrap() = 2;
    assert_eq!(decode_element(&bad_flag).unwrap_err(), field_err("deleted", "byte 2 not valid as `bool` (must be 0 or 1)"));
    assert_eq!(decode_element_id(&[1, 0, 0]).unwrap_err(), field_err("id", "data too short for u64: Expected 8, given 3"));
}

#[test]
fn cursor_error_texts_are_the_decoders() {
    assert_eq!(decode_cursor(&[0; 10]).unwrap_err(), field_err("user_id", "data too short for u256: Expected 32, given 10"));
    let b = cursor_row([0; 32], 3, 1.5, -2.5, "ann", 1);
    assert_eq!(decode_cursor(&b[..b.len() - 2]).unwrap_err(), field_err("color", "data too short for u32: Expected 4, given 2"));
    assert_eq!(decode_cursor(&b[..58]).unwrap_err(), field_err("name", "data too short for u32: Expected 4, given 2"));
    assert_eq!(decode_cursor(&b[..45]).unwrap_err(), field_err("x", "data too short for u64: Expected 8, given 5"));
    assert_eq!(decode_cursor_key(&[0; 31]).unwrap_err(), field_err("user_id", "data too short for u256: Expected 32, given 31"));
}
