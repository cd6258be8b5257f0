use collaborate::point::{decode_points, encode_points, Point};

fn pt(x: f64, y: f64) -> Point {
    Point { x: x.to_bits(), y: y.to_bits() }
}

#[test]
fn encode_decode_empty() {
    let points: Vec<Point> = vec![];
    let encoded = encode_points(&points);
    let decoded = decode_points(&encoded).unwrap();
    assert_eq!(decoded, points);
}

#[test]
fn encode_decode_multiple_points() {
    let points = vec![pt(1.5, 2.5), pt(-3.0, 100.0), pt(0.0, 0.0)];
    let encoded = encode_points(&points);
    let decoded = decode_points(&encoded).unwrap();
    assert_eq!(decoded, points);
}

#[test]
fn decode_too_short_fails() {
    assert!(decode_points(&[]).is_err());
    assert!(decode_points(&[1, 0, 0, 0]).is_err()); // claims 1 point but no data
}

#[test]
fn encoding_is_count_then_coordinates() {
    let encoded = encode_points(&[pt(1.0, -2.0)]);
    let mut expected = vec![1, 0, 0, 0];
    expected.extend_from_slice(&1.0f64.to_le_bytes());
    expected.extend_from_slice(&(-2.0f64).to_le_bytes());
    assert_eq!(encoded, expected);
}

#[test]
fn decode_errors_name_the_shortage() {
    assert_eq!(decode_points(&[0, 0]), Err("data too short for point count"));
    assert_eq!(decode_points(&[2, 0, 0, 0, 1, 2, 3]), Err("data too short for declared point count"));
}

#[test]
fn decode_ignores_trailing_bytes() {
    let mut bytes = encode_points(&[pt(4.0, 5.0)]);
    bytes.extend_from_slice(&[9, 9, 9]);
    assert_eq!(decode_points(&bytes).unwrap(), vec![pt(4.0, 5.0)]);
}
