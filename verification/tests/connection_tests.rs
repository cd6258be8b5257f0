use collaborate::connection::{parse_server_message, room_queries, subscribe_uri, RequestIds};
use collaborate::decode::ElementData;
use collaborate::point::Point;
use collaborate::reducer_args::{create_element_args, id_args};
use collaborate::types::ElementKind;
use spacetimedb_client_api_messages::websocket::common::QuerySetId;
use spacetimedb_client_api_messages::websocket::v2::{
    CallReducer, CallReducerFlags, ClientMessage, ServerMessage, Subscribe,
};
use spacetimedb_lib::bsatn;

#[test]
fn subscribe_address() {
    assert_eq!(
        subscribe_uri("ws://localhost:3000", "collab"),
        "ws://localhost:3000/database/subscribe/collab?client_address=0000000000000000"
    );
}

#[test]
fn room_queries_name_the_room() {
    assert_eq!(
        room_queries(42),
        vec![
            "SELECT * FROM element WHERE room_id = 42".to_string(),
            "SELECT * FROM cursor WHERE room_id = 42".to_string(),
            "SELECT * FROM undo_entry WHERE room_id = 42".to_string(),
        ]
    );
    assert_eq!(room_queries(u64::MAX)[2], format!("SELECT * FROM undo_entry WHERE room_id = {}", u64::MAX));
}

#[test]
fn request_ids_count_up() {
    let mut ids = RequestIds::new();
    let (qs, _) = ids.subscribe_room(1);
    assert_eq!(qs, 1);
    let (req, msg) = ids.call_reducer("undo", id_args(1));
    assert_eq!(req, 2);
    let expected = bsatn::to_vec(&ClientMessage::CallReducer(CallReducer {
        request_id: 2,
        flags: CallReducerFlags::Default,
        reducer: "undo".into(),
        args: id_args(1).into(),
    }))
    .unwrap();
    assert_eq!(msg, expected);
    let (qs2, _) = ids.subscribe_room(2);
    assert_eq!(qs2, 2);
    assert_eq!(ids.next_request_id, 4);
}

#[test]
fn server_messages_need_a_known_compression() {
    assert_eq!(parse_server_message(&[]).unwrap_err(), "empty server message");
    assert!(parse_server_message(&[0, 0xFF, 0xFF]).unwrap_err().starts_with("BSATN decode error: "));
}

#[test]
fn id_args_are_little_endian() {
    assert_eq!(id_args(0x0102), vec![2, 1, 0, 0, 0, 0, 0, 0]);
}

#[test]
fn create_args_match_bsatn_of_each_field() {
    let e = ElementData {
        id: 5,
        room_id: 3,
        kind: ElementKind::Freehand,
        x: 1.5f64.to_bits(),
        y: 2.5f64.to_bits(),
        width: 0f64.to_bits(),
        height: 0f64.to_bits(),
        rotation: 0f64.to_bits(),
        points: vec![Point { x: 1f64.to_bits(), y: 2f64.to_bits() }],
        stroke_color: 0xFFFFFFFF,
        fill_color: 0,
        stroke_width: 2f32.to_bits(),
        opacity: 1f32.to_bits(),
        font_size: 20f32.to_bits(),
        text_content: "hé".to_string(),
        z_index: 1,
    };
    let mut expected = Vec::new();
    bsatn::to_writer(&mut expected, &3u64).unwrap();
    bsatn::to_writer(&mut expected, &5u8).unwrap();
    bsatn::to_writer(&mut expected, &1.5f64).unwrap();
    bsatn::to_writer(&mut expected, &2.5f64).unwrap();
    bsatn::to_writer(&mut expected, &0f64).unwrap();
    bsatn::to_writer(&mut expected, &0f64).unwrap();
    bsatn::to_writer(&mut expected, &0xFFFFFFFFu32).unwrap();
    bsatn::to_writer(&mut expected, &0u32).unwrap();
    bsatn::to_writer(&mut expected, &2f32).unwrap();
    bsatn::to_writer(&mut expected, &1f32).unwrap();
    bsatn::to_writer(&mut expected, &20f32).unwrap();
    bsatn::to_writer(&mut expected, "hé").unwrap();
    let mut pts = vec![1, 0, 0, 0];
    pts.extend_from_slice(&1f64.to_le_bytes());
    pts.extend_from_slice(&2f64.to_le_bytes());
    bsatn::to_writer(&mut expected, &pts).unwrap();
    assert_eq!(create_element_args(&e), expected);
}

fn prefixed(b: &[u8]) -> Vec<u8> {
    let mut v = (b.len() as u32).to_le_bytes().to_vec();
    v.extend_from_slice(b);
    v
}

#[test]
fn subscribe_message_layout() {
    let mut ids = RequestIds::new();
    let (qs, msg) = ids.subscribe_room(7);
    assert_eq!(qs, 1);
    let mut expected = vec![0u8];
    expected.extend(1u32.to_le_bytes());
    expected.extend(1u32.to_le_bytes());
    expected.extend(3u32.to_le_bytes());
    for q in room_queries(7) {
        expected.extend(prefixed(q.as_bytes()));
    }
    assert_eq!(msg, expected);
    let queries: Box<[Box<str>]> = room_queries(7).into_iter().map(String::into_boxed_str).collect();
    let direct = bsatn::to_vec(&ClientMessage::Subscribe(Subscribe {
        request_id: 1,
        query_set_id: QuerySetId::new(1),
        query_strings: queries,
    }))
    .unwrap();
    assert_eq!(msg, direct);
}

#[test]
fn call_reducer_message_layout() {
    let mut ids = RequestIds::new();
    let (req, msg) = ids.call_reducer("redo", vec![9, 8]);
    assert_eq!(req, 1);
    let mut expected = vec![3u8];
    expected.extend(1u32.to_le_bytes());
    expected.push(0);
    expected.extend(prefixed(b"redo"));
    expected.extend(prefixed(&[9, 8]));
    assert_eq!(msg, expected);
}

#[test]
fn server_message_decode_error_text() {
    let e = bsatn::from_slice::<ServerMessage>(&[0xFF, 0xFF]).unwrap_err();
    assert_eq!(parse_server_message(&[0, 0xFF, 0xFF]).unwrap_err(), format!("BSATN decode error: {e}"));
}
