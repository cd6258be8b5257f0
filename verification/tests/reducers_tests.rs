use collaborate::reducers::{cursor_color_from_identity, Database};
use collaborate::tables::{ElementSnapshot, Identity};
use collaborate::types::{ElementKind, UndoAction};

fn user(b: u8) -> Identity {
    let mut bytes = [0u8; 32];
    bytes[0] = b;
    bytes[1] = b.wrapping_mul(3);
    bytes[2] = 0x10;
    Identity { bytes }
}

fn enc(s: &ElementSnapshot) -> Vec<u8> {
    let mut b = Vec::new();
    for v in [s.x, s.y, s.width, s.height, s.rotation] {
        b.extend_from_slice(&v.to_le_bytes());
    }
    for v in [s.stroke_color, s.fill_color, s.stroke_width, s.opacity, s.font_size] {
        b.extend_from_slice(&v.to_le_bytes());
    }
    b.extend_from_slice(&(s.points.len() as u32).to_le_bytes());
    b.extend_from_slice(&s.points);
    b.extend_from_slice(s.text_content.as_bytes());
    b
}

fn dec(b: &Vec<u8>) -> Option<ElementSnapshot> {
    if b.len() < 64 {
        return None;
    }
    let u64_at = |i: usize| u64::from_le_bytes(b[i..i + 8].try_into().unwrap());
    let u32_at = |i: usize| u32::from_le_bytes(b[i..i + 4].try_into().unwrap());
    let n = u32_at(60) as usize;
    if b.len() < 64 + n {
        return None;
    }
    let text = String::from_utf8(b[64 + n..].to_vec()).ok()?;
    Some(ElementSnapshot {
        x: u64_at(0),
        y: u64_at(8),
        width: u64_at(16),
        height: u64_at(24),
        rotation: u64_at(32),
        stroke_color: u32_at(40),
        fill_color: u32_at(44),
        stroke_width: u32_at(48),
        opacity: u32_at(52),
        font_size: u32_at(56),
        points: b[64..64 + n].to_vec(),
        text_content: text,
    })
}

fn with_room() -> (Database, Identity) {
    let mut db = Database::new();
    let u = user(1);
    db.create_room(&u, 100, "board".to_string()).unwrap();
    (db, u)
}

fn add(db: &mut Database, u: &Identity, now: i64, room: u64, x: f64) -> Result<(), String> {
    db.create_element(
        u,
        now,
        room,
        ElementKind::Rectangle,
        x.to_bits(),
        0f64.to_bits(),
        10f64.to_bits(),
        10f64.to_bits(),
        0xFFFFFFFF,
        0,
        2f32.to_bits(),
        1f32.to_bits(),
        20f32.to_bits(),
        String::new(),
        Vec::new(),
        &enc,
    )
}

fn move_to(db: &mut Database, u: &Identity, now: i64, id: u64, x: f64) -> Result<(), String> {
    db.update_element(
        u,
        now,
        id,
        x.to_bits(),
        0f64.to_bits(),
        10f64.to_bits(),
        10f64.to_bits(),
        0,
        0xFFFFFFFF,
        0,
        2f32.to_bits(),
        1f32.to_bits(),
        20f32.to_bits(),
        "moved".to_string(),
        vec![1, 2, 3],
        &enc,
    )
}

#[test]
fn room_names_must_not_be_blank() {
    let mut db = Database::new();
    assert_eq!(db.create_room(&user(1), 1, " \t ".to_string()), Err("Room name must not be empty".to_string()));
    assert_eq!(db.create_room(&user(1), 1, String::new()), Err("Room name must not be empty".to_string()));
    assert!(db.rooms().is_empty());
    assert_eq!(db.create_room(&user(1), 5, "a".to_string()), Ok(()));
    assert_eq!(db.rooms()[0].id, 1);
    assert_eq!(db.rooms()[0].created_at, 5);
}

#[test]
fn joining_needs_an_existing_room_and_replaces_the_cursor() {
    let (mut db, u) = with_room();
    assert_eq!(db.join_room(&u, 9, "me".to_string()), Err("Room 9 does not exist".to_string()));
    db.join_room(&u, 1, "me".to_string()).unwrap();
    db.join_room(&u, 1, "me again".to_string()).unwrap();
    assert_eq!(db.cursors().len(), 1);
    assert_eq!(db.cursors()[0].name, "me again");
    assert_eq!(db.cursors()[0].color, cursor_color_from_identity(&u));
    db.client_disconnected(&u);
    assert!(db.cursors().is_empty());
}

#[test]
fn cursor_moves_need_a_join() {
    let (mut db, u) = with_room();
    assert_eq!(db.update_cursor(&u, 1, 5, 6), Err("Not in any room; call join_room first".to_string()));
    db.join_room(&u, 1, "me".to_string()).unwrap();
    db.update_cursor(&u, 1, 5, 6).unwrap();
    assert_eq!((db.cursors()[0].x, db.cursors()[0].y), (5, 6));
}

#[test]
fn cursor_colour_is_bright_and_opaque() {
    let mut bytes = [0u8; 32];
    bytes[0] = 0x01;
    bytes[1] = 0x7F;
    bytes[2] = 0xFF;
    assert_eq!(cursor_color_from_identity(&Identity { bytes }), 0xFF81FFFF);
}

#[test]
fn elements_stack_on_top_and_log_their_creation() {
    let (mut db, u) = with_room();
    assert_eq!(add(&mut db, &u, 1, 9, 0.0), Err("Room 9 does not exist".to_string()));
    add(&mut db, &u, 1, 1, 0.0).unwrap();
    add(&mut db, &u, 2, 1, 5.0).unwrap();
    let els = db.elements();
    assert_eq!((els[0].id, els[0].z_index, els[0].version), (1, 0, 1));
    assert_eq!((els[1].id, els[1].z_index), (2, 1));
    let log = db.undo_entries();
    assert_eq!(log.len(), 2);
    assert_eq!(log[1].action, UndoAction::Create);
    assert!(log[1].prev_state.is_empty());
    assert_eq!(dec(&log[1].next_state).unwrap().x, 5f64.to_bits());
}

#[test]
fn deleted_elements_do_not_count_for_the_top() {
    let (mut db, u) = with_room();
    add(&mut db, &u, 1, 1, 0.0).unwrap();
    add(&mut db, &u, 2, 1, 0.0).unwrap();
    db.delete_element(&u, 3, 2, &enc).unwrap();
    add(&mut db, &u, 4, 1, 0.0).unwrap();
    assert_eq!(db.elements()[2].z_index, 1);
}

#[test]
fn update_and_delete_errors() {
    let (mut db, u) = with_room();
    add(&mut db, &u, 1, 1, 0.0).unwrap();
    assert_eq!(move_to(&mut db, &u, 2, 9, 1.0), Err("Element 9 not found".to_string()));
    assert_eq!(db.delete_element(&u, 2, 9, &enc), Err("Element 9 not found".to_string()));
    db.delete_element(&u, 2, 1, &enc).unwrap();
    assert_eq!(db.delete_element(&u, 3, 1, &enc), Err("Element 1 is already deleted".to_string()));
    assert_eq!(move_to(&mut db, &u, 3, 1, 1.0), Err("Element 1 has been deleted".to_string()));
}

#[test]
fn update_bumps_the_version_and_logs_both_states() {
    let (mut db, u) = with_room();
    add(&mut db, &u, 1, 1, 0.0).unwrap();
    move_to(&mut db, &u, 2, 1, 7.0).unwrap();
    let e = &db.elements()[0];
    assert_eq!((e.version, e.x, e.text_content.as_str()), (2, 7f64.to_bits(), "moved"));
    let entry = db.undo_entries().last().unwrap();
    assert_eq!(entry.action, UndoAction::Update);
    assert_eq!(dec(&entry.prev_state).unwrap().x, 0f64.to_bits());
    assert_eq!(dec(&entry.next_state).unwrap().x, 7f64.to_bits());
}

#[test]
fn undo_and_redo_need_entries() {
    let (mut db, u) = with_room();
    assert_eq!(db.undo(&u, 1, &dec), Err("Nothing to undo".to_string()));
    assert_eq!(db.redo(&u, 1, &dec), Err("Nothing to redo".to_string()));
}

#[test]
fn undo_create_hides_and_redo_revives() {
    let (mut db, u) = with_room();
    add(&mut db, &u, 1, 1, 0.0).unwrap();
    db.undo(&u, 1, &dec).unwrap();
    assert!(db.elements()[0].deleted);
    assert_eq!(db.elements()[0].version, 2);
    assert!(db.undo_entries()[0].undone);
    db.redo(&u, 1, &dec).unwrap();
    assert!(!db.elements()[0].deleted);
    assert_eq!(db.elements()[0].version, 3);
    assert!(!db.undo_entries()[0].undone);
}

#[test]
fn undo_delete_revives() {
    let (mut db, u) = with_room();
    add(&mut db, &u, 1, 1, 0.0).unwrap();
    db.delete_element(&u, 2, 1, &enc).unwrap();
    db.undo(&u, 1, &dec).unwrap();
    assert!(!db.elements()[0].deleted);
    assert_eq!(db.elements()[0].version, 3);
}

#[test]
fn undo_update_restores_the_state_before() {
    let (mut db, u) = with_room();
    add(&mut db, &u, 1, 1, 3.0).unwrap();
    move_to(&mut db, &u, 2, 1, 9.0).unwrap();
    db.undo(&u, 1, &dec).unwrap();
    let e = &db.elements()[0];
    assert_eq!(e.x, 3f64.to_bits());
    assert_eq!(e.text_content, "");
    assert!(e.points.is_empty());
    assert_eq!(e.version, 3);
    db.redo(&u, 1, &dec).unwrap();
    let e = &db.elements()[0];
    assert_eq!(e.x, 9f64.to_bits());
    assert_eq!(e.text_content, "moved");
    assert_eq!(e.version, 4);
}

#[test]
fn undo_is_per_user_and_per_room() {
    let (mut db, u) = with_room();
    let other = user(2);
    db.create_room(&other, 1, "second".to_string()).unwrap();
    add(&mut db, &u, 1, 1, 0.0).unwrap();
    assert_eq!(db.undo(&other, 1, &dec), Err("Nothing to undo".to_string()));
    assert_eq!(db.undo(&u, 2, &dec), Err("Nothing to undo".to_string()));
    assert!(!db.elements()[0].deleted);
}

#[test]
fn undo_takes_the_latest_change() {
    let (mut db, u) = with_room();
    add(&mut db, &u, 1, 1, 0.0).unwrap();
    add(&mut db, &u, 2, 1, 0.0).unwrap();
    db.undo(&u, 1, &dec).unwrap();
    assert!(!db.elements()[0].deleted);
    assert!(db.elements()[1].deleted);
}

#[test]
fn redo_follows_undo_order() {
    let (mut db, u) = with_room();
    add(&mut db, &u, 1, 1, 0.0).unwrap();
    add(&mut db, &u, 2, 1, 0.0).unwrap();
    db.undo(&u, 1, &dec).unwrap();
    db.undo(&u, 1, &dec).unwrap();
    assert!(db.elements()[0].deleted && db.elements()[1].deleted);
    db.redo(&u, 1, &dec).unwrap();
    assert!(!db.elements()[0].deleted);
    assert!(db.elements()[1].deleted);
    assert!(!db.undo_entries()[0].undone && db.undo_entries()[1].undone);
    db.redo(&u, 1, &dec).unwrap();
    assert!(!db.elements()[1].deleted);
    assert_eq!(db.redo(&u, 1, &dec), Err("Nothing to redo".to_string()));
}

#[test]
fn redo_takes_the_last_undo_after_a_new_change() {
    let (mut db, u) = with_room();
    add(&mut db, &u, 1, 1, 0.0).unwrap();
    add(&mut db, &u, 2, 1, 0.0).unwrap();
    db.undo(&u, 1, &dec).unwrap();
    add(&mut db, &u, 3, 1, 0.0).unwrap();
    db.undo(&u, 1, &dec).unwrap();
    assert!(db.elements()[1].deleted && db.elements()[2].deleted);
    db.redo(&u, 1, &dec).unwrap();
    assert!(!db.elements()[2].deleted);
    assert!(db.elements()[1].deleted);
}

#[test]
fn undecodable_state_leaves_the_element() {
    let (mut db, u) = with_room();
    add(&mut db, &u, 1, 1, 0.0).unwrap();
    move_to(&mut db, &u, 2, 1, 9.0).unwrap();
    let refuse = |_: &Vec<u8>| -> Option<ElementSnapshot> { None };
    db.undo(&u, 1, &refuse).unwrap();
    assert_eq!(db.elements()[0].x, 9f64.to_bits());
    assert_eq!(db.elements()[0].version, 2);
    assert!(db.undo_entries()[1].undone);
}
