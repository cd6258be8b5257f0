use collaborate::decode::{CursorData, ElementData};
use collaborate::store::{select_next, topmost_hit, StdbStore};
use collaborate::types::ElementKind;

fn elem(id: u64, room: u64, kind: ElementKind, x: f64, z: i32) -> ElementData {
    ElementData {
        id,
        room_id: room,
        kind,
        x: x.to_bits(),
        y: 0f64.to_bits(),
        width: 10f64.to_bits(),
        height: 10f64.to_bits(),
        rotation: 0f64.to_bits(),
        points: Vec::new(),
        stroke_color: 0xFFFFFFFF,
        fill_color: 0,
        stroke_width: 2f32.to_bits(),
        opacity: 1f32.to_bits(),
        font_size: 20f32.to_bits(),
        text_content: String::new(),
        z_index: z,
    }
}

fn row(e: &ElementData, deleted: bool) -> Vec<u8> {
    let mut b = Vec::new();
    b.extend_from_slice(&e.id.to_le_bytes());
    b.extend_from_slice(&e.room_id.to_le_bytes());
    b.push(e.kind.tag());
    for v in [e.x, e.y, e.width, e.height, e.rotation] {
        b.extend_from_slice(&v.to_le_bytes());
    }
    b.extend_from_slice(&0u32.to_le_bytes());
    for v in [e.stroke_color, e.fill_color, e.stroke_width, e.opacity, e.font_size] {
        b.extend_from_slice(&v.to_le_bytes());
    }
    b.extend_from_slice(&(e.text_content.len() as u32).to_le_bytes());
    b.extend_from_slice(e.text_content.as_bytes());
    b.extend_from_slice(&e.z_index.to_le_bytes());
    b.extend_from_slice(&1u64.to_le_bytes());
    b.extend_from_slice(&[0u8; 32]);
    b.push(deleted as u8);
    b
}

fn cursor_row(user: u8, x: f64, name: &str) -> Vec<u8> {
    let mut b = vec![user];
    b.extend_from_slice(&[0u8; 31]);
    b.extend_from_slice(&1u64.to_le_bytes());
    b.extend_from_slice(&x.to_le_bytes());
    b.extend_from_slice(&0f64.to_le_bytes());
    b.extend_from_slice(&(name.len() as u32).to_le_bytes());
    b.extend_from_slice(name.as_bytes());
    b.extend_from_slice(&7u32.to_le_bytes());
    b
}

fn near(a: &ElementData, b: &ElementData) -> bool {
    (f64::from_bits(a.x) - f64::from_bits(b.x)).abs() < 1.0
        && (f64::from_bits(a.y) - f64::from_bits(b.y)).abs() < 1.0
        && (f64::from_bits(a.width) - f64::from_bits(b.width)).abs() < 1.0
        && (f64::from_bits(a.height) - f64::from_bits(b.height)).abs() < 1.0
}

fn ids(s: &StdbStore) -> Vec<u64> {
    let mut v: Vec<u64> = s.elements.iter().map(|e| e.id).collect();
    v.sort();
    v
}

#[test]
fn new_store_is_empty() {
    let s = StdbStore::new();
    assert!(s.elements.is_empty() && s.cursors.is_empty());
    assert!(!s.connected && s.my_identity.is_none() && s.current_room.is_none());
}

#[test]
fn insert_replaces_by_id_and_remove_takes_out() {
    let mut s = StdbStore::new();
    s.insert_element(elem(1, 1, ElementKind::Rectangle, 0.0, 0));
    s.insert_element(elem(2, 1, ElementKind::Rectangle, 0.0, 0));
    s.insert_element(elem(1, 1, ElementKind::Ellipse, 5.0, 3));
    assert_eq!(ids(&s), vec![1, 2]);
    assert_eq!(s.elements.iter().find(|e| e.id == 1).unwrap().kind, ElementKind::Ellipse);
    s.remove_element(2);
    s.remove_element(99);
    assert_eq!(ids(&s), vec![1]);
}

#[test]
fn sorted_elements_are_in_drawing_order() {
    let mut s = StdbStore::new();
    for (id, z) in [(1, 5), (2, -1), (3, 2), (4, 5), (5, 0)] {
        s.insert_element(elem(id, 1, ElementKind::Rectangle, 0.0, z));
    }
    let sorted = s.sorted_elements();
    let zs: Vec<i32> = sorted.iter().map(|e| e.z_index).collect();
    assert_eq!(zs, vec![-1, 0, 2, 5, 5]);
    let mut got: Vec<u64> = sorted.iter().map(|e| e.id).collect();
    got.sort();
    assert_eq!(got, vec![1, 2, 3, 4, 5]);
}

#[test]
fn next_z_is_one_above_the_top_or_one() {
    let mut s = StdbStore::new();
    assert_eq!(s.next_z_index(), 1);
    s.insert_element(elem(1, 1, ElementKind::Rectangle, 0.0, 4));
    s.insert_element(elem(2, 1, ElementKind::Rectangle, 0.0, -7));
    assert_eq!(s.next_z_index(), 5);
}

#[test]
fn subscription_rows_load_live_elements_and_cursors() {
    let mut s = StdbStore::new();
    let rows = vec![
        row(&elem(1, 1, ElementKind::Rectangle, 0.0, 0), false),
        row(&elem(2, 1, ElementKind::Text, 0.0, 1), true),
        vec![1, 2, 3],
    ];
    s.apply_subscription_rows("element", &rows);
    assert_eq!(ids(&s), vec![1]);
    s.apply_subscription_rows("cursor", &[cursor_row(9, 1.5, "ann")]);
    assert_eq!(s.cursors.len(), 1);
    assert_eq!(s.cursors[0].1.name, "ann");
    s.apply_subscription_rows("room", &rows);
    assert_eq!(ids(&s), vec![1]);
}

#[test]
fn updates_delete_then_insert() {
    let mut s = StdbStore::new();
    s.insert_element(elem(1, 1, ElementKind::Rectangle, 0.0, 0));
    s.insert_element(elem(2, 1, ElementKind::Rectangle, 0.0, 0));
    let mut sel = vec![2u64];
    let del = vec![row(&elem(1, 1, ElementKind::Rectangle, 0.0, 0), false)];
    let ins = vec![
        row(&elem(3, 1, ElementKind::Ellipse, 50.0, 1), false),
        row(&elem(2, 1, ElementKind::Rectangle, 0.0, 0), true),
    ];
    s.apply_table_update("element", &del, &ins, &mut sel, &near);
    assert_eq!(ids(&s), vec![3]);
    assert_eq!(sel, vec![2]);
}

#[test]
fn a_temporary_copy_gives_way_to_the_server_element() {
    let mut s = StdbStore::new();
    let local_id = 1_700_000_000_000_000u64;
    s.insert_element(elem(local_id, 1, ElementKind::Rectangle, 10.2, 0));
    s.insert_element(elem(local_id + 1, 1, ElementKind::Ellipse, 10.2, 0));
    let mut sel = vec![local_id, 5];
    let ins = vec![row(&elem(7, 1, ElementKind::Rectangle, 10.0, 0), false)];
    s.apply_table_update("element", &[], &ins, &mut sel, &near);
    assert_eq!(ids(&s), vec![7, local_id + 1]);
    assert_eq!(sel, vec![7, 5]);
}

#[test]
fn a_far_or_server_element_is_not_a_copy() {
    let mut s = StdbStore::new();
    let local_id = 1_700_000_000_000_000u64;
    s.insert_element(elem(local_id, 1, ElementKind::Rectangle, 30.0, 0));
    s.insert_element(elem(12, 1, ElementKind::Rectangle, 10.0, 0));
    let mut sel = vec![local_id];
    let ins = vec![row(&elem(7, 1, ElementKind::Rectangle, 10.0, 0), false)];
    s.apply_table_update("element", &[], &ins, &mut sel, &near);
    assert_eq!(ids(&s), vec![7, 12, local_id]);
    assert_eq!(sel, vec![local_id]);
}

#[test]
fn cursor_updates_use_the_identity_key() {
    let mut s = StdbStore::new();
    let mut sel = vec![];
    s.apply_table_update("cursor", &[], &[cursor_row(1, 0.0, "a"), cursor_row(2, 0.0, "b")], &mut sel, &near);
    assert_eq!(s.cursors.len(), 2);
    s.apply_table_update("cursor", &[cursor_row(1, 0.0, "a")], &[cursor_row(2, 9.0, "b2")], &mut sel, &near);
    assert_eq!(s.cursors.len(), 1);
    assert_eq!(s.cursors[0].1.name, "b2");
    assert_eq!(f64::from_bits(s.cursors[0].1.x), 9.0);
    s.insert_cursor("k".to_string(), CursorData { x: 0, y: 0, name: "z".to_string(), color: 1 });
    s.remove_cursor("k");
    assert_eq!(s.cursors.len(), 1);
}

#[test]
fn copy_and_remove_selected() {
    let mut s = StdbStore::new();
    for id in 1..=4 {
        s.insert_element(elem(id, 1, ElementKind::Rectangle, id as f64, 0));
    }
    let copied = s.copy_selected(&[3, 9, 1]);
    let got: Vec<u64> = copied.iter().map(|e| e.id).collect();
    assert_eq!(got, vec![3, 1]);
    assert_eq!(f64::from_bits(copied[0].x), 3.0);
    s.remove_elements(&[3, 9, 1]);
    assert_eq!(ids(&s), vec![2, 4]);
}

#[test]
fn select_next_steps_through_drawing_order() {
    let order = vec![
        elem(10, 1, ElementKind::Rectangle, 0.0, 0),
        elem(20, 1, ElementKind::Rectangle, 0.0, 1),
        elem(30, 1, ElementKind::Rectangle, 0.0, 2),
    ];
    assert_eq!(select_next(&[], &[10]), None);
    assert_eq!(select_next(&order, &[]), Some(10));
    assert_eq!(select_next(&order, &[10]), Some(20));
    assert_eq!(select_next(&order, &[30, 10]), Some(10));
    assert_eq!(select_next(&order, &[99]), Some(10));
}

#[test]
fn the_topmost_hit_wins() {
    let order = vec![
        elem(1, 1, ElementKind::Rectangle, 0.0, 0),
        elem(2, 1, ElementKind::Rectangle, 5.0, 1),
        elem(3, 1, ElementKind::Rectangle, 100.0, 2),
    ];
    let under = |x: f64| move |e: &ElementData| {
        let ex = f64::from_bits(e.x);
        x >= ex && x <= ex + 10.0
    };
    assert_eq!(topmost_hit(&order, &under(7.0)), Some(2));
    assert_eq!(topmost_hit(&order, &under(1.0)), Some(1));
    assert_eq!(topmost_hit(&order, &under(50.0)), None);
}
