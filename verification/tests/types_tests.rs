use collaborate::types::{ElementKind, UndoAction};
use spacetimedb_lib::bsatn;

#[test]
fn element_kind_round_trip() {
    let kinds = [
        ElementKind::Rectangle,
        ElementKind::Ellipse,
        ElementKind::Arrow,
        ElementKind::Line,
        ElementKind::Text,
        ElementKind::Freehand,
    ];
    for kind in kinds {
        let encoded = bsatn::to_vec(&kind.tag()).unwrap();
        let decoded: ElementKind = ElementKind::from_tag(bsatn::from_slice::<u8>(&encoded).unwrap()).unwrap();
        assert_eq!(kind, decoded);
    }
}

#[test]
fn undo_action_round_trip() {
    let actions = [UndoAction::Create, UndoAction::Update, UndoAction::Delete];
    for action in actions {
        let encoded = bsatn::to_vec(&action.tag()).unwrap();
        let decoded: UndoAction = UndoAction::from_tag(bsatn::from_slice::<u8>(&encoded).unwrap()).unwrap();
        assert_eq!(action, decoded);
    }
}

#[test]
fn tags_are_declaration_indices() {
    assert_eq!(ElementKind::Rectangle.tag(), 0);
    assert_eq!(ElementKind::Freehand.tag(), 5);
    assert_eq!(ElementKind::from_tag(6), None);
    assert_eq!(UndoAction::Delete.tag(), 2);
    assert_eq!(UndoAction::from_tag(3), None);
}
