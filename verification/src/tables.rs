//! The server's tables, held in memory: rooms, elements, cursors and the
//! per-user undo log, with the identities and timestamps that reducers are
//! called with.
use vstd::prelude::*;

use crate::types::{ElementKind, UndoAction};

verus! {

/// A user's identity: the 256-bit number's bytes, least significant first
/// (`Identity::to_byte_array`).
#[derive(Clone, Copy, Debug)]
pub struct Identity {
    pub bytes: [u8; 32],
}

impl Identity {
    /// Whether two identities are the same user.
    pub fn same(&self, other: &Identity) -> (r: bool)
        ensures
            r == (self.bytes@ == other.bytes@),
    {
        let mut i: usize = 0;
        while i < 32
            invariant
                0 <= i <= 32,
                self.bytes@.len() == 32,
                other.bytes@.len() == 32,
                forall|j: int| 0 <= j < i ==> self.bytes@[j] == other.bytes@[j],
            decreases 32 - i,
        {
            if self.bytes[i] != other.bytes[i] {
                return false;
            }
            i = i + 1;
        }
        assert(self.bytes@ =~= other.bytes@);
        true
    }
}

/// A drawing room.
#[derive(Clone, Debug)]
pub struct Room {
    pub id: u64,
    pub name: String,
    pub created_by: Identity,
    /// Microseconds since the Unix epoch.
    pub created_at: i64,
}

/// A stored element. Coordinates, sizes and the rotation are IEEE-754 double
/// bits; stroke width, opacity and font size are IEEE-754 single bits;
/// `points` holds the compact point encoding.
#[derive(Clone, Debug)]
pub struct Element {
    pub id: u64,
    pub room_id: u64,
    pub kind: ElementKind,
    pub x: u64,
    pub y: u64,
    pub width: u64,
    pub height: u64,
    pub rotation: u64,
    pub points: Vec<u8>,
    pub stroke_color: u32,
    pub fill_color: u32,
    pub stroke_width: u32,
    pub opacity: u32,
    pub font_size: u32,
    pub text_content: String,
    pub z_index: i32,
    pub version: u64,
    pub updated_by: Identity,
    pub deleted: bool,
}

/// A user's cursor in a room; the position as IEEE-754 double bits.
#[derive(Clone, Debug)]
pub struct Cursor {
    pub user_id: Identity,
    pub room_id: u64,
    pub x: u64,
    pub y: u64,
    pub name: String,
    pub color: u32,
}

/// One entry of a user's undo log: the element touched and its encoded state
/// before and after.
#[derive(Clone, Debug)]
pub struct UndoEntry {
    pub id: u64,
    pub room_id: u64,
    pub user_id: Identity,
    pub action: UndoAction,
    pub element_id: u64,
    pub prev_state: Vec<u8>,
    pub next_state: Vec<u8>,
    /// Microseconds since the Unix epoch.
    pub timestamp: i64,
    pub undone: bool,
    /// The place of this entry's latest undo in the order of all undos made
    /// in the database; it orders the entries that are undone.
    pub undone_seq: u64,
}

/// The editable state of an element, as the undo log stores it.
#[derive(Clone, Debug)]
pub struct ElementSnapshot {
    pub x: u64,
    pub y: u64,
    pub width: u64,
    pub height: u64,
    pub rotation: u64,
    pub points: Vec<u8>,
    pub stroke_color: u32,
    pub fill_color: u32,
    pub stroke_width: u32,
    pub opacity: u32,
    pub font_size: u32,
    pub text_content: String,
}

/// The mathematical value of an element.
pub struct ElementView {
    pub id: u64,
    pub room_id: u64,
    pub kind: ElementKind,
    pub x: u64,
    pub y: u64,
    pub width: u64,
    pub height: u64,
    pub rotation: u64,
    pub points: Seq<u8>,
    pub stroke_color: u32,
    pub fill_color: u32,
    pub stroke_width: u32,
    pub opacity: u32,
    pub font_size: u32,
    pub text_content: Seq<char>,
    pub z_index: i32,
    pub version: u64,
    pub updated_by: Seq<u8>,
    pub deleted: bool,
}

impl View for Element {
    type V = ElementView;

    open spec fn view(&self) -> ElementView {
        ElementView {
            id: self.id,
            room_id: self.room_id,
            kind: self.kind,
            x: self.x,
            y: self.y,
            width: self.width,
            height: self.height,
            rotation: self.rotation,
            points: self.points@,
            stroke_color: self.stroke_color,
            fill_color: self.fill_color,
            stroke_width: self.stroke_width,
            opacity: self.opacity,
            font_size: self.font_size,
            text_content: self.text_content@,
            z_index: self.z_index,
            version: self.version,
            updated_by: self.updated_by.bytes@,
            deleted: self.deleted,
        }
    }
}

/// The mathematical value of a snapshot.
pub struct SnapshotView {
    pub x: u64,
    pub y: u64,
    pub width: u64,
    pub height: u64,
    pub rotation: u64,
    pub points: Seq<u8>,
    pub stroke_color: u32,
    pub fill_color: u32,
    pub stroke_width: u32,
    pub opacity: u32,
    pub font_size: u32,
    pub text_content: Seq<char>,
}

impl View for ElementSnapshot {
    type V = SnapshotView;

    open spec fn view(&self) -> SnapshotView {
        SnapshotView {
            x: self.x,
            y: self.y,
            width: self.width,
            height: self.height,
            rotation: self.rotation,
            points: self.points@,
            stroke_color: self.stroke_color,
            fill_color: self.fill_color,
            stroke_width: self.stroke_width,
            opacity: self.opacity,
            font_size: self.font_size,
            text_content: self.text_content@,
        }
    }
}

/// The mathematical value of a room.
pub struct RoomView {
    pub id: u64,
    pub name: Seq<char>,
    pub created_by: Seq<u8>,
    pub created_at: i64,
}

impl View for Room {
    type V = RoomView;

    open spec fn view(&self) -> RoomView {
        RoomView { id: self.id, name: self.name@, created_by: self.created_by.bytes@, created_at: self.created_at }
    }
}

/// The mathematical value of a cursor.
pub struct CursorView {
    pub user_id: Seq<u8>,
    pub room_id: u64,
    pub x: u64,
    pub y: u64,
    pub name: Seq<char>,
    pub color: u32,
}

impl View for Cursor {
    type V = CursorView;

    open spec fn view(&self) -> CursorView {
        CursorView {
            user_id: self.user_id.bytes@,
            room_id: self.room_id,
            x: self.x,
            y: self.y,
            name: self.name@,
            color: self.color,
        }
    }
}

/// The mathematical value of an undo entry.
pub struct UndoEntryView {
    pub id: u64,
    pub room_id: u64,
    pub user_id: Seq<u8>,
    pub action: UndoAction,
    pub element_id: u64,
    pub prev_state: Seq<u8>,
    pub next_state: Seq<u8>,
    pub timestamp: i64,
    pub undone: bool,
    pub undone_seq: u64,
}

impl View for UndoEntry {
    type V = UndoEntryView;

    open spec fn view(&self) -> UndoEntryView {
        UndoEntryView {
            id: self.id,
            room_id: self.room_id,
            user_id: self.user_id.bytes@,
            action: self.action,
            element_id: self.element_id,
            prev_state: self.prev_state@,
            next_state: self.next_state@,
            timestamp: self.timestamp,
            undone: self.undone,
            undone_seq: self.undone_seq,
        }
    }
}

/// The editable state of an element.
pub open spec fn snapshot_of(e: ElementView) -> SnapshotView {
    SnapshotView {
        x: e.x,
        y: e.y,
        width: e.width,
        height: e.height,
        rotation: e.rotation,
        points: e.points,
        stroke_color: e.stroke_color,
        fill_color: e.fill_color,
        stroke_width: e.stroke_width,
        opacity: e.opacity,
        font_size: e.font_size,
        text_content: e.text_content,
    }
}

/// An element with its editable state replaced by a snapshot's.
pub open spec fn with_snapshot(e: ElementView, s: SnapshotView) -> ElementView {
    ElementView {
        x: s.x,
        y: s.y,
        width: s.width,
        height: s.height,
        rotation: s.rotation,
        points: s.points,
        stroke_color: s.stroke_color,
        fill_color: s.fill_color,
        stroke_width: s.stroke_width,
        opacity: s.opacity,
        font_size: s.font_size,
        text_content: s.text_content,
        ..e
    }
}

/// The position of the element with this id in a table.
pub open spec fn element_pos(els: Seq<ElementView>, id: u64) -> Option<int> {
    if exists|i: int| 0 <= i < els.len() && #[trigger] els[i].id == id {
        Some(choose|i: int| 0 <= i < els.len() && #[trigger] els[i].id == id)
    } else {
        None
    }
}

/// The mathematical value of the database.
pub struct DbView {
    pub rooms: Seq<RoomView>,
    pub elements: Seq<ElementView>,
    pub cursors: Seq<CursorView>,
    pub undo_entries: Seq<UndoEntryView>,
    pub next_room_id: u64,
    pub next_element_id: u64,
    pub next_undo_id: u64,
    pub next_undo_seq: u64,
}

/// Primary keys are unique and below the next id to hand out; every undone
/// entry was undone before the next undo to come; every user has at most one
/// cursor.
pub open spec fn db_wf(v: DbView) -> bool {
    &&& forall|i: int, j: int|
        0 <= i < j < v.rooms.len() ==> #[trigger] v.rooms[i].id != #[trigger] v.rooms[j].id
    &&& forall|i: int| 0 <= i < v.rooms.len() ==> #[trigger] v.rooms[i].id < v.next_room_id
    &&& forall|i: int, j: int|
        0 <= i < j < v.elements.len() ==> #[trigger] v.elements[i].id != #[trigger] v.elements[j].id
    &&& forall|i: int| 0 <= i < v.elements.len() ==> #[trigger] v.elements[i].id < v.next_element_id
    &&& forall|i: int, j: int|
        0 <= i < j < v.undo_entries.len() ==> #[trigger] v.undo_entries[i].id
            != #[trigger] v.undo_entries[j].id
    &&& forall|i: int|
        0 <= i < v.undo_entries.len() ==> #[trigger] v.undo_entries[i].id < v.next_undo_id
    &&& forall|i: int|
        0 <= i < v.undo_entries.len() && #[trigger] v.undo_entries[i].undone ==> v.undo_entries[i].undone_seq
            < v.next_undo_seq
    &&& forall|i: int, j: int|
        0 <= i < j < v.cursors.len() ==> #[trigger] v.cursors[i].user_id
            != #[trigger] v.cursors[j].user_id
}

} // verus!
