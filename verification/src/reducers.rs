//! The server's reducers: the transactions clients call, each taking the
//! caller's identity (and the time of the call) with its arguments, checking
//! them, and updating the tables.
use vstd::prelude::*;
use vstd::string::*;

use crate::tables::{
    db_wf, element_pos, snapshot_of, with_snapshot, Cursor, CursorView, DbView, Element,
    ElementSnapshot, ElementView, Identity, Room, RoomView, SnapshotView, UndoEntry, UndoEntryView,
};
use crate::text::{chars_vec, decimal, is_white_space, is_whitespace, push_decimal};
use crate::types::{ElementKind, UndoAction};

verus! {

/// The whole database: the four tables and the next value of each
/// auto-incremented id.
pub struct Database {
    rooms: Vec<Room>,
    elements: Vec<Element>,
    cursors: Vec<Cursor>,
    undo_entries: Vec<UndoEntry>,
    next_room_id: u64,
    next_element_id: u64,
    next_undo_id: u64,
    next_undo_seq: u64,
}

impl View for Database {
    type V = DbView;

    closed spec fn view(&self) -> DbView {
        DbView {
            rooms: self.rooms@.map_values(|r: Room| r@),
            elements: self.elements@.map_values(|e: Element| e@),
            cursors: self.cursors@.map_values(|c: Cursor| c@),
            undo_entries: self.undo_entries@.map_values(|u: UndoEntry| u@),
            next_room_id: self.next_room_id,
            next_element_id: self.next_element_id,
            next_undo_id: self.next_undo_id,
            next_undo_seq: self.next_undo_seq,
        }
    }
}

impl Database {
    /// The table invariant holds.
    pub open spec fn wf(&self) -> bool {
        db_wf(self@)
    }

    /// The position of the room with this id.
    pub open spec fn room_index(&self, id: u64) -> Option<int> {
        if exists|i: int| 0 <= i < self@.rooms.len() && #[trigger] self@.rooms[i].id == id {
            Some(choose|i: int| 0 <= i < self@.rooms.len() && #[trigger] self@.rooms[i].id == id)
        } else {
            None
        }
    }

    /// The position of the element with this id.
    pub open spec fn element_index(&self, id: u64) -> Option<int> {
        element_pos(self@.elements, id)
    }

    /// The position of this user's cursor.
    pub open spec fn cursor_index(&self, user: Seq<u8>) -> Option<int> {
        if exists|i: int| 0 <= i < self@.cursors.len() && #[trigger] self@.cursors[i].user_id == user {
            Some(choose|i: int| 0 <= i < self@.cursors.len() && #[trigger] self@.cursors[i].user_id == user)
        } else {
            None
        }
    }

    /// An empty database whose id sequences start at one.
    pub fn new() -> (db: Database)
        ensures
            db.wf(),
            db@.rooms.len() == 0,
            db@.elements.len() == 0,
            db@.cursors.len() == 0,
            db@.undo_entries.len() == 0,
            db@.next_room_id == 1,
            db@.next_element_id == 1,
            db@.next_undo_id == 1,
            db@.next_undo_seq == 1,
    {
        let db = Database {
            rooms: Vec::new(),
            elements: Vec::new(),
            cursors: Vec::new(),
            undo_entries: Vec::new(),
            next_room_id: 1,
            next_element_id: 1,
            next_undo_id: 1,
            next_undo_seq: 1,
        };
        assert(db@.rooms =~= Seq::<RoomView>::empty());
        assert(db@.elements =~= Seq::<ElementView>::empty());
        assert(db@.cursors =~= Seq::<CursorView>::empty());
        assert(db@.undo_entries =~= Seq::<UndoEntryView>::empty());
        db
    }

    /// The rooms table.
    pub fn rooms(&self) -> (r: &[Room])
        ensures
            r@.map_values(|x: Room| x@) == self@.rooms,
    {
        self.rooms.as_slice()
    }

    /// The elements table.
    pub fn elements(&self) -> (r: &[Element])
        ensures
            r@.map_values(|x: Element| x@) == self@.elements,
    {
        self.elements.as_slice()
    }

    /// The cursors table.
    pub fn cursors(&self) -> (r: &[Cursor])
        ensures
            r@.map_values(|x: Cursor| x@) == self@.cursors,
    {
        self.cursors.as_slice()
    }

    /// The undo log.
    pub fn undo_entries(&self) -> (r: &[UndoEntry])
        ensures
            r@.map_values(|x: UndoEntry| x@) == self@.undo_entries,
    {
        self.undo_entries.as_slice()
    }

    /// Finds the room with this id.
    pub fn find_room(&self, id: u64) -> (r: Option<usize>)
        requires
            self.wf(),
        ensures
            r matches Some(i) ==> self.room_index(id) == Some(i as int),
            r is None ==> self.room_index(id) is None,
    {
        let n = self.rooms.len();
        let mut i: usize = 0;
        while i < n
            invariant
                n == self.rooms@.len(),
                n == self@.rooms.len(),
                self.wf(),
                0 <= i <= n,
                forall|j: int| 0 <= j < i ==> #[trigger] self@.rooms[j].id != id,
            decreases n - i,
        {
            if self.rooms[i].id == id {
                assert(self@.rooms[i as int].id == id);
                proof {
                    let j = choose|j: int| 0 <= j < n && #[trigger] self@.rooms[j].id == id;
                    if j < i {
                        assert(self@.rooms[j].id != self@.rooms[i as int].id);
                    } else if j > i {
                        assert(self@.rooms[i as int].id != self@.rooms[j].id);
                    }
                }
                return Some(i);
            }
            i = i + 1;
        }
        None
    }

    /// Finds the element with this id.
    pub fn find_element(&self, id: u64) -> (r: Option<usize>)
        requires
            self.wf(),
        ensures
            r matches Some(i) ==> self.element_index(id) == Some(i as int),
            r is None ==> self.element_index(id) is None,
    {
        let n = self.elements.len();
        let mut i: usize = 0;
        while i < n
            invariant
                n == self.elements@.len(),
                n == self@.elements.len(),
                self.wf(),
                0 <= i <= n,
                forall|j: int| 0 <= j < i ==> #[trigger] self@.elements[j].id != id,
            decreases n - i,
        {
            if self.elements[i].id == id {
                assert(self@.elements[i as int].id == id);
                proof {
                    let j = choose|j: int| 0 <= j < n && #[trigger] self@.elements[j].id == id;
                    if j < i {
                        assert(self@.elements[j].id != self@.elements[i as int].id);
                    } else if j > i {
                        assert(self@.elements[i as int].id != self@.elements[j].id);
                    }
                }
                return Some(i);
            }
            i = i + 1;
        }
        None
    }

    /// Finds this user's cursor.
    pub fn find_cursor(&self, user: &Identity) -> (r: Option<usize>)
        requires
            self.wf(),
        ensures
            r matches Some(i) ==> self.cursor_index(user.bytes@) == Some(i as int),
            r is None ==> self.cursor_index(user.bytes@) is None,
    {
        let n = self.cursors.len();
        let mut i: usize = 0;
        while i < n
            invariant
                n == self.cursors@.len(),
                n == self@.cursors.len(),
                self.wf(),
                0 <= i <= n,
                forall|j: int| 0 <= j < i ==> #[trigger] self@.cursors[j].user_id != user.bytes@,
            decreases n - i,
        {
            if self.cursors[i].user_id.same(user) {
                assert(self@.cursors[i as int].user_id == user.bytes@);
                proof {
                    let j = choose|j: int|
                        0 <= j < n && #[trigger] self@.cursors[j].user_id == user.bytes@;
                    if j < i {
                        assert(self@.cursors[j].user_id != self@.cursors[i as int].user_id);
                    } else if j > i {
                        assert(self@.cursors[i as int].user_id != self@.cursors[j].user_id);
                    }
                }
                return Some(i);
            }
            i = i + 1;
        }
        None
    }
}


/// The colour of a user's cursor: opaque, with red, green and blue taken from
/// the identity's three least significant bytes, each with its high bit set.
pub open spec fn spec_cursor_color(id: Seq<u8>) -> u32 {
    let r = ((id[0] as u32) | 0x80) & 0xFF;
    let g = ((id[1] as u32) | 0x80) & 0xFF;
    let b = ((id[2] as u32) | 0x80) & 0xFF;
    0xFF00_0000u32 | (r << 16) | (g << 8) | b
}

/// The colour of a user's cursor.
pub fn cursor_color_from_identity(id: &Identity) -> (c: u32)
    ensures
        c == spec_cursor_color(id.bytes@),
{
    let r = (id.bytes[0] as u32 | 0x80) & 0xFF;
    let g = (id.bytes[1] as u32 | 0x80) & 0xFF;
    let b = (id.bytes[2] as u32 | 0x80) & 0xFF;
    0xFF00_0000u32 | (r << 16) | (g << 8) | b
}

/// Cursor colours are opaque and bright: alpha is `0xFF` and every colour
/// channel is at least `0x80`.
pub proof fn lemma_cursor_color_bright(id: Seq<u8>)
    requires
        id.len() == 32,
    ensures
        spec_cursor_color(id) >> 24 == 0xFF,
        (spec_cursor_color(id) >> 16) & 0xFF >= 0x80,
        (spec_cursor_color(id) >> 8) & 0xFF >= 0x80,
        spec_cursor_color(id) & 0xFF >= 0x80,
{
    let r0 = id[0] as u32;
    let g0 = id[1] as u32;
    let b0 = id[2] as u32;
    assert(r0 < 256 && g0 < 256 && b0 < 256);
    let c = spec_cursor_color(id);
    assert(c == 0xFF00_0000u32 | (((r0 | 0x80) & 0xFF) << 16) | (((g0 | 0x80) & 0xFF) << 8) | ((b0
        | 0x80) & 0xFF));
    assert(r0 < 256 && g0 < 256 && b0 < 256 ==> {
        let c = 0xFF00_0000u32 | (((r0 | 0x80) & 0xFF) << 16) | (((g0 | 0x80) & 0xFF) << 8) | ((b0
            | 0x80) & 0xFF);
        &&& c >> 24 == 0xFF
        &&& (c >> 16) & 0xFF >= 0x80
        &&& (c >> 8) & 0xFF >= 0x80
        &&& c & 0xFF >= 0x80
    }) by (bit_vector);
}

/// `Room <id> does not exist`.
pub open spec fn room_missing_text(id: u64) -> Seq<char> {
    "Room "@ + decimal(id as nat) + " does not exist"@
}

/// `Element <id> not found`.
pub open spec fn element_missing_text(id: u64) -> Seq<char> {
    "Element "@ + decimal(id as nat) + " not found"@
}

/// `Element <id> has been deleted`.
pub open spec fn element_deleted_text(id: u64) -> Seq<char> {
    "Element "@ + decimal(id as nat) + " has been deleted"@
}

/// `Element <id> is already deleted`.
pub open spec fn element_already_deleted_text(id: u64) -> Seq<char> {
    "Element "@ + decimal(id as nat) + " is already deleted"@
}

fn message_with_id(before: &str, id: u64, after: &str) -> (s: String)
    ensures
        s@ == before@ + decimal(id as nat) + after@,
{
    let mut s = String::from_str(before);
    push_decimal(&mut s, id);
    s.append(after);
    s
}

/// Whether every character of a name is white space (so that trimming it
/// leaves nothing).
pub open spec fn blank(s: Seq<char>) -> bool {
    forall|i: int| 0 <= i < s.len() ==> is_white_space(#[trigger] s[i])
}

fn is_blank(s: &str) -> (r: bool)
    ensures
        r == blank(s@),
{
    let cs = chars_vec(s);
    let n = cs.len();
    let mut i: usize = 0;
    while i < n
        invariant
            n == cs@.len(),
            cs@ == s@,
            0 <= i <= n,
            forall|j: int| 0 <= j < i ==> is_white_space(#[trigger] cs@[j]),
        decreases n - i,
    {
        if !is_whitespace(cs[i]) {
            return false;
        }
        i = i + 1;
    }
    true
}

impl Database {
    /// Lifecycle reducer for a client that disconnects: its cursor goes away.
    pub fn client_disconnected(&mut self, sender: &Identity)
        requires
            old(self).wf(),
        ensures
            final(self).wf(),
            match old(self).cursor_index(sender.bytes@) {
                None => final(self)@ == old(self)@,
                Some(i) => final(self)@ == DbView { cursors: old(self)@.cursors.remove(i), ..old(self)@ },
            },
    {
        match self.find_cursor(sender) {
            None => {},
            Some(i) => {
                let ghost before = self@;
                let _ = self.cursors.remove(i);
                assert(self@.cursors =~= before.cursors.remove(i as int));
                assert(self@ =~= DbView { cursors: before.cursors.remove(i as int), ..before });
                assert forall|a: int, b: int| 0 <= a < b < self@.cursors.len() implies #[trigger] self@.cursors[a].user_id
                    != #[trigger] self@.cursors[b].user_id by {
                    let a0 = if a < i { a } else { a + 1 };
                    let b0 = if b < i { b } else { b + 1 };
                    assert(self@.cursors[a] == before.cursors[a0]);
                    assert(self@.cursors[b] == before.cursors[b0]);
                    assert(before.cursors[a0].user_id != before.cursors[b0].user_id);
                }
            },
        }
    }

    /// Creates a room named `name`, unless the name is blank.
    pub fn create_room(&mut self, sender: &Identity, now: i64, name: String) -> (r: Result<(), String>)
        requires
            old(self).wf(),
            old(self)@.next_room_id < u64::MAX,
        ensures
            final(self).wf(),
            blank(name@) ==> (r matches Err(e) && e@ == "Room name must not be empty"@ && final(self)@
                == old(self)@),
            !blank(name@) ==> (r is Ok && final(self)@ == DbView {
                rooms: old(self)@.rooms.push(
                    RoomView { id: old(self)@.next_room_id, name: name@, created_by: sender.bytes@, created_at: now },
                ),
                next_room_id: (old(self)@.next_room_id + 1) as u64,
                ..old(self)@
            }),
    {
        if is_blank(name.as_str()) {
            return Err(String::from_str("Room name must not be empty"));
        }
        let ghost before = self@;
        let id = self.next_room_id;
        self.rooms.push(Room { id, name, created_by: *sender, created_at: now });
        self.next_room_id = id + 1;
        assert(self@.rooms =~= before.rooms.push(
            RoomView { id, name: self.rooms@.last().name@, created_by: sender.bytes@, created_at: now },
        ));
        Ok(())
    }

    /// Puts the caller's cursor, fresh at the origin, into an existing room,
    /// replacing any cursor the caller had.
    pub fn join_room(&mut self, sender: &Identity, room_id: u64, name: String) -> (r: Result<(), String>)
        requires
            old(self).wf(),
        ensures
            final(self).wf(),
            old(self).room_index(room_id) is None ==> (r matches Err(e) && e@ == room_missing_text(room_id)
                && final(self)@ == old(self)@),
            old(self).room_index(room_id) is Some ==> (r is Ok && final(self)@ == DbView {
                cursors: (match old(self).cursor_index(sender.bytes@) {
                    None => old(self)@.cursors,
                    Some(i) => old(self)@.cursors.remove(i),
                }).push(
                    CursorView {
                        user_id: sender.bytes@,
                        room_id,
                        x: 0,
                        y: 0,
                        name: name@,
                        color: spec_cursor_color(sender.bytes@),
                    },
                ),
                ..old(self)@
            }),
    {
        if self.find_room(room_id).is_none() {
            return Err(message_with_id("Room ", room_id, " does not exist"));
        }
        let color = cursor_color_from_identity(sender);
        self.client_disconnected(sender);
        let ghost mid = self@;
        proof {
            assert forall|i: int| 0 <= i < mid.cursors.len() implies #[trigger] mid.cursors[i].user_id
                != sender.bytes@ by {
                if mid.cursors[i].user_id == sender.bytes@ {
                    assert(exists|j: int| 0 <= j < old(self)@.cursors.len() && #[trigger] old(self)@.cursors[j].user_id == sender.bytes@) by {
                        match old(self).cursor_index(sender.bytes@) {
                            None => {
                                assert(old(self)@.cursors[i].user_id == sender.bytes@);
                            },
                            Some(k) => {
                                let i0 = if i < k { i } else { i + 1 };
                                assert(old(self)@.cursors[i0].user_id == sender.bytes@);
                                assert(old(self)@.cursors[k].user_id == sender.bytes@);
                                if i0 < k {
                                    assert(old(self)@.cursors[i0].user_id != old(self)@.cursors[k].user_id);
                                } else {
                                    assert(old(self)@.cursors[k].user_id != old(self)@.cursors[i0].user_id);
                                }
                            },
                        }
                    }
                }
            }
        }
        self.cursors.push(Cursor { user_id: *sender, room_id, x: 0, y: 0, name, color });
        assert(self@.cursors =~= mid.cursors.push(
            CursorView { user_id: sender.bytes@, room_id, x: 0, y: 0, name: self.cursors@.last().name@, color },
        ));
        Ok(())
    }

    /// Moves the caller's cursor (to a room and a position), if it has one.
    pub fn update_cursor(&mut self, sender: &Identity, room_id: u64, x: u64, y: u64) -> (r: Result<(), String>)
        requires
            old(self).wf(),
        ensures
            final(self).wf(),
            match old(self).cursor_index(sender.bytes@) {
                None => r matches Err(e) && e@ == "Not in any room; call join_room first"@
                    && final(self)@ == old(self)@,
                Some(i) => r is Ok && final(self)@ == DbView {
                    cursors: old(self)@.cursors.update(i, CursorView { room_id, x, y, ..old(self)@.cursors[i] }),
                    ..old(self)@
                },
            },
    {
        match self.find_cursor(sender) {
            None => Err(String::from_str("Not in any room; call join_room first")),
            Some(i) => {
                let ghost before = self@;
                let mut c = self.cursors.remove(i);
                c.room_id = room_id;
                c.x = x;
                c.y = y;
                self.cursors.insert(i, c);
                assert(self@.cursors =~= before.cursors.update(
                    i as int,
                    CursorView { room_id, x, y, ..before.cursors[i as int] },
                ));
                Ok(())
            },
        }
    }
}


/// The greatest z-index among the live (not deleted) elements of a room.
pub open spec fn max_live_z(els: Seq<ElementView>, room_id: u64) -> Option<i32>
    decreases els.len(),
{
    if els.len() == 0 {
        None
    } else {
        let rest = max_live_z(els.drop_last(), room_id);
        let e = els.last();
        if e.room_id == room_id && !e.deleted {
            match rest {
                None => Some(e.z_index),
                Some(m) => Some(if e.z_index > m { e.z_index } else { m }),
            }
        } else {
            rest
        }
    }
}

/// The z-index a new element of a room gets: one above the topmost live
/// element, or 0 in a room with none.
pub open spec fn next_z(els: Seq<ElementView>, room_id: u64) -> int {
    match max_live_z(els, room_id) {
        Some(m) => m + 1,
        None => 0,
    }
}

/// The greatest live z-index of a room bounds every live element of the room
/// and is one of them.
pub proof fn lemma_max_live_z(els: Seq<ElementView>, room_id: u64)
    ensures
        max_live_z(els, room_id) is None <==> (forall|i: int|
            0 <= i < els.len() ==> !(#[trigger] els[i].room_id == room_id && !els[i].deleted)),
        max_live_z(els, room_id) matches Some(m) ==> (forall|i: int|
            0 <= i < els.len() && #[trigger] els[i].room_id == room_id && !els[i].deleted ==> els[i].z_index <= m),
        max_live_z(els, room_id) matches Some(m) ==> (exists|i: int|
            0 <= i < els.len() && #[trigger] els[i].room_id == room_id && !els[i].deleted && els[i].z_index == m),
    decreases els.len(),
{
    if els.len() > 0 {
        let init = els.drop_last();
        lemma_max_live_z(init, room_id);
        assert forall|i: int| 0 <= i < init.len() implies #[trigger] init[i] == els[i] by {}
        let last = els.len() - 1;
        assert(els[last] == els.last());
        if max_live_z(els, room_id) is None {
            assert forall|i: int| 0 <= i < els.len() implies !(#[trigger] els[i].room_id == room_id
                && !els[i].deleted) by {
                if i < last {
                    assert(init[i] == els[i]);
                    assert(!(init[i].room_id == room_id && !init[i].deleted));
                }
            }
        } else {
            let m = max_live_z(els, room_id)->0;
            assert forall|i: int| 0 <= i < els.len() && #[trigger] els[i].room_id == room_id
                && !els[i].deleted implies els[i].z_index <= m by {
                if i < last {
                    assert(init[i] == els[i]);
                    assert(init[i].room_id == room_id && !init[i].deleted);
                }
            }
        }
        if let Some(m) = max_live_z(els, room_id) {
            if els.last().room_id == room_id && !els.last().deleted && m == els.last().z_index {
                assert(els[last].room_id == room_id && !els[last].deleted && els[last].z_index == m);
            } else {
                let k = choose|k: int| 0 <= k < init.len() && #[trigger] init[k].room_id == room_id
                    && !init[k].deleted && init[k].z_index == m;
                assert(init[k] == els[k]);
            }
        }
    }
}

/// A new element of a room is drawn above every live element already in it.
pub proof fn lemma_next_z_on_top(els: Seq<ElementView>, room_id: u64, i: int)
    requires
        0 <= i < els.len(),
        els[i].room_id == room_id,
        !els[i].deleted,
    ensures
        els[i].z_index < next_z(els, room_id),
{
    lemma_max_live_z(els, room_id);
}

fn next_z_index(els: &Vec<Element>, room_id: u64) -> (z: i32)
    requires
        max_live_z(els@.map_values(|e: Element| e@), room_id) matches Some(m) ==> m < i32::MAX,
    ensures
        z == next_z(els@.map_values(|e: Element| e@), room_id),
{
    let ghost v = els@.map_values(|e: Element| e@);
    let n = els.len();
    let mut best: Option<i32> = None;
    let mut i: usize = 0;
    while i < n
        invariant
            n == els@.len(),
            v == els@.map_values(|e: Element| e@),
            0 <= i <= n,
            best == max_live_z(v.subrange(0, i as int), room_id),
        decreases n - i,
    {
        let e = &els[i];
        assert(v.subrange(0, i + 1).drop_last() =~= v.subrange(0, i as int));
        assert(v.subrange(0, i + 1).last() == e@);
        if e.room_id == room_id && !e.deleted {
            best = match best {
                None => Some(e.z_index),
                Some(m) => Some(if e.z_index > m { e.z_index } else { m }),
            };
        }
        i = i + 1;
    }
    assert(v.subrange(0, n as int) =~= v);
    match best {
        Some(m) => m + 1,
        None => 0,
    }
}

/// The editable state of an element, copied out.
pub fn snapshot(e: &Element) -> (s: ElementSnapshot)
    ensures
        s@ == snapshot_of(e@),
{
    let points = e.points.clone();
    assert(points@ =~= e.points@);
    ElementSnapshot {
        x: e.x,
        y: e.y,
        width: e.width,
        height: e.height,
        rotation: e.rotation,
        points,
        stroke_color: e.stroke_color,
        fill_color: e.fill_color,
        stroke_width: e.stroke_width,
        opacity: e.opacity,
        font_size: e.font_size,
        text_content: e.text_content.clone(),
    }
}


/// An encoder of snapshots called on `s` may give back bytes `b`.
pub open spec fn encodes<E: Fn(&ElementSnapshot) -> Vec<u8>>(enc: E, s: SnapshotView, b: Seq<u8>) -> bool {
    exists|x: ElementSnapshot, y: Vec<u8>| x@ == s && y@ == b && #[trigger] enc.ensures((&x,), y)
}

/// The element `create_element` inserts.
pub open spec fn created_element(
    old: DbView,
    sender: Seq<u8>,
    room_id: u64,
    kind: ElementKind,
    x: u64,
    y: u64,
    width: u64,
    height: u64,
    stroke_color: u32,
    fill_color: u32,
    stroke_width: u32,
    opacity: u32,
    font_size: u32,
    text_content: Seq<char>,
    points: Seq<u8>,
) -> ElementView {
    ElementView {
        id: old.next_element_id,
        room_id,
        kind,
        x,
        y,
        width,
        height,
        rotation: 0,
        points,
        stroke_color,
        fill_color,
        stroke_width,
        opacity,
        font_size,
        text_content,
        z_index: next_z(old.elements, room_id) as i32,
        version: 1,
        updated_by: sender,
        deleted: false,
    }
}

/// What a successful `create_element` does: the new element `e`, which
/// takes the next element id, is appended, and the caller's undo log gets a
/// creation entry whose state after is an encoding of `e`'s editable state.
pub open spec fn create_outcome<E: Fn(&ElementSnapshot) -> Vec<u8>>(
    enc: E,
    old: DbView,
    new: DbView,
    sender: Seq<u8>,
    now: i64,
    e: ElementView,
) -> bool {
    let b = new.undo_entries.last().next_state;
    &&& e.id == old.next_element_id
    &&& encodes(enc, snapshot_of(e), b)
    &&& new == (DbView {
        elements: old.elements.push(e),
        undo_entries: old.undo_entries.push(
            UndoEntryView {
                id: old.next_undo_id,
                room_id: e.room_id,
                user_id: sender,
                action: UndoAction::Create,
                element_id: e.id,
                prev_state: Seq::empty(),
                next_state: b,
                timestamp: now,
                undone: false,
                undone_seq: 0,
            },
        ),
        next_element_id: (old.next_element_id + 1) as u64,
        next_undo_id: (old.next_undo_id + 1) as u64,
        ..old
    })
}

/// A successful `create_element` appends one element that carries each
/// argument in its own field: the room, kind, position, size, stroke and
/// fill colours, stroke width, opacity, font size, text and points are the
/// ones passed in; it takes the next element id, starts unrotated at
/// version 1, live, last updated by the caller; the elements before it are
/// left as they were.
pub proof fn law_created_element_keeps_its_arguments<E: Fn(&ElementSnapshot) -> Vec<u8>>(
    enc: E,
    db0: DbView,
    db1: DbView,
    sender: Seq<u8>,
    now: i64,
    room_id: u64,
    kind: ElementKind,
    x: u64,
    y: u64,
    width: u64,
    height: u64,
    stroke_color: u32,
    fill_color: u32,
    stroke_width: u32,
    opacity: u32,
    font_size: u32,
    text_content: Seq<char>,
    points: Seq<u8>,
)
    requires
        create_outcome(
            enc,
            db0,
            db1,
            sender,
            now,
            created_element(
                db0,
                sender,
                room_id,
                kind,
                x,
                y,
                width,
                height,
                stroke_color,
                fill_color,
                stroke_width,
                opacity,
                font_size,
                text_content,
                points,
            ),
        ),
    ensures
        db1.elements.len() == db0.elements.len() + 1,
        db1.elements.drop_last() == db0.elements,
        ({
            let e = db1.elements.last();
            &&& e.id == db0.next_element_id
            &&& e.room_id == room_id
            &&& e.kind == kind
            &&& e.x == x
            &&& e.y == y
            &&& e.width == width
            &&& e.height == height
            &&& e.rotation == 0
            &&& e.stroke_color == stroke_color
            &&& e.fill_color == fill_color
            &&& e.stroke_width == stroke_width
            &&& e.opacity == opacity
            &&& e.font_size == font_size
            &&& e.text_content == text_content
            &&& e.points == points
            &&& e.version == 1
            &&& e.updated_by == sender
            &&& !e.deleted
        }),
{
    assert(db1.elements.drop_last() =~= db0.elements);
}

impl Database {
    fn encode_snapshot<E: Fn(&ElementSnapshot) -> Vec<u8>>(e: &Element, encode: &E) -> (b: Vec<u8>)
        requires
            forall|s: &ElementSnapshot| #[trigger] encode.requires((s,)),
        ensures
            encodes(*encode, snapshot_of(e@), b@),
    {
        let s = snapshot(e);
        let b = encode(&s);
        b
    }

    /// Adds an element to an existing room, on top of its live elements, and
    /// records its creation in the caller's undo log.
    pub fn create_element<E: Fn(&ElementSnapshot) -> Vec<u8>>(
        &mut self,
        sender: &Identity,
        now: i64,
        room_id: u64,
        kind: ElementKind,
        x: u64,
        y: u64,
        width: u64,
        height: u64,
        stroke_color: u32,
        fill_color: u32,
        stroke_width: u32,
        opacity: u32,
        font_size: u32,
        text_content: String,
        points: Vec<u8>,
        encode: &E,
    ) -> (r: Result<(), String>)
        requires
            old(self).wf(),
            old(self)@.next_element_id < u64::MAX,
            old(self)@.next_undo_id < u64::MAX,
            max_live_z(old(self)@.elements, room_id) matches Some(m) ==> m < i32::MAX,
            forall|s: &ElementSnapshot| #[trigger] encode.requires((s,)),
        ensures
            final(self).wf(),
            old(self).room_index(room_id) is None ==> (r matches Err(e) && e@ == room_missing_text(room_id)
                && final(self)@ == old(self)@),
            old(self).room_index(room_id) is Some ==> (r is Ok && create_outcome(
                *encode,
                old(self)@,
                final(self)@,
                sender.bytes@,
                now,
                created_element(
                    old(self)@,
                    sender.bytes@,
                    room_id,
                    kind,
                    x,
                    y,
                    width,
                    height,
                    stroke_color,
                    fill_color,
                    stroke_width,
                    opacity,
                    font_size,
                    text_content@,
                    points@,
                ),
            )),
    {
        if self.find_room(room_id).is_none() {
            return Err(message_with_id("Room ", room_id, " does not exist"));
        }
        let ghost before = self@;
        let z_index = next_z_index(&self.elements, room_id);
        let id = self.next_element_id;
        let elem = Element {
            id,
            room_id,
            kind,
            x,
            y,
            width,
            height,
            rotation: 0,
            points,
            stroke_color,
            fill_color,
            stroke_width,
            opacity,
            font_size,
            text_content,
            z_index,
            version: 1,
            updated_by: *sender,
            deleted: false,
        };
        let next_state = Self::encode_snapshot(&elem, encode);
        let ghost ev = elem@;
        self.elements.push(elem);
        self.next_element_id = id + 1;
        let uid = self.next_undo_id;
        self.undo_entries.push(
            UndoEntry {
                id: uid,
                room_id,
                user_id: *sender,
                action: UndoAction::Create,
                element_id: id,
                prev_state: Vec::new(),
                next_state,
                timestamp: now,
                undone: false,
                undone_seq: 0,
            },
        );
        self.next_undo_id = uid + 1;
        assert(self@.elements =~= before.elements.push(ev));
        assert(self@.undo_entries =~= before.undo_entries.push(self.undo_entries@.last()@));
        assert(self.undo_entries@.last()@.prev_state =~= Seq::<u8>::empty());
        proof {
            assert(self@.cursors == before.cursors);
            assert(self@.rooms == before.rooms);
            let els = self@.elements;
            let n = before.elements.len();
            assert forall|a: int, b: int| 0 <= a < b < els.len() implies #[trigger] els[a].id
                != #[trigger] els[b].id by {
                assert(els[a] == before.elements[a]);
                if b < n {
                    assert(els[b] == before.elements[b]);
                }
            }
            assert forall|a: int| 0 <= a < els.len() implies #[trigger] els[a].id < self@.next_element_id by {
                if a < n {
                    assert(els[a] == before.elements[a]);
                }
            }
            let us = self@.undo_entries;
            let m = before.undo_entries.len();
            assert forall|a: int, b: int| 0 <= a < b < us.len() implies #[trigger] us[a].id
                != #[trigger] us[b].id by {
                assert(us[a] == before.undo_entries[a]);
                if b < m {
                    assert(us[b] == before.undo_entries[b]);
                }
            }
            assert forall|a: int| 0 <= a < us.len() implies #[trigger] us[a].id < self@.next_undo_id by {
                if a < m {
                    assert(us[a] == before.undo_entries[a]);
                }
            }
        }
        Ok(())
    }
}


/// An element given new editable state, one version on, last updated by
/// `sender`.
pub open spec fn edited(e: ElementView, s: SnapshotView, sender: Seq<u8>) -> ElementView {
    ElementView { version: (e.version + 1) as u64, updated_by: sender, ..with_snapshot(e, s) }
}

/// An element with its deleted flag set to `deleted`, one version on, last
/// updated by `sender`.
pub open spec fn flagged(e: ElementView, sender: Seq<u8>, deleted: bool) -> ElementView {
    ElementView { deleted, updated_by: sender, version: (e.version + 1) as u64, ..e }
}

/// The log entry a user's change to an element adds.
pub open spec fn change_entry(
    old: DbView,
    sender: Seq<u8>,
    now: i64,
    action: UndoAction,
    e: ElementView,
    prev_state: Seq<u8>,
    next_state: Seq<u8>,
) -> UndoEntryView {
    UndoEntryView {
        id: old.next_undo_id,
        room_id: e.room_id,
        user_id: sender,
        action,
        element_id: e.id,
        prev_state,
        next_state,
        timestamp: now,
        undone: false,
        undone_seq: 0,
    }
}

/// What a successful `update_element` does to element `i`: it takes the
/// editable state `s`, one version on, and the caller's undo log gets an
/// update entry holding encodings of the state before and after.
pub open spec fn update_outcome<E: Fn(&ElementSnapshot) -> Vec<u8>>(
    enc: E,
    old: DbView,
    new: DbView,
    sender: Seq<u8>,
    now: i64,
    i: int,
    s: SnapshotView,
) -> bool {
    let e = old.elements[i];
    let entry = new.undo_entries.last();
    &&& encodes(enc, snapshot_of(e), entry.prev_state)
    &&& encodes(enc, s, entry.next_state)
    &&& new == (DbView {
        elements: old.elements.update(i, edited(e, s, sender)),
        undo_entries: old.undo_entries.push(
            change_entry(old, sender, now, UndoAction::Update, e, entry.prev_state, entry.next_state),
        ),
        next_undo_id: (old.next_undo_id + 1) as u64,
        ..old
    })
}

/// A successful `update_element` gives the element each new value in its
/// own field: position, size, rotation, points, stroke and fill colours,
/// stroke width, opacity, font size and text are the snapshot's; its id,
/// room, kind, z-index and deleted flag stay; it goes one version on, last
/// updated by the caller (while the version can grow); every other element
/// is left as it was.
pub proof fn law_updated_element_takes_the_snapshot<E: Fn(&ElementSnapshot) -> Vec<u8>>(
    enc: E,
    db0: DbView,
    db1: DbView,
    sender: Seq<u8>,
    now: i64,
    i: int,
    s: SnapshotView,
)
    requires
        0 <= i < db0.elements.len(),
        db0.elements[i].version < u64::MAX,
        update_outcome(enc, db0, db1, sender, now, i, s),
    ensures
        db1.elements.len() == db0.elements.len(),
        forall|j: int| 0 <= j < db0.elements.len() && j != i ==> #[trigger] db1.elements[j] == db0.elements[j],
        ({
            let e0 = db0.elements[i];
            let e = db1.elements[i];
            &&& e.x == s.x
            &&& e.y == s.y
            &&& e.width == s.width
            &&& e.height == s.height
            &&& e.rotation == s.rotation
            &&& e.points == s.points
            &&& e.stroke_color == s.stroke_color
            &&& e.fill_color == s.fill_color
            &&& e.stroke_width == s.stroke_width
            &&& e.opacity == s.opacity
            &&& e.font_size == s.font_size
            &&& e.text_content == s.text_content
            &&& e.id == e0.id
            &&& e.room_id == e0.room_id
            &&& e.kind == e0.kind
            &&& e.z_index == e0.z_index
            &&& e.deleted == e0.deleted
            &&& e.version == e0.version + 1
            &&& e.updated_by == sender
        }),
{
}

/// What a successful `delete_element` does to element `i`: it is marked
/// deleted, one version on, and the caller's undo log gets a deletion entry
/// holding an encoding of the state before.
pub open spec fn delete_outcome<E: Fn(&ElementSnapshot) -> Vec<u8>>(
    enc: E,
    old: DbView,
    new: DbView,
    sender: Seq<u8>,
    now: i64,
    i: int,
) -> bool {
    let e = old.elements[i];
    let entry = new.undo_entries.last();
    &&& encodes(enc, snapshot_of(e), entry.prev_state)
    &&& new == (DbView {
        elements: old.elements.update(i, flagged(e, sender, true)),
        undo_entries: old.undo_entries.push(
            change_entry(old, sender, now, UndoAction::Delete, e, entry.prev_state, Seq::empty()),
        ),
        next_undo_id: (old.next_undo_id + 1) as u64,
        ..old
    })
}

impl Database {
    /// Replaces the editable state of a live element, one version on, and
    /// records the change (before and after) in the caller's undo log.
    pub fn update_element<E: Fn(&ElementSnapshot) -> Vec<u8>>(
        &mut self,
        sender: &Identity,
        now: i64,
        element_id: u64,
        x: u64,
        y: u64,
        width: u64,
        height: u64,
        rotation: u64,
        stroke_color: u32,
        fill_color: u32,
        stroke_width: u32,
        opacity: u32,
        font_size: u32,
        text_content: String,
        points: Vec<u8>,
        encode: &E,
    ) -> (r: Result<(), String>)
        requires
            old(self).wf(),
            old(self)@.next_undo_id < u64::MAX,
            old(self).element_index(element_id) matches Some(i) ==> old(self)@.elements[i].version
                < u64::MAX,
            forall|s: &ElementSnapshot| #[trigger] encode.requires((s,)),
        ensures
            final(self).wf(),
            match old(self).element_index(element_id) {
                None => r matches Err(e) && e@ == element_missing_text(element_id) && final(self)@
                    == old(self)@,
                Some(i) => if old(self)@.elements[i].deleted {
                    r matches Err(e) && e@ == element_deleted_text(element_id) && final(self)@
                        == old(self)@
                } else {
                    r is Ok && update_outcome(
                        *encode,
                        old(self)@,
                        final(self)@,
                        sender.bytes@,
                        now,
                        i,
                        SnapshotView {
                            x,
                            y,
                            width,
                            height,
                            rotation,
                            points: points@,
                            stroke_color,
                            fill_color,
                            stroke_width,
                            opacity,
                            font_size,
                            text_content: text_content@,
                        },
                    )
                },
            },
    {
        let i = match self.find_element(element_id) {
            None => return Err(message_with_id("Element ", element_id, " not found")),
            Some(i) => i,
        };
        if self.elements[i].deleted {
            return Err(message_with_id("Element ", element_id, " has been deleted"));
        }
        let ghost before = self@;
        let prev_state = Self::encode_snapshot(&self.elements[i], encode);
        let mut elem = self.elements.remove(i);
        let ghost ev = elem@;
        elem.x = x;
        elem.y = y;
        elem.width = width;
        elem.height = height;
        elem.rotation = rotation;
        elem.points = points;
        elem.stroke_color = stroke_color;
        elem.fill_color = fill_color;
        elem.stroke_width = stroke_width;
        elem.opacity = opacity;
        elem.font_size = font_size;
        elem.text_content = text_content;
        elem.version = elem.version + 1;
        elem.updated_by = *sender;
        let next_state = Self::encode_snapshot(&elem, encode);
        let uid = self.next_undo_id;
        let room = elem.room_id;
        self.undo_entries.push(
            UndoEntry {
                id: uid,
                room_id: room,
                user_id: *sender,
                action: UndoAction::Update,
                element_id,
                prev_state,
                next_state,
                timestamp: now,
                undone: false,
                undone_seq: 0,
            },
        );
        self.next_undo_id = uid + 1;
        let ghost uv = elem@;
        self.elements.insert(i, elem);
        assert(self@.elements =~= before.elements.update(i as int, uv));
        assert(self@.undo_entries =~= before.undo_entries.push(self.undo_entries@.last()@));
        proof {
            self.lemma_replace_keeps_wf_view(before, i as int, uv);
        }
        Ok(())
    }

    /// Marks a live element deleted, one version on, and records the deletion
    /// (with the state before) in the caller's undo log.
    pub fn delete_element<E: Fn(&ElementSnapshot) -> Vec<u8>>(
        &mut self,
        sender: &Identity,
        now: i64,
        element_id: u64,
        encode: &E,
    ) -> (r: Result<(), String>)
        requires
            old(self).wf(),
            old(self)@.next_undo_id < u64::MAX,
            old(self).element_index(element_id) matches Some(i) ==> old(self)@.elements[i].version
                < u64::MAX,
            forall|s: &ElementSnapshot| #[trigger] encode.requires((s,)),
        ensures
            final(self).wf(),
            match old(self).element_index(element_id) {
                None => r matches Err(e) && e@ == element_missing_text(element_id) && final(self)@
                    == old(self)@,
                Some(i) => if old(self)@.elements[i].deleted {
                    r matches Err(e) && e@ == element_already_deleted_text(element_id) && final(self)@
                        == old(self)@
                } else {
                    r is Ok && delete_outcome(*encode, old(self)@, final(self)@, sender.bytes@, now, i)
                },
            },
    {
        let i = match self.find_element(element_id) {
            None => return Err(message_with_id("Element ", element_id, " not found")),
            Some(i) => i,
        };
        if self.elements[i].deleted {
            return Err(message_with_id("Element ", element_id, " is already deleted"));
        }
        let ghost before = self@;
        let prev_state = Self::encode_snapshot(&self.elements[i], encode);
        let uid = self.next_undo_id;
        let room = self.elements[i].room_id;
        self.undo_entries.push(
            UndoEntry {
                id: uid,
                room_id: room,
                user_id: *sender,
                action: UndoAction::Delete,
                element_id,
                prev_state,
                next_state: Vec::new(),
                timestamp: now,
                undone: false,
                undone_seq: 0,
            },
        );
        self.next_undo_id = uid + 1;
        let mut elem = self.elements.remove(i);
        elem.deleted = true;
        elem.updated_by = *sender;
        elem.version = elem.version + 1;
        let ghost uv = elem@;
        self.elements.insert(i, elem);
        assert(self@.elements =~= before.elements.update(i as int, uv));
        assert(self@.undo_entries =~= before.undo_entries.push(self.undo_entries@.last()@));
        assert(self.undo_entries@.last()@.next_state =~= Seq::<u8>::empty());
        proof {
            self.lemma_replace_keeps_wf_view(before, i as int, uv);
        }
        Ok(())
    }

    proof fn lemma_replace_keeps_wf_view(&self, before: DbView, i: int, e: ElementView)
        requires
            db_wf(before),
            0 <= i < before.elements.len(),
            e.id == before.elements[i].id,
            self@.elements == before.elements.update(i, e),
            self@.rooms == before.rooms,
            self@.cursors == before.cursors,
            self@.next_element_id == before.next_element_id,
            self@.next_room_id == before.next_room_id,
            self@.undo_entries.len() == before.undo_entries.len() + 1,
            forall|k: int| 0 <= k < before.undo_entries.len() ==> #[trigger] self@.undo_entries[k] == before.undo_entries[k],
            self@.undo_entries.last().id == before.next_undo_id,
            !self@.undo_entries.last().undone,
            self@.next_undo_id == before.next_undo_id + 1,
            self@.next_undo_seq == before.next_undo_seq,
        ensures
            self.wf(),
    {
        let els = self@.elements;
        assert forall|a: int, b: int| 0 <= a < b < els.len() implies #[trigger] els[a].id
            != #[trigger] els[b].id by {
            assert(els[a].id == before.elements[a].id);
            assert(els[b].id == before.elements[b].id);
        }
        assert forall|a: int| 0 <= a < els.len() implies #[trigger] els[a].id < self@.next_element_id by {
            assert(els[a].id == before.elements[a].id);
        }
        let us = self@.undo_entries;
        let n = before.undo_entries.len();
        assert forall|a: int, b: int| 0 <= a < b < us.len() implies #[trigger] us[a].id
            != #[trigger] us[b].id by {
            if b == n {
                assert(us[a] == before.undo_entries[a]);
            } else {
                assert(us[a] == before.undo_entries[a]);
                assert(us[b] == before.undo_entries[b]);
            }
        }
        assert forall|a: int| 0 <= a < us.len() implies #[trigger] us[a].id < self@.next_undo_id by {
            if a < n {
                assert(us[a] == before.undo_entries[a]);
            }
        }
        assert forall|a: int| 0 <= a < us.len() && #[trigger] us[a].undone implies us[a].undone_seq
            < self@.next_undo_seq by {
            if a < n {
                assert(us[a] == before.undo_entries[a]);
            }
        }
    }
}


/// Whether an undo entry belongs to this user and room and is (or is not) undone.
pub open spec fn is_candidate(e: UndoEntryView, user: Seq<u8>, room_id: u64, undone: bool) -> bool {
    e.room_id == room_id && e.user_id == user && e.undone == undone
}

/// What orders the candidates: among entries not undone, the time of the
/// change; among undone entries, the order in which they were undone.
pub open spec fn entry_key(e: UndoEntryView, undone: bool) -> int {
    if undone {
        e.undone_seq as int
    } else {
        e.timestamp as int
    }
}

/// Entry `k` is the one picked among the candidates: it has the greatest
/// key, and no later entry in the log ties with it.
pub open spec fn is_latest(es: Seq<UndoEntryView>, k: int, user: Seq<u8>, room_id: u64, undone: bool) -> bool {
    &&& 0 <= k < es.len()
    &&& is_candidate(es[k], user, room_id, undone)
    &&& forall|j: int|
        0 <= j < es.len() && is_candidate(#[trigger] es[j], user, room_id, undone) ==> entry_key(es[j], undone)
            <= entry_key(es[k], undone)
    &&& forall|j: int|
        k < j < es.len() && is_candidate(#[trigger] es[j], user, room_id, undone) ==> entry_key(es[j], undone)
            < entry_key(es[k], undone)
}

/// The entry of this user and room with the given undone flag that comes
/// next: the latest change not undone, or the change undone last.
pub open spec fn latest_entry(es: Seq<UndoEntryView>, user: Seq<u8>, room_id: u64, undone: bool) -> Option<int> {
    if exists|k: int| is_latest(es, k, user, room_id, undone) {
        Some(choose|k: int| is_latest(es, k, user, room_id, undone))
    } else {
        None
    }
}

/// At most one entry is the latest.
pub proof fn lemma_latest_unique(es: Seq<UndoEntryView>, k1: int, k2: int, user: Seq<u8>, room_id: u64, undone: bool)
    requires
        is_latest(es, k1, user, room_id, undone),
        is_latest(es, k2, user, room_id, undone),
    ensures
        k1 == k2,
{
    if k1 < k2 {
        assert(entry_key(es[k2], undone) < entry_key(es[k1], undone));
        assert(entry_key(es[k1], undone) <= entry_key(es[k2], undone));
    } else if k2 < k1 {
        assert(entry_key(es[k1], undone) < entry_key(es[k2], undone));
        assert(entry_key(es[k2], undone) <= entry_key(es[k1], undone));
    }
}

/// A snapshot decoder called on bytes `b` may give back `out`.
pub open spec fn decodes<D: Fn(&Vec<u8>) -> Option<ElementSnapshot>>(dec: D, b: Seq<u8>, out: Option<SnapshotView>) -> bool {
    exists|x: Vec<u8>, y: Option<ElementSnapshot>|
        x@ == b && #[trigger] dec.ensures((&x,), y) && match (y, out) {
            (None, None) => true,
            (Some(v), Some(w)) => v@ == w,
            _ => false,
        }
}

/// Restoring an element from stored state: if the state decodes, the
/// element takes the decoded snapshot, one version on, updated by `sender`;
/// if it does not, the element stays as it was.
pub open spec fn restores<D: Fn(&Vec<u8>) -> Option<ElementSnapshot>>(
    dec: D,
    state: Seq<u8>,
    old_e: ElementView,
    new_e: ElementView,
    sender: Seq<u8>,
) -> bool {
    ||| decodes(dec, state, None) && new_e == old_e
    ||| decodes(dec, state, Some(snapshot_of(new_e))) && new_e == edited(old_e, snapshot_of(new_e), sender)
}

/// What undoing (`undo`) or redoing (`!undo`) a log entry does to the
/// elements: a creation deletes (undo) or revives (redo) the element, a
/// deletion revives (undo) or deletes (redo) it, an update restores the state
/// before (undo) or after (redo) it; an element no longer there is left alone.
pub open spec fn applies_entry<D: Fn(&Vec<u8>) -> Option<ElementSnapshot>>(
    dec: D,
    old_els: Seq<ElementView>,
    new_els: Seq<ElementView>,
    entry: UndoEntryView,
    sender: Seq<u8>,
    undo: bool,
) -> bool {
    match element_pos(old_els, entry.element_id) {
        None => new_els == old_els,
        Some(i) => match entry.action {
            UndoAction::Create => new_els == old_els.update(i, flagged(old_els[i], sender, undo)),
            UndoAction::Delete => new_els == old_els.update(i, flagged(old_els[i], sender, !undo)),
            UndoAction::Update => {
                &&& new_els.len() == old_els.len()
                &&& forall|j: int| 0 <= j < old_els.len() && j != i ==> #[trigger] new_els[j] == old_els[j]
                &&& restores(dec, if undo { entry.prev_state } else { entry.next_state }, old_els[i], new_els[i], sender)
            },
        },
    }
}

/// A log entry after it is undone as the `seq`-th undo (`undo`), or redone
/// (`!undo`).
pub open spec fn replayed(e: UndoEntryView, undo: bool, seq: u64) -> UndoEntryView {
    if undo {
        UndoEntryView { undone: true, undone_seq: seq, ..e }
    } else {
        UndoEntryView { undone: false, ..e }
    }
}

/// What `undo` (`undo`) or `redo` (`!undo`) does for a user in a room: with
/// no entry to take, nothing; else the user's latest change not undone (for
/// undo), or the change the user undid last (for redo), is applied to its
/// element and gets the undone flag `undo`; an undo takes the next place in
/// the order of undos.
pub open spec fn replay_outcome<D: Fn(&Vec<u8>) -> Option<ElementSnapshot>>(
    dec: D,
    old: DbView,
    new: DbView,
    user: Seq<u8>,
    room_id: u64,
    undo: bool,
) -> bool {
    match latest_entry(old.undo_entries, user, room_id, !undo) {
        None => new == old,
        Some(k) => {
            &&& applies_entry(dec, old.elements, new.elements, old.undo_entries[k], user, undo)
            &&& new == (DbView {
                elements: new.elements,
                undo_entries: old.undo_entries.update(k, replayed(old.undo_entries[k], undo, old.next_undo_seq)),
                next_undo_seq: if undo { (old.next_undo_seq + 1) as u64 } else { old.next_undo_seq },
                ..old
            })
        },
    }
}

impl Database {
    /// Finds the entry of this user and room with the given undone flag that
    /// comes next: the latest change not undone, or the change undone last.
    pub fn find_latest(&self, user: &Identity, room_id: u64, undone: bool) -> (r: Option<usize>)
        ensures
            r matches Some(k) ==> latest_entry(self@.undo_entries, user.bytes@, room_id, undone) == Some(k as int),
            r is None ==> latest_entry(self@.undo_entries, user.bytes@, room_id, undone) is None,
    {
        let ghost es = self@.undo_entries;
        let n = self.undo_entries.len();
        let mut best: Option<usize> = None;
        let mut i: usize = 0;
        while i < n
            invariant
                n == self.undo_entries@.len(),
                es == self@.undo_entries,
                n == es.len(),
                0 <= i <= n,
                best matches Some(k) ==> is_latest(es.subrange(0, i as int), k as int, user.bytes@, room_id, undone),
                best is None ==> forall|j: int| 0 <= j < i ==> !is_candidate(#[trigger] es[j], user.bytes@, room_id, undone),
            decreases n - i,
        {
            let e = &self.undo_entries[i];
            let ghost pre = es.subrange(0, i as int);
            let ghost post = es.subrange(0, i + 1);
            assert(post[i as int] == es[i as int]);
            assert forall|j: int| 0 <= j < i implies #[trigger] post[j] == pre[j] && pre[j] == es[j] by {}
            if e.room_id == room_id && e.user_id.same(user) && e.undone == undone {
                let take = match best {
                    None => true,
                    Some(k) => if undone {
                        e.undone_seq >= self.undo_entries[k].undone_seq
                    } else {
                        e.timestamp >= self.undo_entries[k].timestamp
                    },
                };
                if take {
                    proof {
                        if let Some(k) = best {
                            assert forall|j: int| 0 <= j < post.len() && is_candidate(#[trigger] post[j], user.bytes@, room_id, undone) implies entry_key(post[j], undone)
                                <= entry_key(post[i as int], undone) by {
                                if j < i {
                                    assert(pre[j] == post[j]);
                                }
                            }
                        }
                    }
                    best = Some(i);
                } else {
                    proof {
                        let k = best->0;
                        assert(pre[k as int] == post[k as int]);
                        assert forall|j: int| 0 <= j < post.len() && is_candidate(#[trigger] post[j], user.bytes@, room_id, undone) implies entry_key(post[j], undone)
                                <= entry_key(post[k as int], undone) by {
                            if j < i {
                                assert(pre[j] == post[j]);
                            }
                        }
                        assert forall|j: int| k < j < post.len() && is_candidate(#[trigger] post[j], user.bytes@, room_id, undone) implies entry_key(post[j], undone)
                                < entry_key(post[k as int], undone) by {
                            if j < i {
                                assert(pre[j] == post[j]);
                            }
                        }
                    }
                }
            } else {
                proof {
                    assert(!is_candidate(es[i as int], user.bytes@, room_id, undone));
                    if let Some(k) = best {
                        assert(pre[k as int] == post[k as int]);
                        assert forall|j: int| 0 <= j < post.len() && is_candidate(#[trigger] post[j], user.bytes@, room_id, undone) implies entry_key(post[j], undone)
                                <= entry_key(post[k as int], undone) by {
                            if j < i {
                                assert(pre[j] == post[j]);
                            }
                        }
                        assert forall|j: int| k < j < post.len() && is_candidate(#[trigger] post[j], user.bytes@, room_id, undone) implies entry_key(post[j], undone)
                                < entry_key(post[k as int], undone) by {
                            if j < i {
                                assert(pre[j] == post[j]);
                            }
                        }
                    }
                }
            }
            i = i + 1;
        }
        assert(es.subrange(0, n as int) =~= es);
        match best {
            Some(k) => {
                proof {
                    let c = choose|c: int| is_latest(es, c, user.bytes@, room_id, undone);
                    lemma_latest_unique(es, c, k as int, user.bytes@, room_id, undone);
                }
                Some(k)
            },
            None => None,
        }
    }
}


impl Database {
    /// Sets an element's deleted flag, one version on, updated by `sender`.
    fn flag_element(&mut self, i: usize, sender: &Identity, deleted: bool)
        requires
            old(self).wf(),
            i < old(self)@.elements.len(),
            old(self)@.elements[i as int].version < u64::MAX,
        ensures
            final(self).wf(),
            final(self)@ == (DbView {
                elements: old(self)@.elements.update(i as int, flagged(old(self)@.elements[i as int], sender.bytes@, deleted)),
                ..old(self)@
            }),
    {
        let ghost before = self@;
        let mut elem = self.elements.remove(i);
        elem.deleted = deleted;
        elem.updated_by = *sender;
        elem.version = elem.version + 1;
        let ghost uv = elem@;
        self.elements.insert(i, elem);
        assert(self@.elements =~= before.elements.update(i as int, uv));
        proof {
            let els = self@.elements;
            assert forall|a: int, b: int| 0 <= a < b < els.len() implies #[trigger] els[a].id
                != #[trigger] els[b].id by {
                assert(els[a].id == before.elements[a].id);
                assert(els[b].id == before.elements[b].id);
            }
            assert forall|a: int| 0 <= a < els.len() implies #[trigger] els[a].id < self@.next_element_id by {
                assert(els[a].id == before.elements[a].id);
            }
        }
    }

    /// Gives an element a snapshot's editable state, one version on, updated by `sender`.
    fn restore_element(&mut self, i: usize, s: ElementSnapshot, sender: &Identity)
        requires
            old(self).wf(),
            i < old(self)@.elements.len(),
            old(self)@.elements[i as int].version < u64::MAX,
        ensures
            final(self).wf(),
            final(self)@ == (DbView {
                elements: old(self)@.elements.update(i as int, edited(old(self)@.elements[i as int], s@, sender.bytes@)),
                ..old(self)@
            }),
    {
        let ghost before = self@;
        let mut elem = self.elements.remove(i);
        elem.x = s.x;
        elem.y = s.y;
        elem.width = s.width;
        elem.height = s.height;
        elem.rotation = s.rotation;
        elem.points = s.points;
        elem.stroke_color = s.stroke_color;
        elem.fill_color = s.fill_color;
        elem.stroke_width = s.stroke_width;
        elem.opacity = s.opacity;
        elem.font_size = s.font_size;
        elem.text_content = s.text_content;
        elem.version = elem.version + 1;
        elem.updated_by = *sender;
        let ghost uv = elem@;
        self.elements.insert(i, elem);
        assert(self@.elements =~= before.elements.update(i as int, uv));
        proof {
            let els = self@.elements;
            assert forall|a: int, b: int| 0 <= a < b < els.len() implies #[trigger] els[a].id
                != #[trigger] els[b].id by {
                assert(els[a].id == before.elements[a].id);
                assert(els[b].id == before.elements[b].id);
            }
            assert forall|a: int| 0 <= a < els.len() implies #[trigger] els[a].id < self@.next_element_id by {
                assert(els[a].id == before.elements[a].id);
            }
        }
    }

    /// Marks log entry `k` undone, as the next undo (`undo`), or redone (`!undo`).
    fn mark_entry(&mut self, k: usize, undo: bool)
        requires
            old(self).wf(),
            k < old(self)@.undo_entries.len(),
            undo ==> old(self)@.next_undo_seq < u64::MAX,
        ensures
            final(self).wf(),
            final(self)@ == (DbView {
                undo_entries: old(self)@.undo_entries.update(k as int, replayed(old(self)@.undo_entries[k as int], undo, old(self)@.next_undo_seq)),
                next_undo_seq: if undo { (old(self)@.next_undo_seq + 1) as u64 } else { old(self)@.next_undo_seq },
                ..old(self)@
            }),
    {
        let ghost before = self@;
        let mut en = self.undo_entries.remove(k);
        en.undone = undo;
        if undo {
            en.undone_seq = self.next_undo_seq;
            self.next_undo_seq = self.next_undo_seq + 1;
        }
        let ghost uv = en@;
        self.undo_entries.insert(k, en);
        assert(self@.undo_entries =~= before.undo_entries.update(k as int, uv));
        proof {
            let us = self@.undo_entries;
            assert forall|a: int| 0 <= a < us.len() && #[trigger] us[a].undone implies us[a].undone_seq
                < self@.next_undo_seq by {
                if a != k {
                    assert(us[a] == before.undo_entries[a]);
                }
            }
            let us = self@.undo_entries;
            assert forall|a: int, b: int| 0 <= a < b < us.len() implies #[trigger] us[a].id
                != #[trigger] us[b].id by {
                assert(us[a].id == before.undo_entries[a].id);
                assert(us[b].id == before.undo_entries[b].id);
            }
            assert forall|a: int| 0 <= a < us.len() implies #[trigger] us[a].id < self@.next_undo_id by {
                assert(us[a].id == before.undo_entries[a].id);
            }
        }
    }

    /// Applies log entry `k` backwards (`undo`) or forwards (`!undo`) to its
    /// element, then sets the entry's undone flag to `undo`.
    fn replay_entry<D: Fn(&Vec<u8>) -> Option<ElementSnapshot>>(&mut self, k: usize, sender: &Identity, undo: bool, decode: &D)
        requires
            old(self).wf(),
            k < old(self)@.undo_entries.len(),
            element_pos(old(self)@.elements, old(self)@.undo_entries[k as int].element_id) matches Some(i)
                ==> old(self)@.elements[i].version < u64::MAX,
            forall|b: &Vec<u8>| #[trigger] decode.requires((b,)),
            undo ==> old(self)@.next_undo_seq < u64::MAX,
        ensures
            final(self).wf(),
            applies_entry(*decode, old(self)@.elements, final(self)@.elements, old(self)@.undo_entries[k as int], sender.bytes@, undo),
            final(self)@.undo_entries == old(self)@.undo_entries.update(k as int, replayed(old(self)@.undo_entries[k as int], undo, old(self)@.next_undo_seq)),
            final(self)@.next_undo_seq == if undo { (old(self)@.next_undo_seq + 1) as u64 } else { old(self)@.next_undo_seq },
            final(self)@.rooms == old(self)@.rooms,
            final(self)@.cursors == old(self)@.cursors,
            final(self)@.next_room_id == old(self)@.next_room_id,
            final(self)@.next_element_id == old(self)@.next_element_id,
            final(self)@.next_undo_id == old(self)@.next_undo_id,
    {
        let ghost before = self@;
        let ghost entry = self@.undo_entries[k as int];
        let element_id = self.undo_entries[k].element_id;
        let action = self.undo_entries[k].action;
        match self.find_element(element_id) {
            None => {},
            Some(i) => {
                match action {
                    UndoAction::Create => {
                        self.flag_element(i, sender, undo);
                    },
                    UndoAction::Delete => {
                        self.flag_element(i, sender, !undo);
                    },
                    UndoAction::Update => {
                        let decoded = if undo {
                            decode(&self.undo_entries[k].prev_state)
                        } else {
                            decode(&self.undo_entries[k].next_state)
                        };
                        let ghost d = decoded;
                        match decoded {
                            Some(s) => {
                                let ghost sv = s@;
                                self.restore_element(i, s, sender);
                                proof {
                                    let b = if undo { before.undo_entries[k as int].prev_state } else { before.undo_entries[k as int].next_state };
                                    assert(self@.elements[i as int] == edited(before.elements[i as int], sv, sender.bytes@));
                                    assert(snapshot_of(self@.elements[i as int]) == sv);
                                    assert(decodes(*decode, b, Some(sv)));
                                }
                            },
                            None => {
                                proof {
                                    let b = if undo { before.undo_entries[k as int].prev_state } else { before.undo_entries[k as int].next_state };
                                    assert(decodes(*decode, b, None));
                                }
                            },
                        }
                    },
                }
            },
        }
        self.mark_entry(k, undo);
    }

    /// Undoes the caller's most recent change in a room that is not undone
    /// yet, and marks it undone, as the latest undo.
    pub fn undo<D: Fn(&Vec<u8>) -> Option<ElementSnapshot>>(&mut self, sender: &Identity, room_id: u64, decode: &D) -> (r: Result<(), String>)
        requires
            old(self).wf(),
            old(self)@.next_undo_seq < u64::MAX,
            latest_entry(old(self)@.undo_entries, sender.bytes@, room_id, false) matches Some(k)
                ==> (element_pos(old(self)@.elements, old(self)@.undo_entries[k].element_id) matches Some(i)
                ==> old(self)@.elements[i].version < u64::MAX),
            forall|b: &Vec<u8>| #[trigger] decode.requires((b,)),
        ensures
            final(self).wf(),
            (r is Ok) == (latest_entry(old(self)@.undo_entries, sender.bytes@, room_id, false) is Some),
            r matches Err(e) ==> e@ == "Nothing to undo"@,
            replay_outcome(*decode, old(self)@, final(self)@, sender.bytes@, room_id, true),
    {
        match self.find_latest(sender, room_id, false) {
            None => Err(String::from_str("Nothing to undo")),
            Some(k) => {
                self.replay_entry(k, sender, true, decode);
                Ok(())
            },
        }
    }

    /// Redoes the change the caller undid last in a room (among those still
    /// undone), and marks it not undone.
    pub fn redo<D: Fn(&Vec<u8>) -> Option<ElementSnapshot>>(&mut self, sender: &Identity, room_id: u64, decode: &D) -> (r: Result<(), String>)
        requires
            old(self).wf(),
            latest_entry(old(self)@.undo_entries, sender.bytes@, room_id, true) matches Some(k)
                ==> (element_pos(old(self)@.elements, old(self)@.undo_entries[k].element_id) matches Some(i)
                ==> old(self)@.elements[i].version < u64::MAX),
            forall|b: &Vec<u8>| #[trigger] decode.requires((b,)),
        ensures
            final(self).wf(),
            (r is Ok) == (latest_entry(old(self)@.undo_entries, sender.bytes@, room_id, true) is Some),
            r matches Err(e) ==> e@ == "Nothing to redo"@,
            replay_outcome(*decode, old(self)@, final(self)@, sender.bytes@, room_id, false),
    {
        match self.find_latest(sender, room_id, true) {
            None => Err(String::from_str("Nothing to redo")),
            Some(k) => {
                self.replay_entry(k, sender, false, decode);
                Ok(())
            },
        }
    }
}

} // verus!
