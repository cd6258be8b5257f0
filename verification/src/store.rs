//! The client's copy of the tables it subscribes to: elements keyed by id
//! and cursors keyed by the hexadecimal identity of their user.
use vstd::prelude::*;
use vstd::seq_lib::group_to_multiset_ensures;

use crate::bsatn::le_u64;
use crate::decode::{
    cursor_failure, decode_cursor, decode_cursor_key, decode_element, decode_element_id,
    element_failure, lemma_matches_row_element, row_cursor, row_deleted, row_element, row_points,
    spec_identity_hex, CursorData, CursorDataView, ElementData, ElementDataView,
};
use crate::text::str_eq;

verus! {

/// The position of the element with this id.
pub open spec fn elem_pos(s: Seq<ElementDataView>, id: u64) -> Option<int> {
    if exists|i: int| 0 <= i < s.len() && #[trigger] s[i].id == id {
        Some(choose|i: int| 0 <= i < s.len() && #[trigger] s[i].id == id)
    } else {
        None
    }
}

/// No two elements share an id.
pub open spec fn ids_distinct(s: Seq<ElementDataView>) -> bool {
    forall|a: int, b: int| 0 <= a < b < s.len() ==> #[trigger] s[a].id != #[trigger] s[b].id
}

/// The elements without the one with this id (`HashMap::remove`).
pub open spec fn without_element(s: Seq<ElementDataView>, id: u64) -> Seq<ElementDataView> {
    match elem_pos(s, id) {
        None => s,
        Some(i) => s.remove(i),
    }
}

/// The elements with `e` put under its id, in place of the element that had
/// it, if any (`HashMap::insert`).
pub open spec fn with_element(s: Seq<ElementDataView>, e: ElementDataView) -> Seq<ElementDataView> {
    match elem_pos(s, e.id) {
        None => s.push(e),
        Some(i) => s.update(i, e),
    }
}

/// The position of the cursor with this key.
pub open spec fn key_pos(s: Seq<(Seq<char>, CursorDataView)>, k: Seq<char>) -> Option<int> {
    if exists|i: int| 0 <= i < s.len() && #[trigger] s[i].0 == k {
        Some(choose|i: int| 0 <= i < s.len() && #[trigger] s[i].0 == k)
    } else {
        None
    }
}

/// No two cursors share a key.
pub open spec fn keys_distinct(s: Seq<(Seq<char>, CursorDataView)>) -> bool {
    forall|a: int, b: int| 0 <= a < b < s.len() ==> #[trigger] s[a].0 != #[trigger] s[b].0
}

/// The cursors without the one under this key.
pub open spec fn without_key(s: Seq<(Seq<char>, CursorDataView)>, k: Seq<char>) -> Seq<(Seq<char>, CursorDataView)> {
    match key_pos(s, k) {
        None => s,
        Some(i) => s.remove(i),
    }
}

/// The cursors with `c` put under key `k`.
pub open spec fn with_key(s: Seq<(Seq<char>, CursorDataView)>, k: Seq<char>, c: CursorDataView) -> Seq<(Seq<char>, CursorDataView)> {
    match key_pos(s, k) {
        None => s.push((k, c)),
        Some(i) => s.update(i, (k, c)),
    }
}

/// Whether the elements are in drawing order: by z-index, lowest first.
pub open spec fn z_sorted(s: Seq<ElementDataView>) -> bool {
    forall|a: int, b: int| 0 <= a < b < s.len() ==> #[trigger] s[a].z_index <= #[trigger] s[b].z_index
}

/// Ids above this bound are the temporary ids the client gives elements it
/// creates, before the server has assigned one.
pub const LOCAL_ID_FLOOR: u64 = 1_000_000_000;

/// What a row of the element table amounts to.
pub enum ElementRow {
    Undecodable,
    Deleted(u64),
    Live(ElementDataView),
}

/// What the element row `b` amounts to.
pub open spec fn element_row(b: Seq<u8>) -> ElementRow {
    match element_failure(b) {
        Some(_) => ElementRow::Undecodable,
        None => if row_deleted(b) {
            ElementRow::Deleted(le_u64(b))
        } else {
            match row_points(b) {
                Ok(ps) => ElementRow::Live(row_element(b, ps)),
                Err(_) => ElementRow::Undecodable,
            }
        },
    }
}

/// The bytes of each row.
pub open spec fn rows_view(rows: Seq<Vec<u8>>) -> Seq<Seq<u8>> {
    rows.map_values(|r: Vec<u8>| r@)
}

/// The elements after the live rows of a subscription are put in.
pub open spec fn elements_loaded(s: Seq<ElementDataView>, rows: Seq<Seq<u8>>) -> Seq<ElementDataView>
    decreases rows.len(),
{
    if rows.len() == 0 {
        s
    } else {
        let t = elements_loaded(s, rows.drop_last());
        match element_row(rows.last()) {
            ElementRow::Live(e) => with_element(t, e),
            _ => t,
        }
    }
}

/// The elements after the deleted rows of an update are taken out: each row
/// whose id decodes names the element to remove.
pub open spec fn element_deletes_applied(s: Seq<ElementDataView>, rows: Seq<Seq<u8>>) -> Seq<ElementDataView>
    decreases rows.len(),
{
    if rows.len() == 0 {
        s
    } else {
        let t = element_deletes_applied(s, rows.drop_last());
        let b = rows.last();
        if b.len() >= 8 {
            without_element(t, le_u64(b))
        } else {
            t
        }
    }
}

/// `x` may be a temporary copy of the element `e` that the client made
/// before the server gave `e` its id: another element, under a temporary id,
/// of the same room and kind.
pub open spec fn dup_candidate(x: ElementDataView, e: ElementDataView) -> bool {
    x.id != e.id && x.id > LOCAL_ID_FLOOR && x.room_id == e.room_id && x.kind == e.kind
}

/// The geometry test `near` may answer `r` on `x` and `e`.
pub open spec fn near_says<N: Fn(&ElementData, &ElementData) -> bool>(
    near: N,
    x: ElementDataView,
    e: ElementDataView,
    r: bool,
) -> bool {
    exists|a: ElementData, b: ElementData| a@ == x && b@ == e && #[trigger] near.ensures((&a, &b), r)
}

/// `j` is the first candidate of `s` that `near` finds to be `e`'s copy, or
/// the length of `s` when it finds none.
pub open spec fn dedup_at<N: Fn(&ElementData, &ElementData) -> bool>(
    near: N,
    s: Seq<ElementDataView>,
    e: ElementDataView,
    j: int,
) -> bool {
    &&& (j == s.len() || (0 <= j < s.len() && dup_candidate(s[j], e) && near_says(near, s[j], e, true)))
    &&& forall|k: int| 0 <= k < j && dup_candidate(#[trigger] s[k], e) ==> near_says(near, s[k], e, false)
}

/// The selection with id `from` replaced by `to`.
pub open spec fn renamed(sel: Seq<u64>, from: u64, to: u64) -> Seq<u64> {
    sel.map_values(|x: u64| if x == from { to } else { x })
}

/// Taking in one inserted row turns elements `s` and selection `sel` into
/// `s2` and `sel2`: a live element replaces its temporary copy, if `near`
/// finds one (the selection follows it to the new id), and is put under its
/// id; a deleted row's element is removed; an undecodable row changes
/// nothing.
pub open spec fn insert_row_step<N: Fn(&ElementData, &ElementData) -> bool>(
    near: N,
    s: Seq<ElementDataView>,
    sel: Seq<u64>,
    b: Seq<u8>,
    s2: Seq<ElementDataView>,
    sel2: Seq<u64>,
) -> bool {
    match element_row(b) {
        ElementRow::Undecodable => s2 == s && sel2 == sel,
        ElementRow::Deleted(id) => s2 == without_element(s, id) && sel2 == sel,
        ElementRow::Live(e) => exists|j: int|
            #[trigger] dedup_at(near, s, e, j) && if j == s.len() {
                s2 == with_element(s, e) && sel2 == sel
            } else {
                s2 == with_element(without_element(s, s[j].id), e) && sel2 == renamed(sel, s[j].id, e.id)
            },
    }
}

/// `trace` lists the elements and selection before each inserted row and
/// after the last, each step taking in one row.
pub open spec fn insert_trace<N: Fn(&ElementData, &ElementData) -> bool>(
    near: N,
    rows: Seq<Seq<u8>>,
    trace: Seq<(Seq<ElementDataView>, Seq<u64>)>,
) -> bool {
    &&& trace.len() == rows.len() + 1
    &&& forall|i: int|
        #![trigger rows[i]]
        0 <= i < rows.len() ==> insert_row_step(
            near,
            trace[i].0,
            trace[i].1,
            rows[i],
            trace[i + 1].0,
            trace[i + 1].1,
        )
}

/// Taking in the inserted rows one after another turns `s0` and `sel0` into
/// `s` and `sel`.
pub open spec fn inserts_applied<N: Fn(&ElementData, &ElementData) -> bool>(
    near: N,
    s0: Seq<ElementDataView>,
    sel0: Seq<u64>,
    rows: Seq<Seq<u8>>,
    s: Seq<ElementDataView>,
    sel: Seq<u64>,
) -> bool {
    exists|trace: Seq<(Seq<ElementDataView>, Seq<u64>)>|
        #[trigger] insert_trace(near, rows, trace) && trace[0] == (s0, sel0) && trace.last() == (s, sel)
}

/// The key a cursor row's user id gives, when the row holds one.
pub open spec fn cursor_row_key(b: Seq<u8>) -> Seq<char> {
    spec_identity_hex(b.subrange(0, 32))
}

/// The cursors after the deleted rows of an update are taken out.
pub open spec fn cursor_deletes_applied(
    s: Seq<(Seq<char>, CursorDataView)>,
    rows: Seq<Seq<u8>>,
) -> Seq<(Seq<char>, CursorDataView)>
    decreases rows.len(),
{
    if rows.len() == 0 {
        s
    } else {
        let t = cursor_deletes_applied(s, rows.drop_last());
        let b = rows.last();
        if b.len() >= 32 {
            without_key(t, cursor_row_key(b))
        } else {
            t
        }
    }
}

/// The cursors after the decodable rows are put in under their keys.
pub open spec fn cursors_loaded(
    s: Seq<(Seq<char>, CursorDataView)>,
    rows: Seq<Seq<u8>>,
) -> Seq<(Seq<char>, CursorDataView)>
    decreases rows.len(),
{
    if rows.len() == 0 {
        s
    } else {
        let t = cursors_loaded(s, rows.drop_last());
        let b = rows.last();
        if cursor_failure(b) is None {
            with_key(t, cursor_row_key(b), row_cursor(b))
        } else {
            t
        }
    }
}

/// A copy of an element.
pub fn copy_element(e: &ElementData) -> (c: ElementData)
    ensures
        c@ == e@,
{
    let points = e.points.clone();
    assert(points@ =~= e.points@);
    ElementData {
        id: e.id,
        room_id: e.room_id,
        kind: e.kind,
        x: e.x,
        y: e.y,
        width: e.width,
        height: e.height,
        rotation: e.rotation,
        points,
        stroke_color: e.stroke_color,
        fill_color: e.fill_color,
        stroke_width: e.stroke_width,
        opacity: e.opacity,
        font_size: e.font_size,
        text_content: e.text_content.clone(),
        z_index: e.z_index,
    }
}

/// The store of subscribed rows, with the connection's state.
pub struct StdbStore {
    pub elements: Vec<ElementData>,
    /// Keyed by the hexadecimal identity of the cursor's user.
    pub cursors: Vec<(String, CursorData)>,
    pub connected: bool,
    pub my_identity: Option<String>,
    pub current_room: Option<u64>,
}

impl StdbStore {
    /// The elements, in store order.
    pub open spec fn element_views(&self) -> Seq<ElementDataView> {
        self.elements@.map_values(|e: ElementData| e@)
    }

    /// The cursors with their keys, in store order.
    pub open spec fn cursor_views(&self) -> Seq<(Seq<char>, CursorDataView)> {
        self.cursors@.map_values(|c: (String, CursorData)| (c.0@, c.1@))
    }

    /// Element ids and cursor keys are unique.
    pub open spec fn wf(&self) -> bool {
        ids_distinct(self.element_views()) && keys_distinct(self.cursor_views())
    }

    /// An empty store, not connected, with no identity and no room.
    pub fn new() -> (s: Self)
        ensures
            s.wf(),
            s.element_views().len() == 0,
            s.cursor_views().len() == 0,
            !s.connected,
            s.my_identity is None,
            s.current_room is None,
    {
        StdbStore {
            elements: Vec::new(),
            cursors: Vec::new(),
            connected: false,
            my_identity: None,
            current_room: None,
        }
    }

    /// Finds the element with this id.
    pub fn find_element(&self, id: u64) -> (r: Option<usize>)
        requires
            self.wf(),
        ensures
            r matches Some(i) ==> elem_pos(self.element_views(), id) == Some(i as int),
            r is None ==> elem_pos(self.element_views(), id) is None,
    {
        let ghost v = self.element_views();
        let n = self.elements.len();
        let mut i: usize = 0;
        while i < n
            invariant
                n == self.elements@.len(),
                v == self.element_views(),
                ids_distinct(v),
                0 <= i <= n,
                forall|j: int| 0 <= j < i ==> #[trigger] v[j].id != id,
            decreases n - i,
        {
            if self.elements[i].id == id {
                assert(v[i as int].id == id);
                proof {
                    let j = choose|j: int| 0 <= j < n && #[trigger] v[j].id == id;
                    if j < i {
                        assert(v[j].id != v[i as int].id);
                    } else if j > i {
                        assert(v[i as int].id != v[j].id);
                    }
                }
                return Some(i);
            }
            i = i + 1;
        }
        None
    }

    /// Removes the element with this id, if there is one.
    pub fn remove_element(&mut self, id: u64)
        requires
            old(self).wf(),
        ensures
            final(self).wf(),
            final(self).element_views() == without_element(old(self).element_views(), id),
            final(self).cursors == old(self).cursors,
            final(self).connected == old(self).connected,
            final(self).my_identity == old(self).my_identity,
            final(self).current_room == old(self).current_room,
    {
        match self.find_element(id) {
            None => {},
            Some(i) => {
                let ghost before = self.element_views();
                let _ = self.elements.remove(i);
                assert(self.element_views() =~= before.remove(i as int));
                proof {
                    let v = self.element_views();
                    assert forall|a: int, b: int| 0 <= a < b < v.len() implies #[trigger] v[a].id != #[trigger] v[b].id by {
                        let a0 = if a < i { a } else { a + 1 };
                        let b0 = if b < i { b } else { b + 1 };
                        assert(v[a] == before[a0]);
                        assert(v[b] == before[b0]);
                    }
                }
            },
        }
    }

    /// Puts an element under its id, replacing the element that had it.
    pub fn insert_element(&mut self, e: ElementData)
        requires
            old(self).wf(),
        ensures
            final(self).wf(),
            final(self).element_views() == with_element(old(self).element_views(), e@),
            final(self).cursors == old(self).cursors,
            final(self).connected == old(self).connected,
            final(self).my_identity == old(self).my_identity,
            final(self).current_room == old(self).current_room,
    {
        let ghost before = self.element_views();
        let ghost ev = e@;
        match self.find_element(e.id) {
            None => {
                self.elements.push(e);
                assert(self.element_views() =~= before.push(ev));
                proof {
                    let v = self.element_views();
                    assert forall|a: int, b: int| 0 <= a < b < v.len() implies #[trigger] v[a].id != #[trigger] v[b].id by {
                        assert(v[a] == before[a]);
                        if b < before.len() {
                            assert(v[b] == before[b]);
                        } else {
                            assert(before[a].id != ev.id);
                        }
                    }
                }
            },
            Some(i) => {
                let _ = self.elements.remove(i);
                self.elements.insert(i, e);
                assert(self.element_views() =~= before.update(i as int, ev));
                proof {
                    let v = self.element_views();
                    assert forall|a: int, b: int| 0 <= a < b < v.len() implies #[trigger] v[a].id != #[trigger] v[b].id by {
                        assert(v[a].id == before[a].id);
                        assert(v[b].id == before[b].id);
                    }
                }
            },
        }
    }

    /// Finds the cursor with this key.
    pub fn find_cursor(&self, key: &str) -> (r: Option<usize>)
        requires
            self.wf(),
        ensures
            r matches Some(i) ==> key_pos(self.cursor_views(), key@) == Some(i as int),
            r is None ==> key_pos(self.cursor_views(), key@) is None,
    {
        let ghost v = self.cursor_views();
        let n = self.cursors.len();
        let mut i: usize = 0;
        while i < n
            invariant
                n == self.cursors@.len(),
                v == self.cursor_views(),
                keys_distinct(v),
                0 <= i <= n,
                forall|j: int| 0 <= j < i ==> #[trigger] v[j].0 != key@,
            decreases n - i,
        {
            if str_eq(self.cursors[i].0.as_str(), key) {
                assert(v[i as int].0 == key@);
                proof {
                    let j = choose|j: int| 0 <= j < n && #[trigger] v[j].0 == key@;
                    if j < i {
                        assert(v[j].0 != v[i as int].0);
                    } else if j > i {
                        assert(v[i as int].0 != v[j].0);
                    }
                }
                return Some(i);
            }
            i = i + 1;
        }
        None
    }

    /// Removes the cursor under this key, if there is one.
    pub fn remove_cursor(&mut self, key: &str)
        requires
            old(self).wf(),
        ensures
            final(self).wf(),
            final(self).cursor_views() == without_key(old(self).cursor_views(), key@),
            final(self).elements == old(self).elements,
            final(self).connected == old(self).connected,
            final(self).my_identity == old(self).my_identity,
            final(self).current_room == old(self).current_room,
    {
        match self.find_cursor(key) {
            None => {},
            Some(i) => {
                let ghost before = self.cursor_views();
                let _ = self.cursors.remove(i);
                assert(self.cursor_views() =~= before.remove(i as int));
                proof {
                    let v = self.cursor_views();
                    assert forall|a: int, b: int| 0 <= a < b < v.len() implies #[trigger] v[a].0 != #[trigger] v[b].0 by {
                        let a0 = if a < i { a } else { a + 1 };
                        let b0 = if b < i { b } else { b + 1 };
                        assert(v[a] == before[a0]);
                        assert(v[b] == before[b0]);
                    }
                }
            },
        }
    }

    /// Puts a cursor under a key, replacing the cursor that had it.
    pub fn insert_cursor(&mut self, key: String, c: CursorData)
        requires
            old(self).wf(),
        ensures
            final(self).wf(),
            final(self).cursor_views() == with_key(old(self).cursor_views(), key@, c@),
            final(self).elements == old(self).elements,
            final(self).connected == old(self).connected,
            final(self).my_identity == old(self).my_identity,
            final(self).current_room == old(self).current_room,
    {
        let ghost before = self.cursor_views();
        let ghost kv = key@;
        let ghost cv = c@;
        match self.find_cursor(key.as_str()) {
            None => {
                self.cursors.push((key, c));
                assert(self.cursor_views() =~= before.push((kv, cv)));
                proof {
                    let v = self.cursor_views();
                    assert forall|a: int, b: int| 0 <= a < b < v.len() implies #[trigger] v[a].0 != #[trigger] v[b].0 by {
                        assert(v[a] == before[a]);
                        if b < before.len() {
                            assert(v[b] == before[b]);
                        } else {
                            assert(before[a].0 != kv);
                        }
                    }
                }
            },
            Some(i) => {
                let _ = self.cursors.remove(i);
                self.cursors.insert(i, (key, c));
                assert(self.cursor_views() =~= before.update(i as int, (kv, cv)));
                proof {
                    let v = self.cursor_views();
                    assert forall|a: int, b: int| 0 <= a < b < v.len() implies #[trigger] v[a].0 != #[trigger] v[b].0 by {
                        assert(v[a].0 == before[a].0);
                        assert(v[b].0 == before[b].0);
                    }
                }
            },
        }
    }

    /// The elements in drawing order: by z-index, lowest first.
    pub fn sorted_elements(&self) -> (r: Vec<ElementData>)
        ensures
            z_sorted(r@.map_values(|e: ElementData| e@)),
            r@.map_values(|e: ElementData| e@).to_multiset() == self.element_views().to_multiset(),
    {
        broadcast use group_to_multiset_ensures;

        let ghost src = self.element_views();
        let n = self.elements.len();
        let mut out: Vec<ElementData> = Vec::new();
        let mut i: usize = 0;
        while i < n
            invariant
                n == self.elements@.len(),
                src == self.element_views(),
                0 <= i <= n,
                z_sorted(out@.map_values(|e: ElementData| e@)),
                out@.map_values(|e: ElementData| e@).to_multiset() == src.subrange(0, i as int).to_multiset(),
            decreases n - i,
        {
            let e = copy_element(&self.elements[i]);
            let ghost before = out@.map_values(|e: ElementData| e@);
            let z = e.z_index;
            let m = out.len();
            let mut p: usize = 0;
            while p < m && out[p].z_index <= z
                invariant
                    m == out@.len(),
                    before == out@.map_values(|e: ElementData| e@),
                    0 <= p <= m,
                    forall|k: int| 0 <= k < p ==> #[trigger] before[k].z_index <= z,
                decreases m - p,
            {
                p = p + 1;
            }
            let ghost ev = e@;
            out.insert(p, e);
            proof {
                let after = out@.map_values(|e: ElementData| e@);
                assert(after =~= before.insert(p as int, ev));
                assert forall|a: int, b: int| 0 <= a < b < after.len() implies #[trigger] after[a].z_index
                    <= #[trigger] after[b].z_index by {
                    if b < p {
                        assert(after[a] == before[a] && after[b] == before[b]);
                    } else if b == p {
                        assert(after[a] == before[a]);
                    } else if a < p {
                        assert(after[a] == before[a] && after[b] == before[b - 1]);
                    } else if a == p {
                        assert(after[b] == before[b - 1]);
                        assert(before[p as int].z_index > z);
                    } else {
                        assert(after[a] == before[a - 1] && after[b] == before[b - 1]);
                    }
                }
                assert(src.subrange(0, i + 1) =~= src.subrange(0, i as int).push(src[i as int]));
                assert(src[i as int] == ev);
                vstd::seq_lib::to_multiset_insert(before, p as int, ev);
                vstd::seq_lib::to_multiset_build(src.subrange(0, i as int), ev);
            }
            i = i + 1;
        }
        assert(src.subrange(0, n as int) =~= src);
        out
    }
}

/// Replaces id `from` by `to` throughout a selection.
pub fn rename_selected(sel: &mut Vec<u64>, from: u64, to: u64)
    ensures
        final(sel)@ == renamed(old(sel)@, from, to),
{
    let ghost s0 = sel@;
    let n = sel.len();
    let mut k: usize = 0;
    while k < n
        invariant
            n == sel@.len(),
            s0.len() == n,
            0 <= k <= n,
            forall|j: int| 0 <= j < k ==> #[trigger] sel@[j] == (if s0[j] == from { to } else { s0[j] }),
            forall|j: int| k <= j < n ==> #[trigger] sel@[j] == s0[j],
        decreases n - k,
    {
        if sel[k] == from {
            sel.set(k, to);
        }
        k = k + 1;
    }
    assert(sel@ =~= renamed(s0, from, to));
}

impl StdbStore {
    /// The first element that `near` finds to be a temporary copy of `e`, or
    /// the number of elements when it finds none.
    fn dedup_index<N: Fn(&ElementData, &ElementData) -> bool>(&self, e: &ElementData, near: &N) -> (j: usize)
        requires
            forall|a: &ElementData, b: &ElementData| #[trigger] near.requires((a, b)),
        ensures
            j <= self.elements@.len(),
            dedup_at(*near, self.element_views(), e@, j as int),
    {
        let ghost v = self.element_views();
        let n = self.elements.len();
        let mut k: usize = 0;
        while k < n
            invariant
                n == self.elements@.len(),
                v == self.element_views(),
                0 <= k <= n,
                forall|a: &ElementData, b: &ElementData| #[trigger] near.requires((a, b)),
                forall|i: int| 0 <= i < k && dup_candidate(#[trigger] v[i], e@) ==> near_says(*near, v[i], e@, false),
            decreases n - k,
        {
            let x = &self.elements[k];
            assert(v[k as int] == x@);
            if x.id != e.id && x.id > LOCAL_ID_FLOOR && x.room_id == e.room_id && x.kind == e.kind {
                let found = near(x, e);
                assert(near.ensures((x, e), found));
                if found {
                    return k;
                }
            }
            k = k + 1;
        }
        k
    }

    /// Takes in one inserted row of the element table.
    fn take_element_row<N: Fn(&ElementData, &ElementData) -> bool>(
        &mut self,
        b: &[u8],
        sel: &mut Vec<u64>,
        near: &N,
    )
        requires
            old(self).wf(),
            forall|a: &ElementData, c: &ElementData| #[trigger] near.requires((a, c)),
        ensures
            final(self).wf(),
            insert_row_step(*near, old(self).element_views(), old(sel)@, b@, final(self).element_views(), final(sel)@),
            final(self).cursors == old(self).cursors,
            final(self).connected == old(self).connected,
            final(self).my_identity == old(self).my_identity,
            final(self).current_room == old(self).current_room,
    {
        let ghost s0 = self.element_views();
        match decode_element(b) {
            Ok(Some(elem)) => {
                proof {
                    let ps = row_points(b@)->Ok_0;
                    lemma_matches_row_element(elem, b@, ps);
                }
                let ghost e = elem@;
                let j = self.dedup_index(&elem, near);
                if j < self.elements.len() {
                    let old_id = self.elements[j].id;
                    assert(old_id == s0[j as int].id);
                    self.remove_element(old_id);
                    rename_selected(sel, old_id, elem.id);
                }
                self.insert_element(elem);
                assert(dedup_at(*near, s0, e, j as int));
            },
            Ok(None) => {
                match decode_element_id(b) {
                    Ok(id) => {
                        self.remove_element(id);
                    },
                    Err(_) => {},
                }
            },
            Err(_) => {},
        }
    }

    /// Applies one update of the element table: first the deleted rows, then
    /// the inserted ones.
    pub fn apply_element_rows<N: Fn(&ElementData, &ElementData) -> bool>(
        &mut self,
        deletes: &[Vec<u8>],
        inserts: &[Vec<u8>],
        sel: &mut Vec<u64>,
        near: &N,
    )
        requires
            old(self).wf(),
            forall|a: &ElementData, c: &ElementData| #[trigger] near.requires((a, c)),
        ensures
            final(self).wf(),
            inserts_applied(
                *near,
                element_deletes_applied(old(self).element_views(), rows_view(deletes@)),
                old(sel)@,
                rows_view(inserts@),
                final(self).element_views(),
                final(sel)@,
            ),
            final(self).cursors == old(self).cursors,
            final(self).connected == old(self).connected,
            final(self).my_identity == old(self).my_identity,
            final(self).current_room == old(self).current_room,
    {
        let ghost s0 = self.element_views();
        let ghost dv = rows_view(deletes@);
        let nd = deletes.len();
        let mut i: usize = 0;
        while i < nd
            invariant
                nd == deletes@.len(),
                dv == rows_view(deletes@),
                0 <= i <= nd,
                self.wf(),
                self.element_views() == element_deletes_applied(s0, dv.subrange(0, i as int)),
                self.cursors == old(self).cursors,
                self.connected == old(self).connected,
                self.my_identity == old(self).my_identity,
                self.current_room == old(self).current_room,
            decreases nd - i,
        {
            assert(dv.subrange(0, i + 1).drop_last() =~= dv.subrange(0, i as int));
            assert(dv.subrange(0, i + 1).last() == deletes@[i as int]@);
            match decode_element_id(deletes[i].as_slice()) {
                Ok(id) => {
                    self.remove_element(id);
                },
                Err(_) => {},
            }
            i = i + 1;
        }
        assert(dv.subrange(0, nd as int) =~= dv);
        let ghost s1 = self.element_views();
        let ghost sel0 = sel@;
        let ghost iv = rows_view(inserts@);
        let ghost mut trace: Seq<(Seq<ElementDataView>, Seq<u64>)> = seq![(s1, sel0)];
        let ni = inserts.len();
        let mut i: usize = 0;
        while i < ni
            invariant
                ni == inserts@.len(),
                iv == rows_view(inserts@),
                0 <= i <= ni,
                self.wf(),
                forall|a: &ElementData, c: &ElementData| #[trigger] near.requires((a, c)),
                trace.len() == i + 1,
                trace[0] == (s1, sel0),
                trace.last() == (self.element_views(), sel@),
                forall|k: int|
                    #![trigger iv[k]]
                    0 <= k < i ==> insert_row_step(*near, trace[k].0, trace[k].1, iv[k], trace[k + 1].0, trace[k + 1].1),
                self.cursors == old(self).cursors,
                self.connected == old(self).connected,
                self.my_identity == old(self).my_identity,
                self.current_room == old(self).current_room,
            decreases ni - i,
        {
            let ghost prev = trace;
            self.take_element_row(inserts[i].as_slice(), sel, near);
            proof {
                assert(iv[i as int] == inserts@[i as int]@);
                trace = prev.push((self.element_views(), sel@));
                assert forall|k: int|
                    #![trigger iv[k]]
                    0 <= k < i + 1 implies insert_row_step(*near, trace[k].0, trace[k].1, iv[k], trace[k + 1].0, trace[k + 1].1) by {
                    assert(trace[k] == prev[k]);
                    if k < i {
                        assert(trace[k + 1] == prev[k + 1]);
                    }
                }
            }
            i = i + 1;
        }
        assert(insert_trace(*near, iv, trace));
    }
}

impl StdbStore {
    /// Puts in the rows of a subscription to the element table: each live
    /// element goes under its id; deleted and undecodable rows are skipped.
    pub fn load_element_rows(&mut self, rows: &[Vec<u8>])
        requires
            old(self).wf(),
        ensures
            final(self).wf(),
            final(self).element_views() == elements_loaded(old(self).element_views(), rows_view(rows@)),
            final(self).cursors == old(self).cursors,
            final(self).connected == old(self).connected,
            final(self).my_identity == old(self).my_identity,
            final(self).current_room == old(self).current_room,
    {
        let ghost s0 = self.element_views();
        let ghost rv = rows_view(rows@);
        let n = rows.len();
        let mut i: usize = 0;
        while i < n
            invariant
                n == rows@.len(),
                rv == rows_view(rows@),
                0 <= i <= n,
                self.wf(),
                self.element_views() == elements_loaded(s0, rv.subrange(0, i as int)),
                self.cursors == old(self).cursors,
                self.connected == old(self).connected,
                self.my_identity == old(self).my_identity,
                self.current_room == old(self).current_room,
            decreases n - i,
        {
            assert(rv.subrange(0, i + 1).drop_last() =~= rv.subrange(0, i as int));
            assert(rv.subrange(0, i + 1).last() == rows@[i as int]@);
            let b = rows[i].as_slice();
            match decode_element(b) {
                Ok(Some(e)) => {
                    proof {
                        lemma_matches_row_element(e, b@, row_points(b@)->Ok_0);
                    }
                    self.insert_element(e);
                },
                _ => {},
            }
            i = i + 1;
        }
        assert(rv.subrange(0, n as int) =~= rv);
    }

    /// Puts in rows of the cursor table: each decodable cursor goes under its
    /// user's key; undecodable rows are skipped.
    pub fn load_cursor_rows(&mut self, rows: &[Vec<u8>])
        requires
            old(self).wf(),
        ensures
            final(self).wf(),
            final(self).cursor_views() == cursors_loaded(old(self).cursor_views(), rows_view(rows@)),
            final(self).elements == old(self).elements,
            final(self).connected == old(self).connected,
            final(self).my_identity == old(self).my_identity,
            final(self).current_room == old(self).current_room,
    {
        let ghost s0 = self.cursor_views();
        let ghost rv = rows_view(rows@);
        let n = rows.len();
        let mut i: usize = 0;
        while i < n
            invariant
                n == rows@.len(),
                rv == rows_view(rows@),
                0 <= i <= n,
                self.wf(),
                self.cursor_views() == cursors_loaded(s0, rv.subrange(0, i as int)),
                self.elements == old(self).elements,
                self.connected == old(self).connected,
                self.my_identity == old(self).my_identity,
                self.current_room == old(self).current_room,
            decreases n - i,
        {
            assert(rv.subrange(0, i + 1).drop_last() =~= rv.subrange(0, i as int));
            assert(rv.subrange(0, i + 1).last() == rows@[i as int]@);
            match decode_cursor(rows[i].as_slice()) {
                Ok((key, c)) => {
                    self.insert_cursor(key, c);
                },
                Err(_) => {},
            }
            i = i + 1;
        }
        assert(rv.subrange(0, n as int) =~= rv);
    }

    /// Applies one update of the cursor table: first the deleted rows, then
    /// the inserted ones.
    pub fn apply_cursor_rows(&mut self, deletes: &[Vec<u8>], inserts: &[Vec<u8>])
        requires
            old(self).wf(),
        ensures
            final(self).wf(),
            final(self).cursor_views() == cursors_loaded(
                cursor_deletes_applied(old(self).cursor_views(), rows_view(deletes@)),
                rows_view(inserts@),
            ),
            final(self).elements == old(self).elements,
            final(self).connected == old(self).connected,
            final(self).my_identity == old(self).my_identity,
            final(self).current_room == old(self).current_room,
    {
        let ghost s0 = self.cursor_views();
        let ghost dv = rows_view(deletes@);
        let n = deletes.len();
        let mut i: usize = 0;
        while i < n
            invariant
                n == deletes@.len(),
                dv == rows_view(deletes@),
                0 <= i <= n,
                self.wf(),
                self.cursor_views() == cursor_deletes_applied(s0, dv.subrange(0, i as int)),
                self.elements == old(self).elements,
                self.connected == old(self).connected,
                self.my_identity == old(self).my_identity,
                self.current_room == old(self).current_room,
            decreases n - i,
        {
            assert(dv.subrange(0, i + 1).drop_last() =~= dv.subrange(0, i as int));
            assert(dv.subrange(0, i + 1).last() == deletes@[i as int]@);
            match decode_cursor_key(deletes[i].as_slice()) {
                Ok(key) => {
                    self.remove_cursor(key.as_str());
                },
                Err(_) => {},
            }
            i = i + 1;
        }
        assert(dv.subrange(0, n as int) =~= dv);
        self.load_cursor_rows(inserts);
    }

    /// Applies the rows of one table in a subscription's first answer.
    pub fn apply_subscription_rows(&mut self, table: &str, rows: &[Vec<u8>])
        requires
            old(self).wf(),
        ensures
            final(self).wf(),
            final(self).connected == old(self).connected,
            final(self).my_identity == old(self).my_identity,
            final(self).current_room == old(self).current_room,
            if table@ == "element"@ {
                &&& final(self).element_views() == elements_loaded(old(self).element_views(), rows_view(rows@))
                &&& final(self).cursors == old(self).cursors
            } else if table@ == "cursor"@ {
                &&& final(self).cursor_views() == cursors_loaded(old(self).cursor_views(), rows_view(rows@))
                &&& final(self).elements == old(self).elements
            } else {
                &&& final(self).elements == old(self).elements
                &&& final(self).cursors == old(self).cursors
            },
    {
        if str_eq(table, "element") {
            self.load_element_rows(rows);
        } else if str_eq(table, "cursor") {
            self.load_cursor_rows(rows);
        }
    }

    /// Applies the deleted and inserted rows of one table in a transaction
    /// update; `sel` is the selection, which follows a temporary element to
    /// the id the server gave it.
    pub fn apply_table_update<N: Fn(&ElementData, &ElementData) -> bool>(
        &mut self,
        table: &str,
        deletes: &[Vec<u8>],
        inserts: &[Vec<u8>],
        sel: &mut Vec<u64>,
        near: &N,
    )
        requires
            old(self).wf(),
            forall|a: &ElementData, c: &ElementData| #[trigger] near.requires((a, c)),
        ensures
            final(self).wf(),
            final(self).connected == old(self).connected,
            final(self).my_identity == old(self).my_identity,
            final(self).current_room == old(self).current_room,
            if table@ == "element"@ {
                &&& inserts_applied(
                    *near,
                    element_deletes_applied(old(self).element_views(), rows_view(deletes@)),
                    old(sel)@,
                    rows_view(inserts@),
                    final(self).element_views(),
                    final(sel)@,
                )
                &&& final(self).cursors == old(self).cursors
            } else if table@ == "cursor"@ {
                &&& final(self).cursor_views() == cursors_loaded(
                    cursor_deletes_applied(old(self).cursor_views(), rows_view(deletes@)),
                    rows_view(inserts@),
                )
                &&& final(self).elements == old(self).elements
                &&& final(sel)@ == old(sel)@
            } else {
                &&& final(self).elements == old(self).elements
                &&& final(self).cursors == old(self).cursors
                &&& final(sel)@ == old(sel)@
            },
    {
        if str_eq(table, "element") {
            self.apply_element_rows(deletes, inserts, sel, near);
        } else if str_eq(table, "cursor") {
            self.apply_cursor_rows(deletes, inserts);
        }
    }
}

/// The greatest z-index among the elements, if there is one.
pub open spec fn max_z(s: Seq<ElementDataView>) -> Option<i32>
    decreases s.len(),
{
    if s.len() == 0 {
        None
    } else {
        match max_z(s.drop_last()) {
            None => Some(s.last().z_index),
            Some(m) => Some(if s.last().z_index > m { s.last().z_index } else { m }),
        }
    }
}

/// The z-index a new local element gets: one above the topmost element, or 1
/// in an empty store.
pub open spec fn next_local_z(s: Seq<ElementDataView>) -> int {
    match max_z(s) {
        Some(m) => m + 1,
        None => 1,
    }
}

/// The greatest z-index bounds every element's and is one of them.
pub proof fn lemma_max_z(s: Seq<ElementDataView>)
    ensures
        max_z(s) is None <==> s.len() == 0,
        max_z(s) matches Some(m) ==> (forall|i: int| 0 <= i < s.len() ==> #[trigger] s[i].z_index <= m),
        max_z(s) matches Some(m) ==> (exists|i: int| 0 <= i < s.len() && #[trigger] s[i].z_index == m),
    decreases s.len(),
{
    if s.len() > 0 {
        let init = s.drop_last();
        lemma_max_z(init);
        let last = s.len() - 1;
        assert(s[last] == s.last());
        assert forall|i: int| 0 <= i < init.len() implies #[trigger] init[i] == s[i] by {}
        if let Some(m) = max_z(s) {
            assert forall|i: int| 0 <= i < s.len() implies #[trigger] s[i].z_index <= m by {
                if i < last {
                    assert(init[i] == s[i]);
                }
            }
            if m != s.last().z_index {
                let k = choose|k: int| 0 <= k < init.len() && #[trigger] init[k].z_index == m;
                assert(init[k] == s[k]);
            }
        }
    }
}

/// A new local element is drawn above every element already in the store.
pub proof fn law_local_element_on_top(s: Seq<ElementDataView>, i: int)
    requires
        0 <= i < s.len(),
    ensures
        s[i].z_index < next_local_z(s),
{
    lemma_max_z(s);
}

/// The elements with these ids, in the order of the ids, skipping ids that
/// name no element.
pub open spec fn picked(s: Seq<ElementDataView>, ids: Seq<u64>) -> Seq<ElementDataView>
    decreases ids.len(),
{
    if ids.len() == 0 {
        Seq::empty()
    } else {
        let t = picked(s, ids.drop_last());
        match elem_pos(s, ids.last()) {
            Some(i) => t.push(s[i]),
            None => t,
        }
    }
}

/// The elements without those with these ids.
pub open spec fn without_elements(s: Seq<ElementDataView>, ids: Seq<u64>) -> Seq<ElementDataView>
    decreases ids.len(),
{
    if ids.len() == 0 {
        s
    } else {
        without_element(without_elements(s, ids.drop_last()), ids.last())
    }
}

/// The first position of an element with this id.
pub open spec fn first_pos(order: Seq<ElementDataView>, id: u64) -> Option<int> {
    if exists|i: int| 0 <= i < order.len() && #[trigger] order[i].id == id {
        Some(
            choose|i: int|
                0 <= i < order.len() && #[trigger] order[i].id == id && forall|j: int|
                    0 <= j < i ==> #[trigger] order[j].id != id,
        )
    } else {
        None
    }
}

/// The element selected after stepping on from the current selection in
/// drawing order: the one after the first selected element, wrapping around
/// to the first; the first element when nothing selected is found; none when
/// there are no elements.
pub open spec fn next_in_order(order: Seq<ElementDataView>, current: Seq<u64>) -> Option<u64> {
    if order.len() == 0 {
        None
    } else {
        let start = if current.len() == 0 {
            0
        } else {
            match first_pos(order, current[0]) {
                Some(i) => i + 1,
                None => 0,
            }
        };
        Some(order[start % order.len() as int].id)
    }
}

fn position_of(order: &[ElementData], id: u64) -> (r: Option<usize>)
    ensures
        r matches Some(i) ==> i < order@.len() && first_pos(order@.map_values(|e: ElementData| e@), id) == Some(i as int),
        r is None ==> first_pos(order@.map_values(|e: ElementData| e@), id) is None,
{
    let ghost v = order@.map_values(|e: ElementData| e@);
    let n = order.len();
    let mut i: usize = 0;
    while i < n
        invariant
            n == order@.len(),
            v == order@.map_values(|e: ElementData| e@),
            0 <= i <= n,
            forall|j: int| 0 <= j < i ==> #[trigger] v[j].id != id,
        decreases n - i,
    {
        if order[i].id == id {
            assert(v[i as int].id == id);
            proof {
                let c = choose|c: int|
                    0 <= c < v.len() && #[trigger] v[c].id == id && forall|j: int| 0 <= j < c ==> #[trigger] v[j].id != id;
                if c < i {
                    assert(v[c].id != id);
                } else if c > i {
                    assert(v[i as int].id != id);
                }
            }
            return Some(i);
        }
        i = i + 1;
    }
    None
}

/// The element to select next, going through `order` (the elements in
/// drawing order) from the first id of the current selection.
pub fn select_next(order: &[ElementData], current: &[u64]) -> (r: Option<u64>)
    ensures
        r == next_in_order(order@.map_values(|e: ElementData| e@), current@),
{
    let n = order.len();
    if n == 0 {
        return None;
    }
    let start: usize = if current.len() == 0 {
        0
    } else {
        match position_of(order, current[0]) {
            Some(i) => i + 1,
            None => 0,
        }
    };
    let k = start % n;
    Some(order[k].id)
}

impl StdbStore {
    /// The z-index a new local element gets.
    pub fn next_z_index(&self) -> (z: i32)
        requires
            max_z(self.element_views()) matches Some(m) ==> m < i32::MAX,
        ensures
            z == next_local_z(self.element_views()),
    {
        let ghost v = self.element_views();
        let n = self.elements.len();
        let mut best: Option<i32> = None;
        let mut i: usize = 0;
        while i < n
            invariant
                n == self.elements@.len(),
                v == self.element_views(),
                0 <= i <= n,
                best == max_z(v.subrange(0, i as int)),
            decreases n - i,
        {
            let z = self.elements[i].z_index;
            assert(v.subrange(0, i + 1).drop_last() =~= v.subrange(0, i as int));
            assert(v.subrange(0, i + 1).last() == self.elements@[i as int]@);
            best = match best {
                None => Some(z),
                Some(m) => Some(if z > m { z } else { m }),
            };
            i = i + 1;
        }
        assert(v.subrange(0, n as int) =~= v);
        match best {
            Some(m) => m + 1,
            None => 1,
        }
    }

    /// Copies of the elements with these ids, in the order of the ids.
    pub fn copy_selected(&self, ids: &[u64]) -> (r: Vec<ElementData>)
        requires
            self.wf(),
        ensures
            r@.map_values(|e: ElementData| e@) == picked(self.element_views(), ids@),
    {
        let ghost v = self.element_views();
        let n = ids.len();
        let mut out: Vec<ElementData> = Vec::new();
        let mut i: usize = 0;
        while i < n
            invariant
                n == ids@.len(),
                v == self.element_views(),
                self.wf(),
                0 <= i <= n,
                out@.map_values(|e: ElementData| e@) == picked(v, ids@.subrange(0, i as int)),
            decreases n - i,
        {
            assert(ids@.subrange(0, i + 1).drop_last() =~= ids@.subrange(0, i as int));
            assert(ids@.subrange(0, i + 1).last() == ids@[i as int]);
            let ghost before = out@.map_values(|e: ElementData| e@);
            match self.find_element(ids[i]) {
                Some(k) => {
                    let c = copy_element(&self.elements[k]);
                    out.push(c);
                    assert(out@.map_values(|e: ElementData| e@) =~= before.push(v[k as int]));
                },
                None => {},
            }
            i = i + 1;
        }
        assert(ids@.subrange(0, n as int) =~= ids@);
        out
    }

    /// Removes the elements with these ids.
    pub fn remove_elements(&mut self, ids: &[u64])
        requires
            old(self).wf(),
        ensures
            final(self).wf(),
            final(self).element_views() == without_elements(old(self).element_views(), ids@),
            final(self).cursors == old(self).cursors,
            final(self).connected == old(self).connected,
            final(self).my_identity == old(self).my_identity,
            final(self).current_room == old(self).current_room,
    {
        let ghost s0 = self.element_views();
        let n = ids.len();
        let mut i: usize = 0;
        while i < n
            invariant
                n == ids@.len(),
                0 <= i <= n,
                self.wf(),
                self.element_views() == without_elements(s0, ids@.subrange(0, i as int)),
                self.cursors == old(self).cursors,
                self.connected == old(self).connected,
                self.my_identity == old(self).my_identity,
                self.current_room == old(self).current_room,
            decreases n - i,
        {
            assert(ids@.subrange(0, i + 1).drop_last() =~= ids@.subrange(0, i as int));
            assert(ids@.subrange(0, i + 1).last() == ids@[i as int]);
            self.remove_element(ids[i]);
            i = i + 1;
        }
        assert(ids@.subrange(0, n as int) =~= ids@);
    }
}


/// The hit test `hits` may answer `r` on element `x`.
pub open spec fn hit_says<H: Fn(&ElementData) -> bool>(hits: H, x: ElementDataView, r: bool) -> bool {
    exists|a: ElementData| a@ == x && #[trigger] hits.ensures((&a,), r)
}

/// The topmost element of `order` (the elements in drawing order) that the
/// hit test finds under the pointer, going from the top down; `None` when it
/// finds none.
pub fn topmost_hit<H: Fn(&ElementData) -> bool>(order: &[ElementData], hits: &H) -> (r: Option<u64>)
    requires
        forall|a: &ElementData| #[trigger] hits.requires((a,)),
    ensures
        r is None ==> forall|k: int| 0 <= k < order@.len() ==> hit_says(*hits, #[trigger] order@[k]@, false),
        r matches Some(id) ==> exists|j: int|
            0 <= j < order@.len() && order@[j].id == id && hit_says(*hits, order@[j]@, true) && forall|k: int|
                j < k < order@.len() ==> hit_says(*hits, #[trigger] order@[k]@, false),
{
    let n = order.len();
    let mut i: usize = n;
    while i > 0
        invariant
            n == order@.len(),
            0 <= i <= n,
            forall|a: &ElementData| #[trigger] hits.requires((a,)),
            forall|k: int| i <= k < n ==> hit_says(*hits, #[trigger] order@[k]@, false),
        decreases i,
    {
        i = i - 1;
        let e = &order[i];
        let h = hits(e);
        assert(hits.ensures((e,), h));
        if h {
            assert(hit_says(*hits, order@[i as int]@, true));
            return Some(e.id);
        }
    }
    None
}


/// A temporary id for an element the client creates: the time in
/// milliseconds, times a million, plus a random number below a million.
pub fn local_id(now_ms: u64, random: u64) -> (id: u64)
    requires
        now_ms * 1_000_000 + random <= u64::MAX,
    ensures
        id == now_ms * 1_000_000 + random,
{
    now_ms * 1_000_000 + random
}

/// Every temporary id made after the first second of the epoch is above the
/// bound by which the store recognises temporary copies.
pub proof fn law_local_ids_are_temporary(now_ms: u64, random: u64)
    requires
        now_ms > 1000,
    ensures
        now_ms * 1_000_000 + random > LOCAL_ID_FLOOR,
{
    assert(now_ms * 1_000_000 >= 1001 * 1_000_000) by (nonlinear_arith)
        requires
            now_ms >= 1001,
    ;
}

} // verus!
