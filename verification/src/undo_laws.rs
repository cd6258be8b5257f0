//! Laws of the undo log: what undoing a change gives back, and what redoing
//! an undo gives back.
use vstd::prelude::*;

use crate::reducers::{
    applies_entry, create_outcome, decodes, delete_outcome, edited, encodes, entry_key, flagged,
    is_candidate, is_latest, latest_entry, lemma_latest_unique, replay_outcome, replayed, restores,
    update_outcome,
};
use crate::tables::{
    db_wf, element_pos, snapshot_of, with_snapshot, DbView, ElementSnapshot, ElementView,
    SnapshotView, UndoEntryView,
};
use crate::types::UndoAction;

verus! {

/// Every output of the decoder on bytes `b` is the snapshot `s`.
pub open spec fn decodes_to<D: Fn(&Vec<u8>) -> Option<ElementSnapshot>>(
    dec: D,
    b: Seq<u8>,
    s: SnapshotView,
) -> bool {
    forall|x: Vec<u8>, y: Option<ElementSnapshot>|
        x@ == b && #[trigger] dec.ensures((&x,), y) ==> (y matches Some(v) && v@ == s)
}

/// Whatever bytes the encoder makes of a snapshot, the decoder turns back
/// into that snapshot.
pub open spec fn round_trip<E: Fn(&ElementSnapshot) -> Vec<u8>, D: Fn(&Vec<u8>) -> Option<ElementSnapshot>>(
    enc: E,
    dec: D,
) -> bool {
    forall|s: SnapshotView, b: Seq<u8>| #[trigger] encodes(enc, s, b) ==> decodes_to(dec, b, s)
}

/// No two elements of a table share an id.
pub open spec fn ids_unique(els: Seq<ElementView>) -> bool {
    forall|a: int, b: int| 0 <= a < b < els.len() ==> #[trigger] els[a].id != #[trigger] els[b].id
}

proof fn lemma_pos_of_unique(els: Seq<ElementView>, id: u64, i: int)
    requires
        ids_unique(els),
        0 <= i < els.len(),
        els[i].id == id,
    ensures
        element_pos(els, id) == Some(i),
{
    assert(exists|j: int| 0 <= j < els.len() && #[trigger] els[j].id == id);
    let j = choose|j: int| 0 <= j < els.len() && #[trigger] els[j].id == id;
    if j < i {
        assert(els[j].id != els[i].id);
    } else if i < j {
        assert(els[i].id != els[j].id);
    }
}

proof fn lemma_latest_is(es: Seq<UndoEntryView>, k: int, user: Seq<u8>, room_id: u64, undone: bool)
    requires
        is_latest(es, k, user, room_id, undone),
    ensures
        latest_entry(es, user, room_id, undone) == Some(k),
{
    let c = choose|c: int| is_latest(es, c, user, room_id, undone);
    lemma_latest_unique(es, c, k, user, room_id, undone);
}

proof fn lemma_restore_decoded<D: Fn(&Vec<u8>) -> Option<ElementSnapshot>>(
    dec: D,
    b: Seq<u8>,
    s: SnapshotView,
    old_e: ElementView,
    new_e: ElementView,
    sender: Seq<u8>,
)
    requires
        decodes_to(dec, b, s),
        restores(dec, b, old_e, new_e, sender),
    ensures
        new_e == edited(old_e, s, sender),
{
    if decodes(dec, b, None) {
        let (x, y) = choose|x: Vec<u8>, y: Option<ElementSnapshot>|
            x@ == b && #[trigger] dec.ensures((&x,), y) && match (y, None::<SnapshotView>) {
                (None, None) => true,
                (Some(v), Some(w)) => v@ == w,
                _ => false,
            };
        assert(dec.ensures((&x,), y));
    }
    assert(decodes(dec, b, Some(snapshot_of(new_e))));
    let (x, y) = choose|x: Vec<u8>, y: Option<ElementSnapshot>|
        x@ == b && #[trigger] dec.ensures((&x,), y) && match (y, Some(snapshot_of(new_e))) {
            (None, None) => true,
            (Some(v), Some(w)) => v@ == w,
            _ => false,
        };
    assert(dec.ensures((&x,), y));
    assert(snapshot_of(new_e) == s);
}

/// Undoing and redoing never add, remove or reorder elements, and leave each
/// element's id, room, kind and z-index as they were.
pub proof fn law_replay_keeps_identity<D: Fn(&Vec<u8>) -> Option<ElementSnapshot>>(
    dec: D,
    old_els: Seq<ElementView>,
    new_els: Seq<ElementView>,
    entry: UndoEntryView,
    sender: Seq<u8>,
    undo: bool,
)
    requires
        applies_entry(dec, old_els, new_els, entry, sender, undo),
    ensures
        new_els.len() == old_els.len(),
        forall|j: int|
            0 <= j < old_els.len() ==> {
                &&& #[trigger] new_els[j].id == old_els[j].id
                &&& new_els[j].room_id == old_els[j].room_id
                &&& new_els[j].kind == old_els[j].kind
                &&& new_els[j].z_index == old_els[j].z_index
            },
{
    if let Some(i) = element_pos(old_els, entry.element_id) {
        if entry.action == UndoAction::Update {
            let state = if undo { entry.prev_state } else { entry.next_state };
            let o = old_els[i];
            let n = new_els[i];
            if !(decodes(dec, state, None) && n == o) {
                assert(n == edited(o, snapshot_of(n), sender));
            }
            assert forall|j: int| 0 <= j < old_els.len() implies {
                &&& #[trigger] new_els[j].id == old_els[j].id
                &&& new_els[j].room_id == old_els[j].room_id
                &&& new_els[j].kind == old_els[j].kind
                &&& new_els[j].z_index == old_els[j].z_index
            } by {
                if j != i {
                    assert(new_els[j] == old_els[j]);
                }
            }
        }
    }
}

/// Undoing a creation right after it hides the created element again (it is
/// marked deleted, one version on) and leaves every other element as it was;
/// the creation entry is marked undone, as the latest undo. This holds when none of the user's
/// earlier changes in the room, not undone, is stamped later than the
/// creation.
pub proof fn law_undo_reverts_create<E: Fn(&ElementSnapshot) -> Vec<u8>, D: Fn(&Vec<u8>) -> Option<ElementSnapshot>>(
    enc: E,
    dec: D,
    db0: DbView,
    db1: DbView,
    db2: DbView,
    sender: Seq<u8>,
    now: i64,
    e: ElementView,
)
    requires
        db_wf(db0),
        create_outcome(enc, db0, db1, sender, now, e),
        forall|j: int|
            0 <= j < db0.undo_entries.len() && is_candidate(#[trigger] db0.undo_entries[j], sender, e.room_id, false)
                ==> db0.undo_entries[j].timestamp <= now,
        replay_outcome(dec, db1, db2, sender, e.room_id, true),
    ensures
        db2 == (DbView {
            elements: db0.elements.push(flagged(e, sender, true)),
            undo_entries: db1.undo_entries.update(
                db0.undo_entries.len() as int,
                UndoEntryView { undone: true, undone_seq: db1.next_undo_seq, ..db1.undo_entries.last() },
            ),
            next_undo_seq: (db1.next_undo_seq + 1) as u64,
            ..db1
        }),
{
    let n = db0.undo_entries.len() as int;
    let es1 = db1.undo_entries;
    assert(es1[n] == es1.last());
    assert forall|j: int| 0 <= j < es1.len() && is_candidate(#[trigger] es1[j], sender, e.room_id, false) implies entry_key(es1[j], false)
        <= entry_key(es1[n], false) by {
        if j < n {
            assert(es1[j] == db0.undo_entries[j]);
        }
    }
    assert(is_latest(es1, n, sender, e.room_id, false));
    lemma_latest_is(es1, n, sender, e.room_id, false);
    let m = db0.elements.len() as int;
    let els1 = db1.elements;
    assert forall|a: int, b: int| 0 <= a < b < els1.len() implies #[trigger] els1[a].id != #[trigger] els1[b].id by {
        assert(els1[a] == db0.elements[a]);
        if b < m {
            assert(els1[b] == db0.elements[b]);
        }
    }
    assert(els1[m] == e);
    lemma_pos_of_unique(els1, e.id, m);
    assert(db2.elements =~= db0.elements.push(flagged(e, sender, true)));
}

/// Undoing a deletion right after it brings the element back: it is as it
/// was before the deletion, but two versions on and last updated by the
/// user; every other element is as it was. This holds when none of the
/// user's earlier changes in the room, not undone, is stamped later than the
/// deletion, and the version can still grow by two.
pub proof fn law_undo_reverts_delete<E: Fn(&ElementSnapshot) -> Vec<u8>, D: Fn(&Vec<u8>) -> Option<ElementSnapshot>>(
    enc: E,
    dec: D,
    db0: DbView,
    db1: DbView,
    db2: DbView,
    sender: Seq<u8>,
    now: i64,
    i: int,
)
    requires
        db_wf(db0),
        0 <= i < db0.elements.len(),
        !db0.elements[i].deleted,
        db0.elements[i].version < u64::MAX - 1,
        delete_outcome(enc, db0, db1, sender, now, i),
        forall|j: int|
            0 <= j < db0.undo_entries.len() && is_candidate(
                #[trigger] db0.undo_entries[j],
                sender,
                db0.elements[i].room_id,
                false,
            ) ==> db0.undo_entries[j].timestamp <= now,
        replay_outcome(dec, db1, db2, sender, db0.elements[i].room_id, true),
    ensures
        db2.elements == db0.elements.update(
            i,
            (ElementView { version: (db0.elements[i].version + 2) as u64, updated_by: sender, ..db0.elements[i] }),
        ),
        db2.undo_entries.last().undone,
        db2.undo_entries.drop_last() == db0.undo_entries,
{
    let e0 = db0.elements[i];
    let n = db0.undo_entries.len() as int;
    let es1 = db1.undo_entries;
    assert(es1[n] == es1.last());
    assert forall|j: int| 0 <= j < es1.len() && is_candidate(#[trigger] es1[j], sender, e0.room_id, false) implies entry_key(es1[j], false)
        <= entry_key(es1[n], false) by {
        if j < n {
            assert(es1[j] == db0.undo_entries[j]);
        }
    }
    assert(is_latest(es1, n, sender, e0.room_id, false));
    lemma_latest_is(es1, n, sender, e0.room_id, false);
    let els1 = db1.elements;
    assert forall|a: int, b: int| 0 <= a < b < els1.len() implies #[trigger] els1[a].id != #[trigger] els1[b].id by {
        assert(els1[a].id == db0.elements[a].id);
        assert(els1[b].id == db0.elements[b].id);
    }
    lemma_pos_of_unique(els1, e0.id, i);
    assert(db2.elements =~= db0.elements.update(
        i,
        ElementView { version: (e0.version + 2) as u64, updated_by: sender, ..e0 },
    ));
    assert(db2.undo_entries.drop_last() =~= db0.undo_entries);
}

/// Undoing an update right after it gives the element back its editable
/// state from before the update, two versions on and last updated by the
/// user; every other element is as it was. This holds for a decoder that
/// turns the encoder's bytes back into the snapshot they encode, when none of
/// the user's earlier changes in the room, not undone, is stamped later than
/// the update, and the version can still grow by two.
pub proof fn law_undo_reverts_update<E: Fn(&ElementSnapshot) -> Vec<u8>, D: Fn(&Vec<u8>) -> Option<ElementSnapshot>>(
    enc: E,
    dec: D,
    db0: DbView,
    db1: DbView,
    db2: DbView,
    sender: Seq<u8>,
    now: i64,
    i: int,
    s: SnapshotView,
)
    requires
        db_wf(db0),
        round_trip(enc, dec),
        0 <= i < db0.elements.len(),
        db0.elements[i].version < u64::MAX - 1,
        update_outcome(enc, db0, db1, sender, now, i, s),
        forall|j: int|
            0 <= j < db0.undo_entries.len() && is_candidate(
                #[trigger] db0.undo_entries[j],
                sender,
                db0.elements[i].room_id,
                false,
            ) ==> db0.undo_entries[j].timestamp <= now,
        replay_outcome(dec, db1, db2, sender, db0.elements[i].room_id, true),
    ensures
        db2.elements == db0.elements.update(
            i,
            (ElementView { version: (db0.elements[i].version + 2) as u64, updated_by: sender, ..db0.elements[i] }),
        ),
        db2.undo_entries.last().undone,
        db2.undo_entries.drop_last() == db0.undo_entries,
{
    let e0 = db0.elements[i];
    let n = db0.undo_entries.len() as int;
    let es1 = db1.undo_entries;
    let entry = es1.last();
    assert(es1[n] == entry);
    assert forall|j: int| 0 <= j < es1.len() && is_candidate(#[trigger] es1[j], sender, e0.room_id, false) implies entry_key(es1[j], false)
        <= entry_key(es1[n], false) by {
        if j < n {
            assert(es1[j] == db0.undo_entries[j]);
        }
    }
    assert(is_latest(es1, n, sender, e0.room_id, false));
    lemma_latest_is(es1, n, sender, e0.room_id, false);
    let els1 = db1.elements;
    assert forall|a: int, b: int| 0 <= a < b < els1.len() implies #[trigger] els1[a].id != #[trigger] els1[b].id by {
        assert(els1[a].id == db0.elements[a].id);
        assert(els1[b].id == db0.elements[b].id);
    }
    lemma_pos_of_unique(els1, e0.id, i);
    assert(encodes(enc, snapshot_of(e0), entry.prev_state));
    assert(decodes_to(dec, entry.prev_state, snapshot_of(e0)));
    lemma_restore_decoded(dec, entry.prev_state, snapshot_of(e0), els1[i], db2.elements[i], sender);
    assert(db2.elements[i] == ElementView { version: (e0.version + 2) as u64, updated_by: sender, ..e0 });
    assert(db2.elements =~= db0.elements.update(
        i,
        ElementView { version: (e0.version + 2) as u64, updated_by: sender, ..e0 },
    ));
    assert(db2.undo_entries.drop_last() =~= db0.undo_entries);
}

/// Redoing right after an undo redoes the change just undone, whatever the
/// user had undone before: the log is as it was before the undo but for the
/// place of that entry in the order of undos, and every element but the one
/// the entry names is as it was before the undo. That element comes back: a
/// creation or deletion puts its deleted flag back (unset for a creation, set
/// for a deletion); an update, with a decoder that turns the entry's states
/// before and after into `p` and `q`, leaves it with the state after, `q`;
/// either way two versions on and last updated by the user. This holds when
/// the undo found a change to undo, and the version can still grow by two.
pub proof fn law_redo_reverts_undo<D: Fn(&Vec<u8>) -> Option<ElementSnapshot>>(
    dec: D,
    db0: DbView,
    db1: DbView,
    db2: DbView,
    user: Seq<u8>,
    room_id: u64,
    p: SnapshotView,
    q: SnapshotView,
)
    requires
        db_wf(db0),
        replay_outcome(dec, db0, db1, user, room_id, true),
        replay_outcome(dec, db1, db2, user, room_id, false),
    ensures
        latest_entry(db0.undo_entries, user, room_id, false) matches Some(k) ==> {
            let en = db0.undo_entries[k];
            &&& latest_entry(db1.undo_entries, user, room_id, true) == Some(k)
            &&& db2 == (DbView {
                elements: db2.elements,
                undo_entries: db0.undo_entries.update(k, UndoEntryView { undone_seq: db0.next_undo_seq, ..en }),
                next_undo_seq: (db0.next_undo_seq + 1) as u64,
                ..db0
            })
            &&& match element_pos(db0.elements, en.element_id) {
                None => db2.elements == db0.elements,
                Some(i) => {
                    let e0 = db0.elements[i];
                    &&& db2.elements.len() == db0.elements.len()
                    &&& forall|j: int| 0 <= j < db0.elements.len() && j != i ==> #[trigger] db2.elements[j] == db0.elements[j]
                    &&& (en.action != UndoAction::Update && e0.version < u64::MAX - 1) ==> db2.elements[i] == (ElementView {
                        deleted: en.action == UndoAction::Delete,
                        version: (e0.version + 2) as u64,
                        updated_by: user,
                        ..e0
                    })
                    &&& (en.action == UndoAction::Update && e0.version < u64::MAX - 1 && decodes_to(dec, en.prev_state, p)
                        && decodes_to(dec, en.next_state, q)) ==> db2.elements[i] == (ElementView {
                        version: (e0.version + 2) as u64,
                        updated_by: user,
                        ..with_snapshot(e0, q)
                    })
                },
            }
        },
{
    let es0 = db0.undo_entries;
    if let Some(k) = latest_entry(es0, user, room_id, false) {
        let es1 = db1.undo_entries;
        let en = es0[k];
        let seq = db0.next_undo_seq;
        assert(is_latest(es0, k, user, room_id, false));
        assert(es1[k] == UndoEntryView { undone: true, undone_seq: seq, ..en });
        assert forall|j: int| 0 <= j < es1.len() && j != k && is_candidate(#[trigger] es1[j], user, room_id, true) implies entry_key(es1[j], true)
            < entry_key(es1[k], true) by {
            assert(es1[j] == es0[j]);
            assert(es0[j].undone);
        }
        assert(is_latest(es1, k, user, room_id, true));
        lemma_latest_is(es1, k, user, room_id, true);
        assert(db2.undo_entries =~= es0.update(k, UndoEntryView { undone_seq: seq, ..en }));
        law_replay_keeps_identity(dec, db0.elements, db1.elements, en, user, true);
        law_replay_keeps_identity(dec, db1.elements, db2.elements, es1[k], user, false);
        match element_pos(db0.elements, en.element_id) {
            None => {
                assert(db1.elements == db0.elements);
                assert forall|j: int| 0 <= j < db1.elements.len() implies #[trigger] db1.elements[j].id != en.element_id by {
                    if db1.elements[j].id == en.element_id {
                        assert(db0.elements[j].id == en.element_id);
                    }
                }
                assert(element_pos(db1.elements, en.element_id) is None);
                assert(db2.elements == db1.elements);
            },
            Some(i) => {
                let e0 = db0.elements[i];
                assert(ids_unique(db0.elements));
                let els1 = db1.elements;
                assert forall|a: int, b: int| 0 <= a < b < els1.len() implies #[trigger] els1[a].id != #[trigger] els1[b].id by {
                    assert(els1[a].id == db0.elements[a].id);
                    assert(els1[b].id == db0.elements[b].id);
                }
                lemma_pos_of_unique(db0.elements, en.element_id, i);
                lemma_pos_of_unique(els1, en.element_id, i);
                assert forall|j: int| 0 <= j < db0.elements.len() && j != i implies #[trigger] db2.elements[j] == db0.elements[j] by {
                    assert(els1[j] == db0.elements[j]);
                }
                if en.action == UndoAction::Update && e0.version < u64::MAX - 1 && decodes_to(dec, en.prev_state, p)
                    && decodes_to(dec, en.next_state, q) {
                    lemma_restore_decoded(dec, en.prev_state, p, e0, els1[i], user);
                    lemma_restore_decoded(dec, en.next_state, q, els1[i], db2.elements[i], user);
                }
            },
        }
    }
}

/// Undoing or redoing changes nothing in the log but at most one entry, and
/// that entry is one of the user's own in the room, flipped from `!undo` to
/// `undo` (and, for an undo, given the next place in the order of undos).
pub proof fn law_replay_touches_one_own_entry<D: Fn(&Vec<u8>) -> Option<ElementSnapshot>>(
    dec: D,
    db1: DbView,
    db2: DbView,
    user: Seq<u8>,
    room_id: u64,
    undo: bool,
)
    requires
        replay_outcome(dec, db1, db2, user, room_id, undo),
    ensures
        db2.undo_entries.len() == db1.undo_entries.len(),
        forall|j: int|
            0 <= j < db1.undo_entries.len() && #[trigger] db2.undo_entries[j] != db1.undo_entries[j] ==> {
                &&& is_candidate(db1.undo_entries[j], user, room_id, !undo)
                &&& db2.undo_entries[j] == replayed(db1.undo_entries[j], undo, db1.next_undo_seq)
            },
        forall|j: int, k: int|
            0 <= j < k < db1.undo_entries.len() ==> #[trigger] db2.undo_entries[j] == db1.undo_entries[j]
                || #[trigger] db2.undo_entries[k] == db1.undo_entries[k],
{
    if let Some(k) = latest_entry(db1.undo_entries, user, room_id, !undo) {
        assert(is_latest(db1.undo_entries, k, user, room_id, !undo));
    }
}

/// Redo follows the order of undos: after two undos in a row, a redo takes
/// back the change undone second, while the change undone first stays
/// undone and is the one the next redo takes. This holds whatever the user
/// had undone before, while the count of undos can still grow by two.
pub proof fn law_redo_follows_undo_order<D: Fn(&Vec<u8>) -> Option<ElementSnapshot>>(
    dec: D,
    db0: DbView,
    db1: DbView,
    db2: DbView,
    db3: DbView,
    user: Seq<u8>,
    room_id: u64,
)
    requires
        db_wf(db0),
        db0.next_undo_seq < u64::MAX - 1,
        replay_outcome(dec, db0, db1, user, room_id, true),
        replay_outcome(dec, db1, db2, user, room_id, true),
        replay_outcome(dec, db2, db3, user, room_id, false),
    ensures
        latest_entry(db0.undo_entries, user, room_id, false) matches Some(k1)
            ==> (latest_entry(db1.undo_entries, user, room_id, false) matches Some(k2) ==> {
            &&& k1 != k2
            &&& latest_entry(db2.undo_entries, user, room_id, true) == Some(k2)
            &&& !db3.undo_entries[k2].undone
            &&& db3.undo_entries[k1].undone
            &&& latest_entry(db3.undo_entries, user, room_id, true) == Some(k1)
        }),
{
    let es0 = db0.undo_entries;
    let es1 = db1.undo_entries;
    let es2 = db2.undo_entries;
    let es3 = db3.undo_entries;
    let seq = db0.next_undo_seq;
    if let Some(k1) = latest_entry(es0, user, room_id, false) {
        if let Some(k2) = latest_entry(es1, user, room_id, false) {
            assert(is_latest(es0, k1, user, room_id, false));
            assert(is_latest(es1, k2, user, room_id, false));
            assert(es1[k1].undone);
            assert(k1 != k2);
            assert(db1.next_undo_seq == seq + 1);
            assert(es2[k2].undone_seq == seq + 1);
            assert(es2[k1] == es1[k1]);
            assert(es2[k1].undone_seq == seq);
            assert forall|j: int| 0 <= j < es2.len() && j != k2 && is_candidate(#[trigger] es2[j], user, room_id, true) implies entry_key(es2[j], true)
                < entry_key(es2[k2], true) by {
                if j != k1 {
                    assert(es2[j] == es0[j]);
                    assert(es0[j].undone);
                }
            }
            assert(is_latest(es2, k2, user, room_id, true));
            lemma_latest_is(es2, k2, user, room_id, true);
            assert(es3[k2] == replayed(es2[k2], false, db2.next_undo_seq));
            assert(es3[k1] == es2[k1]);
            assert forall|j: int| 0 <= j < es3.len() && j != k1 && is_candidate(#[trigger] es3[j], user, room_id, true) implies entry_key(es3[j], true)
                < entry_key(es3[k1], true) by {
                if j != k2 {
                    assert(es3[j] == es0[j]);
                    assert(es0[j].undone);
                }
            }
            assert(is_latest(es3, k1, user, room_id, true));
            lemma_latest_is(es3, k1, user, room_id, true);
        }
    }
}

} // verus!
