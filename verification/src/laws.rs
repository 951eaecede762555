//! The queue discipline of the buffer store, stated and proved over its
//! mathematical model: insertion order is kept within a buffer, first-seen
//! order is kept across patients, and a pending patient is never enqueued
//! twice.

use vstd::prelude::*;

use crate::state_actor::{
    buffer_of, lemma_store_insert_wf, lemma_wf_index_unique, queue_of, store_has, store_index,
    store_insert, store_wf, StoreModel,
};

verus! {

/// A patient id stands in the pending queue if and only if the store holds a
/// buffer for it: queue entry and buffer exist and vanish together.
pub proof fn lemma_has_iff_queued(s: StoreModel, patient_id: i32)
    ensures
        store_has(s, patient_id) <==> queue_of(s).contains(patient_id),
{
    if store_has(s, patient_id) {
        let i = choose|i: int| 0 <= i < s.len() && s[i].0 == patient_id;
        assert(queue_of(s)[i] == patient_id);
    }
    if queue_of(s).contains(patient_id) {
        let i = choose|i: int| 0 <= i < queue_of(s).len() && queue_of(s)[i] == patient_id;
        assert(s[i].0 == patient_id);
    }
}

/// Inserting a turn for an already-pending patient leaves the pending queue
/// unchanged — no second entry is ever created — while a patient not yet
/// pending is enqueued exactly once, at the tail.
pub proof fn lemma_insert_pending_queue(s: StoreModel, patient_id: i32, turn: Seq<char>)
    requires
        store_wf(s),
    ensures
        store_wf(store_insert(s, patient_id, turn)),
        store_has(store_insert(s, patient_id, turn), patient_id),
        store_has(s, patient_id) ==> queue_of(store_insert(s, patient_id, turn)) == queue_of(s),
        !store_has(s, patient_id) ==> queue_of(store_insert(s, patient_id, turn)) == queue_of(
            s,
        ).push(patient_id),
{
    lemma_store_insert_wf(s, patient_id, turn);
    let s2 = store_insert(s, patient_id, turn);
    if store_has(s, patient_id) {
        let k = store_index(s, patient_id);
        assert(0 <= k < s.len() && s[k].0 == patient_id);
        assert(s2[k].0 == patient_id);
        assert(queue_of(s2) =~= queue_of(s));
    } else {
        assert(s2[s.len() as int].0 == patient_id);
        assert(queue_of(s2) =~= queue_of(s).push(patient_id));
    }
}

/// Inserting appends the turn to exactly the addressed patient's buffer;
/// every other patient's buffer, and its presence in the store, is untouched.
pub proof fn lemma_insert_buffer(s: StoreModel, patient_id: i32, turn: Seq<char>)
    requires
        store_wf(s),
    ensures
        buffer_of(store_insert(s, patient_id, turn), patient_id) == buffer_of(
            s,
            patient_id,
        ).push(turn),
        forall|q: i32|
            q != patient_id ==> #[trigger] buffer_of(store_insert(s, patient_id, turn), q)
                == buffer_of(s, q),
        forall|q: i32|
            q != patient_id ==> (#[trigger] store_has(store_insert(s, patient_id, turn), q)
                <==> store_has(s, q)),
{
    lemma_store_insert_wf(s, patient_id, turn);
    let s2 = store_insert(s, patient_id, turn);
    if store_has(s, patient_id) {
        let k = store_index(s, patient_id);
        assert(0 <= k < s.len() && s[k].0 == patient_id);
        assert(s2[k].0 == patient_id);
        lemma_wf_index_unique(s2, store_index(s2, patient_id), k);
        assert(buffer_of(s2, patient_id) == s[k].1.push(turn));
        lemma_wf_index_unique(s, store_index(s, patient_id), k);
        assert forall|q: i32| q != patient_id implies (#[trigger] store_has(s2, q) <==> store_has(
            s,
            q,
        )) by {
            if store_has(s, q) {
                let i = store_index(s, q);
                assert(0 <= i < s.len() && s[i].0 == q);
                assert(i != k);
                assert(s2[i].0 == q);
            }
            if store_has(s2, q) {
                let i = store_index(s2, q);
                assert(0 <= i < s2.len() && s2[i].0 == q);
                assert(i != k);
                assert(s[i].0 == q);
            }
        }
        assert forall|q: i32| q != patient_id implies #[trigger] buffer_of(s2, q) == buffer_of(
            s,
            q,
        ) by {
            if store_has(s, q) {
                let i = store_index(s, q);
                assert(0 <= i < s.len() && s[i].0 == q);
                assert(i != k);
                assert(s2[i].0 == q);
                lemma_wf_index_unique(s2, store_index(s2, q), i);
                assert(buffer_of(s2, q) == s2[i].1);
            } else {
                assert(!store_has(s2, q));
            }
        }
    } else {
        let n = s.len() as int;
        assert(s2[n].0 == patient_id);
        lemma_wf_index_unique(s2, store_index(s2, patient_id), n);
        assert(buffer_of(s2, patient_id) == seq![turn]);
        assert(buffer_of(s, patient_id).push(turn) =~= seq![turn]);
        assert forall|q: i32| q != patient_id implies (#[trigger] store_has(s2, q) <==> store_has(
            s,
            q,
        )) by {
            if store_has(s, q) {
                let i = store_index(s, q);
                assert(0 <= i < s.len() && s[i].0 == q);
                assert(s2[i].0 == q);
            }
            if store_has(s2, q) {
                let i = store_index(s2, q);
                assert(0 <= i < s2.len() && s2[i].0 == q);
                assert(i != n);
                assert(s[i].0 == q);
            }
        }
        assert forall|q: i32| q != patient_id implies #[trigger] buffer_of(s2, q) == buffer_of(
            s,
            q,
        ) by {
            if store_has(s, q) {
                let i = store_index(s, q);
                assert(0 <= i < s.len() && s[i].0 == q);
                assert(s2[i].0 == q);
                lemma_wf_index_unique(s2, store_index(s2, q), i);
                assert(buffer_of(s2, q) == s2[i].1);
            } else {
                assert(!store_has(s2, q));
            }
        }
    }
}

/// The store after inserting the turns `ts` for one patient, oldest first,
/// with no intervening flush.
pub open spec fn store_insert_all(s: StoreModel, patient_id: i32, ts: Seq<Seq<char>>) -> StoreModel
    decreases ts.len(),
{
    if ts.len() == 0 {
        s
    } else {
        store_insert_all(store_insert(s, patient_id, ts[0]), patient_id, ts.drop_first())
    }
}

/// Order preservation: inserting the turns `t1, …, tn` for one patient, with
/// no intervening flush, accumulates exactly `[t1, …, tn]` behind whatever
/// the patient already had, so a subsequent flush for that patient yields the
/// turns in exactly insertion order.
pub proof fn lemma_order_preservation(s: StoreModel, patient_id: i32, ts: Seq<Seq<char>>)
    requires
        store_wf(s),
    ensures
        store_wf(store_insert_all(s, patient_id, ts)),
        buffer_of(store_insert_all(s, patient_id, ts), patient_id) == buffer_of(s, patient_id)
            + ts,
        ts.len() > 0 ==> store_has(store_insert_all(s, patient_id, ts), patient_id),
    decreases ts.len(),
{
    if ts.len() == 0 {
        assert(buffer_of(s, patient_id) + ts =~= buffer_of(s, patient_id));
    } else {
        let s1 = store_insert(s, patient_id, ts[0]);
        lemma_insert_buffer(s, patient_id, ts[0]);
        lemma_insert_pending_queue(s, patient_id, ts[0]);
        lemma_order_preservation(s1, patient_id, ts.drop_first());
        assert(buffer_of(s, patient_id).push(ts[0]) + ts.drop_first() =~= buffer_of(s, patient_id)
            + ts);
    }
}

/// A batch of insert operations, each a `(patient_id, turn)` pair, applied in
/// order.
pub open spec fn store_insert_ops(s: StoreModel, ops: Seq<(i32, Seq<char>)>) -> StoreModel
    decreases ops.len(),
{
    if ops.len() == 0 {
        s
    } else {
        store_insert_ops(store_insert(s, ops[0].0, ops[0].1), ops.drop_first())
    }
}

/// The ids of `ops` that are not yet in `pending`, each listed once, in the
/// order of their first occurrence.
pub open spec fn first_seen(pending: Seq<i32>, ops: Seq<(i32, Seq<char>)>) -> Seq<i32>
    decreases ops.len(),
{
    if ops.len() == 0 {
        Seq::empty()
    } else if pending.contains(ops[0].0) {
        first_seen(pending, ops.drop_first())
    } else {
        seq![ops[0].0] + first_seen(pending.push(ops[0].0), ops.drop_first())
    }
}

/// Any run of inserts extends the pending queue by exactly the new patient
/// ids in first-seen order; the ids already pending keep their places.
pub proof fn lemma_ops_queue(s: StoreModel, ops: Seq<(i32, Seq<char>)>)
    requires
        store_wf(s),
    ensures
        store_wf(store_insert_ops(s, ops)),
        queue_of(store_insert_ops(s, ops)) == queue_of(s) + first_seen(queue_of(s), ops),
    decreases ops.len(),
{
    if ops.len() == 0 {
        assert(queue_of(s) + first_seen(queue_of(s), ops) =~= queue_of(s));
    } else {
        let id = ops[0].0;
        lemma_has_iff_queued(s, id);
        lemma_insert_pending_queue(s, id, ops[0].1);
        let s1 = store_insert(s, id, ops[0].1);
        lemma_ops_queue(s1, ops.drop_first());
        if store_has(s, id) {
        } else {
            assert(queue_of(s).push(id) =~= queue_of(s) + seq![id]);
            assert(queue_of(s) + (seq![id] + first_seen(queue_of(s).push(id), ops.drop_first()))
                =~= (queue_of(s) + seq![id]) + first_seen(
                queue_of(s).push(id),
                ops.drop_first(),
            ));
        }
    }
}

/// When every id of `ops` is already pending, no id is newly seen.
proof fn lemma_first_seen_none_new(pending: Seq<i32>, ops: Seq<(i32, Seq<char>)>)
    requires
        forall|k: int| 0 <= k < ops.len() ==> pending.contains(#[trigger] ops[k].0),
    ensures
        first_seen(pending, ops) == Seq::<i32>::empty(),
    decreases ops.len(),
{
    if ops.len() > 0 {
        assert(pending.contains(ops[0].0));
        assert forall|k: int| 0 <= k < ops.drop_first().len() implies pending.contains(
            #[trigger] ops.drop_first()[k].0,
        ) by {
            assert(ops.drop_first()[k] == ops[k + 1]);
        }
        lemma_first_seen_none_new(pending, ops.drop_first());
    }
}

/// When `eb` is the only id of `ops` not already pending, and it occurs, it
/// is the only newly seen id.
proof fn lemma_first_seen_one_new(pending: Seq<i32>, ops: Seq<(i32, Seq<char>)>, eb: i32)
    requires
        !pending.contains(eb),
        forall|k: int|
            0 <= k < ops.len() ==> (#[trigger] ops[k].0 == eb || pending.contains(ops[k].0)),
        exists|k: int| 0 <= k < ops.len() && #[trigger] ops[k].0 == eb,
    ensures
        first_seen(pending, ops) == seq![eb],
    decreases ops.len(),
{
    let rest = ops.drop_first();
    assert forall|k: int| 0 <= k < rest.len() implies (#[trigger] rest[k].0 == eb
        || pending.contains(rest[k].0)) by {
        assert(rest[k] == ops[k + 1]);
    }
    if pending.contains(ops[0].0) {
        let k = choose|k: int| 0 <= k < ops.len() && #[trigger] ops[k].0 == eb;
        assert(ops[0].0 != eb);
        assert(k > 0);
        assert(rest[k - 1] == ops[k]);
        lemma_first_seen_one_new(pending, rest, eb);
    } else {
        assert(ops[0].0 == eb);
        let pending2 = pending.push(eb);
        assert forall|k: int| 0 <= k < rest.len() implies pending2.contains(
            #[trigger] rest[k].0,
        ) by {
            if rest[k].0 == eb {
                assert(pending2[pending.len() as int] == eb);
            } else {
                let i = choose|i: int| 0 <= i < pending.len() && pending[i] == rest[k].0;
                assert(pending2[i] == rest[k].0);
            }
        }
        lemma_first_seen_none_new(pending2, rest);
        assert(seq![eb] + Seq::<i32>::empty() =~= seq![eb]);
    }
}

/// FIFO across patients: when a run of inserts touches exactly two patients,
/// and the first operation is for `ea` (so `ea` is first seen before `eb`),
/// the resulting pending queue is exactly `[ea, eb]` — the flush immediately
/// after the run selects `ea`, and the next one `eb`.
pub proof fn lemma_fifo_across_entities(ops: Seq<(i32, Seq<char>)>, ea: i32, eb: i32)
    requires
        ops.len() > 0,
        ea != eb,
        ops[0].0 == ea,
        exists|k: int| 0 <= k < ops.len() && #[trigger] ops[k].0 == eb,
        forall|k: int| 0 <= k < ops.len() ==> (#[trigger] ops[k].0 == ea || ops[k].0 == eb),
    ensures
        store_wf(store_insert_ops(Seq::empty(), ops)),
        queue_of(store_insert_ops(Seq::empty(), ops)) == seq![ea, eb],
{
    let s0 = Seq::<(i32, Seq<Seq<char>>)>::empty();
    lemma_ops_queue(s0, ops);
    let q0 = queue_of(s0);
    assert(q0 =~= Seq::<i32>::empty());
    assert(!q0.contains(ea));
    let rest = ops.drop_first();
    let pending1 = q0.push(ea);
    assert(pending1 =~= seq![ea]);
    assert(first_seen(q0, ops) == seq![ea] + first_seen(pending1, rest));
    assert(!pending1.contains(eb)) by {
        assert(forall|i: int| 0 <= i < pending1.len() ==> pending1[i] == ea);
    }
    assert forall|k: int| 0 <= k < rest.len() implies (#[trigger] rest[k].0 == eb
        || pending1.contains(rest[k].0)) by {
        assert(rest[k] == ops[k + 1]);
        if rest[k].0 == ea {
            assert(pending1[0] == ea);
        }
    }
    let kb = choose|k: int| 0 <= k < ops.len() && #[trigger] ops[k].0 == eb;
    assert(kb > 0);
    assert(rest[kb - 1] == ops[kb]);
    lemma_first_seen_one_new(pending1, rest, eb);
    assert(q0 + (seq![ea] + seq![eb]) =~= seq![ea, eb]);
}

} // verus!
