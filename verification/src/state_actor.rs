//! The state actor: exclusive owner of the per-patient turn buffers and of
//! the FIFO queue of patients awaiting a flush.
//!
//! The store is modelled as a sequence of `(patient_id, buffer)` pairs in
//! first-seen order: the pending queue is the sequence of ids, and the buffer
//! map is the association of each id with its turns. Keeping both in one
//! sequence makes the invariant that they move together — an id is pending
//! exactly while its buffer exists — hold by construction; uniqueness of the
//! ids is the well-formedness predicate [`store_wf`].

use vstd::prelude::*;

use crate::messages::{MessageType, ProtocolViolation, StateActorMessage};

verus! {

/// The mathematical model of the buffer store: `(patient_id, turns)` pairs in
/// first-seen FIFO order.
pub type StoreModel = Seq<(i32, Seq<Seq<char>>)>;

/// The pending queue: the patient ids of the store in order.
pub open spec fn queue_of(s: StoreModel) -> Seq<i32> {
    s.map_values(|e: (i32, Seq<Seq<char>>)| e.0)
}

/// A store is well formed when no patient id occurs twice.
pub open spec fn store_wf(s: StoreModel) -> bool {
    forall|i: int, j: int| 0 <= i < j < s.len() ==> s[i].0 != s[j].0
}

/// Whether the store holds a buffer for `patient_id`.
pub open spec fn store_has(s: StoreModel, patient_id: i32) -> bool {
    exists|i: int| 0 <= i < s.len() && s[i].0 == patient_id
}

/// The position of `patient_id` in the store; meaningful only when
/// `store_has(s, patient_id)` (and then unique, by `store_wf`).
pub open spec fn store_index(s: StoreModel, patient_id: i32) -> int {
    choose|i: int| 0 <= i < s.len() && s[i].0 == patient_id
}

/// The buffer accumulated for `patient_id`, empty when the patient is absent.
pub open spec fn buffer_of(s: StoreModel, patient_id: i32) -> Seq<Seq<char>> {
    if store_has(s, patient_id) {
        s[store_index(s, patient_id)].1
    } else {
        Seq::empty()
    }
}

/// The store after one insert: the turn is appended to the patient's buffer,
/// and a patient not yet pending is enqueued at the tail with a one-turn
/// buffer.
pub open spec fn store_insert(s: StoreModel, patient_id: i32, turn: Seq<char>) -> StoreModel {
    if store_has(s, patient_id) {
        s.update(
            store_index(s, patient_id),
            (patient_id, s[store_index(s, patient_id)].1.push(turn)),
        )
    } else {
        s.push((patient_id, seq![turn]))
    }
}

/// In a well-formed store the position of a patient id is unique.
pub proof fn lemma_wf_index_unique(s: StoreModel, i: int, j: int)
    requires
        store_wf(s),
        0 <= i < s.len(),
        0 <= j < s.len(),
        s[i].0 == s[j].0,
    ensures
        i == j,
{
}

/// This actor manages the per-patient chat buffers: turns accumulate under
/// their patient id, and a flush removes the oldest pending patient's whole
/// buffer.
pub struct StateActor {
    entries: Vec<(i32, Vec<String>)>,
}

impl View for StateActor {
    type V = StoreModel;

    closed spec fn view(&self) -> StoreModel {
        self.entries.deep_view()
    }
}

impl StateActor {
    /// The store invariant: patient ids are unique, so a patient is pending
    /// at most once.
    pub open spec fn wf(self) -> bool {
        store_wf(self@)
    }

    /// Constructs an empty state actor: no buffers, no pending patients.
    pub fn new() -> (r: StateActor)
        ensures
            r@ == Seq::<(i32, Seq<Seq<char>>)>::empty(),
            r.wf(),
    {
        let r = StateActor { entries: Vec::new() };
        proof {
            assert(r@ =~= Seq::<(i32, Seq<Seq<char>>)>::empty());
        }
        r
    }

    /// Finds the position of a patient in the store, if it is pending.
    fn find_index(&self, patient_id: i32) -> (r: Option<usize>)
        ensures
            match r {
                Some(i) => 0 <= i < self@.len() && self@[i as int].0 == patient_id,
                None => !store_has(self@, patient_id),
            },
    {
        let mut i: usize = 0;
        while i < self.entries.len()
            invariant
                i <= self.entries.len(),
                self@.len() == self.entries.len(),
                forall|j: int| 0 <= j < i ==> self@[j].0 != patient_id,
            decreases self.entries.len() - i,
        {
            if self.entries[i].0 == patient_id {
                proof {
                    assert(self@[i as int].0 == self.entries@[i as int].0);
                }
                return Some(i);
            }
            proof {
                assert(self@[i as int].0 == self.entries@[i as int].0);
            }
            i += 1;
        }
        None
    }

    /// Appends `message_data` to the patient's buffer, creating the buffer
    /// and enqueueing the patient when it was not yet pending. Always
    /// succeeds; an already-pending patient gains no second queue entry.
    pub fn insert_message(&mut self, patient_id: i32, message_data: String)
        requires
            old(self).wf(),
        ensures
            final(self).wf(),
            final(self)@ == store_insert(old(self)@, patient_id, message_data@),
    {
        let ghost s0 = self@;
        let ghost t = message_data@;
        match self.find_index(patient_id) {
            Some(i) => {
                proof {
                    assert(store_has(s0, patient_id));
                    lemma_wf_index_unique(s0, i as int, store_index(s0, patient_id));
                }
                let mut entry = self.entries.remove(i);
                entry.1.push(message_data);
                self.entries.insert(i, entry);
                proof {
                    assert(self@ =~~= store_insert(s0, patient_id, t));
                    lemma_store_insert_wf(s0, patient_id, t);
                }
            },
            None => {
                let mut log: Vec<String> = Vec::new();
                log.push(message_data);
                self.entries.push((patient_id, log));
                proof {
                    assert(self@ =~~= store_insert(s0, patient_id, t));
                    lemma_store_insert_wf(s0, patient_id, t);
                }
            },
        }
    }

    /// Removes and returns the patient's whole buffer, or returns `None` and
    /// leaves the store unchanged when the patient is not pending. Afterwards
    /// the patient is absent from both the queue and the buffer map.
    pub fn get_message_data(&mut self, patient_id: i32) -> (r: Option<Vec<String>>)
        requires
            old(self).wf(),
        ensures
            final(self).wf(),
            store_has(old(self)@, patient_id) ==> (r matches Some(data)
                && data.deep_view() == buffer_of(old(self)@, patient_id) && final(self)@ == old(self)@.remove(store_index(old(self)@, patient_id))),
            !store_has(old(self)@, patient_id) ==> r is None && final(self)@ == old(self)@,
            !store_has(final(self)@, patient_id),
    {
        let ghost s0 = self@;
        match self.find_index(patient_id) {
            Some(i) => {
                proof {
                    assert(store_has(s0, patient_id));
                    lemma_wf_index_unique(s0, i as int, store_index(s0, patient_id));
                }
                let entry = self.entries.remove(i);
                proof {
                    assert(self@ =~~= s0.remove(i as int));
                    lemma_store_remove_wf(s0, i as int);
                    assert(forall|j: int|
                        0 <= j < self@.len() ==> self@[j].0 != patient_id) by {
                        assert(forall|j: int| 0 <= j < s0.len() && j != i ==> s0[j].0
                            != patient_id);
                    }
                    assert(entry.1.deep_view() == buffer_of(s0, patient_id));
                }
                Some(entry.1)
            },
            None => None,
        }
    }

    /// Dequeues the least-recently-first-seen pending patient together with
    /// its whole buffer; returns `None` and changes nothing when no patient
    /// is pending. The returned patient is absent afterwards.
    pub fn take_next(&mut self) -> (r: Option<(i32, Vec<String>)>)
        requires
            old(self).wf(),
        ensures
            final(self).wf(),
            old(self)@.len() == 0 ==> r is None && final(self)@ == old(self)@,
            old(self)@.len() > 0 ==> (r matches Some(p) && p.0 == old(self)@[0].0
                && p.1.deep_view() == old(self)@[0].1 && final(self)@ == old(self)@.drop_first()
                && !store_has(final(self)@, p.0)),
    {
        let ghost s0 = self@;
        if self.entries.len() == 0 {
            None
        } else {
            let entry = self.entries.remove(0);
            proof {
                assert(self@ =~~= s0.drop_first());
                lemma_store_remove_wf(s0, 0);
                assert(s0.remove(0) =~= s0.drop_first());
                assert(forall|j: int| 0 <= j < self@.len() ==> self@[j].0 != s0[0].0) by {
                    assert(forall|j: int| 0 < j < s0.len() ==> #[trigger] s0[j].0 != s0[0].0);
                }
                assert(entry.1.deep_view() == s0[0].1);
            }
            Some(entry)
        }
    }

    /// Processes one inbound protocol message.
    ///
    /// An `INPUT` is inserted and produces no reply. An `OUTPUT` (flush
    /// request) dequeues the oldest pending patient and produces the reply to
    /// send outbound: the flushed buffer, or `EMPTY` when nothing was
    /// pending. An `EMPTY` never travels inbound, so it is a protocol
    /// violation and the owning actor must abort.
    pub fn handle_message(&mut self, message: StateActorMessage) -> (r: Result<
        Option<StateActorMessage>,
        ProtocolViolation,
    >)
        requires
            old(self).wf(),
            message.wf_inbound(),
        ensures
            final(self).wf(),
            message.message_type is INPUT ==> (r matches Ok(reply) && reply is None
                && final(self)@ == store_insert(
                old(self)@,
                message.patient_id->0,
                message.single_data->0@,
            )),
            message.message_type is OUTPUT && old(self)@.len() == 0 ==> (r matches Ok(reply)
                && reply matches Some(m) && m.message_type is EMPTY && m.patient_id is None
                && m.single_data is None && m.block_data is None && final(self)@ == old(self)@),
            message.message_type is OUTPUT && old(self)@.len() > 0 ==> (r matches Ok(reply)
                && reply matches Some(m) && m.message_type is OUTPUT && m.patient_id == Some(
                old(self)@[0].0,
            ) && m.single_data is None && (m.block_data matches Some(b)
                && b.deep_view() == old(self)@[0].1) && final(self)@ == old(self)@.drop_first()),
            message.message_type is EMPTY ==> r == Err::<
                Option<StateActorMessage>,
                ProtocolViolation,
            >(ProtocolViolation::WrongInboundTag) && final(self)@ == old(self)@,
    {
        match message.message_type {
            MessageType::INPUT => {
                let patient_id = match message.patient_id {
                    Some(p) => p,
                    None => {
                        proof {
                            assert(false);
                        }
                        0
                    },
                };
                let single_data = match message.single_data {
                    Some(d) => d,
                    None => {
                        proof {
                            assert(false);
                        }
                        String::new()
                    },
                };
                self.insert_message(patient_id, single_data);
                Ok(None)
            },
            MessageType::OUTPUT => {
                match self.take_next() {
                    Some((patient_id, data)) => Ok(
                        Some(
                            StateActorMessage {
                                message_type: MessageType::OUTPUT,
                                patient_id: Some(patient_id),
                                single_data: None,
                                block_data: Some(data),
                            },
                        ),
                    ),
                    None => Ok(
                        Some(
                            StateActorMessage {
                                message_type: MessageType::EMPTY,
                                patient_id: None,
                                single_data: None,
                                block_data: None,
                            },
                        ),
                    ),
                }
            },
            MessageType::EMPTY => Err(ProtocolViolation::WrongInboundTag),
        }
    }
}

/// Inserting preserves well-formedness: no duplicate queue entry is created.
pub proof fn lemma_store_insert_wf(s: StoreModel, patient_id: i32, turn: Seq<char>)
    requires
        store_wf(s),
    ensures
        store_wf(store_insert(s, patient_id, turn)),
{
    if store_has(s, patient_id) {
        let k = store_index(s, patient_id);
        let s2 = store_insert(s, patient_id, turn);
        assert forall|i: int, j: int| 0 <= i < j < s2.len() implies s2[i].0 != s2[j].0 by {
            assert(s2[i].0 == s[i].0);
            assert(s2[j].0 == s[j].0);
        }
    } else {
        let s2 = store_insert(s, patient_id, turn);
        assert forall|i: int, j: int| 0 <= i < j < s2.len() implies s2[i].0 != s2[j].0 by {
            if j < s.len() {
            } else {
                assert(s2[j].0 == patient_id);
                assert(0 <= i < s.len() && s2[i].0 == s[i].0);
            }
        }
    }
}

/// Removing one entry preserves well-formedness.
pub proof fn lemma_store_remove_wf(s: StoreModel, i: int)
    requires
        store_wf(s),
        0 <= i < s.len(),
    ensures
        store_wf(s.remove(i)),
{
    let s2 = s.remove(i);
    assert forall|a: int, b: int| 0 <= a < b < s2.len() implies s2[a].0 != s2[b].0 by {
        let a0 = if a < i {
            a
        } else {
            a + 1
        };
        let b0 = if b < i {
            b
        } else {
            b + 1
        };
        assert(s2[a] == s[a0]);
        assert(s2[b] == s[b0]);
    }
}

} // verus!
