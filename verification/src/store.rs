//! The correlation store: the durable map from message identifier to
//! lifecycle record. It is the idempotency gate — inserting an identifier
//! twice is refused with `DuplicateOrder` and never re-executes anything —
//! and the home of the timeout sweep that expires overdue records.

use vstd::prelude::*;
use crate::codec::{decode_format, DecodeError, spec_dec_format};
use crate::ident::{message_id, spec_message_id};
use crate::lifecycle::{
    apply_step, is_terminal, LifecycleError, LifecycleRecord, lemma_step_preserves_wf,
    opt_order_view, Phase, phase_is_terminal, phase_notification_deadline, rec_wf, RecordView,
    res_arg_ok, spec_step, spec_sweep_rec, sweepable,
};
use crate::router::{
    BackendOutcome, BackendRegistry, outcome_fatal, outcome_to_result, resolve_backend,
    spec_resolve, spec_result_of,
};
use crate::xbi_format::{AccountIdOf, Timeout, XBIOrder};

verus! {

/// Whether some record in `s` carries this identifier.
pub open spec fn contains_id(s: Seq<RecordView>, id: u64) -> bool {
    exists|j: int| 0 <= j < s.len() && #[trigger] s[j].id == id
}

/// The index of the record carrying this identifier (unique in a
/// well-formed store).
pub open spec fn id_index(s: Seq<RecordView>, id: u64) -> int {
    choose|j: int| 0 <= j < s.len() && #[trigger] s[j].id == id
}

/// Well-formedness of a store: identifiers are unique and every record is
/// well formed.
pub open spec fn store_wf(s: Seq<RecordView>) -> bool {
    &&& forall|i: int, j: int|
        0 <= i < j < s.len() ==> #[trigger] s[i].id != #[trigger] s[j].id
    &&& forall|i: int| 0 <= i < s.len() ==> rec_wf(#[trigger] s[i])
}

/// What an insert does: refuse a present identifier and leave the store
/// unchanged, or append the record.
pub open spec fn spec_insert(s: Seq<RecordView>, rec: RecordView) -> (Result<
    (),
    LifecycleError,
>, Seq<RecordView>) {
    if contains_id(s, rec.id) {
        (Result::Err(LifecycleError::DuplicateOrder), s)
    } else {
        (Result::Ok(()), s.push(rec))
    }
}

/// Idempotency of insertion: after a successful insert, inserting any
/// record with the same identifier again is refused with `DuplicateOrder`
/// and leaves the store exactly as it was.
pub proof fn lemma_insert_replay_stable(s: Seq<RecordView>, rec: RecordView, rec2: RecordView)
    requires
        spec_insert(s, rec).0 == Result::<(), LifecycleError>::Ok(()),
        rec2.id == rec.id,
    ensures
        spec_insert(spec_insert(s, rec).1, rec2).0 == Result::<(), LifecycleError>::Err(
            LifecycleError::DuplicateOrder,
        ),
        spec_insert(spec_insert(s, rec).1, rec2).1 == spec_insert(s, rec).1,
{
    let s1 = spec_insert(s, rec).1;
    assert(s1 == s.push(rec));
    assert(s1[s.len() as int].id == rec2.id);
    assert(contains_id(s1, rec2.id));
}

/// The identifiers a sweep at `now` newly expires, in store order.
pub open spec fn spec_sweep_ids(s: Seq<RecordView>, now: Timeout) -> Seq<u64>
    decreases s.len(),
{
    if s.len() == 0 {
        Seq::<u64>::empty()
    } else {
        spec_sweep_ids(s.drop_last(), now) + (if sweepable(s.last(), now) {
            seq![s.last().id]
        } else {
            Seq::<u64>::empty()
        })
    }
}

/// The identifiers of records whose current phase's notification deadline
/// has strictly elapsed at `now`, in store order. A status notification is
/// owed for each; missing one is reportable, not a state transition.
pub open spec fn spec_notifications_due(s: Seq<RecordView>, now: Timeout) -> Seq<u64>
    decreases s.len(),
{
    if s.len() == 0 {
        Seq::<u64>::empty()
    } else {
        spec_notifications_due(s.drop_last(), now) + (if notification_overdue(s.last(), now) {
            seq![s.last().id]
        } else {
            Seq::<u64>::empty()
        })
    }
}

/// A record still in progress, not muted, whose notification deadline has
/// strictly elapsed.
pub open spec fn notification_overdue(r: RecordView, now: Timeout) -> bool {
    &&& !r.muted
    &&& !is_terminal(r.phase)
    &&& now > phase_notification_deadline(r.metadata, r.phase)
}

/// What a message handed in by the transport left behind: its identifier,
/// and whether it was a replay of a stored message.
#[derive(Clone, Copy, PartialEq, Eq, Structural, Debug)]
pub struct InboundReceipt {
    pub id: u64,
    pub duplicate: bool,
}

/// Why an inbound message was rejected at the boundary. A rejected message
/// creates no state.
#[derive(Clone, Copy, PartialEq, Eq, Structural, Debug)]
pub enum InboundError {
    /// The byte buffer did not decode.
    Decode(DecodeError),
    /// The decoded order resolves to no registered backend.
    NoBackend,
}

/// The correlation store. Owns every lifecycle record exclusively; records
/// are mutated only through the transitions below.
#[derive(Debug)]
pub struct CorrelationStore {
    records: Vec<LifecycleRecord>,
}

impl View for CorrelationStore {
    type V = Seq<RecordView>;

    closed spec fn view(&self) -> Seq<RecordView> {
        Seq::new(self.records@.len(), |i: int| self.records@[i]@)
    }
}

fn record_index_mut(records: &mut Vec<LifecycleRecord>, i: usize) -> (r: &mut LifecycleRecord)
    requires
        0 <= i < old(records).len(),
    ensures
        *r == old(records)@[i as int],
        final(records)@ == old(records)@.update(i as int, *final(r)),
{
    &mut records[i]
}

/// The models of a sequence of records.
pub open spec fn records_view(v: Seq<LifecycleRecord>) -> Seq<RecordView> {
    Seq::new(v.len(), |i: int| v[i]@)
}

impl CorrelationStore {
    /// Rehydrate a store from persisted records, as decoded by the codec.
    /// Refused when some record is malformed (`IllegalTransition`: a state
    /// the engine could never have written) or, all records being well
    /// formed, when two carry the same identifier (`DuplicateOrder`);
    /// accepted otherwise, with exactly the given records in order.
    pub fn restore(records: Vec<LifecycleRecord>) -> (r: Result<
        CorrelationStore,
        LifecycleError,
    >)
        ensures
            ({
                let v = records_view(records@);
                if exists|i: int| 0 <= i < v.len() && !rec_wf(#[trigger] v[i]) {
                    r == Result::<CorrelationStore, LifecycleError>::Err(
                        LifecycleError::IllegalTransition,
                    )
                } else if exists|i: int, j: int|
                    0 <= i < j < v.len() && #[trigger] v[i].id == #[trigger] v[j].id {
                    r == Result::<CorrelationStore, LifecycleError>::Err(
                        LifecycleError::DuplicateOrder,
                    )
                } else {
                    r matches Result::Ok(st) && st@ == v && store_wf(st@)
                }
            }),
    {
        let ghost v = records_view(records@);
        let mut k: usize = 0;
        while k < records.len()
            invariant
                0 <= k <= v.len(),
                v == records_view(records@),
                forall|j: int| 0 <= j < k ==> rec_wf(#[trigger] v[j]),
            decreases v.len() - k,
        {
            if !crate::lifecycle::record_wf_check(&records[k]) {
                proof {
                    assert(v[k as int] == records@[k as int]@);
                    assert(!rec_wf(v[k as int]));
                }
                return Result::Err(LifecycleError::IllegalTransition);
            }
            k = k + 1;
        }
        let mut i: usize = 0;
        while i < records.len()
            invariant
                0 <= i <= v.len(),
                v == records_view(records@),
                forall|j: int| 0 <= j < v.len() ==> rec_wf(#[trigger] v[j]),
                forall|a: int, b: int|
                    0 <= a < i && a < b < v.len() ==> #[trigger] v[a].id != #[trigger] v[b].id,
            decreases v.len() - i,
        {
            let mut j: usize = i + 1;
            while j < records.len()
                invariant
                    i < j <= v.len(),
                    i < v.len(),
                    v == records_view(records@),
                    forall|b: int| 0 <= b < v.len() ==> rec_wf(#[trigger] v[b]),
                    forall|a: int, b: int|
                        0 <= a < i && a < b < v.len() ==> #[trigger] v[a].id
                            != #[trigger] v[b].id,
                    forall|b: int| i < b < j ==> v[i as int].id != #[trigger] v[b].id,
                decreases v.len() - j,
            {
                if records[i].id == records[j].id {
                    proof {
                        assert(v[i as int].id == v[j as int].id);
                        assert(exists|a: int, b: int|
                            0 <= a < b < v.len() && #[trigger] v[a].id == #[trigger] v[b].id);
                    }
                    return Result::Err(LifecycleError::DuplicateOrder);
                }
                j = j + 1;
            }
            i = i + 1;
        }
        let st = CorrelationStore { records };
        proof {
            assert(st@ =~= v);
            assert forall|a: int, b: int|
                0 <= a < b < st@.len() implies #[trigger] st@[a].id != #[trigger] st@[b].id by {
                assert(v[a].id != v[b].id);
            }
            assert forall|a: int| 0 <= a < st@.len() implies rec_wf(#[trigger] st@[a]) by {
                assert(rec_wf(v[a]));
            }
        }
        Result::Ok(st)
    }

    /// An empty store.
    pub fn new() -> (r: Self)
        ensures
            r@ == Seq::<RecordView>::empty(),
            store_wf(r@),
    {
        let s = CorrelationStore { records: Vec::new() };
        proof {
            assert(s@ =~= Seq::<RecordView>::empty());
        }
        s
    }

    /// How many records the store holds.
    pub fn len(&self) -> (r: usize)
        ensures
            r == self@.len(),
    {
        self.records.len()
    }

    fn find_index(&self, id: u64) -> (r: Option<usize>)
        ensures
            match r {
                Option::Some(i) => i < self@.len() && self@[i as int].id == id && contains_id(
                    self@,
                    id,
                ) && (store_wf(self@) ==> i as int == id_index(self@, id)),
                Option::None => !contains_id(self@, id),
            },
    {
        let mut k: usize = 0;
        while k < self.records.len()
            invariant
                0 <= k <= self@.len(),
                self@.len() == self.records@.len(),
                forall|j: int| 0 <= j < k ==> self@[j].id != id,
            decreases self@.len() - k,
        {
            if self.records[k].id == id {
                proof {
                    assert(self@[k as int].id == id);
                    if store_wf(self@) {
                        let w = id_index(self@, id);
                        assert(0 <= w < self@.len() && self@[w].id == id);
                        assert(w == k as int);
                    }
                }
                return Option::Some(k);
            }
            k = k + 1;
        }
        Option::None
    }

    /// Look one record up by its identifier.
    pub fn get(&self, id: u64) -> (r: Option<&LifecycleRecord>)
        ensures
            match r {
                Option::Some(rec) => contains_id(self@, id) && rec@.id == id && (store_wf(self@)
                    ==> rec@ == self@[id_index(self@, id)]),
                Option::None => !contains_id(self@, id),
            },
    {
        match self.find_index(id) {
            Option::Some(i) => Option::Some(&self.records[i]),
            Option::None => Option::None,
        }
    }

    /// Insert a fresh record. This is the idempotency gate: a present
    /// identifier is refused with `DuplicateOrder`, the stored record
    /// stays untouched, and nothing is ever re-executed for it.
    pub fn insert(&mut self, rec: LifecycleRecord) -> (r: Result<(), LifecycleError>)
        requires
            store_wf(old(self)@),
            rec_wf(rec@),
        ensures
            r == spec_insert(old(self)@, rec@).0,
            final(self)@ == spec_insert(old(self)@, rec@).1,
            store_wf(final(self)@),
    {
        let ghost recv = rec@;
        match self.find_index(rec.id) {
            Option::Some(_) => Result::Err(LifecycleError::DuplicateOrder),
            Option::None => {
                self.records.push(rec);
                proof {
                    assert(self@ =~= old(self)@.push(recv));
                    assert forall|i: int, j: int|
                        0 <= i < j < self@.len() implies #[trigger] self@[i].id
                        != #[trigger] self@[j].id by {
                        if j == self@.len() - 1 {
                            assert(self@[i] == old(self)@[i]);
                            assert(!contains_id(old(self)@, recv.id));
                        }
                    }
                }
                Result::Ok(())
            },
        }
    }

    /// Drive one record's lifecycle: request `new_phase` at time `now`,
    /// recording the outcome `res` (required when entering `Executed` or
    /// `Failed`) and whether a failure was fatal. The record moves exactly
    /// as the state machine's transition function says — to `Expired`
    /// instead of the requested phase when its action deadline has
    /// strictly elapsed — and `UnknownOrder` or `IllegalTransition` leave
    /// the store unchanged.
    pub fn transition(
        &mut self,
        id: u64,
        new_phase: Phase,
        now: Timeout,
        res: Option<XBIOrder>,
        fatal: bool,
    ) -> (r: Result<Phase, LifecycleError>)
        requires
            store_wf(old(self)@),
            res_arg_ok(new_phase, opt_order_view(res)),
        ensures
            store_wf(final(self)@),
            !contains_id(old(self)@, id) ==> r == Result::<Phase, LifecycleError>::Err(
                LifecycleError::UnknownOrder,
            ) && final(self)@ == old(self)@,
            contains_id(old(self)@, id) ==> ({
                let i = id_index(old(self)@, id);
                match spec_step(old(self)@[i], new_phase, now, opt_order_view(res), fatal) {
                    Result::Ok(r2) => r == Result::<Phase, LifecycleError>::Ok(r2.phase)
                        && final(self)@ == old(self)@.update(i, r2),
                    Result::Err(e) => r == Result::<Phase, LifecycleError>::Err(e) && final(self)@
                        == old(self)@,
                }
            }),
    {
        let i = match self.find_index(id) {
            Option::Some(i) => i,
            Option::None => {
                return Result::Err(LifecycleError::UnknownOrder);
            },
        };
        let ghost oldview = self@;
        let ghost oldrec = self@[i as int];
        proof {
            lemma_step_preserves_wf(oldrec, new_phase, now, opt_order_view(res), fatal);
        }
        let rec = record_index_mut(&mut self.records, i);
        let r = apply_step(rec, new_phase, now, res, fatal);
        proof {
            assert(self@ =~= oldview.update(i as int, self.records@[i as int]@));
            match spec_step(oldrec, new_phase, now, opt_order_view(res), fatal) {
                Result::Ok(r2) => {
                    assert(self@ =~= oldview.update(i as int, r2));
                },
                Result::Err(e) => {
                    assert(self@ =~= oldview);
                },
            }
        }
        r
    }

    /// Sweep the store at time `now`: every record still in progress whose
    /// action deadline has strictly elapsed becomes `Expired` with a
    /// definitive failure outcome; everything else is untouched. Returns
    /// the newly expired identifiers, for notification.
    pub fn sweep(&mut self, now: Timeout) -> (r: Vec<u64>)
        requires
            store_wf(old(self)@),
        ensures
            final(self)@.len() == old(self)@.len(),
            forall|i: int|
                0 <= i < old(self)@.len() ==> final(self)@[i] == spec_sweep_rec(
                    #[trigger] old(self)@[i],
                    now,
                ),
            r@ == spec_sweep_ids(old(self)@, now),
            store_wf(final(self)@),
    {
        let ghost oldview = self@;
        let mut out: Vec<u64> = Vec::new();
        let mut k: usize = 0;
        proof {
            assert(out@ =~= spec_sweep_ids(oldview.take(0), now));
        }
        while k < self.records.len()
            invariant
                0 <= k <= oldview.len(),
                self@.len() == oldview.len(),
                self@.len() == self.records@.len(),
                forall|j: int|
                    0 <= j < k ==> self@[j] == spec_sweep_rec(#[trigger] oldview[j], now),
                forall|j: int| k <= j < oldview.len() ==> self@[j] == #[trigger] oldview[j],
                out@ == spec_sweep_ids(oldview.take(k as int), now),
                store_wf(oldview),
            decreases oldview.len() - k,
        {
            let ghost prevout = out@;
            let mut do_expire = false;
            {
                let rec = &self.records[k];
                if !rec.muted && (rec.phase == Phase::Sent || rec.phase == Phase::Delivered) {
                    let deadline = crate::lifecycle::current_action_deadline(rec);
                    if now > deadline {
                        do_expire = true;
                    }
                }
            }
            proof {
                assert(do_expire == sweepable(oldview[k as int], now));
            }
            if do_expire {
                let rec = record_index_mut(&mut self.records, k);
                rec.phase = Phase::Expired;
                rec.result = Option::Some(crate::lifecycle::make_expired_result());
                out.push(self.records[k].id);
            }
            proof {
                let ghost prefix = oldview.take(k as int + 1);
                assert(prefix.drop_last() =~= oldview.take(k as int));
                assert(prefix.last() == oldview[k as int]);
                assert(self@ =~= oldview.take(k as int + 1).map_values(
                    |x: RecordView| spec_sweep_rec(x, now),
                ) + oldview.skip(k as int + 1)) by {
                    assert forall|j: int| 0 <= j < self@.len() implies self@[j] == (oldview.take(
                        k as int + 1,
                    ).map_values(|x: RecordView| spec_sweep_rec(x, now)) + oldview.skip(
                        k as int + 1,
                    ))[j] by {}
                }
                assert(out@ =~= spec_sweep_ids(oldview.take(k as int + 1), now));
            }
            k = k + 1;
        }
        proof {
            assert(oldview.take(oldview.len() as int) =~= oldview);
            assert forall|i: int| 0 <= i < self@.len() implies rec_wf(#[trigger] self@[i]) by {
                assert(self@[i] == spec_sweep_rec(oldview[i], now));
                assert(rec_wf(oldview[i]));
            }
            assert forall|i: int, j: int|
                0 <= i < j < self@.len() implies #[trigger] self@[i].id
                != #[trigger] self@[j].id by {
                assert(self@[i].id == oldview[i].id);
                assert(self@[j].id == oldview[j].id);
                assert(oldview[i].id != oldview[j].id);
            }
        }
        out
    }

    /// The identifiers for which a status notification is overdue at
    /// `now`: records still in progress, not muted, past their current
    /// phase's notification deadline.
    pub fn notifications_due(&self, now: Timeout) -> (r: Vec<u64>)
        ensures
            r@ == spec_notifications_due(self@, now),
    {
        let mut out: Vec<u64> = Vec::new();
        let mut k: usize = 0;
        proof {
            assert(out@ =~= spec_notifications_due(self@.take(0), now));
        }
        while k < self.records.len()
            invariant
                0 <= k <= self@.len(),
                self@.len() == self.records@.len(),
                out@ == spec_notifications_due(self@.take(k as int), now),
            decreases self@.len() - k,
        {
            let rec = &self.records[k];
            let mut overdue = false;
            if !rec.muted && !phase_is_terminal(rec.phase) {
                let deadline = match rec.phase {
                    Phase::Sent => rec.metadata.sent.notification,
                    Phase::Delivered => rec.metadata.delivered.notification,
                    _ => rec.metadata.executed.notification,
                };
                if now > deadline {
                    overdue = true;
                }
            }
            proof {
                assert(overdue == notification_overdue(self@[k as int], now));
            }
            if overdue {
                out.push(rec.id);
            }
            proof {
                let ghost prefix = self@.take(k as int + 1);
                assert(prefix.drop_last() =~= self@.take(k as int));
                assert(prefix.last() == self@[k as int]);
                assert(out@ =~= spec_notifications_due(self@.take(k as int + 1), now));
            }
            k = k + 1;
        }
        proof {
            assert(self@.take(self@.len() as int) =~= self@);
        }
        out
    }

    /// Take one message from the inbound transport: decode it, refuse it
    /// while it is malformed or unroutable (no state is created then),
    /// compute its content-derived identifier, and insert a fresh `Sent`
    /// record. A replay — an identifier already stored — is reported as a
    /// duplicate and leaves the store untouched: the stored record is the
    /// answer, and nothing is re-executed.
    pub fn handle_inbound(
        &mut self,
        origin: &AccountIdOf,
        dest: &AccountIdOf,
        nonce: u32,
        message: &[u8],
        registry: &BackendRegistry,
        custom_target: Option<u32>,
        now: Timeout,
    ) -> (r: Result<InboundReceipt, InboundError>)
        requires
            store_wf(old(self)@),
        ensures
            store_wf(final(self)@),
            match spec_dec_format(message@, 0) {
                Result::Err(e) => r == Result::<InboundReceipt, InboundError>::Err(
                    InboundError::Decode(e),
                ) && final(self)@ == old(self)@,
                Result::Ok((f, n)) => if spec_resolve(f.xbi_order, *registry, custom_target)
                    is None {
                    r == Result::<InboundReceipt, InboundError>::Err(InboundError::NoBackend)
                        && final(self)@ == old(self)@
                } else {
                    ({
                        let id = spec_message_id(f.xbi_order, origin@, dest@, nonce);
                        if contains_id(old(self)@, id) {
                            r == Result::<InboundReceipt, InboundError>::Ok(
                                InboundReceipt { id, duplicate: true },
                            ) && final(self)@ == old(self)@
                        } else {
                            r == Result::<InboundReceipt, InboundError>::Ok(
                                InboundReceipt { id, duplicate: false },
                            ) && final(self)@ == old(self)@.push(
                                RecordView {
                                    id,
                                    order: f.xbi_order,
                                    phase: Phase::Sent,
                                    metadata: f.metadata,
                                    created_at: now,
                                    result: Option::None,
                                    muted: false,
                                },
                            )
                        }
                    })
                },
            },
    {
        let f = match decode_format(message) {
            Result::Ok((f, _n)) => f,
            Result::Err(e) => {
                return Result::Err(InboundError::Decode(e));
            },
        };
        match resolve_backend(&f.xbi_order, registry, custom_target) {
            Result::Ok(_) => {},
            Result::Err(_) => {
                return Result::Err(InboundError::NoBackend);
            },
        }
        let id = message_id(&f.xbi_order, origin, dest, nonce);
        let rec = LifecycleRecord {
            id,
            order: f.xbi_order,
            phase: Phase::Sent,
            metadata: f.metadata,
            created_at: now,
            result: Option::None,
            muted: false,
        };
        proof {
            assert(rec_wf(rec@));
        }
        match self.insert(rec) {
            Result::Ok(()) => Result::Ok(InboundReceipt { id, duplicate: false }),
            Result::Err(_) => Result::Ok(InboundReceipt { id, duplicate: true }),
        }
    }

    /// Record what one backend invocation came to: a success enters
    /// `Executed`, a captured error enters `Failed` (muted when fatal) —
    /// in both cases unless the governing action deadline has strictly
    /// elapsed, in which case the record expires instead and the outcome
    /// is discarded.
    pub fn apply_outcome(&mut self, id: u64, outcome: &BackendOutcome, now: Timeout) -> (r: Result<
        Phase,
        LifecycleError,
    >)
        requires
            store_wf(old(self)@),
        ensures
            store_wf(final(self)@),
            !contains_id(old(self)@, id) ==> r == Result::<Phase, LifecycleError>::Err(
                LifecycleError::UnknownOrder,
            ) && final(self)@ == old(self)@,
            contains_id(old(self)@, id) ==> ({
                let i = id_index(old(self)@, id);
                let target = if outcome matches BackendOutcome::Success { .. } {
                    Phase::Executed
                } else {
                    Phase::Failed
                };
                match spec_step(
                    old(self)@[i],
                    target,
                    now,
                    Option::Some(spec_result_of(*outcome)),
                    outcome_fatal(*outcome),
                ) {
                    Result::Ok(r2) => r == Result::<Phase, LifecycleError>::Ok(r2.phase)
                        && final(self)@ == old(self)@.update(i, r2),
                    Result::Err(e) => r == Result::<Phase, LifecycleError>::Err(e) && final(self)@
                        == old(self)@,
                }
            }),
    {
        let res_order = outcome_to_result(outcome);
        match outcome {
            BackendOutcome::Success { .. } => self.transition(
                id,
                Phase::Executed,
                now,
                Option::Some(res_order),
                false,
            ),
            BackendOutcome::Error { fatal, .. } => self.transition(
                id,
                Phase::Failed,
                now,
                Option::Some(res_order),
                *fatal,
            ),
        }
    }

    /// Evict one terminal record, after its outcome has been acknowledged.
    /// A record still in progress is never evicted.
    pub fn evict(&mut self, id: u64) -> (r: Result<(), LifecycleError>)
        requires
            store_wf(old(self)@),
        ensures
            store_wf(final(self)@),
            !contains_id(old(self)@, id) ==> r == Result::<(), LifecycleError>::Err(
                LifecycleError::UnknownOrder,
            ) && final(self)@ == old(self)@,
            contains_id(old(self)@, id) ==> ({
                let i = id_index(old(self)@, id);
                if is_terminal(old(self)@[i].phase) {
                    r == Result::<(), LifecycleError>::Ok(()) && final(self)@ == old(
                        self,
                    )@.remove(i)
                } else {
                    r == Result::<(), LifecycleError>::Err(LifecycleError::IllegalTransition)
                        && final(self)@ == old(self)@
                }
            }),
    {
        let i = match self.find_index(id) {
            Option::Some(i) => i,
            Option::None => {
                return Result::Err(LifecycleError::UnknownOrder);
            },
        };
        if !phase_is_terminal(self.records[i].phase) {
            return Result::Err(LifecycleError::IllegalTransition);
        }
        let ghost oldview = self@;
        self.records.remove(i);
        proof {
            assert(self@ =~= oldview.remove(i as int));
        }
        Result::Ok(())
    }
}

} // verus!
