//! The lifecycle state machine: every accepted message moves through
//! `Sent -> Delivered -> Executed` on the happy path, with `Expired`
//! reachable while an action deadline has strictly elapsed and `Failed`
//! reachable when a backend reports a non-recoverable error. `Executed`,
//! `Expired` and `Failed` are terminal: a terminal record never changes
//! again, and a late duplicate signal is a no-op, never a re-execution.

use vstd::prelude::*;
use crate::xbi_format::{OrderView, Timeout, XBIMetadata, XBIOrder, metadata_valid};

verus! {

/// Lifecycle phase of one message.
#[derive(Clone, Copy, PartialEq, Eq, Structural, Debug)]
pub enum Phase {
    Sent,
    Delivered,
    Executed,
    Expired,
    Failed,
}

/// Why a correlation-store operation was refused.
#[derive(Clone, Copy, PartialEq, Eq, Structural, Debug)]
pub enum LifecycleError {
    /// The identifier is already present: a replayed message. The stored
    /// record is untouched and is never re-executed.
    DuplicateOrder,
    /// No record with this identifier exists.
    UnknownOrder,
    /// The requested phase is not reachable from the current one.
    IllegalTransition,
}

/// `Executed`, `Expired` and `Failed` are terminal.
pub open spec fn is_terminal(p: Phase) -> bool {
    p == Phase::Executed || p == Phase::Expired || p == Phase::Failed
}

/// The action deadline that governs the record's current phase.
pub open spec fn phase_action_deadline(m: XBIMetadata, p: Phase) -> Timeout {
    match p {
        Phase::Sent => m.sent.action,
        Phase::Delivered => m.delivered.action,
        _ => m.executed.action,
    }
}

/// The notification deadline of the record's current phase.
pub open spec fn phase_notification_deadline(m: XBIMetadata, p: Phase) -> Timeout {
    match p {
        Phase::Sent => m.sent.notification,
        Phase::Delivered => m.delivered.notification,
        _ => m.executed.notification,
    }
}

/// One message's lifecycle record, owned by the correlation store.
#[derive(Clone, Debug)]
pub struct LifecycleRecord {
    /// Content-derived identifier; the correlation key.
    pub id: u64,
    /// The order this record tracks; never a `Result` order.
    pub order: XBIOrder,
    /// Current phase.
    pub phase: Phase,
    /// Per-phase deadlines; satisfies the monotonic-deadline invariant.
    pub metadata: XBIMetadata,
    /// When the message entered the store.
    pub created_at: Timeout,
    /// The definitive outcome; present exactly on terminal records, and
    /// always a `Result` order.
    pub result: Option<XBIOrder>,
    /// A fatal backend error mutes every further notification.
    pub muted: bool,
}

/// Mathematical model of a lifecycle record.
pub struct RecordView {
    pub id: u64,
    pub order: OrderView,
    pub phase: Phase,
    pub metadata: XBIMetadata,
    pub created_at: Timeout,
    pub result: Option<OrderView>,
    pub muted: bool,
}

/// Model of an optional order.
pub open spec fn opt_order_view(o: Option<XBIOrder>) -> Option<OrderView> {
    match o {
        Option::None => Option::None,
        Option::Some(x) => Option::Some(x@),
    }
}

impl View for LifecycleRecord {
    type V = RecordView;

    open spec fn view(&self) -> RecordView {
        RecordView {
            id: self.id,
            order: self.order@,
            phase: self.phase,
            metadata: self.metadata,
            created_at: self.created_at,
            result: opt_order_view(self.result),
            muted: self.muted,
        }
    }
}

/// Well-formedness of a record: its order is executable (never a result),
/// its metadata is valid, its outcome is present exactly when it is
/// terminal and is always a `Result` order, and only a failed record can
/// be muted.
pub open spec fn rec_wf(r: RecordView) -> bool {
    &&& !(r.order matches OrderView::Result { .. })
    &&& metadata_valid(r.metadata)
    &&& (is_terminal(r.phase) <==> r.result is Some)
    &&& (r.result matches Option::Some(o) ==> o matches OrderView::Result { .. })
    &&& (r.muted ==> r.phase == Phase::Failed)
}

/// The outcome recorded when a deadline expires: a definitive failure with
/// empty diagnostic and witness.
pub open spec fn spec_expired_result() -> OrderView {
    OrderView::Result { success: false, output: Seq::<u8>::empty(), witness: Seq::<u8>::empty() }
}

/// A record expired: phase `Expired`, failure outcome recorded.
pub open spec fn spec_expire(r: RecordView) -> RecordView {
    RecordView {
        id: r.id,
        order: r.order,
        phase: Phase::Expired,
        metadata: r.metadata,
        created_at: r.created_at,
        result: Option::Some(spec_expired_result()),
        muted: r.muted,
    }
}

/// A record whose current phase's action deadline has strictly elapsed at
/// `now` and which is still in progress: the timeout sweep expires it.
pub open spec fn sweepable(r: RecordView, now: Timeout) -> bool {
    &&& !r.muted
    &&& (r.phase == Phase::Sent || r.phase == Phase::Delivered)
    &&& now > phase_action_deadline(r.metadata, r.phase)
}

/// What one sweep pass at `now` does to one record.
pub open spec fn spec_sweep_rec(r: RecordView, now: Timeout) -> RecordView {
    if sweepable(r, now) {
        spec_expire(r)
    } else {
        r
    }
}

/// The outcome argument a transition must carry: entering `Executed` or
/// `Failed` records a definitive `Result` order.
pub open spec fn res_arg_ok(new_phase: Phase, res: Option<OrderView>) -> bool {
    (new_phase == Phase::Executed || new_phase == Phase::Failed) ==> (res matches Option::Some(o)
        && o matches OrderView::Result { .. })
}

/// The transition function of the state machine. Given a record, the
/// requested phase, the evaluation time, the outcome to record and whether
/// a failure was fatal, it yields the record after the transition — which
/// may be `Expired` rather than the requested phase when the governing
/// action deadline has strictly elapsed — or the error that refuses it.
///
/// A deadline that has exactly arrived (`now` equal to it) does not expire
/// the record: only a strictly elapsed deadline takes precedence, so valid
/// work is never discarded to scheduling jitter.
///
/// A dispatch outcome may arrive before the external delivery
/// confirmation; a record still in `Sent` therefore also accepts
/// `Executed` and `Failed`, under its `sent` deadline. The late
/// confirmation is then the usual terminal no-op.
pub open spec fn spec_step(
    r: RecordView,
    new_phase: Phase,
    now: Timeout,
    res: Option<OrderView>,
    fatal: bool,
) -> Result<RecordView, LifecycleError> {
    if is_terminal(r.phase) {
        if new_phase == r.phase || !is_terminal(new_phase) {
            // Idempotent re-delivery of a late or duplicate signal: no-op.
            Result::Ok(r)
        } else {
            Result::Err(LifecycleError::IllegalTransition)
        }
    } else {
        let deadline = phase_action_deadline(r.metadata, r.phase);
        match new_phase {
            Phase::Delivered => if r.phase == Phase::Sent {
                if now > deadline {
                    Result::Ok(spec_expire(r))
                } else {
                    Result::Ok(
                        RecordView {
                            id: r.id,
                            order: r.order,
                            phase: Phase::Delivered,
                            metadata: r.metadata,
                            created_at: r.created_at,
                            result: r.result,
                            muted: r.muted,
                        },
                    )
                }
            } else {
                Result::Err(LifecycleError::IllegalTransition)
            },
            Phase::Executed => if now > deadline {
                Result::Ok(spec_expire(r))
            } else {
                Result::Ok(
                    RecordView {
                        id: r.id,
                        order: r.order,
                        phase: Phase::Executed,
                        metadata: r.metadata,
                        created_at: r.created_at,
                        result: res,
                        muted: r.muted,
                    },
                )
            },
            Phase::Failed => Result::Ok(
                RecordView {
                    id: r.id,
                    order: r.order,
                    phase: Phase::Failed,
                    metadata: r.metadata,
                    created_at: r.created_at,
                    result: res,
                    muted: fatal,
                },
            ),
            Phase::Expired => if now > deadline {
                Result::Ok(spec_expire(r))
            } else {
                Result::Err(LifecycleError::IllegalTransition)
            },
            Phase::Sent => Result::Err(LifecycleError::IllegalTransition),
        }
    }
}

/// Runtime check for terminal phases.
pub fn phase_is_terminal(p: Phase) -> (r: bool)
    ensures
        r == is_terminal(p),
{
    p == Phase::Executed || p == Phase::Expired || p == Phase::Failed
}

/// The action deadline governing a record's current phase.
pub fn current_action_deadline(rec: &LifecycleRecord) -> (r: Timeout)
    ensures
        r == phase_action_deadline(rec.metadata, rec.phase),
{
    match rec.phase {
        Phase::Sent => rec.metadata.sent.action,
        Phase::Delivered => rec.metadata.delivered.action,
        _ => rec.metadata.executed.action,
    }
}

/// The failure outcome recorded when a deadline expires.
pub fn make_expired_result() -> (r: XBIOrder)
    ensures
        r@ == spec_expired_result(),
{
    XBIOrder::Result { success: false, output: Vec::new(), witness: Vec::new() }
}

/// Runtime check of a record's well-formedness, for records that come
/// from outside the engine (a rehydrated store).
pub fn record_wf_check(rec: &LifecycleRecord) -> (r: bool)
    ensures
        r == rec_wf(rec@),
{
    let order_ok = match &rec.order {
        XBIOrder::Result { .. } => false,
        _ => true,
    };
    let terminal = phase_is_terminal(rec.phase);
    let result_ok = match &rec.result {
        Option::None => !terminal,
        Option::Some(x) => terminal && (match x {
            XBIOrder::Result { .. } => true,
            _ => false,
        }),
    };
    let muted_ok = !rec.muted || rec.phase == Phase::Failed;
    order_ok && rec.metadata.is_valid() && result_ok && muted_ok
}

fn expire_record(rec: &mut LifecycleRecord)
    ensures
        final(rec)@ == spec_expire(old(rec)@),
{
    rec.phase = Phase::Expired;
    rec.result = Option::Some(make_expired_result());
}

/// Apply one transition to one record: exactly what [`spec_step`] says,
/// mutating the record on success and leaving it untouched on an error.
/// Returns the phase actually entered, which is `Expired` rather than the
/// requested phase when the governing deadline has strictly elapsed.
pub fn apply_step(
    rec: &mut LifecycleRecord,
    new_phase: Phase,
    now: Timeout,
    res: Option<XBIOrder>,
    fatal: bool,
) -> (r: Result<Phase, LifecycleError>)
    ensures
        match spec_step(old(rec)@, new_phase, now, opt_order_view(res), fatal) {
            Result::Ok(r2) => r == Result::<Phase, LifecycleError>::Ok(r2.phase) && final(rec)@
                == r2,
            Result::Err(e) => r == Result::<Phase, LifecycleError>::Err(e) && final(rec)@ == old(
                rec,
            )@,
        },
{
    if phase_is_terminal(rec.phase) {
        if rec.phase == new_phase || !phase_is_terminal(new_phase) {
            Result::Ok(rec.phase)
        } else {
            Result::Err(LifecycleError::IllegalTransition)
        }
    } else {
        let deadline = current_action_deadline(rec);
        match new_phase {
            Phase::Delivered => {
                if rec.phase == Phase::Sent {
                    if now > deadline {
                        expire_record(rec);
                        Result::Ok(Phase::Expired)
                    } else {
                        rec.phase = Phase::Delivered;
                        Result::Ok(Phase::Delivered)
                    }
                } else {
                    Result::Err(LifecycleError::IllegalTransition)
                }
            },
            Phase::Executed => {
                if now > deadline {
                    expire_record(rec);
                    Result::Ok(Phase::Expired)
                } else {
                    rec.phase = Phase::Executed;
                    rec.result = res;
                    Result::Ok(Phase::Executed)
                }
            },
            Phase::Failed => {
                rec.phase = Phase::Failed;
                rec.result = res;
                rec.muted = fatal;
                Result::Ok(Phase::Failed)
            },
            Phase::Expired => {
                if now > deadline {
                    expire_record(rec);
                    Result::Ok(Phase::Expired)
                } else {
                    Result::Err(LifecycleError::IllegalTransition)
                }
            },
            Phase::Sent => Result::Err(LifecycleError::IllegalTransition),
        }
    }
}

/// The transition function preserves well-formedness.
pub proof fn lemma_step_preserves_wf(
    r: RecordView,
    new_phase: Phase,
    now: Timeout,
    res: Option<OrderView>,
    fatal: bool,
)
    requires
        rec_wf(r),
        res_arg_ok(new_phase, res),
    ensures
        spec_step(r, new_phase, now, res, fatal) matches Result::Ok(r2) ==> rec_wf(r2) && r2.id
            == r.id,
{
}

/// Terminal stability: once a record is terminal, a transition to any
/// different terminal phase is refused with `IllegalTransition`, and a
/// transition to the identical phase or a late progress signal leaves the
/// record exactly as it was.
pub proof fn lemma_terminal_stability(
    r: RecordView,
    new_phase: Phase,
    now: Timeout,
    res: Option<OrderView>,
    fatal: bool,
)
    requires
        is_terminal(r.phase),
    ensures
        is_terminal(new_phase) && new_phase != r.phase ==> spec_step(r, new_phase, now, res, fatal)
            == Result::<RecordView, LifecycleError>::Err(LifecycleError::IllegalTransition),
        !(is_terminal(new_phase) && new_phase != r.phase) ==> spec_step(
            r,
            new_phase,
            now,
            res,
            fatal,
        ) == Result::<RecordView, LifecycleError>::Ok(r),
{
}

/// Timeout precedence: a record in `Delivered` whose action deadline has
/// strictly elapsed at `now` is expired by the sweep; and whichever side
/// is evaluated first, a dispatch result arriving at the same instant
/// cannot make it `Executed` — applied before the sweep it expires the
/// record itself, applied after it is refused as a terminal transition.
pub proof fn lemma_timeout_precedence(r: RecordView, now: Timeout, res: Option<OrderView>)
    requires
        r.phase == Phase::Delivered,
        !r.muted,
        now > r.metadata.delivered.action,
    ensures
        spec_sweep_rec(r, now).phase == Phase::Expired,
        spec_step(r, Phase::Executed, now, res, false) == Result::<
            RecordView,
            LifecycleError,
        >::Ok(spec_expire(r)),
        spec_step(spec_sweep_rec(r, now), Phase::Executed, now, res, false) == Result::<
            RecordView,
            LifecycleError,
        >::Err(LifecycleError::IllegalTransition),
{
}

} // verus!
