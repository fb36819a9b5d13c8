use xbi_executor::codec::encode_format;
use xbi_executor::lifecycle::{LifecycleError, LifecycleRecord, Phase};
use xbi_executor::router::{
    dispatch, resolve_backend, translate_call, Backend, BackendCall, BackendKind,
    BackendOutcome, BackendRegistry, DispatchError,
};
use xbi_executor::store::{CorrelationStore, InboundError};
use xbi_executor::xbi_format::{
    ActionNotificationTimeouts, XBIFormat, XBIMetadata, XBIOrder,
};

const ORIGIN: [u8; 32] = [1u8; 32];
const DEST: [u8; 32] = [2u8; 32];

fn timeouts(action: u128, notification: u128) -> ActionNotificationTimeouts {
    ActionNotificationTimeouts { action, notification }
}

fn metadata(sent: (u128, u128), delivered: (u128, u128), executed: (u128, u128)) -> XBIMetadata {
    XBIMetadata {
        sent: timeouts(sent.0, sent.1),
        delivered: timeouts(delivered.0, delivered.1),
        executed: timeouts(executed.0, executed.1),
    }
}

fn full_registry() -> BackendRegistry {
    BackendRegistry { native: true, evm: true, wasm: true, custom: vec![77] }
}

/// A backend that counts its invocations and answers with a fixed outcome.
struct CountingBackend {
    calls: usize,
    success_output: Vec<u8>,
}

impl Backend for CountingBackend {
    fn execute(&mut self, _call: BackendCall) -> BackendOutcome {
        self.calls += 1;
        BackendOutcome::Success { output: self.success_output.clone(), witness: vec![] }
    }
}

fn success_result(output: Vec<u8>) -> XBIOrder {
    XBIOrder::Result { success: true, output, witness: vec![] }
}

#[test]
fn scenario_native_call_executes_before_delivery_signal() {
    // A native call with sent = {action: 100, notification: 50}, submitted
    // at time 0; the backend answers [9] at time 10, before the external
    // delivery confirmation at time 20.
    let mut store = CorrelationStore::new();
    let registry = full_registry();
    let message = XBIFormat {
        xbi_order: XBIOrder::CallNative { payload: vec![1, 2, 3] },
        metadata: metadata((100, 50), (200, 150), (300, 250)),
    };
    let bytes = encode_format(&message);
    let receipt = store
        .handle_inbound(&ORIGIN, &DEST, 0, &bytes, &registry, None, 0)
        .expect("accepted");
    assert!(!receipt.duplicate);

    let mut backend = CountingBackend { calls: 0, success_output: vec![9] };
    let (outcome, result_order) =
        dispatch(&mut backend, &XBIOrder::CallNative { payload: vec![1, 2, 3] }, &registry, None)
            .expect("routable");
    assert_eq!(backend.calls, 1);
    assert_eq!(result_order, success_result(vec![9]));
    let entered = store.apply_outcome(receipt.id, &outcome, 10).expect("transition");
    assert_eq!(entered, Phase::Executed);

    // The late delivery confirmation at time 20 is an idempotent no-op.
    let late = store.transition(receipt.id, Phase::Delivered, 20, None, false);
    assert_eq!(late, Ok(Phase::Executed));

    let rec = store.get(receipt.id).expect("stored");
    assert_eq!(rec.phase, Phase::Executed);
    assert_eq!(rec.result, Some(success_result(vec![9])));
}

#[test]
fn scenario_transfer_expires_when_no_delivery_arrives() {
    // A transfer with sent.action = 10, submitted at time 0; no delivery
    // confirmation arrives before time 11.
    let mut store = CorrelationStore::new();
    let registry = full_registry();
    let message = XBIFormat {
        xbi_order: XBIOrder::Transfer {
            dest: [0xD; 32],
            value: 500,
            additional_params: None,
        },
        metadata: metadata((10, 5), (20, 15), (30, 25)),
    };
    let bytes = encode_format(&message);
    let receipt = store
        .handle_inbound(&ORIGIN, &DEST, 1, &bytes, &registry, None, 0)
        .expect("accepted");

    let expired = store.sweep(11);
    assert_eq!(expired, vec![receipt.id]);
    let rec = store.get(receipt.id).expect("stored");
    assert_eq!(rec.phase, Phase::Expired);
    assert_eq!(
        rec.result,
        Some(XBIOrder::Result { success: false, output: vec![], witness: vec![] })
    );

    // A second sweep finds nothing new.
    assert_eq!(store.sweep(12), Vec::<u64>::new());
}

#[test]
fn scenario_replayed_message_executes_once() {
    // The identical encoded message twice with the same identifier: the
    // second submission reports a duplicate and only one backend
    // invocation ever happens.
    let mut store = CorrelationStore::new();
    let registry = full_registry();
    let order = XBIOrder::CallNative { payload: vec![5] };
    let message = XBIFormat {
        xbi_order: order.clone(),
        metadata: metadata((100, 50), (100, 50), (100, 50)),
    };
    let bytes = encode_format(&message);
    let mut backend = CountingBackend { calls: 0, success_output: vec![] };

    let first = store
        .handle_inbound(&ORIGIN, &DEST, 9, &bytes, &registry, None, 0)
        .expect("accepted");
    if !first.duplicate {
        let (outcome, _) = dispatch(&mut backend, &order, &registry, None).expect("routable");
        store.apply_outcome(first.id, &outcome, 1).expect("transition");
    }

    let second = store
        .handle_inbound(&ORIGIN, &DEST, 9, &bytes, &registry, None, 2)
        .expect("accepted");
    assert_eq!(second.id, first.id);
    assert!(second.duplicate);
    if !second.duplicate {
        let (outcome, _) = dispatch(&mut backend, &order, &registry, None).expect("routable");
        store.apply_outcome(second.id, &outcome, 3).expect("transition");
    }

    assert_eq!(backend.calls, 1);
    assert_eq!(store.len(), 1);
}

#[test]
fn duplicate_insert_is_refused_and_keeps_the_record() {
    let mut store = CorrelationStore::new();
    let rec = LifecycleRecord {
        id: 42,
        order: XBIOrder::CallNative { payload: vec![1] },
        phase: Phase::Sent,
        metadata: metadata((1, 1), (2, 2), (3, 3)),
        created_at: 0,
        result: None,
        muted: false,
    };
    assert_eq!(store.insert(rec), Ok(()));
    let other = LifecycleRecord {
        id: 42,
        order: XBIOrder::CallNative { payload: vec![9, 9] },
        phase: Phase::Sent,
        metadata: metadata((7, 7), (8, 8), (9, 9)),
        created_at: 5,
        result: None,
        muted: false,
    };
    assert_eq!(store.insert(other), Err(LifecycleError::DuplicateOrder));
    let stored = store.get(42).expect("stored");
    assert_eq!(stored.order, XBIOrder::CallNative { payload: vec![1] });
    assert_eq!(stored.created_at, 0);
}

#[test]
fn timeout_precedence_over_dispatch_result() {
    // A record in Delivered whose delivered.action deadline has strictly
    // elapsed: the sweep expires it, and the dispatch result arriving in
    // the same batch cannot make it Executed.
    let mut store = CorrelationStore::new();
    let registry = full_registry();
    let message = XBIFormat {
        xbi_order: XBIOrder::CallNative { payload: vec![] },
        metadata: metadata((10, 5), (20, 15), (30, 25)),
    };
    let bytes = encode_format(&message);
    let receipt = store
        .handle_inbound(&ORIGIN, &DEST, 3, &bytes, &registry, None, 0)
        .expect("accepted");
    assert_eq!(
        store.transition(receipt.id, Phase::Delivered, 5, None, false),
        Ok(Phase::Delivered)
    );

    let expired = store.sweep(21);
    assert_eq!(expired, vec![receipt.id]);
    let outcome = BackendOutcome::Success { output: vec![1], witness: vec![] };
    assert_eq!(
        store.apply_outcome(receipt.id, &outcome, 21),
        Err(LifecycleError::IllegalTransition)
    );
    assert_eq!(store.get(receipt.id).expect("stored").phase, Phase::Expired);
}

#[test]
fn dispatch_result_at_exact_deadline_still_wins() {
    // now == deadline has not strictly elapsed: the result is kept.
    let mut store = CorrelationStore::new();
    let registry = full_registry();
    let message = XBIFormat {
        xbi_order: XBIOrder::CallNative { payload: vec![] },
        metadata: metadata((10, 5), (20, 15), (30, 25)),
    };
    let bytes = encode_format(&message);
    let receipt = store
        .handle_inbound(&ORIGIN, &DEST, 4, &bytes, &registry, None, 0)
        .expect("accepted");
    store.transition(receipt.id, Phase::Delivered, 5, None, false).expect("delivered");
    assert_eq!(store.sweep(20), Vec::<u64>::new());
    let outcome = BackendOutcome::Success { output: vec![2], witness: vec![] };
    assert_eq!(store.apply_outcome(receipt.id, &outcome, 20), Ok(Phase::Executed));
}

#[test]
fn terminal_states_are_stable() {
    let mut store = CorrelationStore::new();
    let registry = full_registry();
    let message = XBIFormat {
        xbi_order: XBIOrder::CallNative { payload: vec![] },
        metadata: metadata((10, 5), (20, 15), (30, 25)),
    };
    let bytes = encode_format(&message);
    let receipt = store
        .handle_inbound(&ORIGIN, &DEST, 5, &bytes, &registry, None, 0)
        .expect("accepted");
    let outcome = BackendOutcome::Success { output: vec![], witness: vec![] };
    assert_eq!(store.apply_outcome(receipt.id, &outcome, 1), Ok(Phase::Executed));

    // A different terminal state is refused...
    let failure = XBIOrder::Result { success: false, output: vec![], witness: vec![] };
    assert_eq!(
        store.transition(receipt.id, Phase::Failed, 2, Some(failure), false),
        Err(LifecycleError::IllegalTransition)
    );
    assert_eq!(
        store.transition(receipt.id, Phase::Expired, 2, None, false),
        Err(LifecycleError::IllegalTransition)
    );
    // ... the identical terminal state is an idempotent no-op.
    let same = XBIOrder::Result { success: true, output: vec![], witness: vec![] };
    assert_eq!(
        store.transition(receipt.id, Phase::Executed, 2, Some(same), false),
        Ok(Phase::Executed)
    );
    assert_eq!(store.get(receipt.id).expect("stored").phase, Phase::Executed);
}

#[test]
fn fatal_backend_error_mutes_the_record() {
    let mut store = CorrelationStore::new();
    let registry = full_registry();
    let message = XBIFormat {
        xbi_order: XBIOrder::CallNative { payload: vec![] },
        metadata: metadata((10, 1), (20, 1), (30, 1)),
    };
    let bytes = encode_format(&message);
    let receipt = store
        .handle_inbound(&ORIGIN, &DEST, 6, &bytes, &registry, None, 0)
        .expect("accepted");
    let outcome = BackendOutcome::Error {
        fatal: true,
        diagnostic: vec![0xEE],
        witness: vec![],
    };
    assert_eq!(store.apply_outcome(receipt.id, &outcome, 1), Ok(Phase::Failed));
    let rec = store.get(receipt.id).expect("stored");
    assert_eq!(rec.phase, Phase::Failed);
    assert!(rec.muted);
    assert_eq!(
        rec.result,
        Some(XBIOrder::Result { success: false, output: vec![0xEE], witness: vec![] })
    );
    // A muted record owes no further notifications.
    assert_eq!(store.notifications_due(1000), Vec::<u64>::new());
}

#[test]
fn recoverable_backend_error_fails_without_muting() {
    let mut store = CorrelationStore::new();
    let registry = full_registry();
    let message = XBIFormat {
        xbi_order: XBIOrder::CallNative { payload: vec![] },
        metadata: metadata((10, 1), (20, 1), (30, 1)),
    };
    let bytes = encode_format(&message);
    let receipt = store
        .handle_inbound(&ORIGIN, &DEST, 7, &bytes, &registry, None, 0)
        .expect("accepted");
    let outcome = BackendOutcome::Error {
        fatal: false,
        diagnostic: vec![1],
        witness: vec![2],
    };
    assert_eq!(store.apply_outcome(receipt.id, &outcome, 1), Ok(Phase::Failed));
    let rec = store.get(receipt.id).expect("stored");
    assert!(!rec.muted);
    assert_eq!(
        rec.result,
        Some(XBIOrder::Result { success: false, output: vec![1], witness: vec![2] })
    );
}

#[test]
fn unknown_order_is_refused() {
    let mut store = CorrelationStore::new();
    assert_eq!(
        store.transition(1, Phase::Delivered, 0, None, false),
        Err(LifecycleError::UnknownOrder)
    );
    assert_eq!(store.evict(1), Err(LifecycleError::UnknownOrder));
    assert!(store.get(1).is_none());
}

#[test]
fn unroutable_message_creates_no_state() {
    let mut store = CorrelationStore::new();
    let no_evm = BackendRegistry { native: true, evm: false, wasm: true, custom: vec![] };
    let message = XBIFormat {
        xbi_order: XBIOrder::CallEvm {
            caller: [1u8; 32],
            dest: [2u8; 32],
            value: 0,
            input: vec![],
            gas_limit: 0,
            max_fee_per_gas: None,
            max_priority_fee_per_gas: None,
            nonce: None,
            access_list: None,
        },
        metadata: metadata((1, 1), (2, 2), (3, 3)),
    };
    let bytes = encode_format(&message);
    assert_eq!(
        store.handle_inbound(&ORIGIN, &DEST, 0, &bytes, &no_evm, None, 0),
        Err(InboundError::NoBackend)
    );
    assert_eq!(store.len(), 0);
}

#[test]
fn malformed_message_creates_no_state() {
    let mut store = CorrelationStore::new();
    let registry = full_registry();
    let r = store.handle_inbound(&ORIGIN, &DEST, 0, &[9, 9, 9], &registry, None, 0);
    assert!(matches!(r, Err(InboundError::Decode(_))));
    assert_eq!(store.len(), 0);
}

#[test]
fn backend_resolution() {
    let registry = full_registry();
    let native = XBIOrder::CallNative { payload: vec![] };
    assert_eq!(resolve_backend(&native, &registry, None), Ok(BackendKind::Native));
    let transfer = XBIOrder::Transfer { dest: [0; 32], value: 1, additional_params: None };
    assert_eq!(resolve_backend(&transfer, &registry, None), Ok(BackendKind::Native));
    let custom = XBIOrder::CallCustom {
        caller: [0; 32],
        dest: [0; 32],
        value: 0,
        input: vec![],
        additional_params: None,
    };
    assert_eq!(resolve_backend(&custom, &registry, Some(77)), Ok(BackendKind::Custom(77)));
    assert_eq!(
        resolve_backend(&custom, &registry, Some(78)),
        Err(DispatchError::NoBackend)
    );
    assert_eq!(resolve_backend(&custom, &registry, None), Err(DispatchError::NoBackend));
    // A Result order is never dispatched.
    let result = XBIOrder::Result { success: true, output: vec![], witness: vec![] };
    assert_eq!(resolve_backend(&result, &registry, None), Err(DispatchError::NoBackend));
    let mut backend = CountingBackend { calls: 0, success_output: vec![] };
    assert_eq!(
        dispatch(&mut backend, &result, &registry, None),
        Err(DispatchError::NoBackend)
    );
    assert_eq!(backend.calls, 0);
}

#[test]
fn translation_carries_the_fields() {
    let order = XBIOrder::TransferMulti {
        dest: [7u8; 32],
        currency_id: [8u8; 32],
        value: 123,
        additional_params: Some(vec![vec![1]]),
    };
    let call = translate_call(&order, BackendKind::Native).expect("compatible");
    match call {
        BackendCall::TransferAsset { dest, currency_id, value, additional_params } => {
            assert_eq!(dest, [7u8; 32]);
            assert_eq!(currency_id, Some([8u8; 32]));
            assert_eq!(value, 123);
            assert_eq!(additional_params, Some(vec![vec![1]]));
        },
        _ => panic!("wrong call shape"),
    }
    // Mismatched kind and order yield no call.
    assert!(translate_call(&order, BackendKind::Evm).is_none());
}

#[test]
fn notifications_due_reports_overdue_phases() {
    let mut store = CorrelationStore::new();
    let registry = full_registry();
    let message = XBIFormat {
        xbi_order: XBIOrder::CallNative { payload: vec![] },
        metadata: metadata((100, 5), (200, 150), (300, 250)),
    };
    let bytes = encode_format(&message);
    let receipt = store
        .handle_inbound(&ORIGIN, &DEST, 8, &bytes, &registry, None, 0)
        .expect("accepted");
    assert_eq!(store.notifications_due(5), Vec::<u64>::new());
    assert_eq!(store.notifications_due(6), vec![receipt.id]);
    // After delivery the delivered notification deadline governs.
    store.transition(receipt.id, Phase::Delivered, 7, None, false).expect("delivered");
    assert_eq!(store.notifications_due(150), Vec::<u64>::new());
    assert_eq!(store.notifications_due(151), vec![receipt.id]);
}

#[test]
fn eviction_only_after_terminal() {
    let mut store = CorrelationStore::new();
    let registry = full_registry();
    let message = XBIFormat {
        xbi_order: XBIOrder::CallNative { payload: vec![] },
        metadata: metadata((10, 5), (20, 15), (30, 25)),
    };
    let bytes = encode_format(&message);
    let receipt = store
        .handle_inbound(&ORIGIN, &DEST, 9, &bytes, &registry, None, 0)
        .expect("accepted");
    assert_eq!(store.evict(receipt.id), Err(LifecycleError::IllegalTransition));
    let outcome = BackendOutcome::Success { output: vec![], witness: vec![] };
    store.apply_outcome(receipt.id, &outcome, 1).expect("executed");
    assert_eq!(store.evict(receipt.id), Ok(()));
    assert!(store.get(receipt.id).is_none());
    assert_eq!(store.len(), 0);
}

#[test]
fn record_persistence_round_trip() {
    let rec = LifecycleRecord {
        id: 7,
        order: XBIOrder::Transfer { dest: [0xD; 32], value: 500, additional_params: None },
        phase: Phase::Executed,
        metadata: metadata((10, 5), (20, 15), (30, 25)),
        created_at: 3,
        result: Some(XBIOrder::Result { success: true, output: vec![1], witness: vec![] }),
        muted: false,
    };
    let bytes = xbi_executor::codec::encode_record(&rec);
    let (decoded, consumed) = xbi_executor::codec::decode_record(&bytes).expect("decodes");
    assert_eq!(consumed, bytes.len());
    assert_eq!(decoded.id, rec.id);
    assert_eq!(decoded.order, rec.order);
    assert_eq!(decoded.phase, rec.phase);
    assert_eq!(decoded.metadata, rec.metadata);
    assert_eq!(decoded.created_at, rec.created_at);
    assert_eq!(decoded.result, rec.result);
    assert_eq!(decoded.muted, rec.muted);

    // A rehydrated store answers exactly as the original would.
    let restored = CorrelationStore::restore(vec![decoded]).expect("well formed");
    assert_eq!(restored.len(), 1);
    assert_eq!(restored.get(7).expect("stored").phase, Phase::Executed);
}

#[test]
fn restore_refuses_malformed_and_duplicate_records() {
    let good = |id: u64| LifecycleRecord {
        id,
        order: XBIOrder::CallNative { payload: vec![] },
        phase: Phase::Sent,
        metadata: metadata((1, 1), (2, 2), (3, 3)),
        created_at: 0,
        result: None,
        muted: false,
    };
    // A Sent record carrying a result is a state the engine never writes.
    let mut malformed = good(1);
    malformed.result = Some(XBIOrder::Result { success: true, output: vec![], witness: vec![] });
    assert_eq!(
        CorrelationStore::restore(vec![malformed]).err(),
        Some(LifecycleError::IllegalTransition)
    );
    assert_eq!(
        CorrelationStore::restore(vec![good(4), good(5), good(4)]).err(),
        Some(LifecycleError::DuplicateOrder)
    );
    let st = CorrelationStore::restore(vec![good(4), good(5)]).expect("distinct");
    assert_eq!(st.len(), 2);
}

#[test]
fn delivery_after_sent_deadline_expires() {
    let mut store = CorrelationStore::new();
    let registry = full_registry();
    let message = XBIFormat {
        xbi_order: XBIOrder::CallNative { payload: vec![] },
        metadata: metadata((10, 5), (20, 15), (30, 25)),
    };
    let bytes = encode_format(&message);
    let receipt = store
        .handle_inbound(&ORIGIN, &DEST, 10, &bytes, &registry, None, 0)
        .expect("accepted");
    // The confirmation arrives after sent.action has strictly elapsed:
    // the record expires instead of progressing.
    assert_eq!(
        store.transition(receipt.id, Phase::Delivered, 11, None, false),
        Ok(Phase::Expired)
    );
    assert_eq!(store.get(receipt.id).expect("stored").phase, Phase::Expired);
}
