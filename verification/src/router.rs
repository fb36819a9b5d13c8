//! The dispatch router: resolve exactly one backend capability for an
//! order's variant, translate the order's fields into that backend's call
//! shape, invoke it once, and capture the invocation's outcome — success
//! or failure — as a `Result` order. A backend failure is captured, never
//! propagated as a system error; an unroutable order is rejected with
//! [`DispatchError::NoBackend`] before any lifecycle record exists.

use vstd::prelude::*;
use crate::xbi_format::{AccountIdOf, BalanceOf, Bytes, OrderView, XBIOrder};

verus! {

/// Why an order could not be routed.
#[derive(Clone, Copy, PartialEq, Eq, Structural, Debug)]
pub enum DispatchError {
    /// No registered backend capability matches the order's variant.
    NoBackend,
}

/// A backend capability: the execution environment that performs a call.
/// `Transfer` and `TransferMulti` orders are performed by the native
/// environment's asset handler, so they resolve to `Native`.
#[derive(Clone, Copy, PartialEq, Eq, Structural, Debug)]
pub enum BackendKind {
    Native,
    Evm,
    Wasm,
    /// A custom backend, identified out-of-band by an identifier carried
    /// alongside the order.
    Custom(u32),
}

/// The registered backend capabilities. Custom backends are registered by
/// identifier.
#[derive(Clone, Debug)]
pub struct BackendRegistry {
    pub native: bool,
    pub evm: bool,
    pub wasm: bool,
    pub custom: Vec<u32>,
}

/// Which backend an order resolves to, given the registry and, for a
/// custom order, the backend identifier carried alongside it. `None` means
/// the order is unroutable; a `Result` order is never dispatched.
pub open spec fn spec_resolve(
    o: OrderView,
    reg: BackendRegistry,
    custom_target: Option<u32>,
) -> Option<BackendKind> {
    match o {
        OrderView::CallNative { .. } => if reg.native {
            Option::Some(BackendKind::Native)
        } else {
            Option::None
        },
        OrderView::Transfer { .. } => if reg.native {
            Option::Some(BackendKind::Native)
        } else {
            Option::None
        },
        OrderView::TransferMulti { .. } => if reg.native {
            Option::Some(BackendKind::Native)
        } else {
            Option::None
        },
        OrderView::CallEvm { .. } => if reg.evm {
            Option::Some(BackendKind::Evm)
        } else {
            Option::None
        },
        OrderView::CallWasm { .. } => if reg.wasm {
            Option::Some(BackendKind::Wasm)
        } else {
            Option::None
        },
        OrderView::CallCustom { .. } => match custom_target {
            Option::Some(t) => if reg.custom@.contains(t) {
                Option::Some(BackendKind::Custom(t))
            } else {
                Option::None
            },
            Option::None => Option::None,
        },
        OrderView::Result { .. } => Option::None,
    }
}

impl BackendRegistry {
    /// A registry with no capabilities.
    pub fn new() -> (r: Self)
        ensures
            !r.native && !r.evm && !r.wasm && r.custom@ == Seq::<u32>::empty(),
    {
        BackendRegistry { native: false, evm: false, wasm: false, custom: Vec::new() }
    }

    /// Whether a custom backend with this identifier is registered.
    pub fn has_custom(&self, id: u32) -> (r: bool)
        ensures
            r == self.custom@.contains(id),
    {
        let mut k: usize = 0;
        while k < self.custom.len()
            invariant
                0 <= k <= self.custom@.len(),
                forall|j: int| 0 <= j < k ==> self.custom@[j] != id,
            decreases self.custom@.len() - k,
        {
            if self.custom[k] == id {
                return true;
            }
            k = k + 1;
        }
        false
    }
}

/// Resolve exactly one backend for an order, or refuse it.
pub fn resolve_backend(
    order: &XBIOrder,
    registry: &BackendRegistry,
    custom_target: Option<u32>,
) -> (r: Result<BackendKind, DispatchError>)
    ensures
        r == (match spec_resolve(order@, *registry, custom_target) {
            Option::Some(k) => Result::<BackendKind, DispatchError>::Ok(k),
            Option::None => Result::<BackendKind, DispatchError>::Err(DispatchError::NoBackend),
        }),
{
    match order {
        XBIOrder::CallNative { .. } | XBIOrder::Transfer { .. } | XBIOrder::TransferMulti {
            ..
        } => {
            if registry.native {
                Result::Ok(BackendKind::Native)
            } else {
                Result::Err(DispatchError::NoBackend)
            }
        },
        XBIOrder::CallEvm { .. } => {
            if registry.evm {
                Result::Ok(BackendKind::Evm)
            } else {
                Result::Err(DispatchError::NoBackend)
            }
        },
        XBIOrder::CallWasm { .. } => {
            if registry.wasm {
                Result::Ok(BackendKind::Wasm)
            } else {
                Result::Err(DispatchError::NoBackend)
            }
        },
        XBIOrder::CallCustom { .. } => {
            match custom_target {
                Option::Some(t) => {
                    if registry.has_custom(t) {
                        Result::Ok(BackendKind::Custom(t))
                    } else {
                        Result::Err(DispatchError::NoBackend)
                    }
                },
                Option::None => Result::Err(DispatchError::NoBackend),
            }
        },
        XBIOrder::Result { .. } => Result::Err(DispatchError::NoBackend),
    }
}

/// An order's fields translated into its backend's call shape.
#[derive(Clone, Debug)]
pub enum BackendCall {
    Native {
        payload: Bytes,
    },
    Evm {
        source: AccountIdOf,
        target: AccountIdOf,
        value: BalanceOf,
        input: Bytes,
        gas_limit: BalanceOf,
        max_fee_per_gas: Option<BalanceOf>,
        max_priority_fee_per_gas: Option<BalanceOf>,
        nonce: Option<u32>,
        access_list: Option<Bytes>,
    },
    Wasm {
        origin: AccountIdOf,
        dest: AccountIdOf,
        value: BalanceOf,
        input: Bytes,
        additional_params: Option<Vec<Bytes>>,
    },
    Custom {
        backend_id: u32,
        caller: AccountIdOf,
        dest: AccountIdOf,
        value: BalanceOf,
        input: Bytes,
        additional_params: Option<Vec<Bytes>>,
    },
    TransferAsset {
        dest: AccountIdOf,
        currency_id: Option<AccountIdOf>,
        value: BalanceOf,
        additional_params: Option<Vec<Bytes>>,
    },
}

/// What one backend invocation reported: the return data of a successful
/// execution, or a captured error with its diagnostic. `fatal` marks a
/// non-recoverable error that also mutes further notifications.
#[derive(Clone, PartialEq, Eq, Debug)]
pub enum BackendOutcome {
    Success { output: Bytes, witness: Bytes },
    Error { fatal: bool, diagnostic: Bytes, witness: Bytes },
}

/// The `Result` order that captures a backend outcome: success carries the
/// return data, failure carries the diagnostic; both carry the witness.
pub open spec fn spec_result_of(out: BackendOutcome) -> OrderView {
    match out {
        BackendOutcome::Success { output, witness } => OrderView::Result {
            success: true,
            output: output@,
            witness: witness@,
        },
        BackendOutcome::Error { fatal, diagnostic, witness } => OrderView::Result {
            success: false,
            output: diagnostic@,
            witness: witness@,
        },
    }
}

/// Whether an outcome is a fatal backend error.
pub open spec fn outcome_fatal(out: BackendOutcome) -> bool {
    out matches BackendOutcome::Error { fatal: true, .. }
}

/// Build the `Result` order for a backend outcome.
pub fn outcome_to_result(out: &BackendOutcome) -> (r: XBIOrder)
    ensures
        r@ == spec_result_of(*out),
{
    match out {
        BackendOutcome::Success { output, witness } => XBIOrder::Result {
            success: true,
            output: vstd::slice::slice_to_vec(output.as_slice()),
            witness: vstd::slice::slice_to_vec(witness.as_slice()),
        },
        BackendOutcome::Error { fatal: _, diagnostic, witness } => XBIOrder::Result {
            success: false,
            output: vstd::slice::slice_to_vec(diagnostic.as_slice()),
            witness: vstd::slice::slice_to_vec(witness.as_slice()),
        },
    }
}

/// Whether an order's variant and a backend kind belong together.
pub open spec fn kind_compatible(o: OrderView, kind: BackendKind) -> bool {
    match o {
        OrderView::CallNative { .. } => kind == BackendKind::Native,
        OrderView::Transfer { .. } => kind == BackendKind::Native,
        OrderView::TransferMulti { .. } => kind == BackendKind::Native,
        OrderView::CallEvm { .. } => kind == BackendKind::Evm,
        OrderView::CallWasm { .. } => kind == BackendKind::Wasm,
        OrderView::CallCustom { .. } => kind matches BackendKind::Custom(_),
        OrderView::Result { .. } => false,
    }
}

/// The exact field-for-field translation of an order into a call shape.
pub open spec fn call_matches(c: BackendCall, o: OrderView, kind: BackendKind) -> bool {
    match o {
        OrderView::CallNative { payload } => c matches BackendCall::Native { payload: p }
            && p@ == payload,
        OrderView::CallEvm {
            caller,
            dest,
            value,
            input,
            gas_limit,
            max_fee_per_gas,
            max_priority_fee_per_gas,
            nonce,
            access_list,
        } => c matches BackendCall::Evm {
            source,
            target,
            value: v,
            input: inp,
            gas_limit: gl,
            max_fee_per_gas: mf,
            max_priority_fee_per_gas: mp,
            nonce: n,
            access_list: al,
        } && source@ == caller && target@ == dest && v == value && inp@ == input && gl == gas_limit
            && mf == max_fee_per_gas && mp == max_priority_fee_per_gas && n == nonce
            && crate::xbi_format::opt_bytes_view(al) == access_list,
        OrderView::CallWasm { caller, dest, value, input, additional_params } => c matches
            BackendCall::Wasm { origin, dest: d, value: v, input: inp, additional_params: ap }
            && origin@ == caller && d@ == dest && v == value && inp@ == input
            && crate::xbi_format::opt_bytes_list_view(ap) == additional_params,
        OrderView::CallCustom { caller, dest, value, input, additional_params } => c matches
            BackendCall::Custom {
            backend_id,
            caller: cl,
            dest: d,
            value: v,
            input: inp,
            additional_params: ap,
        } && kind == BackendKind::Custom(backend_id) && cl@ == caller && d@ == dest && v == value
            && inp@ == input && crate::xbi_format::opt_bytes_list_view(ap) == additional_params,
        OrderView::Transfer { dest, value, additional_params } => c matches
            BackendCall::TransferAsset {
            dest: d,
            currency_id: cur,
            value: v,
            additional_params: ap,
        } && d@ == dest && cur is None && v == value && crate::xbi_format::opt_bytes_list_view(ap)
            == additional_params,
        OrderView::TransferMulti { dest, currency_id, value, additional_params } => c matches
            BackendCall::TransferAsset {
            dest: d,
            currency_id: cur,
            value: v,
            additional_params: ap,
        } && d@ == dest && (cur matches Option::Some(cid) && cid@ == currency_id) && v == value
            && crate::xbi_format::opt_bytes_list_view(ap) == additional_params,
        OrderView::Result { .. } => false,
    }
}

fn copy_account(a: &AccountIdOf) -> (r: AccountIdOf)
    ensures
        r@ == a@,
{
    let mut out: AccountIdOf = [0u8; 32];
    let mut k: usize = 0;
    while k < 32
        invariant
            0 <= k <= 32,
            out@.len() == 32,
            a@.len() == 32,
            forall|j: int| 0 <= j < k ==> out@[j] == a@[j],
        decreases 32 - k,
    {
        out[k] = a[k];
        k = k + 1;
    }
    proof {
        assert(out@ =~= a@);
    }
    out
}

fn copy_bytes(b: &Bytes) -> (r: Bytes)
    ensures
        r@ == b@,
{
    vstd::slice::slice_to_vec(b.as_slice())
}

fn copy_opt_bytes(o: &Option<Bytes>) -> (r: Option<Bytes>)
    ensures
        crate::xbi_format::opt_bytes_view(r) == crate::xbi_format::opt_bytes_view(*o),
{
    match o {
        Option::None => Option::None,
        Option::Some(b) => Option::Some(copy_bytes(b)),
    }
}

fn copy_bytes_list(l: &Vec<Bytes>) -> (r: Vec<Bytes>)
    ensures
        r.deep_view() == l.deep_view(),
{
    let mut out: Vec<Bytes> = Vec::new();
    let mut k: usize = 0;
    proof {
        assert(out.deep_view() =~= l.deep_view().take(0));
    }
    while k < l.len()
        invariant
            0 <= k <= l@.len(),
            out.deep_view() == l.deep_view().take(k as int),
        decreases l@.len() - k,
    {
        let ghost pre = out.deep_view();
        let item = copy_bytes(&l[k]);
        let ghost iv = item@;
        proof {
            assert(item.deep_view() =~= iv);
        }
        out.push(item);
        proof {
            assert(out.deep_view() =~= pre.push(iv));
            assert(l.deep_view()[k as int] =~= l@[k as int]@);
            assert(pre.push(iv) =~= l.deep_view().take(k as int + 1));
        }
        k = k + 1;
    }
    proof {
        assert(l.deep_view().take(l@.len() as int) =~= l.deep_view());
    }
    out
}

fn copy_opt_bytes_list(o: &Option<Vec<Bytes>>) -> (r: Option<Vec<Bytes>>)
    ensures
        crate::xbi_format::opt_bytes_list_view(r) == crate::xbi_format::opt_bytes_list_view(*o),
{
    match o {
        Option::None => Option::None,
        Option::Some(l) => Option::Some(copy_bytes_list(l)),
    }
}

/// Translate an order's fields into its backend's call shape. Yields
/// `None` exactly when the order's variant and the kind do not belong
/// together (in particular for a `Result` order, which is never
/// dispatched).
pub fn translate_call(order: &XBIOrder, kind: BackendKind) -> (r: Option<BackendCall>)
    ensures
        match r {
            Option::Some(c) => kind_compatible(order@, kind) && call_matches(c, order@, kind),
            Option::None => !kind_compatible(order@, kind),
        },
{
    match (order, kind) {
        (XBIOrder::CallNative { payload }, BackendKind::Native) => Option::Some(
            BackendCall::Native { payload: copy_bytes(payload) },
        ),
        (
            XBIOrder::CallEvm {
                caller,
                dest,
                value,
                input,
                gas_limit,
                max_fee_per_gas,
                max_priority_fee_per_gas,
                nonce,
                access_list,
            },
            BackendKind::Evm,
        ) => Option::Some(
            BackendCall::Evm {
                source: copy_account(caller),
                target: copy_account(dest),
                value: *value,
                input: copy_bytes(input),
                gas_limit: *gas_limit,
                max_fee_per_gas: *max_fee_per_gas,
                max_priority_fee_per_gas: *max_priority_fee_per_gas,
                nonce: *nonce,
                access_list: copy_opt_bytes(access_list),
            },
        ),
        (
            XBIOrder::CallWasm { caller, dest, value, input, additional_params },
            BackendKind::Wasm,
        ) => Option::Some(
            BackendCall::Wasm {
                origin: copy_account(caller),
                dest: copy_account(dest),
                value: *value,
                input: copy_bytes(input),
                additional_params: copy_opt_bytes_list(additional_params),
            },
        ),
        (
            XBIOrder::CallCustom { caller, dest, value, input, additional_params },
            BackendKind::Custom(backend_id),
        ) => Option::Some(
            BackendCall::Custom {
                backend_id,
                caller: copy_account(caller),
                dest: copy_account(dest),
                value: *value,
                input: copy_bytes(input),
                additional_params: copy_opt_bytes_list(additional_params),
            },
        ),
        (XBIOrder::Transfer { dest, value, additional_params }, BackendKind::Native) => Option::Some(
            BackendCall::TransferAsset {
                dest: copy_account(dest),
                currency_id: Option::None,
                value: *value,
                additional_params: copy_opt_bytes_list(additional_params),
            },
        ),
        (
            XBIOrder::TransferMulti { dest, currency_id, value, additional_params },
            BackendKind::Native,
        ) => Option::Some(
            BackendCall::TransferAsset {
                dest: copy_account(dest),
                currency_id: Option::Some(copy_account(currency_id)),
                value: *value,
                additional_params: copy_opt_bytes_list(additional_params),
            },
        ),
        _ => Option::None,
    }
}

/// A backend capability. The hosting environment implements this for each
/// execution environment it offers; the router invokes it exactly once per
/// dispatch. Nothing is assumed of what an implementation returns: the
/// router's own contract holds for every outcome.
pub trait Backend {
    /// Perform one call and report its outcome.
    fn execute(&mut self, call: BackendCall) -> BackendOutcome;
}

/// Dispatch an order: resolve its backend against the registry, translate
/// the fields, invoke the backend once, and capture the outcome as a
/// `Result` order. An unroutable order — including every `Result` order —
/// is refused with `NoBackend` and nothing is invoked.
pub fn dispatch<B: Backend>(
    backend: &mut B,
    order: &XBIOrder,
    registry: &BackendRegistry,
    custom_target: Option<u32>,
) -> (r: Result<(BackendOutcome, XBIOrder), DispatchError>)
    ensures
        match r {
            Result::Ok((out, res)) => spec_resolve(order@, *registry, custom_target) is Some
                && res@ == spec_result_of(out),
            Result::Err(e) => spec_resolve(order@, *registry, custom_target) is None && e
                == DispatchError::NoBackend,
        },
{
    let kind = match resolve_backend(order, registry, custom_target) {
        Result::Ok(k) => k,
        Result::Err(e) => {
            return Result::Err(e);
        },
    };
    proof {
        assert(kind_compatible(order@, kind));
    }
    let call = match translate_call(order, kind) {
        Option::Some(c) => c,
        Option::None => {
            // Unreachable: a resolved kind is always compatible.
            return Result::Err(DispatchError::NoBackend);
        },
    };
    let out = backend.execute(call);
    let res = outcome_to_result(&out);
    Result::Ok((out, res))
}

} // verus!
