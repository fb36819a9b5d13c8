//! The XBI message model: the order payload describing one requested action
//! (or, symmetrically, its terminal result), and the per-phase timeout
//! metadata attached to it.

use vstd::prelude::*;

verus! {

/// Opaque byte payload carried by an order.
pub type Bytes = Vec<u8>;

/// Balance / value unit agreed with the transport.
pub type BalanceOf = u128;

/// Account identifier: 32 raw bytes.
pub type AccountIdOf = [u8; 32];

/// Absolute time unit (block height or Unix time) agreed by convention
/// with the transport.
pub type Timeout = u128;

/// One instruction or result payload carried by an XBI message.
///
/// Every non-`Result` variant carries enough information to be executed
/// without side information beyond the backend's own state; `Result` is
/// produced exactly once per order, never dispatched.
#[derive(Clone, PartialEq, Eq, Debug)]
pub enum XBIOrder {
    CallNative {
        payload: Bytes,
    },
    CallEvm {
        caller: AccountIdOf,
        dest: AccountIdOf,
        value: BalanceOf,
        input: Bytes,
        gas_limit: BalanceOf,
        max_fee_per_gas: Option<BalanceOf>,
        max_priority_fee_per_gas: Option<BalanceOf>,
        nonce: Option<u32>,
        access_list: Option<Bytes>,
    },
    CallWasm {
        caller: AccountIdOf,
        dest: AccountIdOf,
        value: BalanceOf,
        input: Bytes,
        additional_params: Option<Vec<Bytes>>,
    },
    CallCustom {
        caller: AccountIdOf,
        dest: AccountIdOf,
        value: BalanceOf,
        input: Bytes,
        additional_params: Option<Vec<Bytes>>,
    },
    Transfer {
        dest: AccountIdOf,
        value: BalanceOf,
        additional_params: Option<Vec<Bytes>>,
    },
    TransferMulti {
        dest: AccountIdOf,
        currency_id: AccountIdOf,
        value: BalanceOf,
        additional_params: Option<Vec<Bytes>>,
    },
    Result {
        success: bool,
        output: Bytes,
        witness: Bytes,
    },
}

/// Mathematical model of an [`XBIOrder`]: every byte payload is a `Seq<u8>`,
/// every list of payloads a `Seq<Seq<u8>>`. Contracts and lemmas speak of
/// this model.
pub enum OrderView {
    CallNative {
        payload: Seq<u8>,
    },
    CallEvm {
        caller: Seq<u8>,
        dest: Seq<u8>,
        value: u128,
        input: Seq<u8>,
        gas_limit: u128,
        max_fee_per_gas: Option<u128>,
        max_priority_fee_per_gas: Option<u128>,
        nonce: Option<u32>,
        access_list: Option<Seq<u8>>,
    },
    CallWasm {
        caller: Seq<u8>,
        dest: Seq<u8>,
        value: u128,
        input: Seq<u8>,
        additional_params: Option<Seq<Seq<u8>>>,
    },
    CallCustom {
        caller: Seq<u8>,
        dest: Seq<u8>,
        value: u128,
        input: Seq<u8>,
        additional_params: Option<Seq<Seq<u8>>>,
    },
    Transfer {
        dest: Seq<u8>,
        value: u128,
        additional_params: Option<Seq<Seq<u8>>>,
    },
    TransferMulti {
        dest: Seq<u8>,
        currency_id: Seq<u8>,
        value: u128,
        additional_params: Option<Seq<Seq<u8>>>,
    },
    Result {
        success: bool,
        output: Seq<u8>,
        witness: Seq<u8>,
    },
}

/// Model of an optional byte payload.
pub open spec fn opt_bytes_view(o: Option<Bytes>) -> Option<Seq<u8>> {
    match o {
        Option::None => Option::None,
        Option::Some(b) => Option::Some(b@),
    }
}

/// Model of an optional list of byte payloads.
pub open spec fn opt_bytes_list_view(o: Option<Vec<Bytes>>) -> Option<Seq<Seq<u8>>> {
    match o {
        Option::None => Option::None,
        Option::Some(l) => Option::Some(l.deep_view()),
    }
}

impl View for XBIOrder {
    type V = OrderView;

    open spec fn view(&self) -> OrderView {
        match self {
            XBIOrder::CallNative { payload } => (OrderView::CallNative { payload: payload@ }),
            XBIOrder::CallEvm {
                caller,
                dest,
                value,
                input,
                gas_limit,
                max_fee_per_gas,
                max_priority_fee_per_gas,
                nonce,
                access_list,
            } => (OrderView::CallEvm {
                caller: caller@,
                dest: dest@,
                value: *value,
                input: input@,
                gas_limit: *gas_limit,
                max_fee_per_gas: *max_fee_per_gas,
                max_priority_fee_per_gas: *max_priority_fee_per_gas,
                nonce: *nonce,
                access_list: opt_bytes_view(*access_list),
            }),
            XBIOrder::CallWasm { caller, dest, value, input, additional_params } => (
            OrderView::CallWasm {
                caller: caller@,
                dest: dest@,
                value: *value,
                input: input@,
                additional_params: opt_bytes_list_view(*additional_params),
            }),
            XBIOrder::CallCustom { caller, dest, value, input, additional_params } => (
            OrderView::CallCustom {
                caller: caller@,
                dest: dest@,
                value: *value,
                input: input@,
                additional_params: opt_bytes_list_view(*additional_params),
            }),
            XBIOrder::Transfer { dest, value, additional_params } => (OrderView::Transfer {
                dest: dest@,
                value: *value,
                additional_params: opt_bytes_list_view(*additional_params),
            }),
            XBIOrder::TransferMulti { dest, currency_id, value, additional_params } => (
            OrderView::TransferMulti {
                dest: dest@,
                currency_id: currency_id@,
                value: *value,
                additional_params: opt_bytes_list_view(*additional_params),
            }),
            XBIOrder::Result { success, output, witness } => (OrderView::Result {
                success: *success,
                output: output@,
                witness: witness@,
            }),
        }
    }
}

impl Default for XBIOrder {
    /// The default order is an empty native call.
    fn default() -> (r: Self)
        ensures
            r@ == (OrderView::CallNative { payload: Seq::<u8>::empty() }),
    {
        XBIOrder::CallNative { payload: Vec::new() }
    }
}

/// One phase's timeout pair: how long the phase itself may take (`action`)
/// and how long the engine may wait before a status notification is owed
/// (`notification`). Both are absolute times.
#[derive(Clone, Copy, PartialEq, Eq, Structural, Debug)]
pub struct ActionNotificationTimeouts {
    pub action: Timeout,
    pub notification: Timeout,
}

impl Default for ActionNotificationTimeouts {
    fn default() -> (r: Self)
        ensures
            r == (ActionNotificationTimeouts { action: 0u128, notification: 0u128 }),
    {
        ActionNotificationTimeouts { action: 0, notification: 0 }
    }
}

/// Per-order lifecycle bookkeeping: one timeout pair per phase.
///
/// A metadata record is well formed only when the action deadlines are
/// monotonically non-decreasing across phases; a record that violates this
/// is malformed and rejected at decode time.
#[derive(Clone, Copy, PartialEq, Eq, Structural, Debug)]
pub struct XBIMetadata {
    pub sent: ActionNotificationTimeouts,
    pub delivered: ActionNotificationTimeouts,
    pub executed: ActionNotificationTimeouts,
}

/// The monotonic-deadline invariant:
/// `sent.action <= delivered.action <= executed.action`.
pub open spec fn metadata_valid(m: XBIMetadata) -> bool {
    m.sent.action <= m.delivered.action && m.delivered.action <= m.executed.action
}

impl XBIMetadata {
    /// Runtime check of the monotonic-deadline invariant.
    pub fn is_valid(&self) -> (r: bool)
        ensures
            r == metadata_valid(*self),
    {
        self.sent.action <= self.delivered.action && self.delivered.action
            <= self.executed.action
    }
}

impl Default for XBIMetadata {
    fn default() -> (r: Self)
        ensures
            r == (XBIMetadata {
                sent: ActionNotificationTimeouts { action: 0u128, notification: 0u128 },
                delivered: ActionNotificationTimeouts { action: 0u128, notification: 0u128 },
                executed: ActionNotificationTimeouts { action: 0u128, notification: 0u128 },
            }),
            metadata_valid(r),
    {
        XBIMetadata {
            sent: ActionNotificationTimeouts { action: 0, notification: 0 },
            delivered: ActionNotificationTimeouts { action: 0, notification: 0 },
            executed: ActionNotificationTimeouts { action: 0, notification: 0 },
        }
    }
}

/// A complete XBI message: one order plus its lifecycle metadata.
#[derive(Clone, PartialEq, Eq, Debug)]
pub struct XBIFormat {
    pub xbi_order: XBIOrder,
    pub metadata: XBIMetadata,
}

/// Mathematical model of an [`XBIFormat`] message.
pub struct FormatView {
    pub xbi_order: OrderView,
    pub metadata: XBIMetadata,
}

impl View for XBIFormat {
    type V = FormatView;

    open spec fn view(&self) -> FormatView {
        FormatView { xbi_order: self.xbi_order@, metadata: self.metadata }
    }
}

impl Default for XBIFormat {
    fn default() -> (r: Self)
        ensures
            r@.xbi_order == (OrderView::CallNative { payload: Seq::<u8>::empty() }),
            r@.metadata == (XBIMetadata {
                sent: ActionNotificationTimeouts { action: 0u128, notification: 0u128 },
                delivered: ActionNotificationTimeouts { action: 0u128, notification: 0u128 },
                executed: ActionNotificationTimeouts { action: 0u128, notification: 0u128 },
            }),
    {
        XBIFormat { xbi_order: XBIOrder::default(), metadata: XBIMetadata::default() }
    }
}

} // verus!
