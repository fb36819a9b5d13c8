//! Deterministic, versioned binary codec for orders, metadata and whole
//! messages.
//!
//! Layout: integers are little-endian and fixed width (`u32`: 4 bytes,
//! `u64`: 8, `u128`: 16); a byte payload is an 8-byte length followed by the
//! raw bytes; an option is a one-byte tag (0 or 1) followed by the payload;
//! a list is an 8-byte count followed by the items; an account is its 32 raw
//! bytes; an order is a one-byte variant discriminant followed by its fields
//! in declaration order; a message is a one-byte format version, the order,
//! then the metadata.
//!
//! `encode` is deterministic: the same logical value always yields identical
//! bytes. `decode` is the exact left inverse on valid input and fails with
//! [`DecodeError::Truncated`] on insufficient bytes,
//! [`DecodeError::UnknownVariant`] on an unrecognized discriminant, tag or
//! format version, and [`DecodeError::InvalidMetadata`] when the
//! monotonic-deadline invariant is violated. No state is created on a
//! decode failure.

use vstd::prelude::*;
use vstd::bytes::*;
use vstd::slice::{slice_subrange, slice_to_vec};
use crate::lifecycle::{LifecycleRecord, Phase, RecordView};
use crate::xbi_format::{
    AccountIdOf, ActionNotificationTimeouts, Bytes, FormatView, metadata_valid,
    opt_bytes_list_view, opt_bytes_view, OrderView, XBIFormat, XBIMetadata, XBIOrder,
};

verus! {

/// Version tag that every encoded message starts with.
pub const XBI_VERSION: u8 = 1;

/// Why a byte buffer was rejected. Rejected messages create no state.
#[derive(Clone, Copy, PartialEq, Eq, Structural, Debug)]
pub enum DecodeError {
    /// An unrecognized discriminant, option tag or format version.
    /// Forward compatibility: unknown variants are never silently coerced.
    UnknownVariant,
    /// The buffer ends before the value does.
    Truncated,
    /// The monotonic-deadline invariant of the metadata is violated.
    InvalidMetadata,
}

// ---------------------------------------------------------------------------
// Encoding, as a mathematical function of the value's model.
// ---------------------------------------------------------------------------

/// Encoding of a boolean: one byte, 0 or 1.
pub open spec fn spec_enc_bool(b: bool) -> Seq<u8> {
    if b {
        seq![1u8]
    } else {
        seq![0u8]
    }
}

/// Encoding of a byte payload: 8-byte length, then the raw bytes.
pub open spec fn spec_enc_bytes(s: Seq<u8>) -> Seq<u8> {
    spec_u64_to_le_bytes(s.len() as u64) + s
}

/// Encoding of an optional `u128`.
pub open spec fn spec_enc_opt_u128(o: Option<u128>) -> Seq<u8> {
    match o {
        Option::None => seq![0u8],
        Option::Some(v) => seq![1u8] + spec_u128_to_le_bytes(v),
    }
}

/// Encoding of an optional `u32`.
pub open spec fn spec_enc_opt_u32(o: Option<u32>) -> Seq<u8> {
    match o {
        Option::None => seq![0u8],
        Option::Some(v) => seq![1u8] + spec_u32_to_le_bytes(v),
    }
}

/// Encoding of an optional byte payload.
pub open spec fn spec_enc_opt_bytes(o: Option<Seq<u8>>) -> Seq<u8> {
    match o {
        Option::None => seq![0u8],
        Option::Some(s) => seq![1u8] + spec_enc_bytes(s),
    }
}

/// Encoding of the items of a payload list, one after the other.
pub open spec fn spec_enc_bytes_items(l: Seq<Seq<u8>>) -> Seq<u8>
    decreases l.len(),
{
    if l.len() == 0 {
        Seq::<u8>::empty()
    } else {
        spec_enc_bytes(l[0]) + spec_enc_bytes_items(l.skip(1))
    }
}

/// Encoding of a payload list: 8-byte count, then the items.
pub open spec fn spec_enc_bytes_list(l: Seq<Seq<u8>>) -> Seq<u8> {
    spec_u64_to_le_bytes(l.len() as u64) + spec_enc_bytes_items(l)
}

/// Encoding of an optional payload list.
pub open spec fn spec_enc_opt_bytes_list(o: Option<Seq<Seq<u8>>>) -> Seq<u8> {
    match o {
        Option::None => seq![0u8],
        Option::Some(l) => seq![1u8] + spec_enc_bytes_list(l),
    }
}

/// Encoding of an order: a discriminant byte, then the fields in order.
pub open spec fn spec_enc_order(o: OrderView) -> Seq<u8> {
    match o {
        OrderView::CallNative { payload } => seq![0u8] + spec_enc_bytes(payload),
        OrderView::CallEvm {
            caller,
            dest,
            value,
            input,
            gas_limit,
            max_fee_per_gas,
            max_priority_fee_per_gas,
            nonce,
            access_list,
        } => seq![1u8] + caller + dest + spec_u128_to_le_bytes(value) + spec_enc_bytes(input)
            + spec_u128_to_le_bytes(gas_limit) + spec_enc_opt_u128(max_fee_per_gas)
            + spec_enc_opt_u128(max_priority_fee_per_gas) + spec_enc_opt_u32(nonce)
            + spec_enc_opt_bytes(access_list),
        OrderView::CallWasm { caller, dest, value, input, additional_params } => seq![2u8]
            + caller + dest + spec_u128_to_le_bytes(value) + spec_enc_bytes(input)
            + spec_enc_opt_bytes_list(additional_params),
        OrderView::CallCustom { caller, dest, value, input, additional_params } => seq![3u8]
            + caller + dest + spec_u128_to_le_bytes(value) + spec_enc_bytes(input)
            + spec_enc_opt_bytes_list(additional_params),
        OrderView::Transfer { dest, value, additional_params } => seq![4u8] + dest
            + spec_u128_to_le_bytes(value) + spec_enc_opt_bytes_list(additional_params),
        OrderView::TransferMulti { dest, currency_id, value, additional_params } => seq![5u8]
            + dest + currency_id + spec_u128_to_le_bytes(value)
            + spec_enc_opt_bytes_list(additional_params),
        OrderView::Result { success, output, witness } => seq![6u8] + spec_enc_bool(success)
            + spec_enc_bytes(output) + spec_enc_bytes(witness),
    }
}

/// Encoding of one timeout pair: action deadline, then notification deadline.
pub open spec fn spec_enc_timeouts(t: ActionNotificationTimeouts) -> Seq<u8> {
    spec_u128_to_le_bytes(t.action) + spec_u128_to_le_bytes(t.notification)
}

/// Encoding of a metadata record: the three phase pairs in phase order.
pub open spec fn spec_enc_metadata(m: XBIMetadata) -> Seq<u8> {
    spec_enc_timeouts(m.sent) + spec_enc_timeouts(m.delivered) + spec_enc_timeouts(m.executed)
}

/// Encoding of a whole message: version byte, order, metadata.
pub open spec fn spec_enc_format(f: FormatView) -> Seq<u8> {
    seq![XBI_VERSION] + spec_enc_order(f.xbi_order) + spec_enc_metadata(f.metadata)
}

// ---------------------------------------------------------------------------
// Which models are encodable at all: every length must fit the 8-byte
// length field, and an account is exactly 32 bytes. The model of any value
// built at runtime satisfies this by construction.
// ---------------------------------------------------------------------------

/// A byte payload whose length fits the length field.
pub open spec fn bytes_encodable(s: Seq<u8>) -> bool {
    s.len() <= u64::MAX
}

/// A payload list whose count and item lengths all fit their fields.
pub open spec fn bytes_list_encodable(l: Seq<Seq<u8>>) -> bool {
    l.len() <= u64::MAX && forall|i: int| 0 <= i < l.len() ==> bytes_encodable(#[trigger] l[i])
}

/// An optional payload list that is encodable.
pub open spec fn opt_bytes_list_encodable(o: Option<Seq<Seq<u8>>>) -> bool {
    match o {
        Option::None => true,
        Option::Some(l) => bytes_list_encodable(l),
    }
}

/// A well-formed order model: accounts are 32 bytes, all lengths fit.
pub open spec fn order_wf(o: OrderView) -> bool {
    match o {
        OrderView::CallNative { payload } => bytes_encodable(payload),
        OrderView::CallEvm { caller, dest, input, access_list, .. } => caller.len() == 32
            && dest.len() == 32 && bytes_encodable(input) && (match access_list {
            Option::None => true,
            Option::Some(s) => bytes_encodable(s),
        }),
        OrderView::CallWasm { caller, dest, input, additional_params, .. } => caller.len() == 32
            && dest.len() == 32 && bytes_encodable(input)
            && opt_bytes_list_encodable(additional_params),
        OrderView::CallCustom { caller, dest, input, additional_params, .. } => caller.len()
            == 32 && dest.len() == 32 && bytes_encodable(input)
            && opt_bytes_list_encodable(additional_params),
        OrderView::Transfer { dest, additional_params, .. } => dest.len() == 32
            && opt_bytes_list_encodable(additional_params),
        OrderView::TransferMulti { dest, currency_id, additional_params, .. } => dest.len() == 32
            && currency_id.len() == 32 && opt_bytes_list_encodable(additional_params),
        OrderView::Result { output, witness, .. } => bytes_encodable(output) && bytes_encodable(
            witness,
        ),
    }
}

/// A well-formed message model: well-formed order, valid metadata.
pub open spec fn format_wf(f: FormatView) -> bool {
    order_wf(f.xbi_order) && metadata_valid(f.metadata)
}

// ---------------------------------------------------------------------------
// Decoding, as a mathematical function of the byte buffer. Each decoder
// reads `s` from position `i` and returns the value together with the
// position just past it. The executable decoders below return exactly what
// these functions say, error for error.
// ---------------------------------------------------------------------------

/// Decode one byte.
pub open spec fn spec_dec_u8(s: Seq<u8>, i: int) -> Result<(u8, int), DecodeError> {
    if 0 <= i && i + 1 <= s.len() {
        Result::Ok((s[i], i + 1))
    } else {
        Result::Err(DecodeError::Truncated)
    }
}

/// Decode a boolean from one byte; any tag above 1 is unrecognized.
pub open spec fn spec_dec_bool(s: Seq<u8>, i: int) -> Result<(bool, int), DecodeError> {
    match spec_dec_u8(s, i) {
        Result::Ok((t, j)) => if t == 0 {
            Result::Ok((false, j))
        } else if t == 1 {
            Result::Ok((true, j))
        } else {
            Result::Err(DecodeError::UnknownVariant)
        },
        Result::Err(e) => Result::Err(e),
    }
}

/// Decode a little-endian `u32`.
pub open spec fn spec_dec_u32(s: Seq<u8>, i: int) -> Result<(u32, int), DecodeError> {
    if 0 <= i && i + 4 <= s.len() {
        Result::Ok((spec_u32_from_le_bytes(s.subrange(i, i + 4)), i + 4))
    } else {
        Result::Err(DecodeError::Truncated)
    }
}

/// Decode a little-endian `u64`.
pub open spec fn spec_dec_u64(s: Seq<u8>, i: int) -> Result<(u64, int), DecodeError> {
    if 0 <= i && i + 8 <= s.len() {
        Result::Ok((spec_u64_from_le_bytes(s.subrange(i, i + 8)), i + 8))
    } else {
        Result::Err(DecodeError::Truncated)
    }
}

/// Decode a little-endian `u128`.
pub open spec fn spec_dec_u128(s: Seq<u8>, i: int) -> Result<(u128, int), DecodeError> {
    if 0 <= i && i + 16 <= s.len() {
        Result::Ok((spec_u128_from_le_bytes(s.subrange(i, i + 16)), i + 16))
    } else {
        Result::Err(DecodeError::Truncated)
    }
}

/// Decode an account: its 32 raw bytes.
pub open spec fn spec_dec_account(s: Seq<u8>, i: int) -> Result<(Seq<u8>, int), DecodeError> {
    if 0 <= i && i + 32 <= s.len() {
        Result::Ok((s.subrange(i, i + 32), i + 32))
    } else {
        Result::Err(DecodeError::Truncated)
    }
}

/// Decode a byte payload: 8-byte length, then that many raw bytes.
pub open spec fn spec_dec_bytes(s: Seq<u8>, i: int) -> Result<(Seq<u8>, int), DecodeError> {
    match spec_dec_u64(s, i) {
        Result::Ok((n, j)) => if j + n <= s.len() {
            Result::Ok((s.subrange(j, j + n), j + n))
        } else {
            Result::Err(DecodeError::Truncated)
        },
        Result::Err(e) => Result::Err(e),
    }
}

/// Decode an optional `u128`.
pub open spec fn spec_dec_opt_u128(s: Seq<u8>, i: int) -> Result<
    (Option<u128>, int),
    DecodeError,
> {
    match spec_dec_u8(s, i) {
        Result::Ok((t, j)) => if t == 0 {
            Result::Ok((Option::None, j))
        } else if t == 1 {
            match spec_dec_u128(s, j) {
                Result::Ok((v, k)) => Result::Ok((Option::Some(v), k)),
                Result::Err(e) => Result::Err(e),
            }
        } else {
            Result::Err(DecodeError::UnknownVariant)
        },
        Result::Err(e) => Result::Err(e),
    }
}

/// Decode an optional `u32`.
pub open spec fn spec_dec_opt_u32(s: Seq<u8>, i: int) -> Result<(Option<u32>, int), DecodeError> {
    match spec_dec_u8(s, i) {
        Result::Ok((t, j)) => if t == 0 {
            Result::Ok((Option::None, j))
        } else if t == 1 {
            match spec_dec_u32(s, j) {
                Result::Ok((v, k)) => Result::Ok((Option::Some(v), k)),
                Result::Err(e) => Result::Err(e),
            }
        } else {
            Result::Err(DecodeError::UnknownVariant)
        },
        Result::Err(e) => Result::Err(e),
    }
}

/// Decode an optional byte payload.
pub open spec fn spec_dec_opt_bytes(s: Seq<u8>, i: int) -> Result<
    (Option<Seq<u8>>, int),
    DecodeError,
> {
    match spec_dec_u8(s, i) {
        Result::Ok((t, j)) => if t == 0 {
            Result::Ok((Option::None, j))
        } else if t == 1 {
            match spec_dec_bytes(s, j) {
                Result::Ok((v, k)) => Result::Ok((Option::Some(v), k)),
                Result::Err(e) => Result::Err(e),
            }
        } else {
            Result::Err(DecodeError::UnknownVariant)
        },
        Result::Err(e) => Result::Err(e),
    }
}

/// Decode `count` consecutive byte payloads.
pub open spec fn spec_dec_bytes_items(s: Seq<u8>, i: int, count: int) -> Result<
    (Seq<Seq<u8>>, int),
    DecodeError,
>
    decreases count,
{
    if count <= 0 {
        Result::Ok((Seq::<Seq<u8>>::empty(), i))
    } else {
        match spec_dec_bytes(s, i) {
            Result::Ok((x, j)) => match spec_dec_bytes_items(s, j, count - 1) {
                Result::Ok((xs, k)) => Result::Ok((seq![x] + xs, k)),
                Result::Err(e) => Result::Err(e),
            },
            Result::Err(e) => Result::Err(e),
        }
    }
}

/// Decode a payload list: 8-byte count, then the items.
pub open spec fn spec_dec_bytes_list(s: Seq<u8>, i: int) -> Result<
    (Seq<Seq<u8>>, int),
    DecodeError,
> {
    match spec_dec_u64(s, i) {
        Result::Ok((n, j)) => spec_dec_bytes_items(s, j, n as int),
        Result::Err(e) => Result::Err(e),
    }
}

/// Decode an optional payload list.
pub open spec fn spec_dec_opt_bytes_list(s: Seq<u8>, i: int) -> Result<
    (Option<Seq<Seq<u8>>>, int),
    DecodeError,
> {
    match spec_dec_u8(s, i) {
        Result::Ok((t, j)) => if t == 0 {
            Result::Ok((Option::None, j))
        } else if t == 1 {
            match spec_dec_bytes_list(s, j) {
                Result::Ok((v, k)) => Result::Ok((Option::Some(v), k)),
                Result::Err(e) => Result::Err(e),
            }
        } else {
            Result::Err(DecodeError::UnknownVariant)
        },
        Result::Err(e) => Result::Err(e),
    }
}

/// Decode one timeout pair.
pub open spec fn spec_dec_timeouts(s: Seq<u8>, i: int) -> Result<
    (ActionNotificationTimeouts, int),
    DecodeError,
> {
    match spec_dec_u128(s, i) {
        Result::Ok((a, j)) => match spec_dec_u128(s, j) {
            Result::Ok((n, k)) => Result::Ok(
                (ActionNotificationTimeouts { action: a, notification: n }, k),
            ),
            Result::Err(e) => Result::Err(e),
        },
        Result::Err(e) => Result::Err(e),
    }
}

/// Decode a metadata record and check the monotonic-deadline invariant.
pub open spec fn spec_dec_metadata(s: Seq<u8>, i: int) -> Result<
    (XBIMetadata, int),
    DecodeError,
> {
    match spec_dec_timeouts(s, i) {
        Result::Ok((sent, j)) => match spec_dec_timeouts(s, j) {
            Result::Ok((delivered, k)) => match spec_dec_timeouts(s, k) {
                Result::Ok((executed, l)) => {
                    let m = XBIMetadata { sent, delivered, executed };
                    if metadata_valid(m) {
                        Result::Ok((m, l))
                    } else {
                        Result::Err(DecodeError::InvalidMetadata)
                    }
                },
                Result::Err(e) => Result::Err(e),
            },
            Result::Err(e) => Result::Err(e),
        },
        Result::Err(e) => Result::Err(e),
    }
}

/// Decode the fields of a `CallEvm` order, after its discriminant.
pub open spec fn spec_dec_call_evm(s: Seq<u8>, i: int) -> Result<
    (OrderView, int),
    DecodeError,
> {
    match spec_dec_account(s, i) {
        Result::Ok((caller, p1)) => match spec_dec_account(s, p1) {
            Result::Ok((dest, p2)) => match spec_dec_u128(s, p2) {
                Result::Ok((value, p3)) => match spec_dec_bytes(s, p3) {
                    Result::Ok((input, p4)) => match spec_dec_u128(s, p4) {
                        Result::Ok((gas_limit, p5)) => match spec_dec_opt_u128(s, p5) {
                            Result::Ok((max_fee_per_gas, p6)) => match spec_dec_opt_u128(s, p6) {
                                Result::Ok((max_priority_fee_per_gas, p7)) => match spec_dec_opt_u32(
                                    s,
                                    p7,
                                ) {
                                    Result::Ok((nonce, p8)) => match spec_dec_opt_bytes(s, p8) {
                                        Result::Ok((access_list, p9)) => Result::Ok(
                                            (
                                                OrderView::CallEvm {
                                                    caller,
                                                    dest,
                                                    value,
                                                    input,
                                                    gas_limit,
                                                    max_fee_per_gas,
                                                    max_priority_fee_per_gas,
                                                    nonce,
                                                    access_list,
                                                },
                                                p9,
                                            ),
                                        ),
                                        Result::Err(e) => Result::Err(e),
                                    },
                                    Result::Err(e) => Result::Err(e),
                                },
                                Result::Err(e) => Result::Err(e),
                            },
                            Result::Err(e) => Result::Err(e),
                        },
                        Result::Err(e) => Result::Err(e),
                    },
                    Result::Err(e) => Result::Err(e),
                },
                Result::Err(e) => Result::Err(e),
            },
            Result::Err(e) => Result::Err(e),
        },
        Result::Err(e) => Result::Err(e),
    }
}

/// Decode the shared field block `caller, dest, value, input, params`,
/// after a `CallWasm` or `CallCustom` discriminant.
pub open spec fn spec_dec_contract_call(s: Seq<u8>, i: int) -> Result<
    ((Seq<u8>, Seq<u8>, u128, Seq<u8>, Option<Seq<Seq<u8>>>), int),
    DecodeError,
> {
    match spec_dec_account(s, i) {
        Result::Ok((caller, p1)) => match spec_dec_account(s, p1) {
            Result::Ok((dest, p2)) => match spec_dec_u128(s, p2) {
                Result::Ok((value, p3)) => match spec_dec_bytes(s, p3) {
                    Result::Ok((input, p4)) => match spec_dec_opt_bytes_list(s, p4) {
                        Result::Ok((params, p5)) => Result::Ok(
                            ((caller, dest, value, input, params), p5),
                        ),
                        Result::Err(e) => Result::Err(e),
                    },
                    Result::Err(e) => Result::Err(e),
                },
                Result::Err(e) => Result::Err(e),
            },
            Result::Err(e) => Result::Err(e),
        },
        Result::Err(e) => Result::Err(e),
    }
}

/// Decode an order: discriminant byte, then the variant's fields.
pub open spec fn spec_dec_order(s: Seq<u8>, i: int) -> Result<(OrderView, int), DecodeError> {
    match spec_dec_u8(s, i) {
        Result::Ok((d, j)) => if d == 0 {
            match spec_dec_bytes(s, j) {
                Result::Ok((payload, k)) => Result::Ok((OrderView::CallNative { payload }, k)),
                Result::Err(e) => Result::Err(e),
            }
        } else if d == 1 {
            spec_dec_call_evm(s, j)
        } else if d == 2 {
            match spec_dec_contract_call(s, j) {
                Result::Ok(((caller, dest, value, input, additional_params), k)) => Result::Ok(
                    (OrderView::CallWasm { caller, dest, value, input, additional_params }, k),
                ),
                Result::Err(e) => Result::Err(e),
            }
        } else if d == 3 {
            match spec_dec_contract_call(s, j) {
                Result::Ok(((caller, dest, value, input, additional_params), k)) => Result::Ok(
                    (OrderView::CallCustom { caller, dest, value, input, additional_params }, k),
                ),
                Result::Err(e) => Result::Err(e),
            }
        } else if d == 4 {
            match spec_dec_account(s, j) {
                Result::Ok((dest, p1)) => match spec_dec_u128(s, p1) {
                    Result::Ok((value, p2)) => match spec_dec_opt_bytes_list(s, p2) {
                        Result::Ok((additional_params, p3)) => Result::Ok(
                            (OrderView::Transfer { dest, value, additional_params }, p3),
                        ),
                        Result::Err(e) => Result::Err(e),
                    },
                    Result::Err(e) => Result::Err(e),
                },
                Result::Err(e) => Result::Err(e),
            }
        } else if d == 5 {
            match spec_dec_account(s, j) {
                Result::Ok((dest, p1)) => match spec_dec_account(s, p1) {
                    Result::Ok((currency_id, p2)) => match spec_dec_u128(s, p2) {
                        Result::Ok((value, p3)) => match spec_dec_opt_bytes_list(s, p3) {
                            Result::Ok((additional_params, p4)) => Result::Ok(
                                (
                                    OrderView::TransferMulti {
                                        dest,
                                        currency_id,
                                        value,
                                        additional_params,
                                    },
                                    p4,
                                ),
                            ),
                            Result::Err(e) => Result::Err(e),
                        },
                        Result::Err(e) => Result::Err(e),
                    },
                    Result::Err(e) => Result::Err(e),
                },
                Result::Err(e) => Result::Err(e),
            }
        } else if d == 6 {
            match spec_dec_bool(s, j) {
                Result::Ok((success, p1)) => match spec_dec_bytes(s, p1) {
                    Result::Ok((output, p2)) => match spec_dec_bytes(s, p2) {
                        Result::Ok((witness, p3)) => Result::Ok(
                            (OrderView::Result { success, output, witness }, p3),
                        ),
                        Result::Err(e) => Result::Err(e),
                    },
                    Result::Err(e) => Result::Err(e),
                },
                Result::Err(e) => Result::Err(e),
            }
        } else {
            Result::Err(DecodeError::UnknownVariant)
        },
        Result::Err(e) => Result::Err(e),
    }
}

// ---------------------------------------------------------------------------
// Executable encoders. Each appends to `out` exactly the bytes that the
// specification functions above describe.
// ---------------------------------------------------------------------------

fn enc_u32_into(out: &mut Vec<u8>, v: u32)
    ensures
        final(out)@ == old(out)@ + spec_u32_to_le_bytes(v),
{
    let mut bs = u32_to_le_bytes(v);
    out.append(&mut bs);
}

fn enc_u64_into(out: &mut Vec<u8>, v: u64)
    ensures
        final(out)@ == old(out)@ + spec_u64_to_le_bytes(v),
{
    let mut bs = u64_to_le_bytes(v);
    out.append(&mut bs);
}

fn enc_u128_into(out: &mut Vec<u8>, v: u128)
    ensures
        final(out)@ == old(out)@ + spec_u128_to_le_bytes(v),
{
    let mut bs = u128_to_le_bytes(v);
    out.append(&mut bs);
}

fn enc_bool_into(out: &mut Vec<u8>, b: bool)
    ensures
        final(out)@ == old(out)@ + spec_enc_bool(b),
{
    if b {
        out.push(1u8);
    } else {
        out.push(0u8);
    }
    proof {
        assert(out@ =~= old(out)@ + spec_enc_bool(b));
    }
}

fn enc_account_into(out: &mut Vec<u8>, a: &AccountIdOf)
    ensures
        final(out)@ == old(out)@ + a@,
{
    let mut tmp = slice_to_vec(a.as_slice());
    out.append(&mut tmp);
}

fn enc_bytes_into(out: &mut Vec<u8>, b: &Bytes)
    ensures
        final(out)@ == old(out)@ + spec_enc_bytes(b@),
{
    enc_u64_into(out, b.len() as u64);
    let mut tmp = slice_to_vec(b.as_slice());
    out.append(&mut tmp);
    proof {
        assert((old(out)@ + spec_u64_to_le_bytes(b@.len() as u64)) + b@ =~= old(out)@
            + spec_enc_bytes(b@));
    }
}

fn enc_opt_u128_into(out: &mut Vec<u8>, o: &Option<u128>)
    ensures
        final(out)@ == old(out)@ + spec_enc_opt_u128(*o),
{
    match o {
        Option::None => {
            out.push(0u8);
            proof {
                assert(old(out)@.push(0u8) =~= old(out)@ + spec_enc_opt_u128(*o));
            }
        },
        Option::Some(v) => {
            out.push(1u8);
            enc_u128_into(out, *v);
            proof {
                assert(old(out)@.push(1u8) + spec_u128_to_le_bytes(*v) =~= old(out)@
                    + spec_enc_opt_u128(*o));
            }
        },
    }
}

fn enc_opt_u32_into(out: &mut Vec<u8>, o: &Option<u32>)
    ensures
        final(out)@ == old(out)@ + spec_enc_opt_u32(*o),
{
    match o {
        Option::None => {
            out.push(0u8);
            proof {
                assert(old(out)@.push(0u8) =~= old(out)@ + spec_enc_opt_u32(*o));
            }
        },
        Option::Some(v) => {
            out.push(1u8);
            enc_u32_into(out, *v);
            proof {
                assert(old(out)@.push(1u8) + spec_u32_to_le_bytes(*v) =~= old(out)@
                    + spec_enc_opt_u32(*o));
            }
        },
    }
}

fn enc_opt_bytes_into(out: &mut Vec<u8>, o: &Option<Bytes>)
    ensures
        final(out)@ == old(out)@ + spec_enc_opt_bytes(opt_bytes_view(*o)),
{
    match o {
        Option::None => {
            out.push(0u8);
            proof {
                assert(old(out)@.push(0u8) =~= old(out)@ + spec_enc_opt_bytes(
                    opt_bytes_view(*o),
                ));
            }
        },
        Option::Some(b) => {
            out.push(1u8);
            enc_bytes_into(out, b);
            proof {
                assert(old(out)@.push(1u8) + spec_enc_bytes(b@) =~= old(out)@
                    + spec_enc_opt_bytes(opt_bytes_view(*o)));
            }
        },
    }
}

fn enc_bytes_list_into(out: &mut Vec<u8>, l: &Vec<Bytes>)
    ensures
        final(out)@ == old(out)@ + spec_enc_bytes_list(l.deep_view()),
{
    enc_u64_into(out, l.len() as u64);
    let ghost mid = out@;
    let mut k: usize = 0;
    while k < l.len()
        invariant
            0 <= k <= l.len(),
            mid == old(out)@ + spec_u64_to_le_bytes(l.deep_view().len() as u64),
            out@ == mid + spec_enc_bytes_items(l.deep_view().take(k as int)),
        decreases l.len() - k,
    {
        enc_bytes_into(out, &l[k]);
        proof {
            lemma_enc_bytes_items_take_step(l.deep_view(), k as int);
            assert(l.deep_view()[k as int] =~= l@[k as int]@);
            assert(out@ =~= mid + spec_enc_bytes_items(l.deep_view().take(k as int + 1)));
        }
        k = k + 1;
    }
    proof {
        assert(l.deep_view().take(l.len() as int) =~= l.deep_view());
        assert(out@ =~= old(out)@ + spec_enc_bytes_list(l.deep_view()));
    }
}

/// Appending one more item extends the item encoding by that item's bytes.
proof fn lemma_enc_bytes_items_take_step(l: Seq<Seq<u8>>, k: int)
    requires
        0 <= k < l.len(),
    ensures
        spec_enc_bytes_items(l.take(k + 1)) == spec_enc_bytes_items(l.take(k)) + spec_enc_bytes(
            l[k],
        ),
    decreases k,
{
    let a = l.take(k + 1);
    if k == 0 {
        assert(a.skip(1) =~= Seq::<Seq<u8>>::empty());
        assert(spec_enc_bytes_items(a) == spec_enc_bytes(a[0]) + spec_enc_bytes_items(a.skip(1)));
        assert(l.take(0) =~= Seq::<Seq<u8>>::empty());
        assert(spec_enc_bytes_items(a) =~= spec_enc_bytes_items(l.take(0)) + spec_enc_bytes(l[0]));
    } else {
        lemma_enc_bytes_items_take_step(l.skip(1), k - 1);
        assert(a.skip(1) =~= l.skip(1).take(k));
        assert(l.take(k).skip(1) =~= l.skip(1).take(k - 1));
        assert(spec_enc_bytes_items(a) == spec_enc_bytes(l[0]) + spec_enc_bytes_items(
            l.skip(1).take(k),
        ));
        assert(spec_enc_bytes_items(l.take(k)) == spec_enc_bytes(l[0]) + spec_enc_bytes_items(
            l.skip(1).take(k - 1),
        ));
        assert(l.skip(1)[k - 1] == l[k]);
        assert(spec_enc_bytes_items(a) =~= spec_enc_bytes_items(l.take(k)) + spec_enc_bytes(
            l[k],
        ));
    }
}

fn enc_opt_bytes_list_into(out: &mut Vec<u8>, o: &Option<Vec<Bytes>>)
    ensures
        final(out)@ == old(out)@ + spec_enc_opt_bytes_list(opt_bytes_list_view(*o)),
{
    match o {
        Option::None => {
            out.push(0u8);
            proof {
                assert(old(out)@.push(0u8) =~= old(out)@ + spec_enc_opt_bytes_list(
                    opt_bytes_list_view(*o),
                ));
            }
        },
        Option::Some(l) => {
            out.push(1u8);
            enc_bytes_list_into(out, l);
            proof {
                assert(old(out)@.push(1u8) + spec_enc_bytes_list(l.deep_view()) =~= old(out)@
                    + spec_enc_opt_bytes_list(opt_bytes_list_view(*o)));
            }
        },
    }
}

/// Encode an order. Deterministic: equal models yield identical bytes, as
/// the contract's right-hand side is a function of the model alone.
pub fn encode_order(o: &XBIOrder) -> (r: Vec<u8>)
    ensures
        r@ == spec_enc_order(o@),
{
    let mut out: Vec<u8> = Vec::new();
    match o {
        XBIOrder::CallNative { payload } => {
            out.push(0u8);
            enc_bytes_into(&mut out, payload);
        },
        XBIOrder::CallEvm {
            caller,
            dest,
            value,
            input,
            gas_limit,
            max_fee_per_gas,
            max_priority_fee_per_gas,
            nonce,
            access_list,
        } => {
            out.push(1u8);
            enc_account_into(&mut out, caller);
            enc_account_into(&mut out, dest);
            enc_u128_into(&mut out, *value);
            enc_bytes_into(&mut out, input);
            enc_u128_into(&mut out, *gas_limit);
            enc_opt_u128_into(&mut out, max_fee_per_gas);
            enc_opt_u128_into(&mut out, max_priority_fee_per_gas);
            enc_opt_u32_into(&mut out, nonce);
            enc_opt_bytes_into(&mut out, access_list);
        },
        XBIOrder::CallWasm { caller, dest, value, input, additional_params } => {
            out.push(2u8);
            enc_account_into(&mut out, caller);
            enc_account_into(&mut out, dest);
            enc_u128_into(&mut out, *value);
            enc_bytes_into(&mut out, input);
            enc_opt_bytes_list_into(&mut out, additional_params);
        },
        XBIOrder::CallCustom { caller, dest, value, input, additional_params } => {
            out.push(3u8);
            enc_account_into(&mut out, caller);
            enc_account_into(&mut out, dest);
            enc_u128_into(&mut out, *value);
            enc_bytes_into(&mut out, input);
            enc_opt_bytes_list_into(&mut out, additional_params);
        },
        XBIOrder::Transfer { dest, value, additional_params } => {
            out.push(4u8);
            enc_account_into(&mut out, dest);
            enc_u128_into(&mut out, *value);
            enc_opt_bytes_list_into(&mut out, additional_params);
        },
        XBIOrder::TransferMulti { dest, currency_id, value, additional_params } => {
            out.push(5u8);
            enc_account_into(&mut out, dest);
            enc_account_into(&mut out, currency_id);
            enc_u128_into(&mut out, *value);
            enc_opt_bytes_list_into(&mut out, additional_params);
        },
        XBIOrder::Result { success, output, witness } => {
            out.push(6u8);
            enc_bool_into(&mut out, *success);
            enc_bytes_into(&mut out, output);
            enc_bytes_into(&mut out, witness);
        },
    }
    proof {
        assert(out@ =~= spec_enc_order(o@));
    }
    out
}

/// Encode a metadata record.
pub fn encode_metadata(m: &XBIMetadata) -> (r: Vec<u8>)
    ensures
        r@ == spec_enc_metadata(*m),
{
    let mut out: Vec<u8> = Vec::new();
    enc_u128_into(&mut out, m.sent.action);
    enc_u128_into(&mut out, m.sent.notification);
    enc_u128_into(&mut out, m.delivered.action);
    enc_u128_into(&mut out, m.delivered.notification);
    enc_u128_into(&mut out, m.executed.action);
    enc_u128_into(&mut out, m.executed.notification);
    proof {
        assert(out@ =~= spec_enc_metadata(*m));
    }
    out
}

/// Encode a whole message: version byte, order, metadata.
pub fn encode_format(f: &XBIFormat) -> (r: Vec<u8>)
    ensures
        r@ == spec_enc_format(f@),
{
    let mut out: Vec<u8> = Vec::new();
    out.push(XBI_VERSION);
    let mut order_bytes = encode_order(&f.xbi_order);
    out.append(&mut order_bytes);
    let mut metadata_bytes = encode_metadata(&f.metadata);
    out.append(&mut metadata_bytes);
    proof {
        assert(out@ =~= spec_enc_format(f@));
    }
    out
}

/// Decode a whole message: version byte, order, metadata.
pub open spec fn spec_dec_format(s: Seq<u8>, i: int) -> Result<(FormatView, int), DecodeError> {
    match spec_dec_u8(s, i) {
        Result::Ok((v, j)) => if v == XBI_VERSION {
            match spec_dec_order(s, j) {
                Result::Ok((xbi_order, k)) => match spec_dec_metadata(s, k) {
                    Result::Ok((metadata, l)) => Result::Ok(
                        (FormatView { xbi_order, metadata }, l),
                    ),
                    Result::Err(e) => Result::Err(e),
                },
                Result::Err(e) => Result::Err(e),
            }
        } else {
            Result::Err(DecodeError::UnknownVariant)
        },
        Result::Err(e) => Result::Err(e),
    }
}

// ---------------------------------------------------------------------------
// Executable decoders. Each returns exactly what the corresponding
// specification decoder says, error for error.
// ---------------------------------------------------------------------------

fn dec_u8(b: &[u8], pos: usize) -> (r: Result<(u8, usize), DecodeError>)
    requires
        pos <= b@.len(),
    ensures
        match r {
            Result::Ok((v, p)) => pos < p <= b@.len() && spec_dec_u8(b@, pos as int)
                == Result::<_, DecodeError>::Ok((v, p as int)),
            Result::Err(e) => spec_dec_u8(b@, pos as int) == Result::<(u8, int),
                DecodeError,
            >::Err(e),
        },
{
    if b.len() - pos >= 1 {
        Result::Ok((b[pos], pos + 1))
    } else {
        Result::Err(DecodeError::Truncated)
    }
}

fn dec_bool(b: &[u8], pos: usize) -> (r: Result<(bool, usize), DecodeError>)
    requires
        pos <= b@.len(),
    ensures
        match r {
            Result::Ok((v, p)) => pos < p <= b@.len() && spec_dec_bool(b@, pos as int)
                == Result::<_, DecodeError>::Ok((v, p as int)),
            Result::Err(e) => spec_dec_bool(b@, pos as int) == Result::<(bool, int),
                DecodeError,
            >::Err(e),
        },
{
    match dec_u8(b, pos) {
        Result::Ok((t, p)) => {
            if t == 0 {
                Result::Ok((false, p))
            } else if t == 1 {
                Result::Ok((true, p))
            } else {
                Result::Err(DecodeError::UnknownVariant)
            }
        },
        Result::Err(e) => Result::Err(e),
    }
}

fn dec_u32(b: &[u8], pos: usize) -> (r: Result<(u32, usize), DecodeError>)
    requires
        pos <= b@.len(),
    ensures
        match r {
            Result::Ok((v, p)) => pos < p <= b@.len() && spec_dec_u32(b@, pos as int)
                == Result::<_, DecodeError>::Ok((v, p as int)),
            Result::Err(e) => spec_dec_u32(b@, pos as int) == Result::<(u32, int),
                DecodeError,
            >::Err(e),
        },
{
    if b.len() - pos >= 4 {
        let sub = slice_subrange(b, pos, pos + 4);
        Result::Ok((u32_from_le_bytes(sub), pos + 4))
    } else {
        Result::Err(DecodeError::Truncated)
    }
}

fn dec_u64(b: &[u8], pos: usize) -> (r: Result<(u64, usize), DecodeError>)
    requires
        pos <= b@.len(),
    ensures
        match r {
            Result::Ok((v, p)) => pos < p <= b@.len() && spec_dec_u64(b@, pos as int)
                == Result::<_, DecodeError>::Ok((v, p as int)),
            Result::Err(e) => spec_dec_u64(b@, pos as int) == Result::<(u64, int),
                DecodeError,
            >::Err(e),
        },
{
    if b.len() - pos >= 8 {
        let sub = slice_subrange(b, pos, pos + 8);
        Result::Ok((u64_from_le_bytes(sub), pos + 8))
    } else {
        Result::Err(DecodeError::Truncated)
    }
}

fn dec_u128(b: &[u8], pos: usize) -> (r: Result<(u128, usize), DecodeError>)
    requires
        pos <= b@.len(),
    ensures
        match r {
            Result::Ok((v, p)) => pos < p <= b@.len() && spec_dec_u128(b@, pos as int)
                == Result::<_, DecodeError>::Ok((v, p as int)),
            Result::Err(e) => spec_dec_u128(b@, pos as int) == Result::<(u128, int),
                DecodeError,
            >::Err(e),
        },
{
    if b.len() - pos >= 16 {
        let sub = slice_subrange(b, pos, pos + 16);
        Result::Ok((u128_from_le_bytes(sub), pos + 16))
    } else {
        Result::Err(DecodeError::Truncated)
    }
}

fn dec_account(b: &[u8], pos: usize) -> (r: Result<(AccountIdOf, usize), DecodeError>)
    requires
        pos <= b@.len(),
    ensures
        match r {
            Result::Ok((v, p)) => pos < p <= b@.len() && spec_dec_account(b@, pos as int)
                == Result::<_, DecodeError>::Ok((v@, p as int)),
            Result::Err(e) => spec_dec_account(b@, pos as int) == Result::<(Seq<u8>, int),
                DecodeError,
            >::Err(e),
        },
{
    if b.len() - pos >= 32 {
        let mut a: AccountIdOf = [0u8; 32];
        let mut k: usize = 0;
        while k < 32
            invariant
                0 <= k <= 32,
                pos + 32 <= b@.len(),
                b@.len() <= usize::MAX,
                a@.len() == 32,
                forall|j: int| 0 <= j < k ==> a@[j] == b@[pos + j],
            decreases 32 - k,
        {
            a[k] = b[pos + k];
            k = k + 1;
        }
        proof {
            assert(a@ =~= b@.subrange(pos as int, pos + 32));
        }
        Result::Ok((a, pos + 32))
    } else {
        Result::Err(DecodeError::Truncated)
    }
}

fn dec_bytes(b: &[u8], pos: usize) -> (r: Result<(Bytes, usize), DecodeError>)
    requires
        pos <= b@.len(),
    ensures
        match r {
            Result::Ok((v, p)) => pos < p <= b@.len() && spec_dec_bytes(b@, pos as int)
                == Result::<_, DecodeError>::Ok((v@, p as int)),
            Result::Err(e) => spec_dec_bytes(b@, pos as int) == Result::<(Seq<u8>, int),
                DecodeError,
            >::Err(e),
        },
{
    match dec_u64(b, pos) {
        Result::Ok((n, j)) => {
            if n <= (b.len() - j) as u64 {
                let nu = n as usize;
                let sub = slice_subrange(b, j, j + nu);
                Result::Ok((slice_to_vec(sub), j + nu))
            } else {
                Result::Err(DecodeError::Truncated)
            }
        },
        Result::Err(e) => Result::Err(e),
    }
}

fn dec_opt_u128(b: &[u8], pos: usize) -> (r: Result<(Option<u128>, usize), DecodeError>)
    requires
        pos <= b@.len(),
    ensures
        match r {
            Result::Ok((v, p)) => pos < p <= b@.len() && spec_dec_opt_u128(b@, pos as int)
                == Result::<_, DecodeError>::Ok((v, p as int)),
            Result::Err(e) => spec_dec_opt_u128(b@, pos as int) == Result::<
                (Option<u128>, int),
                DecodeError,
            >::Err(e),
        },
{
    match dec_u8(b, pos) {
        Result::Ok((t, j)) => {
            if t == 0 {
                Result::Ok((Option::None, j))
            } else if t == 1 {
                match dec_u128(b, j) {
                    Result::Ok((v, k)) => Result::Ok((Option::Some(v), k)),
                    Result::Err(e) => Result::Err(e),
                }
            } else {
                Result::Err(DecodeError::UnknownVariant)
            }
        },
        Result::Err(e) => Result::Err(e),
    }
}

fn dec_opt_u32(b: &[u8], pos: usize) -> (r: Result<(Option<u32>, usize), DecodeError>)
    requires
        pos <= b@.len(),
    ensures
        match r {
            Result::Ok((v, p)) => pos < p <= b@.len() && spec_dec_opt_u32(b@, pos as int)
                == Result::<_, DecodeError>::Ok((v, p as int)),
            Result::Err(e) => spec_dec_opt_u32(b@, pos as int) == Result::<
                (Option<u32>, int),
                DecodeError,
            >::Err(e),
        },
{
    match dec_u8(b, pos) {
        Result::Ok((t, j)) => {
            if t == 0 {
                Result::Ok((Option::None, j))
            } else if t == 1 {
                match dec_u32(b, j) {
                    Result::Ok((v, k)) => Result::Ok((Option::Some(v), k)),
                    Result::Err(e) => Result::Err(e),
                }
            } else {
                Result::Err(DecodeError::UnknownVariant)
            }
        },
        Result::Err(e) => Result::Err(e),
    }
}

fn dec_opt_bytes(b: &[u8], pos: usize) -> (r: Result<(Option<Bytes>, usize), DecodeError>)
    requires
        pos <= b@.len(),
    ensures
        match r {
            Result::Ok((v, p)) => pos < p <= b@.len() && spec_dec_opt_bytes(b@, pos as int)
                == Result::<_, DecodeError>::Ok((opt_bytes_view(v), p as int)),
            Result::Err(e) => spec_dec_opt_bytes(b@, pos as int) == Result::<
                (Option<Seq<u8>>, int),
                DecodeError,
            >::Err(e),
        },
{
    match dec_u8(b, pos) {
        Result::Ok((t, j)) => {
            if t == 0 {
                Result::Ok((Option::None, j))
            } else if t == 1 {
                match dec_bytes(b, j) {
                    Result::Ok((v, k)) => Result::Ok((Option::Some(v), k)),
                    Result::Err(e) => Result::Err(e),
                }
            } else {
                Result::Err(DecodeError::UnknownVariant)
            }
        },
        Result::Err(e) => Result::Err(e),
    }
}

fn dec_bytes_items(b: &[u8], pos: usize, count: u64) -> (r: Result<
    (Vec<Bytes>, usize),
    DecodeError,
>)
    requires
        pos <= b@.len(),
    ensures
        match r {
            Result::Ok((v, p)) => pos <= p <= b@.len() && spec_dec_bytes_items(
                b@,
                pos as int,
                count as int,
            ) == Result::<_, DecodeError>::Ok((v.deep_view(), p as int)),
            Result::Err(e) => spec_dec_bytes_items(b@, pos as int, count as int) == Result::<
                (Seq<Seq<u8>>, int),
                DecodeError,
            >::Err(e),
        },
{
    let mut acc: Vec<Bytes> = Vec::new();
    let mut cur: usize = pos;
    let mut k: u64 = 0;
    proof {
        assert(acc.deep_view() =~= Seq::<Seq<u8>>::empty());
    }
    while k < count
        invariant
            pos <= cur <= b@.len(),
            k <= count,
            spec_dec_bytes_items(b@, pos as int, count as int) == (match spec_dec_bytes_items(
                b@,
                cur as int,
                count - k,
            ) {
                Result::Ok((xs, p)) => Result::Ok((acc.deep_view() + xs, p)),
                Result::Err(e) => Result::Err(e),
            }),
        decreases count - k,
    {
        match dec_bytes(b, cur) {
            Result::Ok((x, p2)) => {
                let ghost pre = acc.deep_view();
                let ghost xv = x@;
                proof {
                    assert(x.deep_view() =~= xv);
                }
                acc.push(x);
                proof {
                    assert(acc.deep_view() =~= pre.push(xv));
                    let rest = spec_dec_bytes_items(b@, p2 as int, count - k - 1);
                    match rest {
                        Result::Ok((xs, p)) => {
                            assert(spec_dec_bytes_items(b@, cur as int, count - k)
                                == Result::<_, DecodeError>::Ok((seq![xv] + xs, p)));
                            assert(pre + (seq![xv] + xs) =~= pre.push(xv) + xs);
                        },
                        Result::Err(e) => {},
                    }
                }
                cur = p2;
                k = k + 1;
            },
            Result::Err(e) => {
                return Result::Err(e);
            },
        }
    }
    proof {
        assert(spec_dec_bytes_items(b@, cur as int, 0) == Result::<(Seq<Seq<u8>>, int),
            DecodeError,
        >::Ok((Seq::<Seq<u8>>::empty(), cur as int)));
        assert(acc.deep_view() + Seq::<Seq<u8>>::empty() =~= acc.deep_view());
    }
    Result::Ok((acc, cur))
}

fn dec_opt_bytes_list(b: &[u8], pos: usize) -> (r: Result<
    (Option<Vec<Bytes>>, usize),
    DecodeError,
>)
    requires
        pos <= b@.len(),
    ensures
        match r {
            Result::Ok((v, p)) => pos < p <= b@.len() && spec_dec_opt_bytes_list(
                b@,
                pos as int,
            ) == Result::<_, DecodeError>::Ok((opt_bytes_list_view(v), p as int)),
            Result::Err(e) => spec_dec_opt_bytes_list(b@, pos as int) == Result::<
                (Option<Seq<Seq<u8>>>, int),
                DecodeError,
            >::Err(e),
        },
{
    match dec_u8(b, pos) {
        Result::Ok((t, j)) => {
            if t == 0 {
                Result::Ok((Option::None, j))
            } else if t == 1 {
                match dec_u64(b, j) {
                    Result::Ok((n, j2)) => match dec_bytes_items(b, j2, n) {
                        Result::Ok((v, k)) => Result::Ok((Option::Some(v), k)),
                        Result::Err(e) => Result::Err(e),
                    },
                    Result::Err(e) => Result::Err(e),
                }
            } else {
                Result::Err(DecodeError::UnknownVariant)
            }
        },
        Result::Err(e) => Result::Err(e),
    }
}

fn dec_timeouts(b: &[u8], pos: usize) -> (r: Result<
    (ActionNotificationTimeouts, usize),
    DecodeError,
>)
    requires
        pos <= b@.len(),
    ensures
        match r {
            Result::Ok((v, p)) => pos < p <= b@.len() && spec_dec_timeouts(b@, pos as int)
                == Result::<_, DecodeError>::Ok((v, p as int)),
            Result::Err(e) => spec_dec_timeouts(b@, pos as int) == Result::<
                (ActionNotificationTimeouts, int),
                DecodeError,
            >::Err(e),
        },
{
    match dec_u128(b, pos) {
        Result::Ok((a, j)) => match dec_u128(b, j) {
            Result::Ok((n, k)) => Result::Ok(
                (ActionNotificationTimeouts { action: a, notification: n }, k),
            ),
            Result::Err(e) => Result::Err(e),
        },
        Result::Err(e) => Result::Err(e),
    }
}

fn dec_metadata(b: &[u8], pos: usize) -> (r: Result<(XBIMetadata, usize), DecodeError>)
    requires
        pos <= b@.len(),
    ensures
        match r {
            Result::Ok((v, p)) => pos < p <= b@.len() && spec_dec_metadata(b@, pos as int)
                == Result::<_, DecodeError>::Ok((v, p as int)) && metadata_valid(v),
            Result::Err(e) => spec_dec_metadata(b@, pos as int) == Result::<
                (XBIMetadata, int),
                DecodeError,
            >::Err(e),
        },
{
    match dec_timeouts(b, pos) {
        Result::Ok((sent, j)) => match dec_timeouts(b, j) {
            Result::Ok((delivered, k)) => match dec_timeouts(b, k) {
                Result::Ok((executed, l)) => {
                    let m = XBIMetadata { sent, delivered, executed };
                    if m.is_valid() {
                        Result::Ok((m, l))
                    } else {
                        Result::Err(DecodeError::InvalidMetadata)
                    }
                },
                Result::Err(e) => Result::Err(e),
            },
            Result::Err(e) => Result::Err(e),
        },
        Result::Err(e) => Result::Err(e),
    }
}

#[verifier::rlimit(50)]
#[verifier::spinoff_prover]
fn dec_call_evm(b: &[u8], pos: usize) -> (r: Result<(XBIOrder, usize), DecodeError>)
    requires
        pos <= b@.len(),
    ensures
        match r {
            Result::Ok((o, p)) => pos <= p <= b@.len() && spec_dec_call_evm(b@, pos as int)
                == Result::<_, DecodeError>::Ok((o@, p as int)),
            Result::Err(e) => spec_dec_call_evm(b@, pos as int) == Result::<(OrderView, int),
                DecodeError,
            >::Err(e),
        },
{
    let (caller, p1) = match dec_account(b, pos) {
        Result::Ok(t) => t,
        Result::Err(e) => {
            return Result::Err(e);
        },
    };
    let (dest, p2) = match dec_account(b, p1) {
        Result::Ok(t) => t,
        Result::Err(e) => {
            return Result::Err(e);
        },
    };
    let (value, p3) = match dec_u128(b, p2) {
        Result::Ok(t) => t,
        Result::Err(e) => {
            return Result::Err(e);
        },
    };
    let (input, p4) = match dec_bytes(b, p3) {
        Result::Ok(t) => t,
        Result::Err(e) => {
            return Result::Err(e);
        },
    };
    let (gas_limit, p5) = match dec_u128(b, p4) {
        Result::Ok(t) => t,
        Result::Err(e) => {
            return Result::Err(e);
        },
    };
    let (max_fee_per_gas, p6) = match dec_opt_u128(b, p5) {
        Result::Ok(t) => t,
        Result::Err(e) => {
            return Result::Err(e);
        },
    };
    let (max_priority_fee_per_gas, p7) = match dec_opt_u128(b, p6) {
        Result::Ok(t) => t,
        Result::Err(e) => {
            return Result::Err(e);
        },
    };
    let (nonce, p8) = match dec_opt_u32(b, p7) {
        Result::Ok(t) => t,
        Result::Err(e) => {
            return Result::Err(e);
        },
    };
    let (access_list, p9) = match dec_opt_bytes(b, p8) {
        Result::Ok(t) => t,
        Result::Err(e) => {
            return Result::Err(e);
        },
    };
    Result::Ok(
        (
            XBIOrder::CallEvm {
                caller,
                dest,
                value,
                input,
                gas_limit,
                max_fee_per_gas,
                max_priority_fee_per_gas,
                nonce,
                access_list,
            },
            p9,
        ),
    )
}

#[verifier::rlimit(50)]
#[verifier::spinoff_prover]
fn dec_contract_call(b: &[u8], pos: usize) -> (r: Result<
    ((AccountIdOf, AccountIdOf, u128, Bytes, Option<Vec<Bytes>>), usize),
    DecodeError,
>)
    requires
        pos <= b@.len(),
    ensures
        match r {
            Result::Ok(((caller, dest, value, input, params), p)) => pos <= p <= b@.len()
                && spec_dec_contract_call(b@, pos as int) == Result::<_, DecodeError>::Ok(
                ((caller@, dest@, value, input@, opt_bytes_list_view(params)), p as int),
            ),
            Result::Err(e) => spec_dec_contract_call(b@, pos as int) == Result::<
                ((Seq<u8>, Seq<u8>, u128, Seq<u8>, Option<Seq<Seq<u8>>>), int),
                DecodeError,
            >::Err(e),
        },
{
    let (caller, p1) = match dec_account(b, pos) {
        Result::Ok(t) => t,
        Result::Err(e) => {
            return Result::Err(e);
        },
    };
    let (dest, p2) = match dec_account(b, p1) {
        Result::Ok(t) => t,
        Result::Err(e) => {
            return Result::Err(e);
        },
    };
    let (value, p3) = match dec_u128(b, p2) {
        Result::Ok(t) => t,
        Result::Err(e) => {
            return Result::Err(e);
        },
    };
    let (input, p4) = match dec_bytes(b, p3) {
        Result::Ok(t) => t,
        Result::Err(e) => {
            return Result::Err(e);
        },
    };
    let (additional_params, p5) = match dec_opt_bytes_list(b, p4) {
        Result::Ok(t) => t,
        Result::Err(e) => {
            return Result::Err(e);
        },
    };
    Result::Ok(((caller, dest, value, input, additional_params), p5))
}

#[verifier::rlimit(80)]
#[verifier::spinoff_prover]
fn dec_order(b: &[u8], pos: usize) -> (r: Result<(XBIOrder, usize), DecodeError>)
    requires
        pos <= b@.len(),
    ensures
        match r {
            Result::Ok((o, p)) => pos < p <= b@.len() && spec_dec_order(b@, pos as int)
                == Result::<_, DecodeError>::Ok((o@, p as int)),
            Result::Err(e) => spec_dec_order(b@, pos as int) == Result::<(OrderView, int),
                DecodeError,
            >::Err(e),
        },
{
    match dec_u8(b, pos) {
        Result::Err(e) => Result::Err(e),
        Result::Ok((d, j)) => {
            if d == 0 {
                match dec_bytes(b, j) {
                    Result::Ok((payload, k)) => Result::Ok(
                        (XBIOrder::CallNative { payload }, k),
                    ),
                    Result::Err(e) => Result::Err(e),
                }
            } else if d == 1 {
                dec_call_evm(b, j)
            } else if d == 2 || d == 3 {
                let ((caller, dest, value, input, additional_params), p5) =
                    match dec_contract_call(b, j) {
                    Result::Ok(t) => t,
                    Result::Err(e) => {
                        return Result::Err(e);
                    },
                };
                if d == 2 {
                    Result::Ok(
                        (XBIOrder::CallWasm { caller, dest, value, input, additional_params }, p5),
                    )
                } else {
                    Result::Ok(
                        (
                            XBIOrder::CallCustom {
                                caller,
                                dest,
                                value,
                                input,
                                additional_params,
                            },
                            p5,
                        ),
                    )
                }
            } else if d == 4 {
                let (dest, p1) = match dec_account(b, j) {
                    Result::Ok(t) => t,
                    Result::Err(e) => {
                        return Result::Err(e);
                    },
                };
                let (value, p2) = match dec_u128(b, p1) {
                    Result::Ok(t) => t,
                    Result::Err(e) => {
                        return Result::Err(e);
                    },
                };
                let (additional_params, p3) = match dec_opt_bytes_list(b, p2) {
                    Result::Ok(t) => t,
                    Result::Err(e) => {
                        return Result::Err(e);
                    },
                };
                Result::Ok((XBIOrder::Transfer { dest, value, additional_params }, p3))
            } else if d == 5 {
                let (dest, p1) = match dec_account(b, j) {
                    Result::Ok(t) => t,
                    Result::Err(e) => {
                        return Result::Err(e);
                    },
                };
                let (currency_id, p2) = match dec_account(b, p1) {
                    Result::Ok(t) => t,
                    Result::Err(e) => {
                        return Result::Err(e);
                    },
                };
                let (value, p3) = match dec_u128(b, p2) {
                    Result::Ok(t) => t,
                    Result::Err(e) => {
                        return Result::Err(e);
                    },
                };
                let (additional_params, p4) = match dec_opt_bytes_list(b, p3) {
                    Result::Ok(t) => t,
                    Result::Err(e) => {
                        return Result::Err(e);
                    },
                };
                Result::Ok(
                    (XBIOrder::TransferMulti { dest, currency_id, value, additional_params }, p4),
                )
            } else if d == 6 {
                let (success, p1) = match dec_bool(b, j) {
                    Result::Ok(t) => t,
                    Result::Err(e) => {
                        return Result::Err(e);
                    },
                };
                let (output, p2) = match dec_bytes(b, p1) {
                    Result::Ok(t) => t,
                    Result::Err(e) => {
                        return Result::Err(e);
                    },
                };
                let (witness, p3) = match dec_bytes(b, p2) {
                    Result::Ok(t) => t,
                    Result::Err(e) => {
                        return Result::Err(e);
                    },
                };
                Result::Ok((XBIOrder::Result { success, output, witness }, p3))
            } else {
                Result::Err(DecodeError::UnknownVariant)
            }
        },
    }
}

/// Decode an order from the start of `b`; `r` also reports how many bytes
/// were consumed. Returns, error for error, exactly what [`spec_dec_order`]
/// says of `b`.
pub fn decode_order(b: &[u8]) -> (r: Result<(XBIOrder, usize), DecodeError>)
    ensures
        match r {
            Result::Ok((o, n)) => n <= b@.len() && spec_dec_order(b@, 0) == Result::<_, DecodeError>::Ok(
                (o@, n as int),
            ),
            Result::Err(e) => spec_dec_order(b@, 0) == Result::<(OrderView, int),
                DecodeError,
            >::Err(e),
        },
{
    dec_order(b, 0)
}

/// Decode a metadata record from the start of `b`. A decoded record always
/// satisfies the monotonic-deadline invariant; a violation is rejected with
/// [`DecodeError::InvalidMetadata`].
pub fn decode_metadata(b: &[u8]) -> (r: Result<(XBIMetadata, usize), DecodeError>)
    ensures
        match r {
            Result::Ok((m, n)) => n <= b@.len() && spec_dec_metadata(b@, 0) == Result::<_, DecodeError>::Ok(
                (m, n as int),
            ) && metadata_valid(m),
            Result::Err(e) => spec_dec_metadata(b@, 0) == Result::<(XBIMetadata, int),
                DecodeError,
            >::Err(e),
        },
{
    dec_metadata(b, 0)
}

/// Decode a whole message from the start of `b`: version byte, order,
/// metadata. Returns, error for error, exactly what [`spec_dec_format`]
/// says of `b`.
pub fn decode_format(b: &[u8]) -> (r: Result<(XBIFormat, usize), DecodeError>)
    ensures
        match r {
            Result::Ok((f, n)) => n <= b@.len() && spec_dec_format(b@, 0) == Result::<_, DecodeError>::Ok(
                (f@, n as int),
            ) && metadata_valid(f.metadata),
            Result::Err(e) => spec_dec_format(b@, 0) == Result::<(FormatView, int),
                DecodeError,
            >::Err(e),
        },
{
    match dec_u8(b, 0) {
        Result::Err(e) => Result::Err(e),
        Result::Ok((v, j)) => {
            if v == XBI_VERSION {
                match dec_order(b, j) {
                    Result::Ok((xbi_order, k)) => match dec_metadata(b, k) {
                        Result::Ok((metadata, l)) => Result::Ok(
                            (XBIFormat { xbi_order, metadata }, l),
                        ),
                        Result::Err(e) => Result::Err(e),
                    },
                    Result::Err(e) => Result::Err(e),
                }
            } else {
                Result::Err(DecodeError::UnknownVariant)
            }
        },
    }
}

// ---------------------------------------------------------------------------
// The persisted-state layout: a lifecycle record is serialized with the
// same codec as wire messages, so a crash-recovered store can be
// rehydrated byte-for-byte from persisted records.
// ---------------------------------------------------------------------------

/// Encoding of a phase: one discriminant byte.
pub open spec fn spec_enc_phase(p: Phase) -> Seq<u8> {
    match p {
        Phase::Sent => seq![0u8],
        Phase::Delivered => seq![1u8],
        Phase::Executed => seq![2u8],
        Phase::Expired => seq![3u8],
        Phase::Failed => seq![4u8],
    }
}

/// Encoding of an optional order.
pub open spec fn spec_enc_opt_order(o: Option<OrderView>) -> Seq<u8> {
    match o {
        Option::None => seq![0u8],
        Option::Some(x) => seq![1u8] + spec_enc_order(x),
    }
}

/// Encoding of a lifecycle record: identifier, order, phase, metadata,
/// creation time, outcome, mute flag — the fields in declaration order.
pub open spec fn spec_enc_record(r: RecordView) -> Seq<u8> {
    spec_u64_to_le_bytes(r.id) + spec_enc_order(r.order) + spec_enc_phase(r.phase)
        + spec_enc_metadata(r.metadata) + spec_u128_to_le_bytes(r.created_at)
        + spec_enc_opt_order(r.result) + spec_enc_bool(r.muted)
}

/// Decode a phase; a discriminant above 4 is unrecognized.
pub open spec fn spec_dec_phase(s: Seq<u8>, i: int) -> Result<(Phase, int), DecodeError> {
    match spec_dec_u8(s, i) {
        Result::Ok((t, j)) => if t == 0 {
            Result::Ok((Phase::Sent, j))
        } else if t == 1 {
            Result::Ok((Phase::Delivered, j))
        } else if t == 2 {
            Result::Ok((Phase::Executed, j))
        } else if t == 3 {
            Result::Ok((Phase::Expired, j))
        } else if t == 4 {
            Result::Ok((Phase::Failed, j))
        } else {
            Result::Err(DecodeError::UnknownVariant)
        },
        Result::Err(e) => Result::Err(e),
    }
}

/// Decode an optional order.
pub open spec fn spec_dec_opt_order(s: Seq<u8>, i: int) -> Result<
    (Option<OrderView>, int),
    DecodeError,
> {
    match spec_dec_u8(s, i) {
        Result::Ok((t, j)) => if t == 0 {
            Result::Ok((Option::None, j))
        } else if t == 1 {
            match spec_dec_order(s, j) {
                Result::Ok((x, k)) => Result::Ok((Option::Some(x), k)),
                Result::Err(e) => Result::Err(e),
            }
        } else {
            Result::Err(DecodeError::UnknownVariant)
        },
        Result::Err(e) => Result::Err(e),
    }
}

/// Decode a lifecycle record. The metadata invariant is enforced; the
/// cross-field invariants of a record are checked on rehydration.
pub open spec fn spec_dec_record(s: Seq<u8>, i: int) -> Result<(RecordView, int), DecodeError> {
    match spec_dec_u64(s, i) {
        Result::Ok((id, p1)) => match spec_dec_order(s, p1) {
            Result::Ok((order, p2)) => match spec_dec_phase(s, p2) {
                Result::Ok((phase, p3)) => match spec_dec_metadata(s, p3) {
                    Result::Ok((metadata, p4)) => match spec_dec_u128(s, p4) {
                        Result::Ok((created_at, p5)) => match spec_dec_opt_order(s, p5) {
                            Result::Ok((result, p6)) => match spec_dec_bool(s, p6) {
                                Result::Ok((muted, p7)) => Result::Ok(
                                    (
                                        RecordView {
                                            id,
                                            order,
                                            phase,
                                            metadata,
                                            created_at,
                                            result,
                                            muted,
                                        },
                                        p7,
                                    ),
                                ),
                                Result::Err(e) => Result::Err(e),
                            },
                            Result::Err(e) => Result::Err(e),
                        },
                        Result::Err(e) => Result::Err(e),
                    },
                    Result::Err(e) => Result::Err(e),
                },
                Result::Err(e) => Result::Err(e),
            },
            Result::Err(e) => Result::Err(e),
        },
        Result::Err(e) => Result::Err(e),
    }
}

/// Encode a lifecycle record for persistence.
pub fn encode_record(rec: &LifecycleRecord) -> (r: Vec<u8>)
    ensures
        r@ == spec_enc_record(rec@),
{
    let mut out = u64_to_le_bytes(rec.id);
    let mut order_bytes = encode_order(&rec.order);
    out.append(&mut order_bytes);
    let phase_byte: u8 = match rec.phase {
        Phase::Sent => 0,
        Phase::Delivered => 1,
        Phase::Executed => 2,
        Phase::Expired => 3,
        Phase::Failed => 4,
    };
    out.push(phase_byte);
    let mut metadata_bytes = encode_metadata(&rec.metadata);
    out.append(&mut metadata_bytes);
    let mut created_bytes = u128_to_le_bytes(rec.created_at);
    out.append(&mut created_bytes);
    match &rec.result {
        Option::None => out.push(0u8),
        Option::Some(x) => {
            out.push(1u8);
            let mut result_bytes = encode_order(x);
            out.append(&mut result_bytes);
        },
    }
    enc_bool_into(&mut out, rec.muted);
    proof {
        assert(out@ =~= spec_enc_record(rec@));
    }
    out
}

fn dec_phase(b: &[u8], pos: usize) -> (r: Result<(Phase, usize), DecodeError>)
    requires
        pos <= b@.len(),
    ensures
        match r {
            Result::Ok((v, p)) => pos < p <= b@.len() && spec_dec_phase(b@, pos as int)
                == Result::<_, DecodeError>::Ok((v, p as int)),
            Result::Err(e) => spec_dec_phase(b@, pos as int) == Result::<(Phase, int),
                DecodeError,
            >::Err(e),
        },
{
    match dec_u8(b, pos) {
        Result::Ok((t, j)) => {
            if t == 0 {
                Result::Ok((Phase::Sent, j))
            } else if t == 1 {
                Result::Ok((Phase::Delivered, j))
            } else if t == 2 {
                Result::Ok((Phase::Executed, j))
            } else if t == 3 {
                Result::Ok((Phase::Expired, j))
            } else if t == 4 {
                Result::Ok((Phase::Failed, j))
            } else {
                Result::Err(DecodeError::UnknownVariant)
            }
        },
        Result::Err(e) => Result::Err(e),
    }
}

/// Decode a persisted lifecycle record from the start of `b`. Returns,
/// error for error, exactly what [`spec_dec_record`] says of `b`.
pub fn decode_record(b: &[u8]) -> (r: Result<(LifecycleRecord, usize), DecodeError>)
    ensures
        match r {
            Result::Ok((rec, n)) => n <= b@.len() && spec_dec_record(b@, 0) == Result::<
                _,
                DecodeError,
            >::Ok((rec@, n as int)),
            Result::Err(e) => spec_dec_record(b@, 0) == Result::<(RecordView, int),
                DecodeError,
            >::Err(e),
        },
{
    let (id, p1) = match dec_u64(b, 0) {
        Result::Ok(t) => t,
        Result::Err(e) => {
            return Result::Err(e);
        },
    };
    let (order, p2) = match dec_order(b, p1) {
        Result::Ok(t) => t,
        Result::Err(e) => {
            return Result::Err(e);
        },
    };
    let (phase, p3) = match dec_phase(b, p2) {
        Result::Ok(t) => t,
        Result::Err(e) => {
            return Result::Err(e);
        },
    };
    let (metadata, p4) = match dec_metadata(b, p3) {
        Result::Ok(t) => t,
        Result::Err(e) => {
            return Result::Err(e);
        },
    };
    let (created_at, p5) = match dec_u128(b, p4) {
        Result::Ok(t) => t,
        Result::Err(e) => {
            return Result::Err(e);
        },
    };
    let (tag, p6) = match dec_u8(b, p5) {
        Result::Ok(t) => t,
        Result::Err(e) => {
            return Result::Err(e);
        },
    };
    let (result, p7) = if tag == 0 {
        (Option::None, p6)
    } else if tag == 1 {
        match dec_order(b, p6) {
            Result::Ok((x, p)) => (Option::Some(x), p),
            Result::Err(e) => {
                return Result::Err(e);
            },
        }
    } else {
        return Result::Err(DecodeError::UnknownVariant);
    };
    let (muted, p8) = match dec_bool(b, p7) {
        Result::Ok(t) => t,
        Result::Err(e) => {
            return Result::Err(e);
        },
    };
    Result::Ok((LifecycleRecord { id, order, phase, metadata, created_at, result, muted }, p8))
}

// ---------------------------------------------------------------------------
// The round-trip laws: decoding is the exact left inverse of encoding.
// ---------------------------------------------------------------------------

/// Splitting a known concatenation inside a buffer into its two halves.
proof fn lemma_split_at(s: Seq<u8>, i: int, a: Seq<u8>, b: Seq<u8>)
    requires
        0 <= i,
        i + a.len() + b.len() <= s.len(),
        s.subrange(i, i + a.len() + b.len()) == a + b,
    ensures
        s.subrange(i, i + a.len()) == a,
        s.subrange(i + a.len(), i + a.len() + b.len()) == b,
{
    let whole = s.subrange(i, i + a.len() + b.len());
    assert(s.subrange(i, i + a.len()) =~= a) by {
        assert forall|j: int| 0 <= j < a.len() implies s.subrange(i, i + a.len())[j] == a[j] by {
            assert(s.subrange(i, i + a.len())[j] == s[i + j]);
            assert(whole[j] == s[i + j]);
            assert((a + b)[j] == a[j]);
        }
    }
    assert(s.subrange(i + a.len(), i + a.len() + b.len()) =~= b) by {
        assert forall|j: int| 0 <= j < b.len() implies s.subrange(
            i + a.len(),
            i + a.len() + b.len(),
        )[j] == b[j] by {
            assert(s.subrange(i + a.len(), i + a.len() + b.len())[j] == s[i + a.len() + j]);
            assert(whole[j + a.len()] == s[i + a.len() + j]);
            assert((a + b)[j + a.len()] == b[j]);
        }
    }
}

proof fn lemma_dec_enc_u8_at(s: Seq<u8>, i: int, v: u8)
    requires
        0 <= i,
        i + 1 <= s.len(),
        s.subrange(i, i + 1) == seq![v],
    ensures
        spec_dec_u8(s, i) == Result::<_, DecodeError>::Ok((v, i + 1)),
{
    assert(s[i] == s.subrange(i, i + 1)[0]);
}

proof fn lemma_dec_enc_bool_at(s: Seq<u8>, i: int, v: bool)
    requires
        0 <= i,
        i + spec_enc_bool(v).len() <= s.len(),
        s.subrange(i, i + spec_enc_bool(v).len()) == spec_enc_bool(v),
    ensures
        spec_dec_bool(s, i) == Result::<_, DecodeError>::Ok((v, i + 1)),
{
    if v {
        lemma_dec_enc_u8_at(s, i, 1u8);
    } else {
        lemma_dec_enc_u8_at(s, i, 0u8);
    }
}

proof fn lemma_dec_enc_u32_at(s: Seq<u8>, i: int, v: u32)
    requires
        0 <= i,
        i + spec_u32_to_le_bytes(v).len() <= s.len(),
        s.subrange(i, i + spec_u32_to_le_bytes(v).len()) == spec_u32_to_le_bytes(v),
    ensures
        spec_dec_u32(s, i) == Result::<_, DecodeError>::Ok((v, i + 4)),
{
    lemma_auto_spec_u32_to_from_le_bytes();
}

proof fn lemma_dec_enc_u64_at(s: Seq<u8>, i: int, v: u64)
    requires
        0 <= i,
        i + spec_u64_to_le_bytes(v).len() <= s.len(),
        s.subrange(i, i + spec_u64_to_le_bytes(v).len()) == spec_u64_to_le_bytes(v),
    ensures
        spec_dec_u64(s, i) == Result::<_, DecodeError>::Ok((v, i + 8)),
{
    lemma_auto_spec_u64_to_from_le_bytes();
}

proof fn lemma_dec_enc_u128_at(s: Seq<u8>, i: int, v: u128)
    requires
        0 <= i,
        i + spec_u128_to_le_bytes(v).len() <= s.len(),
        s.subrange(i, i + spec_u128_to_le_bytes(v).len()) == spec_u128_to_le_bytes(v),
    ensures
        spec_dec_u128(s, i) == Result::<_, DecodeError>::Ok((v, i + 16)),
{
    lemma_auto_spec_u128_to_from_le_bytes();
}

proof fn lemma_dec_enc_bytes_at(s: Seq<u8>, i: int, x: Seq<u8>)
    requires
        0 <= i,
        bytes_encodable(x),
        i + spec_enc_bytes(x).len() <= s.len(),
        s.subrange(i, i + spec_enc_bytes(x).len()) == spec_enc_bytes(x),
    ensures
        spec_dec_bytes(s, i) == Result::<_, DecodeError>::Ok((x, i + 8 + x.len())),
{
    lemma_auto_spec_u64_to_from_le_bytes();
    let lenb = spec_u64_to_le_bytes(x.len() as u64);
    lemma_split_at(s, i, lenb, x);
    lemma_dec_enc_u64_at(s, i, x.len() as u64);
    assert((x.len() as u64) as int == x.len());
}

proof fn lemma_dec_enc_opt_u128_at(s: Seq<u8>, i: int, o: Option<u128>)
    requires
        0 <= i,
        i + spec_enc_opt_u128(o).len() <= s.len(),
        s.subrange(i, i + spec_enc_opt_u128(o).len()) == spec_enc_opt_u128(o),
    ensures
        spec_dec_opt_u128(s, i) == Result::<_, DecodeError>::Ok(
            (o, i + spec_enc_opt_u128(o).len()),
        ),
{
    match o {
        Option::None => {
            lemma_dec_enc_u8_at(s, i, 0u8);
        },
        Option::Some(v) => {
            lemma_auto_spec_u128_to_from_le_bytes();
            lemma_split_at(s, i, seq![1u8], spec_u128_to_le_bytes(v));
            lemma_dec_enc_u8_at(s, i, 1u8);
            lemma_dec_enc_u128_at(s, i + 1, v);
        },
    }
}

proof fn lemma_dec_enc_opt_u32_at(s: Seq<u8>, i: int, o: Option<u32>)
    requires
        0 <= i,
        i + spec_enc_opt_u32(o).len() <= s.len(),
        s.subrange(i, i + spec_enc_opt_u32(o).len()) == spec_enc_opt_u32(o),
    ensures
        spec_dec_opt_u32(s, i) == Result::<_, DecodeError>::Ok(
            (o, i + spec_enc_opt_u32(o).len()),
        ),
{
    match o {
        Option::None => {
            lemma_dec_enc_u8_at(s, i, 0u8);
        },
        Option::Some(v) => {
            lemma_auto_spec_u32_to_from_le_bytes();
            lemma_split_at(s, i, seq![1u8], spec_u32_to_le_bytes(v));
            lemma_dec_enc_u8_at(s, i, 1u8);
            lemma_dec_enc_u32_at(s, i + 1, v);
        },
    }
}

proof fn lemma_dec_enc_opt_bytes_at(s: Seq<u8>, i: int, o: Option<Seq<u8>>)
    requires
        0 <= i,
        (o matches Option::Some(x) ==> bytes_encodable(x)),
        i + spec_enc_opt_bytes(o).len() <= s.len(),
        s.subrange(i, i + spec_enc_opt_bytes(o).len()) == spec_enc_opt_bytes(o),
    ensures
        spec_dec_opt_bytes(s, i) == Result::<_, DecodeError>::Ok(
            (o, i + spec_enc_opt_bytes(o).len()),
        ),
{
    match o {
        Option::None => {
            lemma_dec_enc_u8_at(s, i, 0u8);
        },
        Option::Some(x) => {
            lemma_auto_spec_u64_to_from_le_bytes();
            lemma_split_at(s, i, seq![1u8], spec_enc_bytes(x));
            lemma_dec_enc_u8_at(s, i, 1u8);
            lemma_dec_enc_bytes_at(s, i + 1, x);
        },
    }
}

proof fn lemma_dec_enc_items_at(s: Seq<u8>, i: int, l: Seq<Seq<u8>>)
    requires
        0 <= i,
        forall|k: int| 0 <= k < l.len() ==> bytes_encodable(#[trigger] l[k]),
        i + spec_enc_bytes_items(l).len() <= s.len(),
        s.subrange(i, i + spec_enc_bytes_items(l).len()) == spec_enc_bytes_items(l),
    ensures
        spec_dec_bytes_items(s, i, l.len() as int) == Result::<_, DecodeError>::Ok(
            (l, i + spec_enc_bytes_items(l).len()),
        ),
    decreases l.len(),
{
    lemma_auto_spec_u64_to_from_le_bytes();
    if l.len() == 0 {
        assert(spec_dec_bytes_items(s, i, 0) == Result::<_, DecodeError>::Ok(
            (Seq::<Seq<u8>>::empty(), i),
        ));
        assert(l =~= Seq::<Seq<u8>>::empty());
    } else {
        let head = spec_enc_bytes(l[0]);
        let tail = spec_enc_bytes_items(l.skip(1));
        assert(spec_enc_bytes_items(l) == head + tail);
        lemma_split_at(s, i, head, tail);
        lemma_dec_enc_bytes_at(s, i, l[0]);
        let j = i + head.len();
        assert(forall|k: int| 0 <= k < l.skip(1).len() ==> bytes_encodable(
            #[trigger] l.skip(1)[k],
        )) by {
            assert(forall|k: int| 0 <= k < l.skip(1).len() ==> l.skip(1)[k] == l[k + 1]);
        }
        lemma_dec_enc_items_at(s, j, l.skip(1));
        assert(seq![l[0]] + l.skip(1) =~= l);
        assert(j + tail.len() == i + spec_enc_bytes_items(l).len());
        assert((l.len() as int) - 1 == l.skip(1).len() as int);
    }
}

proof fn lemma_dec_enc_opt_bytes_list_at(s: Seq<u8>, i: int, o: Option<Seq<Seq<u8>>>)
    requires
        0 <= i,
        opt_bytes_list_encodable(o),
        i + spec_enc_opt_bytes_list(o).len() <= s.len(),
        s.subrange(i, i + spec_enc_opt_bytes_list(o).len()) == spec_enc_opt_bytes_list(o),
    ensures
        spec_dec_opt_bytes_list(s, i) == Result::<_, DecodeError>::Ok(
            (o, i + spec_enc_opt_bytes_list(o).len()),
        ),
{
    match o {
        Option::None => {
            lemma_dec_enc_u8_at(s, i, 0u8);
        },
        Option::Some(l) => {
            lemma_auto_spec_u64_to_from_le_bytes();
            lemma_split_at(s, i, seq![1u8], spec_enc_bytes_list(l));
            lemma_dec_enc_u8_at(s, i, 1u8);
            let j = i + 1;
            let lenb = spec_u64_to_le_bytes(l.len() as u64);
            lemma_split_at(s, j, lenb, spec_enc_bytes_items(l));
            lemma_dec_enc_u64_at(s, j, l.len() as u64);
            lemma_dec_enc_items_at(s, j + 8, l);
            assert((l.len() as u64) as int == l.len());
        },
    }
}

proof fn lemma_dec_enc_timeouts_at(s: Seq<u8>, i: int, t: ActionNotificationTimeouts)
    requires
        0 <= i,
        i + spec_enc_timeouts(t).len() <= s.len(),
        s.subrange(i, i + spec_enc_timeouts(t).len()) == spec_enc_timeouts(t),
    ensures
        spec_dec_timeouts(s, i) == Result::<_, DecodeError>::Ok((t, i + 32)),
{
    lemma_auto_spec_u128_to_from_le_bytes();
    lemma_split_at(s, i, spec_u128_to_le_bytes(t.action), spec_u128_to_le_bytes(t.notification));
    lemma_dec_enc_u128_at(s, i, t.action);
    lemma_dec_enc_u128_at(s, i + 16, t.notification);
}

/// Where in the buffer a metadata encoding sits, there the decoder reads it
/// back — or rejects it, exactly when the monotonic-deadline invariant is
/// violated.
proof fn lemma_dec_enc_metadata_at(s: Seq<u8>, i: int, m: XBIMetadata)
    requires
        0 <= i,
        i + spec_enc_metadata(m).len() <= s.len(),
        s.subrange(i, i + spec_enc_metadata(m).len()) == spec_enc_metadata(m),
    ensures
        metadata_valid(m) ==> spec_dec_metadata(s, i) == Result::<_, DecodeError>::Ok(
            (m, i + 96),
        ),
        !metadata_valid(m) ==> spec_dec_metadata(s, i) == Result::<(XBIMetadata, int),
            DecodeError,
        >::Err(DecodeError::InvalidMetadata),
{
    lemma_auto_spec_u128_to_from_le_bytes();
    lemma_split_at(
        s,
        i,
        spec_enc_timeouts(m.sent) + spec_enc_timeouts(m.delivered),
        spec_enc_timeouts(m.executed),
    );
    lemma_split_at(s, i, spec_enc_timeouts(m.sent), spec_enc_timeouts(m.delivered));
    lemma_dec_enc_timeouts_at(s, i, m.sent);
    lemma_dec_enc_timeouts_at(s, i + 32, m.delivered);
    lemma_dec_enc_timeouts_at(s, i + 64, m.executed);
}

/// Where in the buffer an order encoding sits, there the decoder reads it
/// back.
#[verifier::rlimit(100)]
#[verifier::spinoff_prover]
proof fn lemma_dec_enc_order_at(s: Seq<u8>, i: int, o: OrderView)
    requires
        0 <= i,
        order_wf(o),
        i + spec_enc_order(o).len() <= s.len(),
        s.subrange(i, i + spec_enc_order(o).len()) == spec_enc_order(o),
    ensures
        spec_dec_order(s, i) == Result::<_, DecodeError>::Ok(
            (o, i + spec_enc_order(o).len()),
        ),
{
    lemma_auto_spec_u128_to_from_le_bytes();
    lemma_auto_spec_u64_to_from_le_bytes();
    lemma_auto_spec_u32_to_from_le_bytes();
    match o {
        OrderView::CallNative { payload } => {
            lemma_split_at(s, i, seq![0u8], spec_enc_bytes(payload));
            lemma_dec_enc_u8_at(s, i, 0u8);
            lemma_dec_enc_bytes_at(s, i + 1, payload);
        },
        OrderView::CallEvm {
            caller,
            dest,
            value,
            input,
            gas_limit,
            max_fee_per_gas,
            max_priority_fee_per_gas,
            nonce,
            access_list,
        } => {
            let e0 = seq![1u8];
            let e1 = caller;
            let e2 = dest;
            let e3 = spec_u128_to_le_bytes(value);
            let e4 = spec_enc_bytes(input);
            let e5 = spec_u128_to_le_bytes(gas_limit);
            let e6 = spec_enc_opt_u128(max_fee_per_gas);
            let e7 = spec_enc_opt_u128(max_priority_fee_per_gas);
            let e8 = spec_enc_opt_u32(nonce);
            let e9 = spec_enc_opt_bytes(access_list);
            lemma_split_at(s, i, e0 + e1 + e2 + e3 + e4 + e5 + e6 + e7 + e8, e9);
            lemma_split_at(s, i, e0 + e1 + e2 + e3 + e4 + e5 + e6 + e7, e8);
            lemma_split_at(s, i, e0 + e1 + e2 + e3 + e4 + e5 + e6, e7);
            lemma_split_at(s, i, e0 + e1 + e2 + e3 + e4 + e5, e6);
            lemma_split_at(s, i, e0 + e1 + e2 + e3 + e4, e5);
            lemma_split_at(s, i, e0 + e1 + e2 + e3, e4);
            lemma_split_at(s, i, e0 + e1 + e2, e3);
            lemma_split_at(s, i, e0 + e1, e2);
            lemma_split_at(s, i, e0, e1);
            lemma_dec_enc_u8_at(s, i, 1u8);
            let p1 = i + 1;
            let p2 = p1 + 32;
            let p3 = p2 + 32;
            let p4 = p3 + 16;
            let p5 = p4 + e4.len();
            let p6 = p5 + 16;
            let p7 = p6 + e6.len();
            let p8 = p7 + e7.len();
            let p9 = p8 + e8.len();
            lemma_dec_enc_u128_at(s, p2 + 32, value);
            lemma_dec_enc_bytes_at(s, p4, input);
            lemma_dec_enc_u128_at(s, p5, gas_limit);
            lemma_dec_enc_opt_u128_at(s, p6, max_fee_per_gas);
            lemma_dec_enc_opt_u128_at(s, p7, max_priority_fee_per_gas);
            lemma_dec_enc_opt_u32_at(s, p8, nonce);
            lemma_dec_enc_opt_bytes_at(s, p9, access_list);
            assert(spec_dec_account(s, p1) == Result::<_, DecodeError>::Ok((caller, p2)));
            assert(spec_dec_account(s, p2) == Result::<_, DecodeError>::Ok((dest, p3)));
        },
        OrderView::CallWasm { caller, dest, value, input, additional_params } => {
            lemma_dec_enc_contract_call_at(s, i, 2u8, caller, dest, value, input,
                additional_params);
        },
        OrderView::CallCustom { caller, dest, value, input, additional_params } => {
            lemma_dec_enc_contract_call_at(s, i, 3u8, caller, dest, value, input,
                additional_params);
        },
        OrderView::Transfer { dest, value, additional_params } => {
            let e0 = seq![4u8];
            let e1 = dest;
            let e2 = spec_u128_to_le_bytes(value);
            let e3 = spec_enc_opt_bytes_list(additional_params);
            lemma_split_at(s, i, e0 + e1 + e2, e3);
            lemma_split_at(s, i, e0 + e1, e2);
            lemma_split_at(s, i, e0, e1);
            lemma_dec_enc_u8_at(s, i, 4u8);
            let p1 = i + 1;
            let p2 = p1 + 32;
            let p3 = p2 + 16;
            assert(spec_dec_account(s, p1) == Result::<_, DecodeError>::Ok((dest, p2)));
            lemma_dec_enc_u128_at(s, p2, value);
            lemma_dec_enc_opt_bytes_list_at(s, p3, additional_params);
        },
        OrderView::TransferMulti { dest, currency_id, value, additional_params } => {
            let e0 = seq![5u8];
            let e1 = dest;
            let e2 = currency_id;
            let e3 = spec_u128_to_le_bytes(value);
            let e4 = spec_enc_opt_bytes_list(additional_params);
            lemma_split_at(s, i, e0 + e1 + e2 + e3, e4);
            lemma_split_at(s, i, e0 + e1 + e2, e3);
            lemma_split_at(s, i, e0 + e1, e2);
            lemma_split_at(s, i, e0, e1);
            lemma_dec_enc_u8_at(s, i, 5u8);
            let p1 = i + 1;
            let p2 = p1 + 32;
            let p3 = p2 + 32;
            let p4 = p3 + 16;
            assert(spec_dec_account(s, p1) == Result::<_, DecodeError>::Ok((dest, p2)));
            assert(spec_dec_account(s, p2) == Result::<_, DecodeError>::Ok((currency_id, p3)));
            lemma_dec_enc_u128_at(s, p3, value);
            lemma_dec_enc_opt_bytes_list_at(s, p4, additional_params);
        },
        OrderView::Result { success, output, witness } => {
            let e0 = seq![6u8];
            let e1 = spec_enc_bool(success);
            let e2 = spec_enc_bytes(output);
            let e3 = spec_enc_bytes(witness);
            lemma_split_at(s, i, e0 + e1 + e2, e3);
            lemma_split_at(s, i, e0 + e1, e2);
            lemma_split_at(s, i, e0, e1);
            lemma_dec_enc_u8_at(s, i, 6u8);
            let p1 = i + 1;
            lemma_dec_enc_bool_at(s, p1, success);
            let p2 = p1 + 1;
            lemma_dec_enc_bytes_at(s, p2, output);
            let p3 = p2 + e2.len();
            lemma_dec_enc_bytes_at(s, p3, witness);
        },
    }
}

/// Shared proof for the `CallWasm` / `CallCustom` field block.
proof fn lemma_dec_enc_contract_call_at(
    s: Seq<u8>,
    i: int,
    d: u8,
    caller: Seq<u8>,
    dest: Seq<u8>,
    value: u128,
    input: Seq<u8>,
    additional_params: Option<Seq<Seq<u8>>>,
)
    requires
        0 <= i,
        d == 2 || d == 3,
        caller.len() == 32,
        dest.len() == 32,
        bytes_encodable(input),
        opt_bytes_list_encodable(additional_params),
        i + 1 + (caller + dest + spec_u128_to_le_bytes(value) + spec_enc_bytes(input)
            + spec_enc_opt_bytes_list(additional_params)).len() <= s.len(),
        s.subrange(
            i,
            i + 1 + (caller + dest + spec_u128_to_le_bytes(value) + spec_enc_bytes(input)
                + spec_enc_opt_bytes_list(additional_params)).len(),
        ) == seq![d] + caller + dest + spec_u128_to_le_bytes(value) + spec_enc_bytes(input)
            + spec_enc_opt_bytes_list(additional_params),
    ensures
        spec_dec_u8(s, i) == Result::<_, DecodeError>::Ok((d, i + 1)),
        spec_dec_contract_call(s, i + 1) == Result::<_, DecodeError>::Ok(
            (
                (caller, dest, value, input, additional_params),
                i + 1 + (caller + dest + spec_u128_to_le_bytes(value) + spec_enc_bytes(input)
                    + spec_enc_opt_bytes_list(additional_params)).len(),
            ),
        ),
{
    lemma_auto_spec_u128_to_from_le_bytes();
    lemma_auto_spec_u64_to_from_le_bytes();
    let e0 = seq![d];
    let e1 = caller;
    let e2 = dest;
    let e3 = spec_u128_to_le_bytes(value);
    let e4 = spec_enc_bytes(input);
    let e5 = spec_enc_opt_bytes_list(additional_params);
    lemma_split_at(s, i, e0 + e1 + e2 + e3 + e4, e5);
    lemma_split_at(s, i, e0 + e1 + e2 + e3, e4);
    lemma_split_at(s, i, e0 + e1 + e2, e3);
    lemma_split_at(s, i, e0 + e1, e2);
    lemma_split_at(s, i, e0, e1);
    lemma_dec_enc_u8_at(s, i, d);
    let p1 = i + 1;
    let p2 = p1 + 32;
    let p3 = p2 + 32;
    let p4 = p3 + 16;
    let p5 = p4 + e4.len();
    assert(spec_dec_account(s, p1) == Result::<_, DecodeError>::Ok((caller, p2)));
    assert(spec_dec_account(s, p2) == Result::<_, DecodeError>::Ok((dest, p3)));
    lemma_dec_enc_u128_at(s, p3, value);
    lemma_dec_enc_bytes_at(s, p4, input);
    lemma_dec_enc_opt_bytes_list_at(s, p5, additional_params);
}

/// Round trip for orders: decoding an order's encoding, whatever follows
/// it in the buffer, yields exactly that order and consumes exactly its
/// encoding.
pub proof fn lemma_order_round_trip(o: OrderView, rest: Seq<u8>)
    requires
        order_wf(o),
    ensures
        spec_dec_order(spec_enc_order(o) + rest, 0) == Result::<_, DecodeError>::Ok(
            (o, spec_enc_order(o).len() as int),
        ),
{
    let s = spec_enc_order(o) + rest;
    assert(s.subrange(0, spec_enc_order(o).len() as int) =~= spec_enc_order(o));
    lemma_dec_enc_order_at(s, 0, o);
}

/// Round trip for valid metadata: decoding its encoding, whatever follows
/// it, yields exactly that record.
pub proof fn lemma_metadata_round_trip(m: XBIMetadata, rest: Seq<u8>)
    requires
        metadata_valid(m),
    ensures
        spec_dec_metadata(spec_enc_metadata(m) + rest, 0) == Result::<_, DecodeError>::Ok(
            (m, 96int),
        ),
{
    let s = spec_enc_metadata(m) + rest;
    lemma_auto_spec_u128_to_from_le_bytes();
    assert(s.subrange(0, spec_enc_metadata(m).len() as int) =~= spec_enc_metadata(m));
    lemma_dec_enc_metadata_at(s, 0, m);
}

/// A metadata record whose deadlines decrease never decodes: its own
/// encoding is rejected with `InvalidMetadata`.
pub proof fn lemma_invalid_metadata_rejected(m: XBIMetadata, rest: Seq<u8>)
    requires
        !metadata_valid(m),
    ensures
        spec_dec_metadata(spec_enc_metadata(m) + rest, 0) == Result::<(XBIMetadata, int),
            DecodeError,
        >::Err(DecodeError::InvalidMetadata),
{
    let s = spec_enc_metadata(m) + rest;
    lemma_auto_spec_u128_to_from_le_bytes();
    assert(s.subrange(0, spec_enc_metadata(m).len() as int) =~= spec_enc_metadata(m));
    lemma_dec_enc_metadata_at(s, 0, m);
}

/// Round trip for whole messages: decoding a well-formed message's
/// encoding, whatever follows it, yields exactly that message.
pub proof fn lemma_format_round_trip(f: FormatView, rest: Seq<u8>)
    requires
        format_wf(f),
    ensures
        spec_dec_format(spec_enc_format(f) + rest, 0) == Result::<_, DecodeError>::Ok(
            (f, spec_enc_format(f).len() as int),
        ),
{
    let s = spec_enc_format(f) + rest;
    let eo = spec_enc_order(f.xbi_order);
    let em = spec_enc_metadata(f.metadata);
    lemma_auto_spec_u128_to_from_le_bytes();
    assert(s.subrange(0, spec_enc_format(f).len() as int) =~= spec_enc_format(f));
    lemma_split_at(s, 0, seq![XBI_VERSION] + eo, em);
    lemma_split_at(s, 0, seq![XBI_VERSION], eo);
    lemma_dec_enc_u8_at(s, 0, XBI_VERSION);
    lemma_dec_enc_order_at(s, 1, f.xbi_order);
    lemma_dec_enc_metadata_at(s, 1 + eo.len() as int, f.metadata);
}

proof fn lemma_dec_enc_phase_at(s: Seq<u8>, i: int, p: Phase)
    requires
        0 <= i,
        i + 1 <= s.len(),
        s.subrange(i, i + 1) == spec_enc_phase(p),
    ensures
        spec_dec_phase(s, i) == Result::<_, DecodeError>::Ok((p, i + 1)),
{
    match p {
        Phase::Sent => lemma_dec_enc_u8_at(s, i, 0u8),
        Phase::Delivered => lemma_dec_enc_u8_at(s, i, 1u8),
        Phase::Executed => lemma_dec_enc_u8_at(s, i, 2u8),
        Phase::Expired => lemma_dec_enc_u8_at(s, i, 3u8),
        Phase::Failed => lemma_dec_enc_u8_at(s, i, 4u8),
    }
}

/// Round trip for persisted records: decoding a well-formed record's
/// encoding, whatever follows it, yields exactly that record.
#[verifier::rlimit(50)]
#[verifier::spinoff_prover]
pub proof fn lemma_record_round_trip(r: RecordView, rest: Seq<u8>)
    requires
        order_wf(r.order),
        metadata_valid(r.metadata),
        r.result matches Option::Some(x) ==> order_wf(x),
    ensures
        spec_dec_record(spec_enc_record(r) + rest, 0) == Result::<_, DecodeError>::Ok(
            (r, spec_enc_record(r).len() as int),
        ),
{
    let s = spec_enc_record(r) + rest;
    lemma_auto_spec_u128_to_from_le_bytes();
    lemma_auto_spec_u64_to_from_le_bytes();
    let e0 = spec_u64_to_le_bytes(r.id);
    let e1 = spec_enc_order(r.order);
    let e2 = spec_enc_phase(r.phase);
    let e3 = spec_enc_metadata(r.metadata);
    let e4 = spec_u128_to_le_bytes(r.created_at);
    let e5 = spec_enc_opt_order(r.result);
    let e6 = spec_enc_bool(r.muted);
    assert(s.subrange(0, spec_enc_record(r).len() as int) =~= spec_enc_record(r));
    lemma_split_at(s, 0, e0 + e1 + e2 + e3 + e4 + e5, e6);
    lemma_split_at(s, 0, e0 + e1 + e2 + e3 + e4, e5);
    lemma_split_at(s, 0, e0 + e1 + e2 + e3, e4);
    lemma_split_at(s, 0, e0 + e1 + e2, e3);
    lemma_split_at(s, 0, e0 + e1, e2);
    lemma_split_at(s, 0, e0, e1);
    lemma_dec_enc_u64_at(s, 0, r.id);
    let p1 = 8int;
    lemma_dec_enc_order_at(s, p1, r.order);
    let p2 = p1 + e1.len();
    lemma_dec_enc_phase_at(s, p2, r.phase);
    let p3 = p2 + 1;
    lemma_dec_enc_metadata_at(s, p3, r.metadata);
    let p4 = p3 + 96;
    lemma_dec_enc_u128_at(s, p4, r.created_at);
    let p5 = p4 + 16;
    match r.result {
        Option::None => {
            lemma_dec_enc_u8_at(s, p5, 0u8);
        },
        Option::Some(x) => {
            lemma_split_at(s, p5, seq![1u8], spec_enc_order(x));
            lemma_dec_enc_u8_at(s, p5, 1u8);
            lemma_dec_enc_order_at(s, p5 + 1, x);
        },
    }
    let p6 = p5 + e5.len();
    lemma_dec_enc_bool_at(s, p6, r.muted);
}

} // verus!

