//! The channel type script: guards the lifecycle of a ledger channel
//! cell.
//!
//! Every check is a total function over the transaction snapshot and
//! the parsed records, with an exact acceptance predicate. The
//! composite checks (`check_valid_start`, `check_valid_progress`,
//! `check_valid_close`) accept exactly when all the rules of the
//! selected action hold; `pcts_validate` parses the raw artifacts and
//! dispatches.

use vstd::prelude::*;
use vstd::bytes::spec_u128_from_le_bytes;
use vstd::bytes::u128_from_le_bytes;
use vstd::slice::slice_subrange;

use crate::balances::{
    balances_equal_in_sum, equal_in_sum, find_sudt, get_locked_ckbytes, has_sudt,
    locked_ckbytes_sum, sudt_index_of,
};
use crate::codec::{spec_ser_params, spec_ser_state, serialize_params, serialize_state};
use crate::crypto::{blake2b256, blake2b256_of, ecdsa_verified, eth_message_hash_of,
    ethereum_message_hash, verify_signature};
use crate::error::Error;
use crate::records::{
    Balances, ChannelConstants, ChannelParameters, ChannelState, ChannelStatus, ChannelWitness,
    ParentData, ScriptDesc, SubAlloc, SudtDistribution, VCChannelConstants, VirtualChannelStatus,
    script_eq, state_eq,
};
use crate::tx::{CellOutput, Transaction};
use crate::util::bytes_eq;

verus! {

// --- checks on single records ---

/// Rejects a state that is already final.
pub fn verify_state_not_finalized(state: &ChannelState) -> (r: Result<(), Error>)
    ensures
        r is Ok <==> !state.is_final,
        r is Err ==> r == Err::<(), Error>(Error::StateIsFinal),
{
    if state.is_final {
        Err(Error::StateIsFinal)
    } else {
        Ok(())
    }
}

/// Rejects a state that is not final.
pub fn verify_state_finalized(state: &ChannelState) -> (r: Result<(), Error>)
    ensures
        r is Ok <==> state.is_final,
        r is Err ==> r == Err::<(), Error>(Error::StateNotFinal),
{
    if state.is_final {
        Ok(())
    } else {
        Err(Error::StateNotFinal)
    }
}

/// Rejects a status whose funding is not complete.
pub fn verify_status_funded(status: &ChannelStatus) -> (r: Result<(), Error>)
    ensures
        r is Ok <==> status.funded,
        r is Err ==> r == Err::<(), Error>(Error::ChannelNotFunded),
{
    if status.funded {
        Ok(())
    } else {
        Err(Error::ChannelNotFunded)
    }
}

/// Rejects a status whose funding is already complete.
pub fn verify_status_not_funded(status: &ChannelStatus) -> (r: Result<(), Error>)
    ensures
        r is Ok <==> !status.funded,
        r is Err ==> r == Err::<(), Error>(Error::StateIsFunded),
{
    if status.funded {
        Err(Error::StateIsFunded)
    } else {
        Ok(())
    }
}

/// Rejects a disputed status.
pub fn verify_status_not_disputed(status: &ChannelStatus) -> (r: Result<(), Error>)
    ensures
        r is Ok <==> !status.disputed,
        r is Err ==> r == Err::<(), Error>(Error::StatusDisputed),
{
    if status.disputed {
        Err(Error::StatusDisputed)
    } else {
        Ok(())
    }
}

/// Rejects a status that is not disputed.
pub fn verify_status_disputed(status: &ChannelStatus) -> (r: Result<(), Error>)
    ensures
        r is Ok <==> status.disputed,
        r is Err ==> r == Err::<(), Error>(Error::StatusNotDisputed),
{
    if status.disputed {
        Ok(())
    } else {
        Err(Error::StatusNotDisputed)
    }
}

/// Rejects unless the two states carry the same channel id.
pub fn verify_equal_channel_id(old_state: &ChannelState, new_state: &ChannelState) -> (r: Result<
    (),
    Error,
>)
    ensures
        r is Ok <==> old_state.channel_id@ == new_state.channel_id@,
        r is Err ==> r == Err::<(), Error>(Error::ChannelIdMismatch),
{
    if bytes_eq(old_state.channel_id.as_slice(), new_state.channel_id.as_slice()) {
        Ok(())
    } else {
        Err(Error::ChannelIdMismatch)
    }
}

/// The version step a dispute must make on a channel that is not in a
/// virtual channel dispute: strictly increasing, except that the
/// initial state may be registered over an undisputed version-zero
/// status.
pub open spec fn version_increases(old_status: ChannelStatus, new_state: ChannelState) -> bool {
    ||| (!old_status.disputed && old_status.state.version == 0 && new_state.version == 0)
    ||| old_status.state.version < new_state.version
}

/// Rejects unless the dispute makes a valid version step.
pub fn verify_increasing_version_number(
    old_status: &ChannelStatus,
    new_state: &ChannelState,
) -> (r: Result<(), Error>)
    ensures
        r is Ok <==> version_increases(*old_status, *new_state),
        r is Err ==> r == Err::<(), Error>(Error::VersionNumberNotIncreasing),
{
    if !old_status.disputed && old_status.state.version == 0 && new_state.version == 0 {
        return Ok(());
    }
    if old_status.state.version < new_state.version {
        return Ok(());
    }
    Err(Error::VersionNumberNotIncreasing)
}

/// Rejects a version decrease.
pub fn verify_non_decreasing_version_number(
    old_status: &ChannelStatus,
    new_state: &ChannelState,
) -> (r: Result<(), Error>)
    ensures
        r is Ok <==> old_status.state.version <= new_state.version,
        r is Err ==> r == Err::<(), Error>(Error::InvalidVersionNumberVCProgressTx),
{
    if old_status.state.version > new_state.version {
        Err(Error::InvalidVersionNumberVCProgressTx)
    } else {
        Ok(())
    }
}

/// Rejects unless the per-asset sums of the two balance distributions
/// are equal.
pub fn verify_equal_sum_of_balances(old_b: &Balances, new_b: &Balances) -> (r: Result<(), Error>)
    ensures
        r is Ok <==> balances_equal_in_sum(*old_b, *new_b),
        r is Err ==> r == Err::<(), Error>(Error::SumOfBalancesNotEqual),
{
    if equal_in_sum(old_b, new_b) {
        Ok(())
    } else {
        Err(Error::SumOfBalancesNotEqual)
    }
}

/// The parameter shape this validator supports: no application, a
/// ledger channel and not a virtual one.
pub open spec fn params_compatible(p: ChannelParameters) -> bool {
    &&& p.app is None
    &&& p.is_ledger_channel
    &&& !p.is_virtual_channel
}

/// Rejects parameters outside the supported shape.
pub fn verify_channel_params_compatibility(p: &ChannelParameters) -> (r: Result<(), Error>)
    ensures
        r is Ok <==> params_compatible(*p),
{
    if p.app.is_some() {
        return Err(Error::AppChannelsNotSupported);
    }
    if !p.is_ledger_channel {
        return Err(Error::WrongChannelType);
    }
    if p.is_virtual_channel {
        return Err(Error::WrongChannelType);
    }
    Ok(())
}

/// Rejects parties that share a payment address.
pub fn verify_different_payment_addresses(c: &ChannelConstants) -> (r: Result<(), Error>)
    ensures
        r is Ok <==> c.params.party_a.payment_script_hash@ != c.params.party_b.payment_script_hash@,
        r is Err ==> r == Err::<(), Error>(Error::SamePaymentAddress),
{
    if bytes_eq(
        c.params.party_a.payment_script_hash.as_slice(),
        c.params.party_b.payment_script_hash.as_slice(),
    ) {
        Err(Error::SamePaymentAddress)
    } else {
        Ok(())
    }
}

/// The channel id is the Blake2b-256 digest of the serialized
/// parameters.
pub open spec fn channel_id_ok(id: Seq<u8>, p: ChannelParameters) -> bool {
    &&& spec_ser_params(p).len() <= u32::MAX
    &&& id == blake2b256_of(spec_ser_params(p))
}

/// Rejects unless the channel id is the digest of the parameters.
pub fn verify_channel_id_integrity(channel_id: &Vec<u8>, p: &ChannelParameters) -> (r: Result<
    (),
    Error,
>)
    ensures
        r is Ok <==> channel_id_ok(channel_id@, *p),
        r is Err ==> r == Err::<(), Error>(Error::InvalidChannelId),
{
    let enc = match serialize_params(p) {
        Ok(v) => v,
        Err(_) => {
            return Err(Error::InvalidChannelId);
        },
    };
    let digest = blake2b256(enc.as_slice());
    if bytes_eq(digest.as_slice(), channel_id.as_slice()) {
        Ok(())
    } else {
        Err(Error::InvalidChannelId)
    }
}

/// Both parties signed the state: the ECDSA verdict holds for each key
/// over the Ethereum message hash of the serialized state.
pub open spec fn state_sigs_ok(
    state: ChannelState,
    sig_a: Seq<u8>,
    sig_b: Seq<u8>,
    pk_a: Seq<u8>,
    pk_b: Seq<u8>,
) -> bool {
    let msg = eth_message_hash_of(spec_ser_state(state));
    &&& spec_ser_state(state).len() <= u32::MAX
    &&& ecdsa_verified(msg, sig_a, pk_a)
    &&& ecdsa_verified(msg, sig_b, pk_b)
}

/// Rejects unless both parties' signatures verify over the state.
pub fn verify_valid_state_sigs(
    sig_a: &Vec<u8>,
    sig_b: &Vec<u8>,
    state: &ChannelState,
    pk_a: &Vec<u8>,
    pk_b: &Vec<u8>,
) -> (r: Result<(), Error>)
    ensures
        r is Ok <==> state_sigs_ok(*state, sig_a@, sig_b@, pk_a@, pk_b@),
        r is Err ==> r == Err::<(), Error>(Error::SignatureVerificationError),
{
    let enc = match serialize_state(state) {
        Ok(v) => v,
        Err(_) => {
            return Err(Error::SignatureVerificationError);
        },
    };
    let msg = ethereum_message_hash(enc.as_slice());
    verify_signature(msg.as_slice(), sig_a.as_slice(), pk_a.as_slice())?;
    verify_signature(msg.as_slice(), sig_b.as_slice(), pk_b.as_slice())?;
    Ok(())
}

/// A state fit to open a channel: version zero, not final, and each
/// party's initial native balance either zero or enough to hold a funds
/// cell.
pub open spec fn state_valid_as_start(state: ChannelState, pfls_min_capacity: u64) -> bool {
    &&& state.version == 0
    &&& !state.is_final
    &&& (state.balances.ckbytes@[0] == 0 || state.balances.ckbytes@[0] >= pfls_min_capacity)
    &&& (state.balances.ckbytes@[1] == 0 || state.balances.ckbytes@[1] >= pfls_min_capacity)
}

/// Rejects a state unfit to open a channel.
pub fn verify_state_valid_as_start(state: &ChannelState, pfls_min_capacity: u64) -> (r: Result<
    (),
    Error,
>)
    ensures
        r is Ok <==> state_valid_as_start(*state, pfls_min_capacity),
{
    if state.version != 0 {
        return Err(Error::StartWithNonZeroVersion);
    }
    if state.is_final {
        return Err(Error::StartWithFinalizedState);
    }
    let balance_a = state.balances.ckbytes[0];
    let balance_b = state.balances.ckbytes[1];
    if balance_a < pfls_min_capacity && balance_a != 0 {
        return Err(Error::BalanceBelowPFLSMinCapacity);
    }
    if balance_b < pfls_min_capacity && balance_b != 0 {
        return Err(Error::BalanceBelowPFLSMinCapacity);
    }
    Ok(())
}

/// The funded bit a start must carry: set exactly when the second party
/// owes nothing.
pub open spec fn funded_status_start_ok(status: ChannelStatus) -> bool {
    status.funded <==> (status.state.balances.ckbytes@[1] == 0 && status.state.balances.sudts@.len()
        == 0)
}

/// Rejects a start status whose funded bit does not reflect whether the
/// second party still owes funds; after a fund action the bit must be
/// set.
pub fn verify_funded_status(status: &ChannelStatus, is_start: bool) -> (r: Result<(), Error>)
    ensures
        is_start ==> (r is Ok <==> funded_status_start_ok(*status)),
        !is_start ==> (r is Ok <==> status.funded),
        r is Err ==> r == Err::<(), Error>(Error::FundedBitStatusNotCorrect),
{
    if !is_start {
        if !status.funded {
            return Err(Error::FundedBitStatusNotCorrect);
        }
        return Ok(());
    }
    if status.state.balances.ckbytes[1] != 0 {
        if status.funded {
            return Err(Error::FundedBitStatusNotCorrect);
        }
        return Ok(());
    }
    if status.state.balances.sudts.len() != 0 {
        if status.funded {
            return Err(Error::FundedBitStatusNotCorrect);
        }
        return Ok(());
    }
    if !status.funded {
        return Err(Error::FundedBitStatusNotCorrect);
    }
    Ok(())
}

// --- checks against the transaction ---

/// No input is locked by the funds lock script of this channel's
/// constants.
pub open spec fn no_funds_in_inputs(tx: Transaction, c: ChannelConstants) -> bool {
    forall|i: int|
        0 <= i < tx.inputs@.len() ==> (#[trigger] tx.inputs@[i]).lock.code_hash@
            != c.pfls_code_hash@
}

/// Rejects a transaction that consumes any cell locked by this
/// channel's funds lock script.
pub fn verify_no_funds_in_inputs(tx: &Transaction, c: &ChannelConstants) -> (r: Result<(), Error>)
    ensures
        r is Ok <==> no_funds_in_inputs(*tx, *c),
        r is Err ==> r == Err::<(), Error>(Error::FundsInInputs),
{
    let n = tx.inputs.len();
    let mut i: usize = 0;
    while i < n
        invariant
            0 <= i <= n,
            n == tx.inputs@.len(),
            forall|j: int|
                0 <= j < i ==> (#[trigger] tx.inputs@[j]).lock.code_hash@ != c.pfls_code_hash@,
        decreases n - i,
    {
        if bytes_eq(tx.inputs[i].lock.code_hash.as_slice(), c.pfls_code_hash.as_slice()) {
            return Err(Error::FundsInInputs);
        }
        i += 1;
    }
    Ok(())
}

/// The output channel cell keeps the input channel cell's lock script,
/// byte for byte.
pub open spec fn channel_continues_locked(
    tx: Transaction,
    in_idx: int,
    out_idx: int,
) -> bool {
    script_eq(tx.inputs@[in_idx].lock, tx.outputs@[out_idx].lock)
}

/// Rejects unless the output channel cell carries the same lock script
/// as the consumed one.
pub fn verify_channel_continues_locked(
    tx: &Transaction,
    in_idx: usize,
    out_idx: usize,
) -> (r: Result<(), Error>)
    requires
        in_idx < tx.inputs@.len(),
        out_idx < tx.outputs@.len(),
    ensures
        r is Ok <==> channel_continues_locked(*tx, in_idx as int, out_idx as int),
        r is Err ==> r == Err::<(), Error>(Error::ChannelDoesNotContinue),
{
    let a = &tx.inputs[in_idx].lock;
    let b = &tx.outputs[out_idx].lock;
    if bytes_eq(a.code_hash.as_slice(), b.code_hash.as_slice()) && a.hash_type == b.hash_type
        && bytes_eq(a.args.as_slice(), b.args.as_slice()) {
        Ok(())
    } else {
        Err(Error::ChannelDoesNotContinue)
    }
}

/// The output channel cell is guarded by the channel lock script of the
/// constants, with empty args.
pub open spec fn lock_script_valid(tx: Transaction, out_idx: int, c: ChannelConstants) -> bool {
    &&& tx.outputs@[out_idx].lock.code_hash@ == c.pcls_code_hash@
    &&& tx.outputs@[out_idx].lock.hash_type == c.pcls_hash_type
    &&& tx.outputs@[out_idx].lock.args@.len() == 0
}

/// Rejects unless the new channel cell is guarded by the channel lock
/// script named in the constants, with empty args.
pub fn verify_valid_lock_script(tx: &Transaction, out_idx: usize, c: &ChannelConstants) -> (r:
    Result<(), Error>)
    requires
        out_idx < tx.outputs@.len(),
    ensures
        r is Ok <==> lock_script_valid(*tx, out_idx as int, *c),
{
    let lock = &tx.outputs[out_idx].lock;
    if !bytes_eq(lock.code_hash.as_slice(), c.pcls_code_hash.as_slice()) {
        return Err(Error::InvalidPCLSCodeHash);
    }
    if lock.hash_type != c.pcls_hash_type {
        return Err(Error::InvalidPCLSHashType);
    }
    if lock.args.len() != 0 {
        return Err(Error::PCLSWithArgs);
    }
    Ok(())
}

} // verus!

// Funding and payout arithmetic. The specifications sum over unbounded
// integers; the executable sums saturate, which preserves every
// comparison made here because each owed amount fits the word.

verus! {

/// An output locked by this channel's funds lock script.
pub open spec fn is_pfls_output(o: CellOutput, c: ChannelConstants) -> bool {
    &&& o.lock.code_hash@ == c.pfls_code_hash@
    &&& o.lock.hash_type == c.pfls_hash_type
}

/// Every funds cell in the outputs names this channel in its lock args.
pub open spec fn pfls_outputs_bound_to(tx: Transaction, c: ChannelConstants, own_hash: Seq<u8>) -> bool {
    forall|i: int|
        0 <= i < tx.outputs@.len() && is_pfls_output(#[trigger] tx.outputs@[i], c)
            ==> tx.outputs@[i].lock.args@ == own_hash
}

/// The token amount an output cell carries: the little-endian prefix of
/// its data.
pub open spec fn cell_udt_amount(o: CellOutput) -> int {
    spec_u128_from_le_bytes(o.data@.subrange(0, 16)) as int
}

/// The output's type script selects token `asset` of the list (the
/// first entry with that script).
pub open spec fn counts_udt_for(o: CellOutput, sudts: Seq<SudtDistribution>, asset: int) -> bool {
    &&& o.type_script is Some
    &&& sudt_index_of(sudts, o.type_script->0) == asset
}

/// A typed output among the selected ones must carry a listed token and
/// enough data for an amount; anything else rejects the transaction.
pub open spec fn udt_output_ok(o: CellOutput, sudts: Seq<SudtDistribution>) -> bool {
    o.type_script is Some ==> has_sudt(sudts, o.type_script->0) && o.data@.len() >= 16
}

pub open spec fn pfls_udt_outputs_valid(tx: Transaction, c: ChannelConstants, sudts: Seq<SudtDistribution>) -> bool {
    forall|i: int|
        0 <= i < tx.outputs@.len() && is_pfls_output(#[trigger] tx.outputs@[i], c)
            ==> udt_output_ok(tx.outputs@[i], sudts)
}

pub open spec fn pay_udt_outputs_valid(tx: Transaction, h: Seq<u8>, sudts: Seq<SudtDistribution>) -> bool {
    forall|i: int|
        0 <= i < tx.outputs@.len() && (#[trigger] tx.outputs@[i]).lock_hash@ == h
            ==> udt_output_ok(tx.outputs@[i], sudts)
}

/// Capacity paid into this channel's funds cells among the first `i`
/// outputs.
pub open spec fn pfls_cap_prefix(outs: Seq<CellOutput>, c: ChannelConstants, i: int) -> int
    decreases i,
{
    if i <= 0 {
        0
    } else {
        pfls_cap_prefix(outs, c, i - 1) + if is_pfls_output(outs[i - 1], c) {
            outs[i - 1].capacity as int
        } else {
            0
        }
    }
}

/// Token `asset` paid into this channel's funds cells among the first
/// `i` outputs.
pub open spec fn pfls_udt_prefix(
    outs: Seq<CellOutput>,
    c: ChannelConstants,
    sudts: Seq<SudtDistribution>,
    asset: int,
    i: int,
) -> int
    decreases i,
{
    if i <= 0 {
        0
    } else {
        pfls_udt_prefix(outs, c, sudts, asset, i - 1) + if is_pfls_output(outs[i - 1], c)
            && counts_udt_for(outs[i - 1], sudts, asset) {
            cell_udt_amount(outs[i - 1])
        } else {
            0
        }
    }
}

/// Capacity paid to the lock hash `h` among the first `i` outputs.
pub open spec fn pay_ck_prefix(outs: Seq<CellOutput>, h: Seq<u8>, i: int) -> int
    decreases i,
{
    if i <= 0 {
        0
    } else {
        pay_ck_prefix(outs, h, i - 1) + if outs[i - 1].lock_hash@ == h {
            outs[i - 1].capacity as int
        } else {
            0
        }
    }
}

/// Token `asset` paid to the lock hash `h` among the first `i` outputs.
pub open spec fn pay_udt_prefix(
    outs: Seq<CellOutput>,
    h: Seq<u8>,
    sudts: Seq<SudtDistribution>,
    asset: int,
    i: int,
) -> int
    decreases i,
{
    if i <= 0 {
        0
    } else {
        pay_udt_prefix(outs, h, sudts, asset, i - 1) + if outs[i - 1].lock_hash@ == h
            && counts_udt_for(outs[i - 1], sudts, asset) {
            cell_udt_amount(outs[i - 1])
        } else {
            0
        }
    }
}

/// Saturation at the 128-bit bound.
pub open spec fn sat128(x: int) -> int {
    if x > u128::MAX {
        u128::MAX as int
    } else {
        x
    }
}

/// Reads the token index and amount of a typed output: the type script
/// must name a listed token and the data must hold an amount.
pub fn get_sudt_amount(
    sudts: &Vec<SudtDistribution>,
    o_type: &ScriptDesc,
    o_data: &Vec<u8>,
) -> (r: Result<(usize, u128), Error>)
    ensures
        r is Ok <==> has_sudt(sudts@, *o_type) && o_data@.len() >= 16,
        r is Ok ==> r->Ok_0.0 == sudt_index_of(sudts@, *o_type) && r->Ok_0.1
            == spec_u128_from_le_bytes(o_data@.subrange(0, 16)),
{
    let idx = match find_sudt(sudts, o_type) {
        Some(i) => i,
        None => {
            return Err(Error::InvalidSUDT);
        },
    };
    if o_data.len() < 16 {
        return Err(Error::InvalidSUDTDataLength);
    }
    let amount = u128_from_le_bytes(slice_subrange(o_data.as_slice(), 0, 16));
    Ok((idx, amount))
}

/// Sums the capacity of this channel's funds cells (saturating).
fn sum_pfls_cap(tx: &Transaction, c: &ChannelConstants) -> (r: u128)
    ensures
        r == sat128(pfls_cap_prefix(tx.outputs@, *c, tx.outputs@.len() as int)),
{
    let n = tx.outputs.len();
    let mut acc: u128 = 0;
    let mut i: usize = 0;
    while i < n
        invariant
            0 <= i <= n,
            n == tx.outputs@.len(),
            acc == sat128(pfls_cap_prefix(tx.outputs@, *c, i as int)),
        decreases n - i,
    {
        let o = &tx.outputs[i];
        if bytes_eq(o.lock.code_hash.as_slice(), c.pfls_code_hash.as_slice()) && o.lock.hash_type
            == c.pfls_hash_type {
            acc = acc.saturating_add(o.capacity as u128);
        }
        i += 1;
    }
    acc
}

/// Sums token `asset` over this channel's funds cells (saturating).
fn sum_pfls_udt(
    tx: &Transaction,
    c: &ChannelConstants,
    sudts: &Vec<SudtDistribution>,
    asset: usize,
) -> (r: u128)
    requires
        asset < sudts@.len(),
        pfls_udt_outputs_valid(*tx, *c, sudts@),
    ensures
        r == sat128(pfls_udt_prefix(tx.outputs@, *c, sudts@, asset as int, tx.outputs@.len() as int)),
{
    let n = tx.outputs.len();
    let mut acc: u128 = 0;
    let mut i: usize = 0;
    while i < n
        invariant
            0 <= i <= n,
            n == tx.outputs@.len(),
            asset < sudts@.len(),
            pfls_udt_outputs_valid(*tx, *c, sudts@),
            acc == sat128(pfls_udt_prefix(tx.outputs@, *c, sudts@, asset as int, i as int)),
        decreases n - i,
    {
        let o = &tx.outputs[i];
        if bytes_eq(o.lock.code_hash.as_slice(), c.pfls_code_hash.as_slice()) && o.lock.hash_type
            == c.pfls_hash_type {
            match &o.type_script {
                Some(ts) => {
                    match find_sudt(sudts, ts) {
                        Some(j) => {
                            if j == asset {
                                assert(o.data@.len() >= 16);
                                let amount = u128_from_le_bytes(
                                    slice_subrange(o.data.as_slice(), 0, 16),
                                );
                                acc = acc.saturating_add(amount);
                            }
                        },
                        None => {
                            assert(false);
                        },
                    }
                },
                None => {},
            }
        }
        i += 1;
    }
    acc
}

/// Sums the capacity paid to a lock hash (saturating).
pub(crate) fn sum_pay_ck(tx: &Transaction, h: &Vec<u8>) -> (r: u128)
    ensures
        r == sat128(pay_ck_prefix(tx.outputs@, h@, tx.outputs@.len() as int)),
{
    let n = tx.outputs.len();
    let mut acc: u128 = 0;
    let mut i: usize = 0;
    while i < n
        invariant
            0 <= i <= n,
            n == tx.outputs@.len(),
            acc == sat128(pay_ck_prefix(tx.outputs@, h@, i as int)),
        decreases n - i,
    {
        let o = &tx.outputs[i];
        if bytes_eq(o.lock_hash.as_slice(), h.as_slice()) {
            acc = acc.saturating_add(o.capacity as u128);
        }
        i += 1;
    }
    acc
}

/// Sums token `asset` paid to a lock hash (saturating).
fn sum_pay_udt(
    tx: &Transaction,
    h: &Vec<u8>,
    sudts: &Vec<SudtDistribution>,
    asset: usize,
) -> (r: u128)
    requires
        asset < sudts@.len(),
        pay_udt_outputs_valid(*tx, h@, sudts@),
    ensures
        r == sat128(pay_udt_prefix(tx.outputs@, h@, sudts@, asset as int, tx.outputs@.len() as int)),
{
    let n = tx.outputs.len();
    let mut acc: u128 = 0;
    let mut i: usize = 0;
    while i < n
        invariant
            0 <= i <= n,
            n == tx.outputs@.len(),
            asset < sudts@.len(),
            pay_udt_outputs_valid(*tx, h@, sudts@),
            acc == sat128(pay_udt_prefix(tx.outputs@, h@, sudts@, asset as int, i as int)),
        decreases n - i,
    {
        let o = &tx.outputs[i];
        if bytes_eq(o.lock_hash.as_slice(), h.as_slice()) {
            match &o.type_script {
                Some(ts) => {
                    match find_sudt(sudts, ts) {
                        Some(j) => {
                            if j == asset {
                                assert(o.data@.len() >= 16);
                                let amount = u128_from_le_bytes(
                                    slice_subrange(o.data.as_slice(), 0, 16),
                                );
                                acc = acc.saturating_add(amount);
                            }
                        },
                        None => {
                            assert(false);
                        },
                    }
                },
                None => {},
            }
        }
        i += 1;
    }
    acc
}

/// The funding rule for the party at `idx`: either it owes nothing, or
/// the funds cells of this channel in the outputs carry exactly the
/// owed capacity, cover the party's token shares, and name this channel
/// in their args. The owed capacity must fit the native word.
pub open spec fn funding_ok(
    idx: int,
    bal: Balances,
    c: ChannelConstants,
    tx: Transaction,
    own_hash: Seq<u8>,
) -> bool {
    let to_fund = bal.ckbytes@[idx] + locked_ckbytes_sum(bal.sudts@);
    ||| to_fund == 0
    ||| {
        &&& to_fund <= u64::MAX
        &&& pfls_outputs_bound_to(tx, c, own_hash)
        &&& pfls_udt_outputs_valid(tx, c, bal.sudts@)
        &&& pfls_cap_prefix(tx.outputs@, c, tx.outputs@.len() as int) == to_fund
        &&& forall|a: int|
            0 <= a < bal.sudts@.len() ==> pfls_udt_prefix(
                tx.outputs@,
                c,
                bal.sudts@,
                a,
                tx.outputs@.len() as int,
            ) >= (#[trigger] bal.sudts@[a]).distribution@[idx]
    }
}

/// Rejects unless the party at `idx` completes its funding in this
/// transaction's outputs.
#[verifier::loop_isolation(false)]
pub fn verify_funding_in_outputs(
    idx: usize,
    bal: &Balances,
    c: &ChannelConstants,
    tx: &Transaction,
    own_hash: &Vec<u8>,
) -> (r: Result<(), Error>)
    requires
        idx < 2,
    ensures
        r is Ok <==> funding_ok(idx as int, *bal, *c, *tx, own_hash@),
{
    let locked = match get_locked_ckbytes(bal) {
        Some(l) => l,
        None => {
            return Err(Error::OwnFundingNotInOutputs);
        },
    };
    let to_fund = match bal.ckbytes[idx].checked_add(locked) {
        Some(t) => t,
        None => {
            return Err(Error::OwnFundingNotInOutputs);
        },
    };
    if to_fund == 0 {
        return Ok(());
    }

    // every funds cell must belong to this channel and carry a valid
    // token amount
    let n = tx.outputs.len();
    let mut i: usize = 0;
    while i < n
        invariant
            0 <= i <= n,
            n == tx.outputs@.len(),
            forall|j: int|
                0 <= j < i && is_pfls_output(#[trigger] tx.outputs@[j], *c)
                    ==> tx.outputs@[j].lock.args@ == own_hash@,
            forall|j: int|
                0 <= j < i && is_pfls_output(#[trigger] tx.outputs@[j], *c) ==> udt_output_ok(
                    tx.outputs@[j],
                    bal.sudts@,
                ),
        decreases n - i,
    {
        let o = &tx.outputs[i];
        if bytes_eq(o.lock.code_hash.as_slice(), c.pfls_code_hash.as_slice()) && o.lock.hash_type
            == c.pfls_hash_type {
            if !bytes_eq(o.lock.args.as_slice(), own_hash.as_slice()) {
                return Err(Error::InvalidPFLSInOutputs);
            }
            match &o.type_script {
                Some(ts) => {
                    match get_sudt_amount(&bal.sudts, ts, &o.data) {
                        Ok(_) => {},
                        Err(e) => {
                            return Err(e);
                        },
                    }
                },
                None => {},
            }
        }
        i += 1;
    }

    // exact capacity
    let cap_sum = sum_pfls_cap(tx, c);
    if cap_sum != to_fund as u128 {
        return Err(Error::OwnFundingNotInOutputs);
    }

    // token coverage
    let m = bal.sudts.len();
    let mut a: usize = 0;
    while a < m
        invariant
            0 <= a <= m,
            m == bal.sudts@.len(),
            idx < 2,
            pfls_udt_outputs_valid(*tx, *c, bal.sudts@),
            forall|k: int|
                0 <= k < a ==> pfls_udt_prefix(
                    tx.outputs@,
                    *c,
                    bal.sudts@,
                    k,
                    tx.outputs@.len() as int,
                ) >= (#[trigger] bal.sudts@[k]).distribution@[idx as int],
        decreases m - a,
    {
        let got = sum_pfls_udt(tx, c, &bal.sudts, a);
        if got < bal.sudts[a].distribution[idx] {
            return Err(Error::OwnFundingNotInOutputs);
        }
        a += 1;
    }
    Ok(())
}

/// The payout rule on closing: each party's owed native amount (its
/// balance, the reimbursed token-cell capacity, and for the first party
/// the channel cell's capacity) is paid to its payment lock hash unless
/// it is under the party's minimum, and each party's token shares are
/// covered. On an abort the second party is owed nothing.
pub open spec fn all_paid_ok(
    bal: Balances,
    cap: u64,
    c: ChannelConstants,
    is_abort: bool,
    tx: Transaction,
) -> bool {
    let reimburse = locked_ckbytes_sum(bal.sudts@);
    let ha = c.params.party_a.payment_script_hash@;
    let hb = c.params.party_b.payment_script_hash@;
    let owed_a = bal.ckbytes@[0] + cap + reimburse;
    let owed_b = if is_abort {
        0int
    } else {
        bal.ckbytes@[1] + reimburse
    };
    let n = tx.outputs@.len() as int;
    &&& reimburse <= u64::MAX
    &&& owed_a <= u64::MAX
    &&& owed_b <= u64::MAX
    &&& pay_udt_outputs_valid(tx, ha, bal.sudts@)
    &&& pay_udt_outputs_valid(tx, hb, bal.sudts@)
    &&& (pay_ck_prefix(tx.outputs@, ha, n) >= owed_a || owed_a
        < c.params.party_a.payment_min_capacity)
    &&& (pay_ck_prefix(tx.outputs@, hb, n) >= owed_b || owed_b
        < c.params.party_b.payment_min_capacity)
    &&& forall|a: int|
        0 <= a < bal.sudts@.len() ==> pay_udt_prefix(tx.outputs@, ha, bal.sudts@, a, n) >= (
        #[trigger] bal.sudts@[a]).distribution@[0]
    &&& forall|a: int|
        0 <= a < bal.sudts@.len() ==> pay_udt_prefix(tx.outputs@, hb, bal.sudts@, a, n) >= if is_abort {
            0int
        } else {
            (#[trigger] bal.sudts@[a]).distribution@[1] as int
        }
}

/// Rejects unless every party is paid what the balance distribution
/// owes it.
#[verifier::loop_isolation(false)]
pub fn verify_all_paid(
    bal: &Balances,
    capacity: u64,
    c: &ChannelConstants,
    is_abort: bool,
    tx: &Transaction,
) -> (r: Result<(), Error>)
    ensures
        r is Ok <==> all_paid_ok(*bal, capacity, *c, is_abort, *tx),
{
    let reimburse = match get_locked_ckbytes(bal) {
        Some(l) => l,
        None => {
            return Err(Error::NotAllPaid);
        },
    };
    let ha = &c.params.party_a.payment_script_hash;
    let hb = &c.params.party_b.payment_script_hash;
    let owed_a: u128 = bal.ckbytes[0] as u128 + capacity as u128 + reimburse as u128;
    let owed_b: u128 = if is_abort {
        0u128
    } else {
        bal.ckbytes[1] as u128 + reimburse as u128
    };
    // an owed total beyond the native word is a rejection
    if owed_a > u64::MAX as u128 || owed_b > u64::MAX as u128 {
        return Err(Error::NotAllPaid);
    }

    // typed outputs paid to a party must carry listed tokens
    let n = tx.outputs.len();
    let mut i: usize = 0;
    while i < n
        invariant
            0 <= i <= n,
            n == tx.outputs@.len(),
            forall|j: int|
                0 <= j < i && (#[trigger] tx.outputs@[j]).lock_hash@ == ha@ ==> udt_output_ok(
                    tx.outputs@[j],
                    bal.sudts@,
                ),
            forall|j: int|
                0 <= j < i && (#[trigger] tx.outputs@[j]).lock_hash@ == hb@ ==> udt_output_ok(
                    tx.outputs@[j],
                    bal.sudts@,
                ),
        decreases n - i,
    {
        let o = &tx.outputs[i];
        if bytes_eq(o.lock_hash.as_slice(), ha.as_slice()) || bytes_eq(
            o.lock_hash.as_slice(),
            hb.as_slice(),
        ) {
            match &o.type_script {
                Some(ts) => {
                    match get_sudt_amount(&bal.sudts, ts, &o.data) {
                        Ok(_) => {},
                        Err(e) => {
                            return Err(e);
                        },
                    }
                },
                None => {},
            }
        }
        i += 1;
    }

    // native amounts
    let out_a = sum_pay_ck(tx, ha);
    let out_b = sum_pay_ck(tx, hb);
    if (owed_a > out_a && owed_a >= c.params.party_a.payment_min_capacity as u128) || (owed_b
        > out_b && owed_b >= c.params.party_b.payment_min_capacity as u128) {
        return Err(Error::NotAllPaid);
    }

    // token shares
    let m = bal.sudts.len();
    let mut a: usize = 0;
    while a < m
        invariant
            0 <= a <= m,
            m == bal.sudts@.len(),
            pay_udt_outputs_valid(*tx, ha@, bal.sudts@),
            pay_udt_outputs_valid(*tx, hb@, bal.sudts@),
            forall|k: int|
                0 <= k < a ==> pay_udt_prefix(
                    tx.outputs@,
                    ha@,
                    bal.sudts@,
                    k,
                    tx.outputs@.len() as int,
                ) >= (#[trigger] bal.sudts@[k]).distribution@[0],
            !is_abort ==> forall|k: int|
                0 <= k < a ==> pay_udt_prefix(
                    tx.outputs@,
                    hb@,
                    bal.sudts@,
                    k,
                    tx.outputs@.len() as int,
                ) >= (#[trigger] bal.sudts@[k]).distribution@[1],
        decreases m - a,
    {
        let ghost n_out = tx.outputs@.len() as int;
        let got_a = sum_pay_udt(tx, ha, &bal.sudts, a);
        if got_a < bal.sudts[a].distribution[0] {
            return Err(Error::NotAllPaid);
        }
        proof {
            assert(pay_udt_prefix(tx.outputs@, ha@, bal.sudts@, a as int, n_out) >= got_a);
            assert(pay_udt_prefix(tx.outputs@, ha@, bal.sudts@, a as int, n_out) >= bal.sudts@[
                a as int].distribution@[0]);
        }
        if !is_abort {
            let got_b = sum_pay_udt(tx, hb, &bal.sudts, a);
            if got_b < bal.sudts[a].distribution[1] {
                return Err(Error::NotAllPaid);
            }
            proof {
                assert(pay_udt_prefix(tx.outputs@, hb@, bal.sudts@, a as int, n_out) >= got_b);
            }
        }
        a += 1;
    }
    proof {
        if is_abort {
            assert forall|k: int| 0 <= k < bal.sudts@.len() implies pay_udt_prefix(
                tx.outputs@,
                hb@,
                bal.sudts@,
                k,
                tx.outputs@.len() as int,
            ) >= 0 by {
                lemma_pay_udt_prefix_nonneg(tx.outputs@, hb@, bal.sudts@, k, tx.outputs@.len() as int);
            }
        }
    }
    Ok(())
}

proof fn lemma_pay_udt_prefix_nonneg(
    outs: Seq<CellOutput>,
    h: Seq<u8>,
    sudts: Seq<SudtDistribution>,
    asset: int,
    i: int,
)
    ensures
        pay_udt_prefix(outs, h, sudts, asset, i) >= 0,
    decreases i,
{
    if i > 0 {
        lemma_pay_udt_prefix_nonneg(outs, h, sudts, asset, i - 1);
        vstd::bytes::lemma_auto_spec_u128_to_from_le_bytes();
    }
}

} // verus!

// Virtual-channel bookkeeping: the parent entry of this channel in a
// virtual channel status, the locked allocation for a child channel,
// and the payout rule that adds the virtual channel's shares.

verus! {

/// The index of the first parent entry naming the script hash `h`, or
/// the list length when there is none.
pub open spec fn parent_index_of(ps: Seq<ParentData>, h: Seq<u8>) -> int
    decreases ps.len(),
{
    if ps.len() == 0 {
        0
    } else if ps[0].pcts_hash@ == h {
        0
    } else {
        1 + parent_index_of(ps.drop_first(), h)
    }
}

pub open spec fn has_parent(ps: Seq<ParentData>, h: Seq<u8>) -> bool {
    parent_index_of(ps, h) < ps.len()
}

pub proof fn lemma_parent_index_of(ps: Seq<ParentData>, h: Seq<u8>)
    ensures
        0 <= parent_index_of(ps, h) <= ps.len(),
        has_parent(ps, h) ==> ps[parent_index_of(ps, h)].pcts_hash@ == h,
        forall|k: int| 0 <= k < parent_index_of(ps, h) ==> (#[trigger] ps[k]).pcts_hash@ != h,
    decreases ps.len(),
{
    if ps.len() > 0 && ps[0].pcts_hash@ != h {
        lemma_parent_index_of(ps.drop_first(), h);
        assert forall|k: int| 0 <= k < parent_index_of(ps, h) implies (#[trigger] ps[k]).pcts_hash@
            != h by {
            if k > 0 {
                assert(ps.drop_first()[k - 1] == ps[k]);
            }
        }
    }
}

proof fn lemma_parent_index_found(ps: Seq<ParentData>, h: Seq<u8>, i: int)
    requires
        0 <= i < ps.len(),
        ps[i].pcts_hash@ == h,
        forall|k: int| 0 <= k < i ==> (#[trigger] ps[k]).pcts_hash@ != h,
    ensures
        parent_index_of(ps, h) == i,
    decreases i,
{
    if i > 0 {
        assert forall|k: int| 0 <= k < i - 1 implies (#[trigger] ps.drop_first()[k]).pcts_hash@
            != h by {
            assert(ps.drop_first()[k] == ps[k + 1]);
        }
        assert(ps.drop_first()[i - 1] == ps[i]);
        lemma_parent_index_found(ps.drop_first(), h, i - 1);
    }
}

/// Finds this channel's entry among a virtual channel's parents.
pub fn find_parent(ps: &Vec<ParentData>, h: &Vec<u8>) -> (r: Option<usize>)
    ensures
        r is Some <==> has_parent(ps@, h@),
        r is Some ==> r->0 == parent_index_of(ps@, h@),
{
    proof {
        lemma_parent_index_of(ps@, h@);
    }
    let n = ps.len();
    let mut i: usize = 0;
    while i < n
        invariant
            0 <= i <= n,
            n == ps@.len(),
            forall|k: int| 0 <= k < i ==> (#[trigger] ps@[k]).pcts_hash@ != h@,
        decreases n - i,
    {
        if bytes_eq(ps[i].pcts_hash.as_slice(), h.as_slice()) {
            proof {
                lemma_parent_index_found(ps@, h@, i as int);
            }
            return Some(i);
        }
        i += 1;
    }
    None
}

/// The party index in the virtual channel for a ledger party index,
/// through a parent's index map; negative when the map has no entry.
pub open spec fn vc_map_idx(m: Seq<u8>, lc_idx: u8) -> int {
    if m[0] == lc_idx {
        0
    } else if m[1] == lc_idx {
        1
    } else {
        -1
    }
}

/// Resolves a ledger party index through a parent's index map.
pub fn get_vc_participant_idx(lc_idx: u8, m: &[u8; 2]) -> (r: Result<usize, Error>)
    ensures
        r is Ok <==> vc_map_idx(m@, lc_idx) >= 0,
        r is Ok ==> r->Ok_0 == vc_map_idx(m@, lc_idx) && r->Ok_0 < 2,
        r is Err ==> r == Err::<usize, Error>(Error::VCParticipantIdxNotFound),
{
    if m[0] == lc_idx {
        Ok(0)
    } else if m[1] == lc_idx {
        Ok(1)
    } else {
        Err(Error::VCParticipantIdxNotFound)
    }
}

/// The index of the first locked allocation with the given child id, or
/// the list length when there is none.
pub open spec fn locked_index_of(ls: Seq<SubAlloc>, id: Seq<u8>) -> int
    decreases ls.len(),
{
    if ls.len() == 0 {
        0
    } else if ls[0].id@ == id {
        0
    } else {
        1 + locked_index_of(ls.drop_first(), id)
    }
}

pub open spec fn has_locked_entry(ls: Seq<SubAlloc>, id: Seq<u8>) -> bool {
    locked_index_of(ls, id) < ls.len()
}

pub proof fn lemma_locked_index_of(ls: Seq<SubAlloc>, id: Seq<u8>)
    ensures
        0 <= locked_index_of(ls, id) <= ls.len(),
        has_locked_entry(ls, id) ==> ls[locked_index_of(ls, id)].id@ == id,
        forall|k: int| 0 <= k < locked_index_of(ls, id) ==> (#[trigger] ls[k]).id@ != id,
    decreases ls.len(),
{
    if ls.len() > 0 && ls[0].id@ != id {
        lemma_locked_index_of(ls.drop_first(), id);
        assert forall|k: int| 0 <= k < locked_index_of(ls, id) implies (#[trigger] ls[k]).id@
            != id by {
            if k > 0 {
                assert(ls.drop_first()[k - 1] == ls[k]);
            }
        }
    }
}

proof fn lemma_locked_index_found(ls: Seq<SubAlloc>, id: Seq<u8>, i: int)
    requires
        0 <= i < ls.len(),
        ls[i].id@ == id,
        forall|k: int| 0 <= k < i ==> (#[trigger] ls[k]).id@ != id,
    ensures
        locked_index_of(ls, id) == i,
    decreases i,
{
    if i > 0 {
        assert forall|k: int| 0 <= k < i - 1 implies (#[trigger] ls.drop_first()[k]).id@ != id by {
            assert(ls.drop_first()[k] == ls[k + 1]);
        }
        assert(ls.drop_first()[i - 1] == ls[i]);
        lemma_locked_index_found(ls.drop_first(), id, i - 1);
    }
}

/// The new status earmarks the virtual channel's funds: the first
/// locked allocation keyed by the virtual channel's id exists and its
/// balances equal the virtual channel's balances in every per-asset
/// sum.
pub open spec fn locked_funds_ok(ls: Seq<SubAlloc>, vcstate: ChannelState) -> bool {
    &&& has_locked_entry(ls, vcstate.channel_id@)
    &&& balances_equal_in_sum(ls[locked_index_of(ls, vcstate.channel_id@)].balances, vcstate.balances)
}

/// Rejects unless the ledger channel's new status locks the virtual
/// channel's balances under the virtual channel's id.
pub fn verify_locked_funds(
    new_status: &ChannelStatus,
    vc_status: &crate::records::VirtualChannelStatus,
) -> (r: Result<(), Error>)
    ensures
        r is Ok <==> locked_funds_ok(new_status.state.balances.locked@, vc_status.vcstate),
{
    proof {
        lemma_locked_index_of(new_status.state.balances.locked@, vc_status.vcstate.channel_id@);
    }
    let ls = &new_status.state.balances.locked;
    let n = ls.len();
    let mut i: usize = 0;
    while i < n
        invariant
            0 <= i <= n,
            n == ls@.len(),
            ls == new_status.state.balances.locked,
            forall|k: int| 0 <= k < i ==> (#[trigger] ls@[k]).id@ != vc_status.vcstate.channel_id@,
        decreases n - i,
    {
        if bytes_eq(ls[i].id.as_slice(), vc_status.vcstate.channel_id.as_slice()) {
            proof {
                lemma_locked_index_found(ls@, vc_status.vcstate.channel_id@, i as int);
            }
            if equal_in_sum(&ls[i].balances, &vc_status.vcstate.balances) {
                return Ok(());
            } else {
                return Err(Error::UnequalBalanceInLockedFundsAndVirtualChannelBalance);
            }
        }
        i += 1;
    }
    proof {
        lemma_locked_index_of(ls@, vc_status.vcstate.channel_id@);
    }
    Err(Error::FundsForVCNotLocked)
}

/// The payout rule when a virtual channel closes with its parent: each
/// ledger party is owed its ledger share plus the virtual channel share
/// of the party it maps to; the map is the parent entry naming this
/// channel.
pub open spec fn all_paid_vc_ok(
    bal: Balances,
    cap: u64,
    c: ChannelConstants,
    vc: crate::records::VirtualChannelStatus,
    tx: Transaction,
    own_hash: Seq<u8>,
) -> bool {
    let pi = parent_index_of(vc.parents@, own_hash);
    let m = vc.parents@[pi].idx_map@;
    let va = vc_map_idx(m, 0);
    let vb = vc_map_idx(m, 1);
    let reimburse = locked_ckbytes_sum(bal.sudts@);
    let ha = c.params.party_a.payment_script_hash@;
    let hb = c.params.party_b.payment_script_hash@;
    let vc_bal = vc.vcstate.balances;
    let n = tx.outputs@.len() as int;
    &&& has_parent(vc.parents@, own_hash)
    &&& va >= 0
    &&& vb >= 0
    &&& reimburse <= u64::MAX
    &&& pay_udt_outputs_valid(tx, ha, bal.sudts@)
    &&& pay_udt_outputs_valid(tx, hb, bal.sudts@)
    &&& {
        let owed_a = bal.ckbytes@[0] + cap + reimburse + vc_bal.ckbytes@[va];
        let owed_b = bal.ckbytes@[1] + reimburse + vc_bal.ckbytes@[vb];
        &&& owed_a <= u64::MAX
        &&& owed_b <= u64::MAX
        &&& (pay_ck_prefix(tx.outputs@, ha, n) >= owed_a || owed_a
            < c.params.party_a.payment_min_capacity)
        &&& (pay_ck_prefix(tx.outputs@, hb, n) >= owed_b || owed_b
            < c.params.party_b.payment_min_capacity)
    }
    &&& forall|a: int|
        0 <= a < bal.sudts@.len() ==> {
            let owed = (#[trigger] bal.sudts@[a]).distribution@[0] + crate::balances::vc_share(
                vc_bal.sudts@,
                va,
                bal.sudts@[a].type_script,
            );
            owed <= u128::MAX && pay_udt_prefix(tx.outputs@, ha, bal.sudts@, a, n) >= owed
        }
    &&& forall|a: int|
        0 <= a < bal.sudts@.len() ==> {
            let owed = (#[trigger] bal.sudts@[a]).distribution@[1] + crate::balances::vc_share(
                vc_bal.sudts@,
                vb,
                bal.sudts@[a].type_script,
            );
            owed <= u128::MAX && pay_udt_prefix(tx.outputs@, hb, bal.sudts@, a, n) >= owed
        }
}

/// Rejects unless every ledger party is paid its ledger share plus its
/// virtual channel share.
#[verifier::loop_isolation(false)]
pub fn verify_all_paid_vc(
    bal: &Balances,
    capacity: u64,
    c: &ChannelConstants,
    vc: &crate::records::VirtualChannelStatus,
    tx: &Transaction,
    own_hash: &Vec<u8>,
) -> (r: Result<(), Error>)
    ensures
        r is Ok <==> all_paid_vc_ok(*bal, capacity, *c, *vc, *tx, own_hash@),
{
    let pi = match find_parent(&vc.parents, own_hash) {
        Some(i) => i,
        None => {
            return Err(Error::InvalidVCParentData);
        },
    };
    let m = &vc.parents[pi].idx_map;
    let va = match get_vc_participant_idx(0, m) {
        Ok(v) => v,
        Err(e) => {
            return Err(e);
        },
    };
    let vb = match get_vc_participant_idx(1, m) {
        Ok(v) => v,
        Err(e) => {
            return Err(e);
        },
    };
    let reimburse = match get_locked_ckbytes(bal) {
        Some(l) => l,
        None => {
            return Err(Error::NotAllPaid);
        },
    };
    let ha = &c.params.party_a.payment_script_hash;
    let hb = &c.params.party_b.payment_script_hash;
    let vc_bal = &vc.vcstate.balances;
    let owed_a: u128 = bal.ckbytes[0] as u128 + capacity as u128 + reimburse as u128
        + vc_bal.ckbytes[va] as u128;
    let owed_b: u128 = bal.ckbytes[1] as u128 + reimburse as u128 + vc_bal.ckbytes[vb] as u128;
    // an owed total beyond the native word is a rejection
    if owed_a > u64::MAX as u128 || owed_b > u64::MAX as u128 {
        return Err(Error::NotAllPaid);
    }

    // typed outputs paid to a party must carry listed tokens
    let n = tx.outputs.len();
    let mut i: usize = 0;
    while i < n
        invariant
            0 <= i <= n,
            forall|j: int|
                0 <= j < i && (#[trigger] tx.outputs@[j]).lock_hash@ == ha@ ==> udt_output_ok(
                    tx.outputs@[j],
                    bal.sudts@,
                ),
            forall|j: int|
                0 <= j < i && (#[trigger] tx.outputs@[j]).lock_hash@ == hb@ ==> udt_output_ok(
                    tx.outputs@[j],
                    bal.sudts@,
                ),
        decreases n - i,
    {
        let o = &tx.outputs[i];
        if bytes_eq(o.lock_hash.as_slice(), ha.as_slice()) || bytes_eq(
            o.lock_hash.as_slice(),
            hb.as_slice(),
        ) {
            match &o.type_script {
                Some(ts) => {
                    match get_sudt_amount(&bal.sudts, ts, &o.data) {
                        Ok(_) => {},
                        Err(e) => {
                            return Err(e);
                        },
                    }
                },
                None => {},
            }
        }
        i += 1;
    }

    // native amounts
    let out_a = sum_pay_ck(tx, ha);
    let out_b = sum_pay_ck(tx, hb);
    if (owed_a > out_a && owed_a >= c.params.party_a.payment_min_capacity as u128) || (owed_b
        > out_b && owed_b >= c.params.party_b.payment_min_capacity as u128) {
        return Err(Error::NotAllPaid);
    }

    // token shares, with the virtual channel's additions
    let m2 = bal.sudts.len();
    let mut a: usize = 0;
    while a < m2
        invariant
            0 <= a <= m2,
            forall|k: int|
                0 <= k < a ==> {
                    let owed = (#[trigger] bal.sudts@[k]).distribution@[0]
                        + crate::balances::vc_share(vc_bal.sudts@, va as int, bal.sudts@[k].type_script);
                    owed <= u128::MAX && pay_udt_prefix(
                        tx.outputs@,
                        ha@,
                        bal.sudts@,
                        k,
                        tx.outputs@.len() as int,
                    ) >= owed
                },
            forall|k: int|
                0 <= k < a ==> {
                    let owed = (#[trigger] bal.sudts@[k]).distribution@[1]
                        + crate::balances::vc_share(vc_bal.sudts@, vb as int, bal.sudts@[k].type_script);
                    owed <= u128::MAX && pay_udt_prefix(
                        tx.outputs@,
                        hb@,
                        bal.sudts@,
                        k,
                        tx.outputs@.len() as int,
                    ) >= owed
                },
        decreases m2 - a,
    {
        let extra_a: u128 = match find_sudt(&vc_bal.sudts, &bal.sudts[a].type_script) {
            Some(j) => vc_bal.sudts[j].distribution[va],
            None => 0,
        };
        let owed_ua = match bal.sudts[a].distribution[0].checked_add(extra_a) {
            Some(o) => o,
            None => {
                return Err(Error::NotAllPaid);
            },
        };
        let got_a = sum_pay_udt(tx, ha, &bal.sudts, a);
        if got_a < owed_ua {
            return Err(Error::NotAllPaid);
        }
        let extra_b: u128 = match find_sudt(&vc_bal.sudts, &bal.sudts[a].type_script) {
            Some(j) => vc_bal.sudts[j].distribution[vb],
            None => 0,
        };
        let owed_ub = match bal.sudts[a].distribution[1].checked_add(extra_b) {
            Some(o) => o,
            None => {
                return Err(Error::NotAllPaid);
            },
        };
        let got_b = sum_pay_udt(tx, hb, &bal.sudts, a);
        if got_b < owed_ub {
            return Err(Error::NotAllPaid);
        }
        a += 1;
    }
    Ok(())
}

} // verus!

// The composite checks, one per action, and the dispatching entry.

verus! {

/// Everything an accepted opening satisfies: the thread token is
/// consumed, the channel id is the parameters' digest, the new cell is
/// guarded by the channel lock script, the parties differ, no funds
/// cells are consumed, the state fits a start, the first party funds
/// it, and the status is undisputed with an honest funded bit.
pub open spec fn valid_start(
    new_status: ChannelStatus,
    c: ChannelConstants,
    tx: Transaction,
    own_hash: Seq<u8>,
    out_idx: int,
) -> bool {
    &&& crate::tx::consumes_outpoint(tx, c.thread_token@)
    &&& channel_id_ok(new_status.state.channel_id@, c.params)
    &&& lock_script_valid(tx, out_idx, c)
    &&& c.params.party_a.payment_script_hash@ != c.params.party_b.payment_script_hash@
    &&& no_funds_in_inputs(tx, c)
    &&& state_valid_as_start(new_status.state, c.pfls_min_capacity)
    &&& funding_ok(0, new_status.state.balances, c, tx, own_hash)
    &&& funded_status_start_ok(new_status)
    &&& !new_status.disputed
    &&& !new_status.vc_disputed
}

/// Checks an opening.
pub fn check_valid_start(
    new_status: &ChannelStatus,
    c: &ChannelConstants,
    tx: &Transaction,
    own_hash: &Vec<u8>,
    out_idx: usize,
) -> (r: Result<(), Error>)
    requires
        out_idx < tx.outputs@.len(),
    ensures
        r is Ok <==> valid_start(*new_status, *c, *tx, own_hash@, out_idx as int),
{
    crate::tx::verify_thread_token_integrity(tx, &c.thread_token)?;
    verify_channel_id_integrity(&new_status.state.channel_id, &c.params)?;
    verify_valid_lock_script(tx, out_idx, c)?;
    verify_different_payment_addresses(c)?;
    verify_no_funds_in_inputs(tx, c)?;
    verify_state_valid_as_start(&new_status.state, c.pfls_min_capacity)?;
    verify_funding_in_outputs(0, &new_status.state.balances, c, tx, own_hash)?;
    verify_funded_status(new_status, true)?;
    verify_status_not_disputed(new_status)?;
    if new_status.vc_disputed {
        return Err(Error::StatusDisputed);
    }
    Ok(())
}

/// The state progression a dispute must make when the old status is not
/// in a virtual channel dispute.
pub open spec fn channel_state_progression(old_status: ChannelStatus, new_state: ChannelState) -> bool {
    &&& old_status.state.channel_id@ == new_state.channel_id@
    &&& version_increases(old_status, new_state)
    &&& balances_equal_in_sum(old_status.state.balances, new_state.balances)
    &&& !old_status.state.is_final
}

/// The state progression when the old status is in a virtual channel
/// dispute: the version need not strictly increase.
pub open spec fn vc_parent_state_progression(old_status: ChannelStatus, new_state: ChannelState) -> bool {
    &&& old_status.state.channel_id@ == new_state.channel_id@
    &&& old_status.state.version <= new_state.version
    &&& balances_equal_in_sum(old_status.state.balances, new_state.balances)
    &&& !old_status.state.is_final
}

/// Rejects unless the dispute progresses the channel state.
pub fn verify_channel_state_progression(
    old_status: &ChannelStatus,
    new_state: &ChannelState,
) -> (r: Result<(), Error>)
    ensures
        r is Ok <==> channel_state_progression(*old_status, *new_state),
{
    verify_equal_channel_id(&old_status.state, new_state)?;
    verify_increasing_version_number(old_status, new_state)?;
    verify_equal_sum_of_balances(&old_status.state.balances, &new_state.balances)?;
    verify_state_not_finalized(&old_status.state)?;
    Ok(())
}

/// Rejects unless the dispute progresses the state of a channel that is
/// in a virtual channel dispute.
pub fn verify_vc_parent_state_progression(
    old_status: &ChannelStatus,
    new_state: &ChannelState,
) -> (r: Result<(), Error>)
    ensures
        r is Ok <==> vc_parent_state_progression(*old_status, *new_state),
{
    verify_equal_channel_id(&old_status.state, new_state)?;
    verify_non_decreasing_version_number(old_status, new_state)?;
    verify_equal_sum_of_balances(&old_status.state.balances, &new_state.balances)?;
    verify_state_not_finalized(&old_status.state)?;
    Ok(())
}

/// A dispute: the state progresses (with the version rule selected by
/// the old status's virtual-dispute flag), the channel is funded, the
/// new status is disputed, and both parties signed the new state.
pub open spec fn normal_dispute_ok(
    old_status: ChannelStatus,
    new_status: ChannelStatus,
    c: ChannelConstants,
    sig_a: Seq<u8>,
    sig_b: Seq<u8>,
) -> bool {
    &&& if !old_status.vc_disputed {
        channel_state_progression(old_status, new_status.state)
    } else {
        vc_parent_state_progression(old_status, new_status.state)
    }
    &&& old_status.funded
    &&& new_status.disputed
    &&& state_sigs_ok(
        new_status.state,
        sig_a,
        sig_b,
        c.params.party_a.pub_key@,
        c.params.party_b.pub_key@,
    )
}

/// Checks a dispute's state progression, funding, flag and signatures.
pub fn check_normal_dispute(
    old_status: &ChannelStatus,
    new_status: &ChannelStatus,
    c: &ChannelConstants,
    d: &crate::records::DisputeSigs,
) -> (r: Result<(), Error>)
    ensures
        r is Ok <==> normal_dispute_ok(*old_status, *new_status, *c, d.sig_a@, d.sig_b@),
{
    if !old_status.vc_disputed {
        verify_channel_state_progression(old_status, &new_status.state)?;
    } else {
        verify_vc_parent_state_progression(old_status, &new_status.state)?;
    }
    verify_status_funded(old_status)?;
    verify_status_disputed(new_status)?;
    verify_valid_state_sigs(
        &d.sig_a,
        &d.sig_b,
        &new_status.state,
        &c.params.party_a.pub_key,
        &c.params.party_b.pub_key,
    )?;
    Ok(())
}

/// The extra rules of a virtual channel dispute: the old status was not
/// in one and the new one is, the created virtual channel cell names
/// this channel among its parents, and the new status locks the virtual
/// channel's balances.
pub open spec fn vc_dispute_ok(
    old_status: ChannelStatus,
    new_status: ChannelStatus,
    vc: VirtualChannelStatus,
    own_hash: Seq<u8>,
) -> bool {
    &&& !old_status.vc_disputed
    &&& new_status.vc_disputed
    &&& has_parent(vc.parents@, own_hash)
    &&& locked_funds_ok(new_status.state.balances.locked@, vc.vcstate)
}

/// Checks the extra rules of a virtual channel dispute; the virtual
/// channel cell's parsed status is handed in by the entry (`None` when
/// the outputs hold no parseable cell with the announced type hash).
pub fn check_vc_dispute(
    old_status: &ChannelStatus,
    new_status: &ChannelStatus,
    vc_cell: &Option<VirtualChannelStatus>,
    own_hash: &Vec<u8>,
) -> (r: Result<(), Error>)
    ensures
        r is Ok <==> vc_cell is Some && vc_dispute_ok(
            *old_status,
            *new_status,
            vc_cell->0,
            own_hash@,
        ),
{
    if old_status.vc_disputed || !new_status.vc_disputed {
        return Err(Error::InvalidVCTxStart);
    }
    let vc = match vc_cell {
        Some(vc) => vc,
        None => {
            return Err(Error::VCOutputCellMissingIngStartTx);
        },
    };
    match find_parent(&vc.parents, own_hash) {
        Some(_) => {},
        None => {
            return Err(Error::InvalidVCParentData);
        },
    }
    verify_locked_funds(new_status, vc)?;
    Ok(())
}

/// A progression: same channel id, no funds cells consumed, the lock
/// kept, and the witness-selected rules (funding or a dispute).
pub open spec fn valid_progress(
    old_status: ChannelStatus,
    new_status: ChannelStatus,
    w: ChannelWitness,
    vc_cell: Option<VirtualChannelStatus>,
    c: ChannelConstants,
    tx: Transaction,
    own_hash: Seq<u8>,
    in_idx: int,
    out_idx: int,
) -> bool {
    &&& old_status.state.channel_id@ == new_status.state.channel_id@
    &&& no_funds_in_inputs(tx, c)
    &&& channel_continues_locked(tx, in_idx, out_idx)
    &&& match w {
        ChannelWitness::Fund => {
            &&& state_eq(old_status.state, new_status.state)
            &&& !old_status.funded
            &&& funding_ok(1, old_status.state.balances, c, tx, own_hash)
            &&& !new_status.disputed
            &&& new_status.funded
        },
        ChannelWitness::Dispute(d) => normal_dispute_ok(
            old_status,
            new_status,
            c,
            d.sig_a@,
            d.sig_b@,
        ),
        ChannelWitness::VCDispute(v) => {
            &&& normal_dispute_ok(
                old_status,
                new_status,
                c,
                v.parent_sigs.sig_a@,
                v.parent_sigs.sig_b@,
            )
            &&& vc_cell is Some
            &&& vc_dispute_ok(old_status, new_status, vc_cell->0, own_hash)
        },
        ChannelWitness::Close(_) => false,
        ChannelWitness::ForceClose => false,
        ChannelWitness::Abort => false,
    }
}

/// Checks a progression.
pub fn check_valid_progress(
    old_status: &ChannelStatus,
    new_status: &ChannelStatus,
    w: &ChannelWitness,
    vc_cell: &Option<VirtualChannelStatus>,
    c: &ChannelConstants,
    tx: &Transaction,
    own_hash: &Vec<u8>,
    in_idx: usize,
    out_idx: usize,
) -> (r: Result<(), Error>)
    requires
        in_idx < tx.inputs@.len(),
        out_idx < tx.outputs@.len(),
    ensures
        r is Ok <==> valid_progress(
            *old_status,
            *new_status,
            *w,
            *vc_cell,
            *c,
            *tx,
            own_hash@,
            in_idx as int,
            out_idx as int,
        ),
{
    verify_equal_channel_id(&old_status.state, &new_status.state)?;
    verify_no_funds_in_inputs(tx, c)?;
    verify_channel_continues_locked(tx, in_idx, out_idx)?;
    match w {
        ChannelWitness::Fund => {
            if !crate::records::state_equal(&old_status.state, &new_status.state) {
                return Err(Error::ChannelStateNotEqual);
            }
            verify_status_not_funded(old_status)?;
            verify_funding_in_outputs(1, &old_status.state.balances, c, tx, own_hash)?;
            verify_status_not_disputed(new_status)?;
            verify_funded_status(new_status, false)?;
            Ok(())
        },
        ChannelWitness::Dispute(d) => check_normal_dispute(old_status, new_status, c, d),
        ChannelWitness::VCDispute(v) => {
            check_normal_dispute(old_status, new_status, c, &v.parent_sigs)?;
            check_vc_dispute(old_status, new_status, vc_cell, own_hash)
        },
        ChannelWitness::Close(_) => Err(Error::ChannelCloseWithChannelOutput),
        ChannelWitness::ForceClose => Err(Error::ChannelForceCloseWithChannelOutput),
        ChannelWitness::Abort => Err(Error::ChannelAbortWithChannelOutput),
    }
}

/// A forced close of a channel that is not in a virtual channel
/// dispute: funded, disputed, the challenge duration expired, and the
/// latest state paid out.
pub open spec fn normal_force_close_ok(
    old_status: ChannelStatus,
    c: ChannelConstants,
    tx: Transaction,
    in_idx: int,
) -> bool {
    &&& old_status.funded
    &&& crate::tx::time_lock_expired(tx, in_idx, c.params.challenge_duration)
    &&& old_status.disputed
    &&& all_paid_ok(old_status.state.balances, tx.inputs@[in_idx].capacity, c, false, tx)
}

/// Checks a forced close without a virtual channel.
pub fn check_normal_force_close(
    old_status: &ChannelStatus,
    c: &ChannelConstants,
    tx: &Transaction,
    in_idx: usize,
) -> (r: Result<(), Error>)
    requires
        in_idx < tx.inputs@.len(),
    ensures
        r is Ok <==> normal_force_close_ok(*old_status, *c, *tx, in_idx as int),
        old_status.funded && !crate::tx::time_lock_expired(
            *tx,
            in_idx as int,
            c.params.challenge_duration,
        ) ==> r == Err::<(), Error>(Error::TimeLockNotExpired),
{
    verify_status_funded(old_status)?;
    crate::tx::verify_time_lock_expired(tx, in_idx, c.params.challenge_duration)?;
    verify_status_disputed(old_status)?;
    verify_all_paid(&old_status.state.balances, tx.inputs[in_idx].capacity, c, false, tx)?;
    Ok(())
}

/// A forced close of a channel in a virtual channel dispute: the ledger
/// channel's rules, the virtual channel's challenge duration also
/// expired, and the composite payout.
pub open spec fn vc_force_close_ok(
    old_status: ChannelStatus,
    c: ChannelConstants,
    vc: VirtualChannelStatus,
    vcc: VCChannelConstants,
    tx: Transaction,
    in_idx: int,
    own_hash: Seq<u8>,
) -> bool {
    &&& old_status.funded
    &&& crate::tx::time_lock_expired(tx, in_idx, c.params.challenge_duration)
    &&& old_status.disputed
    &&& crate::tx::time_lock_expired(tx, in_idx, vcc.params.challenge_duration)
    &&& all_paid_vc_ok(
        old_status.state.balances,
        tx.inputs@[in_idx].capacity,
        c,
        vc,
        tx,
        own_hash,
    )
}

/// Checks a forced close that also settles a virtual channel.
pub fn check_vc_force_close(
    old_status: &ChannelStatus,
    c: &ChannelConstants,
    vc: &VirtualChannelStatus,
    vcc: &VCChannelConstants,
    tx: &Transaction,
    in_idx: usize,
    own_hash: &Vec<u8>,
) -> (r: Result<(), Error>)
    requires
        in_idx < tx.inputs@.len(),
    ensures
        r is Ok <==> vc_force_close_ok(
            *old_status,
            *c,
            *vc,
            *vcc,
            *tx,
            in_idx as int,
            own_hash@,
        ),
        old_status.funded && !crate::tx::time_lock_expired(
            *tx,
            in_idx as int,
            c.params.challenge_duration,
        ) ==> r == Err::<(), Error>(Error::TimeLockNotExpired),
{
    verify_status_funded(old_status)?;
    crate::tx::verify_time_lock_expired(tx, in_idx, c.params.challenge_duration)?;
    verify_status_disputed(old_status)?;
    crate::tx::verify_time_lock_expired(tx, in_idx, vcc.params.challenge_duration)?;
    verify_all_paid_vc(&old_status.state.balances, tx.inputs[in_idx].capacity, c, vc, tx, own_hash)?;
    Ok(())
}

/// A close: the witness-selected closing rules over the consumed
/// channel cell.
pub open spec fn valid_close(
    old_status: ChannelStatus,
    w: ChannelWitness,
    vc_status: Option<VirtualChannelStatus>,
    vc_consts: Option<VCChannelConstants>,
    c: ChannelConstants,
    tx: Transaction,
    in_idx: int,
    own_hash: Seq<u8>,
) -> bool {
    match w {
        ChannelWitness::Abort => {
            &&& !old_status.funded
            &&& all_paid_ok(old_status.state.balances, tx.inputs@[in_idx].capacity, c, true, tx)
        },
        ChannelWitness::ForceClose => {
            if old_status.vc_disputed {
                &&& vc_status is Some
                &&& vc_consts is Some
                &&& vc_force_close_ok(
                    old_status,
                    c,
                    vc_status->0,
                    vc_consts->0,
                    tx,
                    in_idx,
                    own_hash,
                )
            } else {
                normal_force_close_ok(old_status, c, tx, in_idx)
            }
        },
        ChannelWitness::Close(cl) => {
            &&& old_status.state.channel_id@ == cl.state.channel_id@
            &&& old_status.funded
            &&& cl.state.is_final
            &&& state_sigs_ok(
                cl.state,
                cl.sig_a@,
                cl.sig_b@,
                c.params.party_a.pub_key@,
                c.params.party_b.pub_key@,
            )
            &&& all_paid_ok(cl.state.balances, tx.inputs@[in_idx].capacity, c, false, tx)
        },
        ChannelWitness::Fund => false,
        ChannelWitness::Dispute(_) => false,
        ChannelWitness::VCDispute(_) => false,
    }
}

/// Checks a close. For a forced close of a channel in a virtual channel
/// dispute, the consumed virtual channel cell's parsed status and args
/// are handed in by the entry.
pub fn check_valid_close(
    old_status: &ChannelStatus,
    w: &ChannelWitness,
    vc_status: &Option<VirtualChannelStatus>,
    vc_consts: &Option<VCChannelConstants>,
    c: &ChannelConstants,
    tx: &Transaction,
    in_idx: usize,
    own_hash: &Vec<u8>,
) -> (r: Result<(), Error>)
    requires
        in_idx < tx.inputs@.len(),
    ensures
        r is Ok <==> valid_close(
            *old_status,
            *w,
            *vc_status,
            *vc_consts,
            *c,
            *tx,
            in_idx as int,
            own_hash@,
        ),
        (w is ForceClose && old_status.funded && (old_status.vc_disputed ==> vc_status is Some
            && vc_consts is Some) && !crate::tx::time_lock_expired(
            *tx,
            in_idx as int,
            c.params.challenge_duration,
        )) ==> r == Err::<(), Error>(Error::TimeLockNotExpired),
{
    let channel_capacity = tx.inputs[in_idx].capacity;
    match w {
        ChannelWitness::Abort => {
            verify_status_not_funded(old_status)?;
            verify_all_paid(&old_status.state.balances, channel_capacity, c, true, tx)?;
            Ok(())
        },
        ChannelWitness::ForceClose => {
            if old_status.vc_disputed {
                let vc = match vc_status {
                    Some(vc) => vc,
                    None => {
                        return Err(Error::VCInputCellMissingInClose1Tx);
                    },
                };
                let vcc = match vc_consts {
                    Some(vcc) => vcc,
                    None => {
                        return Err(Error::VCInputCellMissingInClose1Tx);
                    },
                };
                check_vc_force_close(old_status, c, vc, vcc, tx, in_idx, own_hash)
            } else {
                check_normal_force_close(old_status, c, tx, in_idx)
            }
        },
        ChannelWitness::Close(cl) => {
            verify_equal_channel_id(&old_status.state, &cl.state)?;
            verify_status_funded(old_status)?;
            verify_state_finalized(&cl.state)?;
            verify_valid_state_sigs(
                &cl.sig_a,
                &cl.sig_b,
                &cl.state,
                &c.params.party_a.pub_key,
                &c.params.party_b.pub_key,
            )?;
            verify_all_paid(&cl.state.balances, channel_capacity, c, false, tx)?;
            Ok(())
        },
        ChannelWitness::Fund => Err(Error::ChannelFundWithoutChannelOutput),
        ChannelWitness::Dispute(_) => Err(Error::ChannelDisputeWithoutChannelOutput),
        ChannelWitness::VCDispute(_) => Err(Error::VCDisputeWithoutChannelOutput),
    }
}

} // verus!

// The entry: parses the raw artifacts, classifies the action from the
// group cardinality, and dispatches.

verus! {

/// The bytes are the canonical encoding of the status.
pub open spec fn status_parses(bytes: Seq<u8>, s: ChannelStatus) -> bool {
    &&& crate::records::wf_status(s)
    &&& crate::codec::spec_ser_status(s) == bytes
}

/// The witness field is present and canonically encodes the witness.
pub open spec fn witness_parses(ob: Option<Vec<u8>>, w: ChannelWitness) -> bool {
    &&& ob is Some
    &&& crate::records::wf_witness(w)
    &&& crate::codec::spec_ser_witness(w) == ob->0@
}

/// The bytes are the canonical encoding of the virtual channel status.
pub open spec fn vc_status_parses(bytes: Seq<u8>, v: VirtualChannelStatus) -> bool {
    &&& crate::records::wf_vc_status(v)
    &&& crate::codec::spec_ser_vc_status(v) == bytes
}

/// Where a handed-in virtual channel status came from: an output cell
/// with the announced type hash whose data encodes it.
pub open spec fn vc_out_provenance(
    tx: Transaction,
    h: Seq<u8>,
    vco: Option<VirtualChannelStatus>,
) -> bool {
    match vco {
        Option::Some(v) => exists|j: int|
            #[trigger] crate::tx::output_in_group(tx, h, j) && vc_status_parses(
                tx.outputs@[j].data@,
                v,
            ),
        Option::None => true,
    }
}

/// Where a handed-in consumed virtual channel cell came from: an input
/// with the announced type hash whose data encodes the status and whose
/// type args encode the constants.
pub open spec fn vc_in_provenance(
    tx: Transaction,
    h: Seq<u8>,
    vso: Option<VirtualChannelStatus>,
    vcc: Option<VCChannelConstants>,
) -> bool {
    match vso {
        Option::Some(v) => exists|j: int|
            #[trigger] crate::tx::input_in_group(tx, h, j) && vc_status_parses(
                tx.inputs@[j].data@,
                v,
            ) && (vcc is Some ==> tx.inputs@[j].type_args is Some
                && crate::records::wf_vc_constants(vcc->0)
                && crate::codec::spec_ser_vc_constants(vcc->0) == tx.inputs@[j].type_args->0@),
        Option::None => vcc is None,
    }
}

pub open spec fn no_group_input(tx: Transaction, h: Seq<u8>) -> bool {
    forall|j: int| !crate::tx::input_in_group(tx, h, j)
}

pub open spec fn no_group_output(tx: Transaction, h: Seq<u8>) -> bool {
    forall|j: int| !crate::tx::output_in_group(tx, h, j)
}

/// Some interpretation of the group cells as an action passes that
/// action's rules.
pub open spec fn pcts_action_ok(c: ChannelConstants, tx: Transaction, h: Seq<u8>) -> bool {
    ||| exists|o: int, ns: ChannelStatus|
        {
            &&& #[trigger] valid_start(ns, c, tx, h, o)
            &&& crate::tx::output_in_group(tx, h, o)
            &&& status_parses(tx.outputs@[o].data@, ns)
            &&& no_group_input(tx, h)
        }
    ||| exists|
        i: int,
        o: int,
        os: ChannelStatus,
        ns: ChannelStatus,
        w: ChannelWitness,
        vco: Option<VirtualChannelStatus>,
    |
        {
            &&& #[trigger] valid_progress(os, ns, w, vco, c, tx, h, i, o)
            &&& crate::tx::input_in_group(tx, h, i)
            &&& crate::tx::output_in_group(tx, h, o)
            &&& status_parses(tx.inputs@[i].data@, os)
            &&& status_parses(tx.outputs@[o].data@, ns)
            &&& witness_parses(tx.inputs@[i].witness_input_type, w)
            &&& vc_out_provenance(tx, ns.vcts_hash@, vco)
        }
    ||| exists|
        i: int,
        os: ChannelStatus,
        w: ChannelWitness,
        vso: Option<VirtualChannelStatus>,
        vcc: Option<VCChannelConstants>,
    |
        {
            &&& #[trigger] valid_close(os, w, vso, vcc, c, tx, i, h)
            &&& crate::tx::input_in_group(tx, h, i)
            &&& no_group_output(tx, h)
            &&& status_parses(tx.inputs@[i].data@, os)
            &&& witness_parses(tx.inputs@[i].witness_input_type, w)
            &&& vc_in_provenance(tx, os.vcts_hash@, vso, vcc)
        }
}

/// What an accepting run of the validator guarantees: at most one
/// channel cell on each side, canonically parsed constants of the
/// supported shape, and an interpretation of the group cells that
/// passes the selected action's rules.
pub open spec fn pcts_accepts(tx: Transaction, h: Seq<u8>, args: Seq<u8>) -> bool {
    &&& crate::tx::at_most_one_group_cell(tx, h)
    &&& exists|c: ChannelConstants|
        {
            &&& #[trigger] crate::codec::spec_ser_constants(c) == args
            &&& crate::records::wf_constants(c)
            &&& params_compatible(c.params)
            &&& pcts_action_ok(c, tx, h)
        }
}

/// The channel type script: validates one transaction against this
/// channel's constants (the script args). Accepting implies that some
/// canonical reading of the group's cells passes the selected action's
/// rules; the structural rejections (empty args, more than one channel
/// cell, constants that are not a canonical encoding) are exact, and
/// each action's rules are decided exactly by the checks above, whose
/// contracts are two-sided.
pub fn pcts_validate(tx: &Transaction, own_script_hash: &Vec<u8>, args: &Vec<u8>) -> (r: Result<
    (),
    Error,
>)
    ensures
        r is Ok ==> pcts_accepts(*tx, own_script_hash@, args@),
        args@.len() == 0 ==> r == Err::<(), Error>(Error::NoArgs),
        args@.len() > 0 && !crate::tx::at_most_one_group_cell(*tx, own_script_hash@) ==> r
            == Err::<(), Error>(Error::MoreThanOneChannel),
        args@.len() > 0 && crate::tx::at_most_one_group_cell(*tx, own_script_hash@)
            && !crate::codec::parseable_constants(args@) ==> r == Err::<(), Error>(
            Error::Encoding,
        ),
{
    if args.len() == 0 {
        return Err(Error::NoArgs);
    }
    crate::tx::verify_max_one_channel(tx, own_script_hash)?;
    let c = match crate::codec::parse_channel_constants(args.as_slice()) {
        Some(c) => c,
        None => {
            return Err(Error::Encoding);
        },
    };
    verify_channel_params_compatibility(&c.params)?;
    let in_opt = crate::tx::find_input_by_type_hash(tx, own_script_hash);
    let out_opt = crate::tx::find_output_by_type_hash(tx, own_script_hash);
    match (in_opt, out_opt) {
        (None, Some(o)) => {
            let ns = match crate::codec::parse_channel_status(tx.outputs[o].data.as_slice()) {
                Some(s) => s,
                None => {
                    return Err(Error::UnableToLoadAnyChannelStatus);
                },
            };
            match check_valid_start(&ns, &c, tx, own_script_hash, o) {
                Ok(()) => {
                    proof {
                        assert(valid_start(ns, c, *tx, own_script_hash@, o as int));
                        assert(pcts_action_ok(c, *tx, own_script_hash@));
                        assert(crate::codec::spec_ser_constants(c) == args@);
                    }
                    Ok(())
                },
                Err(e) => Err(e),
            }
        },
        (Some(i), Some(o)) => {
            let os = match crate::codec::parse_channel_status(tx.inputs[i].data.as_slice()) {
                Some(s) => s,
                None => {
                    return Err(Error::UnableToLoadAnyChannelStatus);
                },
            };
            let ns = match crate::codec::parse_channel_status(tx.outputs[o].data.as_slice()) {
                Some(s) => s,
                None => {
                    return Err(Error::UnableToLoadAnyChannelStatus);
                },
            };
            let wb = match &tx.inputs[i].witness_input_type {
                Some(wb) => wb,
                None => {
                    return Err(Error::NoWitness);
                },
            };
            let w = match crate::codec::parse_channel_witness(wb.as_slice()) {
                Some(w) => w,
                None => {
                    return Err(Error::Encoding);
                },
            };
            let vc_cell: Option<VirtualChannelStatus> = match &w {
                ChannelWitness::VCDispute(_) => {
                    match crate::tx::find_output_by_type_hash(tx, &ns.vcts_hash) {
                        Some(j) => crate::codec::parse_virtual_channel_status(
                            tx.outputs[j].data.as_slice(),
                        ),
                        None => None,
                    }
                },
                _ => None,
            };
            match check_valid_progress(&os, &ns, &w, &vc_cell, &c, tx, own_script_hash, i, o) {
                Ok(()) => {
                    proof {
                        assert(valid_progress(
                            os,
                            ns,
                            w,
                            vc_cell,
                            c,
                            *tx,
                            own_script_hash@,
                            i as int,
                            o as int,
                        ));
                        assert(vc_out_provenance(*tx, ns.vcts_hash@, vc_cell));
                        assert(pcts_action_ok(c, *tx, own_script_hash@));
                        assert(crate::codec::spec_ser_constants(c) == args@);
                    }
                    Ok(())
                },
                Err(e) => Err(e),
            }
        },
        (Some(i), None) => {
            let os = match crate::codec::parse_channel_status(tx.inputs[i].data.as_slice()) {
                Some(s) => s,
                None => {
                    return Err(Error::UnableToLoadAnyChannelStatus);
                },
            };
            let wb = match &tx.inputs[i].witness_input_type {
                Some(wb) => wb,
                None => {
                    return Err(Error::NoWitness);
                },
            };
            let w = match crate::codec::parse_channel_witness(wb.as_slice()) {
                Some(w) => w,
                None => {
                    return Err(Error::Encoding);
                },
            };
            let mut vc_status: Option<VirtualChannelStatus> = None;
            let mut vc_consts: Option<VCChannelConstants> = None;
            let is_vc_force_close = old_is_vc_force_close(&os, &w);
            if is_vc_force_close {
                match crate::tx::find_input_by_type_hash(tx, &os.vcts_hash) {
                    Some(j) => {
                        vc_status = crate::codec::parse_virtual_channel_status(
                            tx.inputs[j].data.as_slice(),
                        );
                        if vc_status.is_some() {
                            match &tx.inputs[j].type_args {
                                Some(ta) => {
                                    vc_consts = crate::codec::parse_vc_channel_constants(
                                        ta.as_slice(),
                                    );
                                },
                                None => {},
                            }
                        }
                    },
                    None => {},
                }
            }
            match check_valid_close(
                &os,
                &w,
                &vc_status,
                &vc_consts,
                &c,
                tx,
                i,
                own_script_hash,
            ) {
                Ok(()) => {
                    proof {
                        assert(valid_close(
                            os,
                            w,
                            vc_status,
                            vc_consts,
                            c,
                            *tx,
                            i as int,
                            own_script_hash@,
                        ));
                        assert(vc_in_provenance(*tx, os.vcts_hash@, vc_status, vc_consts));
                        assert(pcts_action_ok(c, *tx, own_script_hash@));
                        assert(crate::codec::spec_ser_constants(c) == args@);
                    }
                    Ok(())
                },
                Err(e) => Err(e),
            }
        },
        (None, None) => Err(Error::UnableToLoadAnyChannelStatus),
    }
}

/// Whether the close consumes a virtual channel cell: the old status is
/// in a virtual channel dispute and the witness forces the close.
fn old_is_vc_force_close(os: &ChannelStatus, w: &ChannelWitness) -> (r: bool)
    ensures
        r <==> (os.vc_disputed && w is ForceClose),
{
    if os.vc_disputed {
        match w {
            ChannelWitness::ForceClose => true,
            _ => false,
        }
    } else {
        false
    }
}

} // verus!
