//! The virtual channel type script: guards the lifecycle of a virtual
//! channel cell and its cross-channel invariants.
//!
//! A virtual channel cell appears when a parent ledger channel is
//! disputed for it, can be re-registered with a newer state, merged
//! with its twin from the other parent, and is closed in two steps as
//! its parents force-close. The action is classified from the group
//! cardinality and the parent channel cell's witness.

use vstd::prelude::*;

use crate::balances::balances_equal_in_sum;
use crate::error::Error;
use crate::pcts::{
    channel_id_ok, pay_ck_prefix, state_sigs_ok, sum_pay_ck, verify_channel_id_integrity,
    verify_equal_sum_of_balances, verify_valid_state_sigs, vc_status_parses, witness_parses,
};
use crate::records::{
    ChannelParameters, ChannelWitness, Participant, VCChannelConstants, VirtualChannelStatus,
    parents_eq, state_eq, wf_vc_constants,
};
use crate::tx::{Transaction, input_in_group, output_in_group};
use crate::util::bytes_eq;

verus! {

/// The parameter shape this validator supports: no application, a
/// virtual channel and not a ledger one.
pub open spec fn vc_params_compatible(p: ChannelParameters) -> bool {
    &&& p.app is None
    &&& !p.is_ledger_channel
    &&& p.is_virtual_channel
}

/// Rejects parameters outside the supported shape.
pub fn verify_vchannel_params_compatibility(p: &ChannelParameters) -> (r: Result<(), Error>)
    ensures
        r is Ok <==> vc_params_compatible(*p),
{
    if p.app.is_some() {
        return Err(Error::AppChannelsNotSupported);
    }
    if p.is_ledger_channel {
        return Err(Error::WrongChannelType);
    }
    if !p.is_virtual_channel {
        return Err(Error::WrongChannelType);
    }
    Ok(())
}

/// Rejects unless the virtual channel's id is the digest of its
/// parameters.
pub fn verify_vchannel_id_integrity(channel_id: &Vec<u8>, p: &ChannelParameters) -> (r: Result<
    (),
    Error,
>)
    ensures
        r is Ok <==> channel_id_ok(channel_id@, *p),
        r is Err ==> r == Err::<(), Error>(Error::InvalidChannelId),
{
    verify_channel_id_integrity(channel_id, p)
}

/// Rejects unless old and new virtual channel states share a channel id.
pub fn verify_equal_channel_id_vc(
    old_vc: &VirtualChannelStatus,
    new_vc: &VirtualChannelStatus,
) -> (r: Result<(), Error>)
    ensures
        r is Ok <==> old_vc.vcstate.channel_id@ == new_vc.vcstate.channel_id@,
        r is Err ==> r == Err::<(), Error>(Error::ChannelIdMismatch),
{
    if bytes_eq(old_vc.vcstate.channel_id.as_slice(), new_vc.vcstate.channel_id.as_slice()) {
        Ok(())
    } else {
        Err(Error::ChannelIdMismatch)
    }
}

/// Rejects a version decrease.
pub fn verify_non_decreasing_version_number_vc(
    old_vc: &VirtualChannelStatus,
    new_vc: &VirtualChannelStatus,
) -> (r: Result<(), Error>)
    ensures
        r is Ok <==> old_vc.vcstate.version <= new_vc.vcstate.version,
        r is Err ==> r == Err::<(), Error>(Error::InvalidVersionNumberVCProgressTx),
{
    if old_vc.vcstate.version > new_vc.vcstate.version {
        Err(Error::InvalidVersionNumberVCProgressTx)
    } else {
        Ok(())
    }
}

/// Rejects a status whose first-force-close flag is set.
pub fn verify_first_forced_closed_flag_not_set(vc: &VirtualChannelStatus) -> (r: Result<(), Error>)
    ensures
        r is Ok <==> !vc.first_force_close,
        r is Err ==> r == Err::<(), Error>(Error::FirstForceCloseFlagSet),
{
    if vc.first_force_close {
        Err(Error::FirstForceCloseFlagSet)
    } else {
        Ok(())
    }
}

/// Rejects a status whose first-force-close flag is not set.
pub fn verify_first_forced_closed_flag_set(vc: &VirtualChannelStatus) -> (r: Result<(), Error>)
    ensures
        r is Ok <==> vc.first_force_close,
        r is Err ==> r == Err::<(), Error>(Error::FirstForceCloseFlagNotSet),
{
    if vc.first_force_close {
        Ok(())
    } else {
        Err(Error::FirstForceCloseFlagNotSet)
    }
}

/// Two virtual channel statuses agree in every field but the owner.
pub open spec fn vc_status_core_eq(a: VirtualChannelStatus, b: VirtualChannelStatus) -> bool {
    &&& state_eq(a.vcstate, b.vcstate)
    &&& parents_eq(a.parents@, b.parents@)
    &&& a.first_force_close == b.first_force_close
}

/// Rejects unless the two statuses agree in every field but the owner.
pub fn verify_equal_vc_status(
    a: &VirtualChannelStatus,
    b: &VirtualChannelStatus,
) -> (r: Result<(), Error>)
    ensures
        r is Ok <==> vc_status_core_eq(*a, *b),
        r is Err ==> r == Err::<(), Error>(Error::InvalidVCMergeTx),
{
    if !crate::records::state_equal(&a.vcstate, &b.vcstate) {
        return Err(Error::InvalidVCMergeTx);
    }
    if !crate::records::parents_equal(&a.parents, &b.parents) {
        return Err(Error::InvalidVCMergeTx);
    }
    if a.first_force_close != b.first_force_close {
        return Err(Error::InvalidVCMergeTx);
    }
    Ok(())
}

/// The new virtual channel cell is guarded by the virtual channel lock
/// script named in the constants.
pub open spec fn always_success_lock_ok(
    tx: Transaction,
    out_idx: int,
    vcc: VCChannelConstants,
) -> bool {
    tx.outputs@[out_idx].lock_hash@ == vcc.vcls_code_hash@
}

/// Rejects unless the new virtual channel cell carries the declared
/// lock hash.
pub fn verify_always_success_lock_script(
    tx: &Transaction,
    out_idx: usize,
    vcc: &VCChannelConstants,
) -> (r: Result<(), Error>)
    requires
        out_idx < tx.outputs@.len(),
    ensures
        r is Ok <==> always_success_lock_ok(*tx, out_idx as int, *vcc),
        r is Err ==> r == Err::<(), Error>(Error::InvalidVCLockScript),
{
    if bytes_eq(tx.outputs[out_idx].lock_hash.as_slice(), vcc.vcls_code_hash.as_slice()) {
        Ok(())
    } else {
        Err(Error::InvalidVCLockScript)
    }
}

/// Some input belongs to the owner's payment lock.
pub open spec fn owner_has_input(tx: Transaction, owner: Participant) -> bool {
    exists|i: int|
        0 <= i < tx.inputs@.len() && (#[trigger] tx.inputs@[i]).lock_hash@
            == owner.payment_script_hash@
}

/// Rejects unless an input belongs to the owner opening the cell.
pub fn verify_owner_lock(tx: &Transaction, owner: &Participant) -> (r: Result<(), Error>)
    ensures
        r is Ok <==> owner_has_input(*tx, *owner),
        r is Err ==> r == Err::<(), Error>(Error::InvalidVCTxStart),
{
    let n = tx.inputs.len();
    let mut i: usize = 0;
    while i < n
        invariant
            0 <= i <= n,
            n == tx.inputs@.len(),
            forall|j: int|
                0 <= j < i ==> (#[trigger] tx.inputs@[j]).lock_hash@
                    != owner.payment_script_hash@,
        decreases n - i,
    {
        if bytes_eq(tx.inputs[i].lock_hash.as_slice(), owner.payment_script_hash.as_slice()) {
            return Ok(());
        }
        i += 1;
    }
    Err(Error::InvalidVCTxStart)
}

pub open spec fn hash_in_inputs(tx: Transaction, h: Seq<u8>) -> bool {
    exists|i: int| input_in_group(tx, h, i)
}

pub open spec fn hash_in_outputs(tx: Transaction, h: Seq<u8>) -> bool {
    exists|i: int| output_in_group(tx, h, i)
}

/// Exactly one of the two parents appears, and it appears on both
/// sides: its channel cell is consumed and recreated; the other parent
/// is untouched.
pub open spec fn max_one_parent_ok(tx: Transaction, vc: VirtualChannelStatus) -> bool {
    &&& vc.parents@.len() >= 2
    &&& {
        let h0 = vc.parents@[0].pcts_hash@;
        let h1 = vc.parents@[1].pcts_hash@;
        ||| (hash_in_inputs(tx, h0) && hash_in_outputs(tx, h0) && !hash_in_inputs(tx, h1)
            && !hash_in_outputs(tx, h1))
        ||| (hash_in_inputs(tx, h1) && hash_in_outputs(tx, h1) && !hash_in_inputs(tx, h0)
            && !hash_in_outputs(tx, h0))
    }
}

/// Rejects unless exactly one parent channel cell is consumed and
/// recreated, the other touched on neither side.
pub fn verify_max_one_parent(tx: &Transaction, vc: &VirtualChannelStatus) -> (r: Result<(), Error>)
    ensures
        r is Ok <==> max_one_parent_ok(*tx, *vc),
{
    if vc.parents.len() < 2 {
        return Err(Error::ParentPCTSHashNotFound);
    }
    let h0 = &vc.parents[0].pcts_hash;
    let h1 = &vc.parents[1].pcts_hash;
    let in0 = crate::tx::find_input_by_type_hash(tx, h0).is_some();
    let in1 = crate::tx::find_input_by_type_hash(tx, h1).is_some();
    let out0 = crate::tx::find_output_by_type_hash(tx, h0).is_some();
    let out1 = crate::tx::find_output_by_type_hash(tx, h1).is_some();
    if in0 && out0 && !in1 && !out1 {
        return Ok(());
    }
    if in1 && out1 && !in0 && !out0 {
        return Ok(());
    }
    if in0 == in1 {
        return Err(Error::InvalidVCTxStart);
    }
    if (in0 && !out0) || (in1 && !out1) {
        return Err(Error::ParentNotFoundInOutputs);
    }
    Err(Error::InvalidVCTxStart)
}

/// The parent channel's witness registers this virtual channel: it is a
/// virtual channel dispute whose signatures verify over the new state.
pub open spec fn vc_sigs_start_ok(
    vc: VirtualChannelStatus,
    p: ChannelParameters,
    pw: Option<ChannelWitness>,
) -> bool {
    match pw {
        Option::Some(ChannelWitness::VCDispute(v)) => state_sigs_ok(
            vc.vcstate,
            v.sig_a@,
            v.sig_b@,
            p.party_a.pub_key@,
            p.party_b.pub_key@,
        ),
        _ => false,
    }
}

/// Rejects unless the parent's witness is a virtual channel dispute
/// with both signatures valid over the new virtual channel state.
pub fn verify_vc_sigs_start(
    vc: &VirtualChannelStatus,
    p: &ChannelParameters,
    pw: &Option<ChannelWitness>,
) -> (r: Result<(), Error>)
    ensures
        r is Ok <==> vc_sigs_start_ok(*vc, *p, *pw),
{
    let w = match pw {
        Some(w) => w,
        None => {
            return Err(Error::NoWitness);
        },
    };
    match w {
        ChannelWitness::VCDispute(v) => {
            verify_valid_state_sigs(
                &v.sig_a,
                &v.sig_b,
                &vc.vcstate,
                &p.party_a.pub_key,
                &p.party_b.pub_key,
            )?;
            Ok(())
        },
        _ => Err(Error::InvalidVCTxStart),
    }
}

/// The virtual channel cell's own witness carries a dispute whose
/// signatures verify over the new state.
pub open spec fn vc_sigs_progress_ok(
    new_vc: VirtualChannelStatus,
    p: ChannelParameters,
    own_w: Option<ChannelWitness>,
) -> bool {
    match own_w {
        Option::Some(ChannelWitness::Dispute(d)) => state_sigs_ok(
            new_vc.vcstate,
            d.sig_a@,
            d.sig_b@,
            p.party_a.pub_key@,
            p.party_b.pub_key@,
        ),
        _ => false,
    }
}

/// Rejects unless the cell's own witness is a dispute with both
/// signatures valid over the new virtual channel state.
pub fn verify_vc_sigs_progress(
    new_vc: &VirtualChannelStatus,
    p: &ChannelParameters,
    own_w: &Option<ChannelWitness>,
) -> (r: Result<(), Error>)
    ensures
        r is Ok <==> vc_sigs_progress_ok(*new_vc, *p, *own_w),
{
    let w = match own_w {
        Some(w) => w,
        None => {
            return Err(Error::NoWitness);
        },
    };
    match w {
        ChannelWitness::Dispute(d) => {
            verify_valid_state_sigs(
                &d.sig_a,
                &d.sig_b,
                &new_vc.vcstate,
                &p.party_a.pub_key,
                &p.party_b.pub_key,
            )?;
            Ok(())
        },
        _ => Err(Error::InvalidVCTx),
    }
}

/// The parent channel cell is being force-closed.
pub open spec fn parent_in_force_close_ok(pw: Option<ChannelWitness>) -> bool {
    pw is Some && pw->0 is ForceClose
}

/// Rejects unless the parent's witness forces the close.
pub fn verify_parent_in_force_close(pw: &Option<ChannelWitness>) -> (r: Result<(), Error>)
    ensures
        r is Ok <==> parent_in_force_close_ok(*pw),
{
    match pw {
        Some(ChannelWitness::ForceClose) => Ok(()),
        Some(_) => Err(Error::ParentNotInForceClose),
        None => Err(Error::NoWitness),
    }
}

// --- composite checks ---

/// A virtual channel registration: the id is the parameters' digest,
/// the parent's dispute signs the state, the flag is clear, the cell is
/// guarded by the declared lock, the owner funds the cell, and exactly
/// one parent progresses.
pub open spec fn valid_vc_start(
    vc: VirtualChannelStatus,
    vcc: VCChannelConstants,
    tx: Transaction,
    parent_w: Option<ChannelWitness>,
    out_idx: int,
) -> bool {
    &&& channel_id_ok(vc.vcstate.channel_id@, vcc.params)
    &&& vc_sigs_start_ok(vc, vcc.params, parent_w)
    &&& !vc.first_force_close
    &&& always_success_lock_ok(tx, out_idx, vcc)
    &&& owner_has_input(tx, vc.owner)
    &&& max_one_parent_ok(tx, vc)
}

/// Checks a virtual channel registration.
pub fn check_valid_vc_start(
    vc: &VirtualChannelStatus,
    vcc: &VCChannelConstants,
    tx: &Transaction,
    parent_w: &Option<ChannelWitness>,
    out_idx: usize,
) -> (r: Result<(), Error>)
    requires
        out_idx < tx.outputs@.len(),
    ensures
        r is Ok <==> valid_vc_start(*vc, *vcc, *tx, *parent_w, out_idx as int),
{
    verify_vchannel_id_integrity(&vc.vcstate.channel_id, &vcc.params)?;
    verify_vc_sigs_start(vc, &vcc.params, parent_w)?;
    verify_first_forced_closed_flag_not_set(vc)?;
    verify_always_success_lock_script(tx, out_idx, vcc)?;
    verify_owner_lock(tx, &vc.owner)?;
    verify_max_one_parent(tx, vc)?;
    Ok(())
}

/// A virtual channel progression: same id, flag clear, version
/// non-decreasing; a strict increase needs fresh signatures and equal
/// per-asset sums, an equal version re-registers the same status (the
/// owner may change).
pub open spec fn valid_vc_progress(
    old_vc: VirtualChannelStatus,
    new_vc: VirtualChannelStatus,
    vcc: VCChannelConstants,
    own_w: Option<ChannelWitness>,
) -> bool {
    &&& old_vc.vcstate.channel_id@ == new_vc.vcstate.channel_id@
    &&& !new_vc.first_force_close
    &&& old_vc.vcstate.version <= new_vc.vcstate.version
    &&& (old_vc.vcstate.version < new_vc.vcstate.version ==> vc_sigs_progress_ok(
        new_vc,
        vcc.params,
        own_w,
    ) && balances_equal_in_sum(old_vc.vcstate.balances, new_vc.vcstate.balances))
    &&& (old_vc.vcstate.version == new_vc.vcstate.version ==> vc_status_core_eq(old_vc, new_vc))
}

/// Checks a virtual channel progression.
pub fn check_valid_vc_progress(
    old_vc: &VirtualChannelStatus,
    new_vc: &VirtualChannelStatus,
    vcc: &VCChannelConstants,
    own_w: &Option<ChannelWitness>,
) -> (r: Result<(), Error>)
    ensures
        r is Ok <==> valid_vc_progress(*old_vc, *new_vc, *vcc, *own_w),
{
    verify_equal_channel_id_vc(old_vc, new_vc)?;
    verify_first_forced_closed_flag_not_set(new_vc)?;
    verify_non_decreasing_version_number_vc(old_vc, new_vc)?;
    if old_vc.vcstate.version < new_vc.vcstate.version {
        verify_vc_sigs_progress(new_vc, &vcc.params, own_w)?;
        verify_equal_sum_of_balances(&old_vc.vcstate.balances, &new_vc.vcstate.balances)?;
    }
    if old_vc.vcstate.version == new_vc.vcstate.version {
        verify_equal_vc_status(old_vc, new_vc)?;
    }
    Ok(())
}

/// The discarded cell's capacity goes back to its owner exactly once:
/// one output carries the owner's payment lock, and its capacity is the
/// discarded cell's.
pub open spec fn rent_payout_merge_ok(tx: Transaction, h: Seq<u8>, cap: u64) -> bool {
    exists|j: int|
        {
            &&& 0 <= j < tx.outputs@.len()
            &&& (#[trigger] tx.outputs@[j]).lock_hash@ == h
            &&& tx.outputs@[j].capacity == cap
            &&& forall|k: int|
                0 <= k < tx.outputs@.len() && k != j ==> (#[trigger] tx.outputs@[k]).lock_hash@
                    != h
        }
}

/// Rejects unless the owner is refunded the discarded cell's capacity
/// in exactly one output.
pub fn verify_vc_rent_payout_merge(tx: &Transaction, owner_hash: &Vec<u8>, cap: u64) -> (r: Result<
    (),
    Error,
>)
    ensures
        r is Ok <==> rent_payout_merge_ok(*tx, owner_hash@, cap),
{
    let n = tx.outputs.len();
    let mut i: usize = 0;
    let mut found: usize = 0;
    let mut count: usize = 0;
    while i < n
        invariant
            0 <= i <= n,
            n == tx.outputs@.len(),
            count <= i,
            count > 0 ==> found < i && tx.outputs@[found as int].lock_hash@ == owner_hash@,
            count == 0 ==> forall|k: int|
                0 <= k < i ==> (#[trigger] tx.outputs@[k]).lock_hash@ != owner_hash@,
            count == 1 ==> forall|k: int|
                0 <= k < i && k != found ==> (#[trigger] tx.outputs@[k]).lock_hash@ != owner_hash@,
            count >= 2 ==> exists|k1: int, k2: int|
                0 <= k1 < i && 0 <= k2 < i && k1 != k2 && (#[trigger] tx.outputs@[k1]).lock_hash@
                    == owner_hash@ && (#[trigger] tx.outputs@[k2]).lock_hash@ == owner_hash@,
        decreases n - i,
    {
        if bytes_eq(tx.outputs[i].lock_hash.as_slice(), owner_hash.as_slice()) {
            if count == 0 {
                found = i;
            }
            count = match count.checked_add(1) {
                Some(c) => c,
                None => {
                    return Err(Error::NoVCRentPayoutCell);
                },
            };
        }
        i += 1;
    }
    if count != 1 {
        return Err(Error::NoVCRentPayoutCell);
    }
    if tx.outputs[found].capacity != cap {
        return Err(Error::InvalidVCRentPayoutCell);
    }
    Ok(())
}

/// A merge: both consumed cells carry headers; the one attached to the
/// older block is kept (ties keep the first); the output equals the
/// kept status but for the owner, and the discarded cell's capacity is
/// refunded to its owner exactly once.
pub open spec fn valid_vc_merge(
    s1: VirtualChannelStatus,
    s2: VirtualChannelStatus,
    m: VirtualChannelStatus,
    tx: Transaction,
    i1: int,
    i2: int,
) -> bool {
    &&& tx.inputs@[i1].header is Some
    &&& tx.inputs@[i2].header is Some
    &&& {
        let keep_first = tx.inputs@[i1].header->0.number <= tx.inputs@[i2].header->0.number;
        let kept = if keep_first {
            s1
        } else {
            s2
        };
        let disc = if keep_first {
            s2
        } else {
            s1
        };
        let disc_idx = if keep_first {
            i2
        } else {
            i1
        };
        &&& vc_status_core_eq(kept, m)
        &&& rent_payout_merge_ok(tx, disc.owner.payment_script_hash@, tx.inputs@[disc_idx].capacity)
    }
}

/// Checks a merge of two virtual channel cells.
pub fn check_valid_vc_merge(
    s1: &VirtualChannelStatus,
    s2: &VirtualChannelStatus,
    m: &VirtualChannelStatus,
    tx: &Transaction,
    i1: usize,
    i2: usize,
) -> (r: Result<(), Error>)
    requires
        i1 < tx.inputs@.len(),
        i2 < tx.inputs@.len(),
    ensures
        r is Ok <==> valid_vc_merge(*s1, *s2, *m, *tx, i1 as int, i2 as int),
{
    let n1 = match &tx.inputs[i1].header {
        Some(h) => h.number,
        None => {
            return Err(Error::ItemMissing);
        },
    };
    let n2 = match &tx.inputs[i2].header {
        Some(h) => h.number,
        None => {
            return Err(Error::ItemMissing);
        },
    };
    if n1 <= n2 {
        verify_equal_vc_status(s1, m)?;
        verify_vc_rent_payout_merge(tx, &s2.owner.payment_script_hash, tx.inputs[i2].capacity)?;
    } else {
        verify_equal_vc_status(s2, m)?;
        verify_vc_rent_payout_merge(tx, &s1.owner.payment_script_hash, tx.inputs[i1].capacity)?;
    }
    Ok(())
}

/// The first closing step: the parent force-closes, the flag flips from
/// clear to set, and the state and parents are kept.
pub open spec fn valid_vc_close1(
    in_vc: VirtualChannelStatus,
    out_vc: VirtualChannelStatus,
    pw: Option<ChannelWitness>,
) -> bool {
    &&& parent_in_force_close_ok(pw)
    &&& !in_vc.first_force_close
    &&& out_vc.first_force_close
    &&& state_eq(in_vc.vcstate, out_vc.vcstate)
    &&& parents_eq(in_vc.parents@, out_vc.parents@)
}

/// Checks the first closing step.
pub fn check_valid_close1(
    in_vc: &VirtualChannelStatus,
    out_vc: &VirtualChannelStatus,
    pw: &Option<ChannelWitness>,
) -> (r: Result<(), Error>)
    ensures
        r is Ok <==> valid_vc_close1(*in_vc, *out_vc, *pw),
{
    verify_parent_in_force_close(pw)?;
    verify_first_forced_closed_flag_not_set(in_vc)?;
    verify_first_forced_closed_flag_set(out_vc)?;
    if !crate::records::state_equal(&in_vc.vcstate, &out_vc.vcstate) {
        return Err(Error::InvalidVCClose1Tx);
    }
    if !crate::records::parents_equal(&in_vc.parents, &out_vc.parents) {
        return Err(Error::InvalidVCClose1Tx);
    }
    Ok(())
}

/// The consumed virtual channel cell's capacity reaches the owner: some
/// output carries the owner's payment lock, and the capacities paid to
/// it cover the cell's.
pub open spec fn rent_payout_close2_ok(tx: Transaction, h: Seq<u8>, cap: u64) -> bool {
    &&& exists|j: int|
        0 <= j < tx.outputs@.len() && (#[trigger] tx.outputs@[j]).lock_hash@ == h
    &&& pay_ck_prefix(tx.outputs@, h, tx.outputs@.len() as int) >= cap
}

/// Rejects unless the owner receives at least the consumed cell's
/// capacity.
pub fn verify_vc_rent_payout_close2(tx: &Transaction, owner_hash: &Vec<u8>, cap: u64) -> (r:
    Result<(), Error>)
    ensures
        r is Ok <==> rent_payout_close2_ok(*tx, owner_hash@, cap),
{
    match crate::tx::find_output_by_lock_hash(tx, owner_hash) {
        Some(_) => {},
        None => {
            return Err(Error::NoVCRentPayoutCell);
        },
    }
    let total = sum_pay_ck(tx, owner_hash);
    if total < cap as u128 {
        return Err(Error::InvalidVCRentPayoutCell);
    }
    Ok(())
}

/// The second closing step: the other parent force-closes, the flag was
/// already set, and the owner is refunded the cell's capacity.
pub open spec fn valid_vc_close2(
    in_vc: VirtualChannelStatus,
    pw: Option<ChannelWitness>,
    tx: Transaction,
    vc_in_idx: int,
) -> bool {
    &&& parent_in_force_close_ok(pw)
    &&& in_vc.first_force_close
    &&& rent_payout_close2_ok(tx, in_vc.owner.payment_script_hash@, tx.inputs@[vc_in_idx].capacity)
}

/// Checks the second closing step.
pub fn check_valid_close2(
    in_vc: &VirtualChannelStatus,
    pw: &Option<ChannelWitness>,
    tx: &Transaction,
    vc_in_idx: usize,
) -> (r: Result<(), Error>)
    requires
        vc_in_idx < tx.inputs@.len(),
    ensures
        r is Ok <==> valid_vc_close2(*in_vc, *pw, *tx, vc_in_idx as int),
{
    verify_parent_in_force_close(pw)?;
    verify_first_forced_closed_flag_set(in_vc)?;
    verify_vc_rent_payout_close2(
        tx,
        &in_vc.owner.payment_script_hash,
        tx.inputs[vc_in_idx].capacity,
    )?;
    Ok(())
}

/// Finds the consumed parent channel cell: the first input whose type
/// hash is the first parent's, or, when the first parent is absent, the
/// first input whose type hash is the second parent's. Rejects a parent
/// list that is not a pair, and a transaction that consumes neither
/// parent.
pub fn get_parent_of_vc_input(tx: &Transaction, vc: &VirtualChannelStatus) -> (r: Result<
    usize,
    Error,
>)
    ensures
        vc.parents@.len() != 2 ==> r == Err::<usize, Error>(Error::InvalidParentsCountForVC),
        vc.parents@.len() == 2 ==> match r {
            Ok(i) => {
                let h0 = vc.parents@[0].pcts_hash@;
                let h1 = vc.parents@[1].pcts_hash@;
                ||| (input_in_group(*tx, h0, i as int) && forall|j: int|
                    0 <= j < i ==> !input_in_group(*tx, h0, j))
                ||| ((forall|j: int| !input_in_group(*tx, h0, j)) && input_in_group(
                    *tx,
                    h1,
                    i as int,
                ) && forall|j: int| 0 <= j < i ==> !input_in_group(*tx, h1, j))
            },
            Err(e) => e == Error::ParentsOfVCNotFound && (forall|j: int|
                !input_in_group(*tx, vc.parents@[0].pcts_hash@, j)) && (forall|j: int|
                !input_in_group(*tx, vc.parents@[1].pcts_hash@, j)),
        },
{
    if vc.parents.len() != 2 {
        return Err(Error::InvalidParentsCountForVC);
    }
    match crate::tx::find_input_by_type_hash(tx, &vc.parents[0].pcts_hash) {
        Some(i) => Ok(i),
        None => match crate::tx::find_input_by_type_hash(tx, &vc.parents[1].pcts_hash) {
            Some(i) => Ok(i),
            None => Err(Error::ParentsOfVCNotFound),
        },
    }
}

/// Finds the recreated parent channel cell, with the same selection
/// order as the input-side finder.
pub fn get_parent_of_vc_output(tx: &Transaction, vc: &VirtualChannelStatus) -> (r: Result<
    usize,
    Error,
>)
    ensures
        vc.parents@.len() != 2 ==> r == Err::<usize, Error>(Error::InvalidParentsCountForVC),
        vc.parents@.len() == 2 ==> match r {
            Ok(i) => {
                let h0 = vc.parents@[0].pcts_hash@;
                let h1 = vc.parents@[1].pcts_hash@;
                ||| (output_in_group(*tx, h0, i as int) && forall|j: int|
                    0 <= j < i ==> !output_in_group(*tx, h0, j))
                ||| ((forall|j: int| !output_in_group(*tx, h0, j)) && output_in_group(
                    *tx,
                    h1,
                    i as int,
                ) && forall|j: int| 0 <= j < i ==> !output_in_group(*tx, h1, j))
            },
            Err(e) => e == Error::ParentsOfVCNotFound && (forall|j: int|
                !output_in_group(*tx, vc.parents@[0].pcts_hash@, j)) && (forall|j: int|
                !output_in_group(*tx, vc.parents@[1].pcts_hash@, j)),
        },
{
    if vc.parents.len() != 2 {
        return Err(Error::InvalidParentsCountForVC);
    }
    match crate::tx::find_output_by_type_hash(tx, &vc.parents[0].pcts_hash) {
        Some(i) => Ok(i),
        None => match crate::tx::find_output_by_type_hash(tx, &vc.parents[1].pcts_hash) {
            Some(i) => Ok(i),
            None => Err(Error::ParentsOfVCNotFound),
        },
    }
}

} // verus!

// The entry: parses the raw artifacts, classifies the action from the
// group cardinality and the parent's witness, and dispatches.

verus! {

/// Where a handed-in parent witness came from: the witness field of a
/// consumed parent channel cell.
pub open spec fn parent_witness_provenance(
    tx: Transaction,
    vc: VirtualChannelStatus,
    pw: Option<ChannelWitness>,
) -> bool {
    match pw {
        Option::Some(w) => vc.parents@.len() == 2 && exists|p: int|
            #![trigger tx.inputs@[p].witness_input_type]
            {
                &&& (input_in_group(tx, vc.parents@[0].pcts_hash@, p) || input_in_group(
                    tx,
                    vc.parents@[1].pcts_hash@,
                    p,
                ))
                &&& witness_parses(tx.inputs@[p].witness_input_type, w)
            },
        Option::None => true,
    }
}

/// Some interpretation of the group cells as an action passes that
/// action's rules.
pub open spec fn vcts_action_ok(c: VCChannelConstants, tx: Transaction, h: Seq<u8>) -> bool {
    ||| exists|o: int, v: VirtualChannelStatus, pw: Option<ChannelWitness>|
        {
            &&& #[trigger] valid_vc_start(v, c, tx, pw, o)
            &&& output_in_group(tx, h, o)
            &&& vc_status_parses(tx.outputs@[o].data@, v)
            &&& crate::pcts::no_group_input(tx, h)
            &&& parent_witness_provenance(tx, v, pw)
        }
    ||| exists|
        i: int,
        o: int,
        ov: VirtualChannelStatus,
        nv: VirtualChannelStatus,
        pw: Option<ChannelWitness>,
        ow: Option<ChannelWitness>,
    |
        #![trigger valid_vc_progress(ov, nv, c, ow), tx.inputs@[i], tx.outputs@[o], parent_witness_provenance(tx, ov, pw)]
        {
            &&& valid_vc_progress(ov, nv, c, ow)
            &&& input_in_group(tx, h, i)
            &&& output_in_group(tx, h, o)
            &&& vc_status_parses(tx.inputs@[i].data@, ov)
            &&& vc_status_parses(tx.outputs@[o].data@, nv)
            &&& parent_witness_provenance(tx, ov, pw)
            &&& pw is Some
            &&& pw->0 is Dispute
            &&& (ow is Some ==> witness_parses(tx.inputs@[i].witness_input_type, ow->0))
        }
    ||| exists|
        i: int,
        o: int,
        iv: VirtualChannelStatus,
        ov2: VirtualChannelStatus,
        pw: Option<ChannelWitness>,
    |
        #![trigger valid_vc_close1(iv, ov2, pw), tx.inputs@[i], tx.outputs@[o]]
        {
            &&& valid_vc_close1(iv, ov2, pw)
            &&& input_in_group(tx, h, i)
            &&& output_in_group(tx, h, o)
            &&& vc_status_parses(tx.inputs@[i].data@, iv)
            &&& vc_status_parses(tx.outputs@[o].data@, ov2)
            &&& parent_witness_provenance(tx, iv, pw)
        }
    ||| exists|
        i1: int,
        i2: int,
        o: int,
        s1: VirtualChannelStatus,
        s2: VirtualChannelStatus,
        m: VirtualChannelStatus,
    |
        #![trigger valid_vc_merge(s1, s2, m, tx, i1, i2), tx.outputs@[o]]
        {
            &&& valid_vc_merge(s1, s2, m, tx, i1, i2)
            &&& i1 != i2
            &&& input_in_group(tx, h, i1)
            &&& input_in_group(tx, h, i2)
            &&& output_in_group(tx, h, o)
            &&& vc_status_parses(tx.inputs@[i1].data@, s1)
            &&& vc_status_parses(tx.inputs@[i2].data@, s2)
            &&& vc_status_parses(tx.outputs@[o].data@, m)
        }
    ||| exists|i: int, iv: VirtualChannelStatus, pw: Option<ChannelWitness>|
        {
            &&& #[trigger] valid_vc_close2(iv, pw, tx, i)
            &&& input_in_group(tx, h, i)
            &&& crate::pcts::no_group_output(tx, h)
            &&& vc_status_parses(tx.inputs@[i].data@, iv)
            &&& parent_witness_provenance(tx, iv, pw)
        }
}

/// What an accepting run of the validator guarantees: canonically
/// parsed constants of the supported shape and an interpretation of the
/// group cells that passes the selected action's rules.
pub open spec fn vcts_accepts(tx: Transaction, h: Seq<u8>, args: Seq<u8>) -> bool {
    exists|c: VCChannelConstants|
        {
            &&& #[trigger] crate::codec::spec_ser_vc_constants(c) == args
            &&& wf_vc_constants(c)
            &&& vc_params_compatible(c.params)
            &&& vcts_action_ok(c, tx, h)
        }
}

/// Parses a consumed cell's witness field; a missing field is `None`, an
/// unparseable one rejects.
fn parse_input_witness(tx: &Transaction, i: usize) -> (r: Result<Option<ChannelWitness>, Error>)
    requires
        i < tx.inputs@.len(),
    ensures
        r is Ok ==> (r->Ok_0 is Some ==> witness_parses(
            tx.inputs@[i as int].witness_input_type,
            r->Ok_0->0,
        )),
{
    match &tx.inputs[i].witness_input_type {
        Some(b) => match crate::codec::parse_channel_witness(b.as_slice()) {
            Some(w) => Ok(Some(w)),
            None => Err(Error::Encoding),
        },
        None => Ok(None),
    }
}

/// The virtual channel type script: validates one transaction against
/// this cell's constants (the script args). Accepting implies that some
/// canonical reading of the group's cells passes the selected action's
/// rules; the structural rejections (empty args, constants that are not
/// a canonical encoding) are exact, and each action's rules are decided
/// exactly by the checks above, whose contracts are two-sided.
pub fn vcts_validate(tx: &Transaction, own_script_hash: &Vec<u8>, args: &Vec<u8>) -> (r: Result<
    (),
    Error,
>)
    ensures
        r is Ok ==> vcts_accepts(*tx, own_script_hash@, args@),
        args@.len() == 0 ==> r == Err::<(), Error>(Error::NoArgs),
        args@.len() > 0 && !crate::codec::parseable_vc_constants(args@) ==> r == Err::<(), Error>(
            Error::Encoding,
        ),
{
    if args.len() == 0 {
        return Err(Error::NoArgs);
    }
    let c = match crate::codec::parse_vc_channel_constants(args.as_slice()) {
        Some(c) => c,
        None => {
            return Err(Error::Encoding);
        },
    };
    verify_vchannel_params_compatibility(&c.params)?;
    let in1 = crate::tx::find_input_by_type_hash(tx, own_script_hash);
    let out1 = crate::tx::find_output_by_type_hash(tx, own_script_hash);
    match out1 {
        Some(o1) => {
            match crate::tx::find_next_output_by_type_hash(tx, own_script_hash, o1) {
                Some(_) => {
                    return Err(Error::InvalidVCTx);
                },
                None => {},
            }
        },
        None => {},
    }
    match (in1, out1) {
        (None, Some(o1)) => {
            // registration
            let v = match crate::codec::parse_virtual_channel_status(
                tx.outputs[o1].data.as_slice(),
            ) {
                Some(v) => v,
                None => {
                    return Err(Error::UnableToLoadVirtualChannelStatus);
                },
            };
            let pi = get_parent_of_vc_input(tx, &v)?;
            match crate::codec::parse_channel_status(tx.inputs[pi].data.as_slice()) {
                Some(_) => {},
                None => {
                    return Err(Error::UnableToLoadAnyChannelStatus);
                },
            }
            let po = get_parent_of_vc_output(tx, &v)?;
            match crate::codec::parse_channel_status(tx.outputs[po].data.as_slice()) {
                Some(_) => {},
                None => {
                    return Err(Error::UnableToLoadAnyChannelStatus);
                },
            }
            let pw = parse_input_witness(tx, pi)?;
            match check_valid_vc_start(&v, &c, tx, &pw, o1) {
                Ok(()) => {
                    proof {
                        assert(valid_vc_start(v, c, *tx, pw, o1 as int));
                        assert(parent_witness_provenance(*tx, v, pw));
                        assert(vcts_action_ok(c, *tx, own_script_hash@));
                        assert(crate::codec::spec_ser_vc_constants(c) == args@);
                    }
                    Ok(())
                },
                Err(e) => Err(e),
            }
        },
        (Some(i1), Some(o1)) => {
            match crate::tx::find_next_input_by_type_hash(tx, own_script_hash, i1) {
                Some(i2) => {
                    // merge
                    match crate::tx::find_next_input_by_type_hash(tx, own_script_hash, i2) {
                        Some(_) => {
                            return Err(Error::InvalidVCTx);
                        },
                        None => {},
                    }
                    let s1 = match crate::codec::parse_virtual_channel_status(
                        tx.inputs[i1].data.as_slice(),
                    ) {
                        Some(s) => s,
                        None => {
                            return Err(Error::UnableToLoadVirtualChannelStatus);
                        },
                    };
                    let s2 = match crate::codec::parse_virtual_channel_status(
                        tx.inputs[i2].data.as_slice(),
                    ) {
                        Some(s) => s,
                        None => {
                            return Err(Error::UnableToLoadVirtualChannelStatus);
                        },
                    };
                    let m = match crate::codec::parse_virtual_channel_status(
                        tx.outputs[o1].data.as_slice(),
                    ) {
                        Some(s) => s,
                        None => {
                            return Err(Error::UnableToLoadVirtualChannelStatus);
                        },
                    };
                    match check_valid_vc_merge(&s1, &s2, &m, tx, i1, i2) {
                        Ok(()) => {
                            proof {
                                assert(valid_vc_merge(s1, s2, m, *tx, i1 as int, i2 as int));
                                assert(vcts_action_ok(c, *tx, own_script_hash@));
                                assert(crate::codec::spec_ser_vc_constants(c) == args@);
                            }
                            Ok(())
                        },
                        Err(e) => Err(e),
                    }
                },
                None => {
                    // progression or first closing step, by the parent's witness
                    let iv = match crate::codec::parse_virtual_channel_status(
                        tx.inputs[i1].data.as_slice(),
                    ) {
                        Some(s) => s,
                        None => {
                            return Err(Error::UnableToLoadVirtualChannelStatus);
                        },
                    };
                    let ov = match crate::codec::parse_virtual_channel_status(
                        tx.outputs[o1].data.as_slice(),
                    ) {
                        Some(s) => s,
                        None => {
                            return Err(Error::UnableToLoadVirtualChannelStatus);
                        },
                    };
                    let pi = get_parent_of_vc_input(tx, &iv)?;
                    let pw = parse_input_witness(tx, pi)?;
                    let pw_is_dispute = match &pw {
                        Some(ChannelWitness::Dispute(_)) => true,
                        _ => false,
                    };
                    let pw_is_force_close = match &pw {
                        Some(ChannelWitness::ForceClose) => true,
                        _ => false,
                    };
                    if pw_is_dispute {
                        let ow = parse_input_witness(tx, i1)?;
                        match check_valid_vc_progress(&iv, &ov, &c, &ow) {
                            Ok(()) => {
                                proof {
                                    assert(valid_vc_progress(iv, ov, c, ow));
                                    assert(parent_witness_provenance(*tx, iv, pw));
                                    assert(vcts_action_ok(c, *tx, own_script_hash@));
                                    assert(crate::codec::spec_ser_vc_constants(c) == args@);
                                }
                                Ok(())
                            },
                            Err(e) => Err(e),
                        }
                    } else if pw_is_force_close {
                        match check_valid_close1(&iv, &ov, &pw) {
                            Ok(()) => {
                                proof {
                                    assert(valid_vc_close1(iv, ov, pw));
                                    assert(parent_witness_provenance(*tx, iv, pw));
                                    assert(vcts_action_ok(c, *tx, own_script_hash@));
                                    assert(crate::codec::spec_ser_vc_constants(c) == args@);
                                }
                                Ok(())
                            },
                            Err(e) => Err(e),
                        }
                    } else {
                        match &pw {
                            None => Err(Error::NoWitness),
                            Some(_) => Err(Error::InvalidVCTx),
                        }
                    }
                },
            }
        },
        (Some(i1), None) => {
            // second closing step
            match crate::tx::find_next_input_by_type_hash(tx, own_script_hash, i1) {
                Some(_) => {
                    return Err(Error::InvalidVCTx);
                },
                None => {},
            }
            let iv = match crate::codec::parse_virtual_channel_status(
                tx.inputs[i1].data.as_slice(),
            ) {
                Some(s) => s,
                None => {
                    return Err(Error::UnableToLoadVirtualChannelStatus);
                },
            };
            let pi = get_parent_of_vc_input(tx, &iv)?;
            match crate::codec::parse_channel_status(tx.inputs[pi].data.as_slice()) {
                Some(_) => {},
                None => {
                    return Err(Error::UnableToLoadAnyChannelStatus);
                },
            }
            let pw = parse_input_witness(tx, pi)?;
            match check_valid_close2(&iv, &pw, tx, i1) {
                Ok(()) => {
                    proof {
                        assert(valid_vc_close2(iv, pw, *tx, i1 as int));
                        assert(parent_witness_provenance(*tx, iv, pw));
                        assert(vcts_action_ok(c, *tx, own_script_hash@));
                        assert(crate::codec::spec_ser_vc_constants(c) == args@);
                    }
                    Ok(())
                },
                Err(e) => Err(e),
            }
        },
        (None, None) => Err(Error::InvalidVCTx),
    }
}

} // verus!
