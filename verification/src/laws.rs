//! The protocol's safety properties, stated and proved against the
//! acceptance predicates of the validators.
//!
//! Each law quantifies over everything an accepted transaction may
//! contain; its premise is the acceptance predicate that the
//! corresponding check function decides exactly (`r is Ok <==> ...`),
//! so each law holds of every accepted transaction.

use vstd::prelude::*;

use crate::balances::balances_equal_in_sum;
use crate::crypto::blake2b256_of;
use crate::codec::spec_ser_params;
use crate::pcts::{
    channel_continues_locked, locked_funds_ok, no_funds_in_inputs, normal_dispute_ok,
    state_sigs_ok, valid_close, valid_progress, valid_start, vc_dispute_ok,
};
use crate::records::{
    ChannelConstants, ChannelStatus, ChannelWitness, VCChannelConstants, VirtualChannelStatus,
};
use crate::tx::{Transaction, consumes_outpoint, input_in_group, time_lock_expired};
use crate::vcts::{rent_payout_merge_ok, valid_vc_merge};

verus! {

/// Balance conservation: a dispute accepted by the channel type script
/// preserves the per-asset sums between the old and the new state.
pub proof fn lemma_dispute_balance_conservation(
    old_status: ChannelStatus,
    new_status: ChannelStatus,
    c: ChannelConstants,
    sig_a: Seq<u8>,
    sig_b: Seq<u8>,
)
    requires
        normal_dispute_ok(old_status, new_status, c, sig_a, sig_b),
    ensures
        balances_equal_in_sum(old_status.state.balances, new_status.state.balances),
{
}

/// Version monotonicity: a dispute accepted over a status that is not
/// in a virtual channel dispute either strictly increases the version,
/// or re-registers version zero over an undisputed version-zero status.
pub proof fn lemma_dispute_version_monotonic(
    old_status: ChannelStatus,
    new_status: ChannelStatus,
    c: ChannelConstants,
    sig_a: Seq<u8>,
    sig_b: Seq<u8>,
)
    requires
        normal_dispute_ok(old_status, new_status, c, sig_a, sig_b),
        !old_status.vc_disputed,
    ensures
        old_status.state.version < new_status.state.version || (old_status.state.version == 0
            && new_status.state.version == 0 && !old_status.disputed),
{
}

/// Channel id stability: every accepted progression keeps the channel
/// id.
pub proof fn lemma_progress_channel_id_stable(
    old_status: ChannelStatus,
    new_status: ChannelStatus,
    w: ChannelWitness,
    vc_cell: Option<VirtualChannelStatus>,
    c: ChannelConstants,
    tx: Transaction,
    own_hash: Seq<u8>,
    in_idx: int,
    out_idx: int,
)
    requires
        valid_progress(old_status, new_status, w, vc_cell, c, tx, own_hash, in_idx, out_idx),
    ensures
        old_status.state.channel_id@ == new_status.state.channel_id@,
{
}

/// Id integrity: every accepted opening carries the Blake2b-256 digest
/// of the serialized parameters as its channel id.
pub proof fn lemma_start_id_integrity(
    new_status: ChannelStatus,
    c: ChannelConstants,
    tx: Transaction,
    own_hash: Seq<u8>,
    out_idx: int,
)
    requires
        valid_start(new_status, c, tx, own_hash, out_idx),
    ensures
        new_status.state.channel_id@ == blake2b256_of(spec_ser_params(c.params)),
{
}

/// Thread consumption: every accepted opening consumes the thread
/// token's outpoint. The ledger spends an outpoint at most once, so no
/// two accepted openings can share a thread token.
pub proof fn lemma_start_consumes_thread_token(
    new_status: ChannelStatus,
    c: ChannelConstants,
    tx: Transaction,
    own_hash: Seq<u8>,
    out_idx: int,
)
    requires
        valid_start(new_status, c, tx, own_hash, out_idx),
    ensures
        consumes_outpoint(tx, c.thread_token@),
{
}

/// No funds consumed while a channel opens: an accepted opening spends
/// no cell locked by this channel's funds lock script.
pub proof fn lemma_start_no_funds_in_inputs(
    new_status: ChannelStatus,
    c: ChannelConstants,
    tx: Transaction,
    own_hash: Seq<u8>,
    out_idx: int,
)
    requires
        valid_start(new_status, c, tx, own_hash, out_idx),
    ensures
        no_funds_in_inputs(tx, c),
{
}

/// No funds consumed while a channel progresses: an accepted
/// progression spends no cell locked by this channel's funds lock
/// script. On closing, the funds lock script itself binds each funds
/// cell to its paired channel cell.
pub proof fn lemma_progress_no_funds_in_inputs(
    old_status: ChannelStatus,
    new_status: ChannelStatus,
    w: ChannelWitness,
    vc_cell: Option<VirtualChannelStatus>,
    c: ChannelConstants,
    tx: Transaction,
    own_hash: Seq<u8>,
    in_idx: int,
    out_idx: int,
)
    requires
        valid_progress(old_status, new_status, w, vc_cell, c, tx, own_hash, in_idx, out_idx),
    ensures
        no_funds_in_inputs(tx, c),
{
}

/// Lock continuity: every accepted progression keeps the channel cell's
/// lock script, byte for byte.
pub proof fn lemma_progress_lock_continuity(
    old_status: ChannelStatus,
    new_status: ChannelStatus,
    w: ChannelWitness,
    vc_cell: Option<VirtualChannelStatus>,
    c: ChannelConstants,
    tx: Transaction,
    own_hash: Seq<u8>,
    in_idx: int,
    out_idx: int,
)
    requires
        valid_progress(old_status, new_status, w, vc_cell, c, tx, own_hash, in_idx, out_idx),
    ensures
        channel_continues_locked(tx, in_idx, out_idx),
{
}

/// Finality on close: every accepted cooperative close presents a final
/// state that both parties signed.
pub proof fn lemma_close_finality(
    old_status: ChannelStatus,
    w: ChannelWitness,
    vc_status: Option<VirtualChannelStatus>,
    vc_consts: Option<VCChannelConstants>,
    c: ChannelConstants,
    tx: Transaction,
    in_idx: int,
    own_hash: Seq<u8>,
)
    requires
        valid_close(old_status, w, vc_status, vc_consts, c, tx, in_idx, own_hash),
        w is Close,
    ensures
        w->Close_0.state.is_final,
        state_sigs_ok(
            w->Close_0.state,
            w->Close_0.sig_a@,
            w->Close_0.sig_b@,
            c.params.party_a.pub_key@,
            c.params.party_b.pub_key@,
        ),
{
}

/// Time-lock soundness: every accepted forced close waited out the
/// challenge duration: the consumed cell's header timestamp plus the
/// duration is at most the maximum header-dependency timestamp.
pub proof fn lemma_force_close_time_lock(
    old_status: ChannelStatus,
    w: ChannelWitness,
    vc_status: Option<VirtualChannelStatus>,
    vc_consts: Option<VCChannelConstants>,
    c: ChannelConstants,
    tx: Transaction,
    in_idx: int,
    own_hash: Seq<u8>,
)
    requires
        valid_close(old_status, w, vc_status, vc_consts, c, tx, in_idx, own_hash),
        w is ForceClose,
    ensures
        time_lock_expired(tx, in_idx, c.params.challenge_duration),
{
}

/// Virtual channel locking: every accepted virtual channel dispute
/// locks, in the new status, an allocation keyed by the virtual
/// channel's id whose per-asset sums equal the virtual channel's
/// balances.
pub proof fn lemma_vc_dispute_locks_funds(
    old_status: ChannelStatus,
    new_status: ChannelStatus,
    vc: VirtualChannelStatus,
    own_hash: Seq<u8>,
)
    requires
        vc_dispute_ok(old_status, new_status, vc, own_hash),
    ensures
        locked_funds_ok(new_status.state.balances.locked@, vc.vcstate),
{
}

/// Merge refund: every accepted merge refunds the discarded cell's
/// capacity to its owner in exactly one output.
pub proof fn lemma_merge_refund_once(
    s1: VirtualChannelStatus,
    s2: VirtualChannelStatus,
    m: VirtualChannelStatus,
    tx: Transaction,
    i1: int,
    i2: int,
)
    requires
        valid_vc_merge(s1, s2, m, tx, i1, i2),
    ensures
        ({
            let keep_first = tx.inputs@[i1].header->0.number <= tx.inputs@[i2].header->0.number;
            let disc = if keep_first {
                s2
            } else {
                s1
            };
            let disc_idx = if keep_first {
                i2
            } else {
                i1
            };
            rent_payout_merge_ok(tx, disc.owner.payment_script_hash@, tx.inputs@[disc_idx].capacity)
        }),
{
}

/// Funds-cell binding: a transaction the funds lock script accepts
/// consumes the paired channel cell, so funds can leave only under the
/// channel type script's payout rules.
pub proof fn lemma_funds_release_consumes_channel(tx: Transaction, args: Seq<u8>)
    requires
        crate::pfls::pfls_accepts(tx, args),
    ensures
        exists|i: int| input_in_group(tx, args, i),
{
}

} // verus!
