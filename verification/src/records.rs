//! The protocol's records: channel parameters and constants, balances,
//! channel state and status, virtual channel status, and the witness
//! that selects an action.
//!
//! Each record is plain data. `wf` predicates state the size invariants
//! of the fixed-width fields (32-byte hashes, 33-byte public keys,
//! 36-byte outpoints); parsing establishes them and the validators rely
//! on them.

use vstd::prelude::*;

verus! {

/// A party of a channel: where it is paid, the threshold under which a
/// payment obligation is voided, its state-signing key, and the lock
/// hash that identifies its funding inputs.
pub struct Participant {
    pub payment_script_hash: Vec<u8>,
    pub payment_min_capacity: u64,
    pub pub_key: Vec<u8>,
    pub unlock_script_hash: Vec<u8>,
}

/// The immutable parameters of a channel; their serialization is hashed
/// into the channel id.
pub struct ChannelParameters {
    pub party_a: Participant,
    pub party_b: Participant,
    pub nonce: Vec<u8>,
    pub challenge_duration: u64,
    pub app: Option<Vec<u8>>,
    pub is_ledger_channel: bool,
    pub is_virtual_channel: bool,
}

/// The args of the channel type script: the parameters, the code hashes
/// and hash types of the channel lock script and the funds lock script,
/// the minimum capacity of a funds cell, and the thread token (a
/// serialized outpoint that the opening transaction must consume).
pub struct ChannelConstants {
    pub params: ChannelParameters,
    pub pcls_code_hash: Vec<u8>,
    pub pcls_hash_type: u8,
    pub pfls_code_hash: Vec<u8>,
    pub pfls_hash_type: u8,
    pub pfls_min_capacity: u64,
    pub thread_token: Vec<u8>,
}

/// The args of the virtual channel type script.
pub struct VCChannelConstants {
    pub params: ChannelParameters,
    pub vcls_code_hash: Vec<u8>,
    pub vcls_hash_type: u8,
    pub thread_token: Vec<u8>,
}

/// A script as the ledger serializes it: code hash, hash type, args.
pub struct ScriptDesc {
    pub code_hash: Vec<u8>,
    pub hash_type: u8,
    pub args: Vec<u8>,
}

/// Per-token distribution: the token's type script, the capacity locked
/// with each of its cells, and the two parties' token amounts.
pub struct SudtDistribution {
    pub type_script: ScriptDesc,
    pub max_capacity: u64,
    pub distribution: [u128; 2],
}

/// Funds earmarked for a child virtual channel, keyed by its channel id.
pub struct SubAlloc {
    pub id: Vec<u8>,
    pub balances: Balances,
}

/// A balance distribution: native capacity per party, per-token amounts
/// per party, and allocations locked for child virtual channels.
pub struct Balances {
    pub ckbytes: [u64; 2],
    pub sudts: Vec<SudtDistribution>,
    pub locked: Vec<SubAlloc>,
}

/// The off-chain-signed channel state registered on chain.
pub struct ChannelState {
    pub channel_id: Vec<u8>,
    pub version: u64,
    pub balances: Balances,
    pub is_final: bool,
}

/// The data of a ledger channel cell.
pub struct ChannelStatus {
    pub state: ChannelState,
    pub funded: bool,
    pub disputed: bool,
    pub vc_disputed: bool,
    pub vcts_hash: Vec<u8>,
}

/// One parent of a virtual channel: the parent channel type script hash
/// and the map from virtual channel party index to parent party index.
pub struct ParentData {
    pub pcts_hash: Vec<u8>,
    pub idx_map: [u8; 2],
}

/// The data of a virtual channel cell.
pub struct VirtualChannelStatus {
    pub vcstate: ChannelState,
    pub parents: Vec<ParentData>,
    pub first_force_close: bool,
    pub owner: Participant,
}

/// The two state signatures carried by a dispute.
pub struct DisputeSigs {
    pub sig_a: Vec<u8>,
    pub sig_b: Vec<u8>,
}

/// A virtual channel dispute: signatures over the virtual channel's
/// state, and the parent channel's dispute signatures.
pub struct VcDisputeData {
    pub sig_a: Vec<u8>,
    pub sig_b: Vec<u8>,
    pub parent_sigs: DisputeSigs,
}

/// A cooperative close: the final state and both signatures over it.
pub struct CloseData {
    pub state: ChannelState,
    pub sig_a: Vec<u8>,
    pub sig_b: Vec<u8>,
}

/// The action selector carried in the witness of a channel cell input.
pub enum ChannelWitness {
    Fund,
    Dispute(DisputeSigs),
    VCDispute(VcDisputeData),
    Close(CloseData),
    ForceClose,
    Abort,
}

// --- well-formedness ---

pub open spec fn wf_participant(p: Participant) -> bool {
    &&& p.payment_script_hash@.len() == 32
    &&& p.pub_key@.len() == 33
    &&& p.unlock_script_hash@.len() == 32
}

pub open spec fn wf_params(p: ChannelParameters) -> bool {
    &&& wf_participant(p.party_a)
    &&& wf_participant(p.party_b)
    &&& p.nonce@.len() == 32
}

pub open spec fn wf_constants(c: ChannelConstants) -> bool {
    &&& wf_params(c.params)
    &&& c.pcls_code_hash@.len() == 32
    &&& c.pfls_code_hash@.len() == 32
    &&& c.thread_token@.len() == 36
}

pub open spec fn wf_vc_constants(c: VCChannelConstants) -> bool {
    &&& wf_params(c.params)
    &&& c.vcls_code_hash@.len() == 32
    &&& c.thread_token@.len() == 36
}

pub open spec fn wf_script(s: ScriptDesc) -> bool {
    s.code_hash@.len() == 32
}

pub open spec fn wf_sudt(s: SudtDistribution) -> bool {
    wf_script(s.type_script)
}

pub open spec fn wf_balances(b: Balances) -> bool
    decreases b,
{
    &&& forall|i: int| 0 <= i < b.sudts@.len() ==> wf_sudt(#[trigger] b.sudts@[i])
    &&& forall|i: int| 0 <= i < b.locked@.len() ==> wf_suballoc(#[trigger] b.locked@[i])
}

pub open spec fn wf_suballoc(s: SubAlloc) -> bool
    decreases s,
{
    &&& s.id@.len() == 32
    &&& wf_balances(s.balances)
}

pub open spec fn wf_state(s: ChannelState) -> bool {
    &&& s.channel_id@.len() == 32
    &&& wf_balances(s.balances)
}

pub open spec fn wf_status(s: ChannelStatus) -> bool {
    &&& wf_state(s.state)
    &&& s.vcts_hash@.len() == 32
}

pub open spec fn wf_parent(p: ParentData) -> bool {
    p.pcts_hash@.len() == 32
}

pub open spec fn wf_vc_status(s: VirtualChannelStatus) -> bool {
    &&& wf_state(s.vcstate)
    &&& forall|i: int| 0 <= i < s.parents@.len() ==> wf_parent(#[trigger] s.parents@[i])
    &&& wf_participant(s.owner)
}

pub open spec fn wf_witness(w: ChannelWitness) -> bool {
    match w {
        ChannelWitness::Close(c) => wf_state(c.state),
        _ => true,
    }
}

// --- structural equality, spelled out over the views of the fields ---

pub open spec fn script_eq(a: ScriptDesc, b: ScriptDesc) -> bool {
    &&& a.code_hash@ == b.code_hash@
    &&& a.hash_type == b.hash_type
    &&& a.args@ == b.args@
}

pub open spec fn sudt_eq(a: SudtDistribution, b: SudtDistribution) -> bool {
    &&& script_eq(a.type_script, b.type_script)
    &&& a.max_capacity == b.max_capacity
    &&& a.distribution@ == b.distribution@
}

pub open spec fn balances_eq(a: Balances, b: Balances) -> bool
    decreases a,
{
    &&& a.ckbytes@ == b.ckbytes@
    &&& a.sudts@.len() == b.sudts@.len()
    &&& forall|i: int| 0 <= i < a.sudts@.len() ==> sudt_eq(#[trigger] a.sudts@[i], b.sudts@[i])
    &&& a.locked@.len() == b.locked@.len()
    &&& forall|i: int|
        0 <= i < a.locked@.len() ==> suballoc_eq(#[trigger] a.locked@[i], b.locked@[i])
}

pub open spec fn suballoc_eq(a: SubAlloc, b: SubAlloc) -> bool
    decreases a,
{
    &&& a.id@ == b.id@
    &&& balances_eq(a.balances, b.balances)
}

pub open spec fn state_eq(a: ChannelState, b: ChannelState) -> bool {
    &&& a.channel_id@ == b.channel_id@
    &&& a.version == b.version
    &&& balances_eq(a.balances, b.balances)
    &&& a.is_final == b.is_final
}

pub open spec fn parent_eq(a: ParentData, b: ParentData) -> bool {
    &&& a.pcts_hash@ == b.pcts_hash@
    &&& a.idx_map@ == b.idx_map@
}

pub open spec fn parents_eq(a: Seq<ParentData>, b: Seq<ParentData>) -> bool {
    &&& a.len() == b.len()
    &&& forall|i: int| 0 <= i < a.len() ==> parent_eq(#[trigger] a[i], b[i])
}

} // verus!

// Executable record equality, matching the spec relations above.

verus! {

pub fn script_desc_equal(a: &ScriptDesc, b: &ScriptDesc) -> (r: bool)
    ensures
        r <==> script_eq(*a, *b),
{
    crate::util::bytes_eq(a.code_hash.as_slice(), b.code_hash.as_slice()) && a.hash_type
        == b.hash_type && crate::util::bytes_eq(a.args.as_slice(), b.args.as_slice())
}

pub fn sudt_equal(a: &SudtDistribution, b: &SudtDistribution) -> (r: bool)
    ensures
        r <==> sudt_eq(*a, *b),
{
    let r = script_desc_equal(&a.type_script, &b.type_script) && a.max_capacity == b.max_capacity
        && a.distribution[0] == b.distribution[0] && a.distribution[1] == b.distribution[1];
    proof {
        if a.distribution@[0] == b.distribution@[0] && a.distribution@[1] == b.distribution@[1] {
            assert(a.distribution@ =~= b.distribution@);
        }
    }
    r
}

pub fn balances_equal(a: &Balances, b: &Balances) -> (r: bool)
    ensures
        r <==> balances_eq(*a, *b),
    decreases *a,
{
    if a.ckbytes[0] != b.ckbytes[0] || a.ckbytes[1] != b.ckbytes[1] {
        proof {
            assert(a.ckbytes@ != b.ckbytes@);
        }
        return false;
    }
    proof {
        assert(a.ckbytes@ =~= b.ckbytes@);
    }
    if a.sudts.len() != b.sudts.len() || a.locked.len() != b.locked.len() {
        return false;
    }
    let n = a.sudts.len();
    let mut i: usize = 0;
    while i < n
        invariant
            0 <= i <= n,
            n == a.sudts@.len() == b.sudts@.len(),
            forall|k: int| 0 <= k < i ==> sudt_eq(#[trigger] a.sudts@[k], b.sudts@[k]),
        decreases n - i,
    {
        if !sudt_equal(&a.sudts[i], &b.sudts[i]) {
            return false;
        }
        i += 1;
    }
    let m = a.locked.len();
    let mut j: usize = 0;
    while j < m
        invariant
            0 <= j <= m,
            m == a.locked@.len() == b.locked@.len(),
            forall|k: int| 0 <= k < j ==> suballoc_eq(#[trigger] a.locked@[k], b.locked@[k]),
        decreases m - j,
    {
        if !suballoc_equal(&a.locked[j], &b.locked[j]) {
            return false;
        }
        j += 1;
    }
    true
}

pub fn suballoc_equal(a: &SubAlloc, b: &SubAlloc) -> (r: bool)
    ensures
        r <==> suballoc_eq(*a, *b),
    decreases *a,
{
    crate::util::bytes_eq(a.id.as_slice(), b.id.as_slice()) && balances_equal(&a.balances, &b.balances)
}

pub fn state_equal(a: &ChannelState, b: &ChannelState) -> (r: bool)
    ensures
        r <==> state_eq(*a, *b),
{
    crate::util::bytes_eq(a.channel_id.as_slice(), b.channel_id.as_slice()) && a.version
        == b.version && a.is_final == b.is_final && balances_equal(&a.balances, &b.balances)
}

pub fn parents_equal(a: &Vec<ParentData>, b: &Vec<ParentData>) -> (r: bool)
    ensures
        r <==> parents_eq(a@, b@),
{
    if a.len() != b.len() {
        return false;
    }
    let n = a.len();
    let mut i: usize = 0;
    while i < n
        invariant
            0 <= i <= n,
            n == a@.len() == b@.len(),
            forall|k: int| 0 <= k < i ==> parent_eq(#[trigger] a@[k], b@[k]),
        decreases n - i,
    {
        let pa = &a[i];
        let pb = &b[i];
        if !crate::util::bytes_eq(pa.pcts_hash.as_slice(), pb.pcts_hash.as_slice()) {
            return false;
        }
        if pa.idx_map[0] != pb.idx_map[0] || pa.idx_map[1] != pb.idx_map[1] {
            proof {
                assert(pa.idx_map@ != pb.idx_map@);
            }
            return false;
        }
        proof {
            assert(pa.idx_map@ =~= pb.idx_map@);
        }
        i += 1;
    }
    true
}

} // verus!
