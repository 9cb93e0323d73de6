//! Serialization of the protocol's records in the wire format, and the
//! matching parsers.
//!
//! Each record has a spec-level encoding (`spec_ser_*`), a serializer
//! proved to produce it, and a parser that accepts a byte string
//! exactly when re-serializing the parsed record reproduces it; so
//! `serialize(parse(bytes)) == bytes` holds by the parser's contract,
//! and only canonical encodings are accepted.

use vstd::prelude::*;
use vstd::bytes::*;
use vstd::slice::{slice_subrange, slice_to_vec};

use crate::error::Error;
use crate::records::{
    Balances, ChannelConstants, ChannelParameters, ChannelState, ChannelStatus, ChannelWitness,
    CloseData, DisputeSigs, ParentData, Participant, ScriptDesc, SubAlloc, SudtDistribution,
    VCChannelConstants, VcDisputeData, VirtualChannelStatus, wf_balances, wf_constants, wf_params,
    wf_parent, wf_participant, wf_script, wf_state, wf_status, wf_sudt, wf_suballoc,
    wf_vc_constants, wf_vc_status, wf_witness,
};
use crate::util::bytes_eq;
use crate::wire::{
    concat_bytes, emit_table, field_views, lemma_concat_bytes_len, lemma_field_le_table,
    lemma_field_len_le_total, lemma_spec_table_len, lemma_table_recover,
    lemma_total_len_take_succ, parse_ranges, read_u32_at, spec_fixvec, spec_table, table_offset,
    table_size, total_len,
};

verus! {

// --- spec-level encodings ---

/// A boolean as one byte.
pub open spec fn spec_bool_byte(b: bool) -> Seq<u8> {
    if b {
        seq![1u8]
    } else {
        seq![0u8]
    }
}

/// A byte string with its length prefixed.
pub open spec fn spec_bytes_vec(b: Seq<u8>) -> Seq<u8> {
    spec_fixvec(b.len(), b)
}

/// An optional byte string: absent is empty, present is length-prefixed.
pub open spec fn spec_option_bytes(o: Option<Vec<u8>>) -> Seq<u8> {
    match o {
        Option::None => Seq::empty(),
        Option::Some(b) => spec_bytes_vec(b@),
    }
}

/// A participant: four fixed-width fields, concatenated.
pub open spec fn spec_ser_participant(p: Participant) -> Seq<u8> {
    p.payment_script_hash@ + spec_u64_to_le_bytes(p.payment_min_capacity) + p.pub_key@
        + p.unlock_script_hash@
}

pub open spec fn params_fields(p: ChannelParameters) -> Seq<Seq<u8>> {
    seq![
        spec_ser_participant(p.party_a),
        spec_ser_participant(p.party_b),
        p.nonce@,
        spec_u64_to_le_bytes(p.challenge_duration),
        spec_option_bytes(p.app),
        spec_bool_byte(p.is_ledger_channel),
        spec_bool_byte(p.is_virtual_channel),
    ]
}

/// The channel parameters as a table; the channel id is the Blake2b-256
/// digest of this encoding.
pub open spec fn spec_ser_params(p: ChannelParameters) -> Seq<u8> {
    spec_table(params_fields(p))
}

pub open spec fn constants_fields(c: ChannelConstants) -> Seq<Seq<u8>> {
    seq![
        spec_ser_params(c.params),
        c.pcls_code_hash@,
        seq![c.pcls_hash_type],
        c.pfls_code_hash@,
        seq![c.pfls_hash_type],
        spec_u64_to_le_bytes(c.pfls_min_capacity),
        c.thread_token@,
    ]
}

/// The channel constants (the channel type script's args) as a table.
pub open spec fn spec_ser_constants(c: ChannelConstants) -> Seq<u8> {
    spec_table(constants_fields(c))
}

pub open spec fn vc_constants_fields(c: VCChannelConstants) -> Seq<Seq<u8>> {
    seq![
        spec_ser_params(c.params),
        c.vcls_code_hash@,
        seq![c.vcls_hash_type],
        c.thread_token@,
    ]
}

/// The virtual channel constants (the virtual channel type script's
/// args) as a table.
pub open spec fn spec_ser_vc_constants(c: VCChannelConstants) -> Seq<u8> {
    spec_table(vc_constants_fields(c))
}

pub open spec fn script_fields(s: ScriptDesc) -> Seq<Seq<u8>> {
    seq![s.code_hash@, seq![s.hash_type], spec_bytes_vec(s.args@)]
}

/// A script as a table: code hash, hash type, args.
pub open spec fn spec_ser_script(s: ScriptDesc) -> Seq<u8> {
    spec_table(script_fields(s))
}

pub open spec fn sudt_fields(s: SudtDistribution) -> Seq<Seq<u8>> {
    seq![
        spec_ser_script(s.type_script),
        spec_u64_to_le_bytes(s.max_capacity),
        spec_u128_to_le_bytes(s.distribution@[0]) + spec_u128_to_le_bytes(s.distribution@[1]),
    ]
}

/// A per-token distribution as a table.
pub open spec fn spec_ser_sudt(s: SudtDistribution) -> Seq<u8> {
    spec_table(sudt_fields(s))
}

/// The native-capacity pair as two `u64le`.
pub open spec fn spec_ckbytes_bytes(b: Balances) -> Seq<u8> {
    spec_u64_to_le_bytes(b.ckbytes@[0]) + spec_u64_to_le_bytes(b.ckbytes@[1])
}

/// The token distributions' encodings, in order.
pub open spec fn sudt_items(ss: Seq<SudtDistribution>) -> Seq<Seq<u8>> {
    ss.map_values(|s: SudtDistribution| spec_ser_sudt(s))
}

/// The locked allocations' encodings, in order.
pub open spec fn locked_items(s: Seq<SubAlloc>) -> Seq<Seq<u8>>
    decreases s, 0int,
{
    if s.len() == 0 {
        Seq::empty()
    } else {
        seq![spec_ser_suballoc(s[0])] + locked_items(s.drop_first())
    }
}

pub open spec fn balances_fields(b: Balances) -> Seq<Seq<u8>>
    decreases b, 0int,
{
    seq![
        spec_ckbytes_bytes(b),
        spec_table(sudt_items(b.sudts@)),
        spec_table(locked_items(b.locked@)),
    ]
}

/// A balance distribution as a table: the native pair, the token
/// distributions as an offset vector, and the locked allocations as an
/// offset vector.
pub open spec fn spec_ser_balances(b: Balances) -> Seq<u8>
    decreases b, 1int,
{
    spec_table(balances_fields(b))
}

pub open spec fn suballoc_fields(sa: SubAlloc) -> Seq<Seq<u8>>
    decreases sa, 2int,
{
    seq![sa.id@, spec_ser_balances(sa.balances)]
}

/// A locked allocation as a table: the child channel id and its balances.
pub open spec fn spec_ser_suballoc(sa: SubAlloc) -> Seq<u8>
    decreases sa, 3int,
{
    spec_table(suballoc_fields(sa))
}

pub open spec fn state_fields(s: ChannelState) -> Seq<Seq<u8>> {
    seq![
        s.channel_id@,
        spec_u64_to_le_bytes(s.version),
        spec_ser_balances(s.balances),
        spec_bool_byte(s.is_final),
    ]
}

/// A channel state as a table; parties sign the Ethereum message hash
/// of this encoding.
pub open spec fn spec_ser_state(s: ChannelState) -> Seq<u8> {
    spec_table(state_fields(s))
}

pub open spec fn status_fields(s: ChannelStatus) -> Seq<Seq<u8>> {
    seq![
        spec_ser_state(s.state),
        spec_bool_byte(s.funded),
        spec_bool_byte(s.disputed),
        spec_bool_byte(s.vc_disputed),
        s.vcts_hash@,
    ]
}

/// A channel status (the channel cell's data) as a table.
pub open spec fn spec_ser_status(s: ChannelStatus) -> Seq<u8> {
    spec_table(status_fields(s))
}

/// One parent entry: two fixed-width fields, concatenated (34 bytes).
pub open spec fn spec_ser_parent(p: ParentData) -> Seq<u8> {
    p.pcts_hash@ + p.idx_map@
}

pub open spec fn parent_items(ps: Seq<ParentData>) -> Seq<Seq<u8>> {
    ps.map_values(|p: ParentData| spec_ser_parent(p))
}

/// The parents as a counted vector of fixed-size items.
pub open spec fn spec_ser_parents(ps: Seq<ParentData>) -> Seq<u8> {
    spec_fixvec(ps.len(), concat_bytes(parent_items(ps)))
}

pub open spec fn vc_status_fields(s: VirtualChannelStatus) -> Seq<Seq<u8>> {
    seq![
        spec_ser_state(s.vcstate),
        spec_ser_parents(s.parents@),
        spec_bool_byte(s.first_force_close),
        spec_ser_participant(s.owner),
    ]
}

/// A virtual channel status (the virtual channel cell's data) as a table.
pub open spec fn spec_ser_vc_status(s: VirtualChannelStatus) -> Seq<u8> {
    spec_table(vc_status_fields(s))
}

pub open spec fn dispute_fields(d: DisputeSigs) -> Seq<Seq<u8>> {
    seq![spec_bytes_vec(d.sig_a@), spec_bytes_vec(d.sig_b@)]
}

/// A dispute's signatures as a table.
pub open spec fn spec_ser_dispute(d: DisputeSigs) -> Seq<u8> {
    spec_table(dispute_fields(d))
}

pub open spec fn vc_dispute_fields(d: VcDisputeData) -> Seq<Seq<u8>> {
    seq![spec_bytes_vec(d.sig_a@), spec_bytes_vec(d.sig_b@), spec_ser_dispute(d.parent_sigs)]
}

/// A virtual channel dispute as a table.
pub open spec fn spec_ser_vc_dispute(d: VcDisputeData) -> Seq<u8> {
    spec_table(vc_dispute_fields(d))
}

pub open spec fn close_fields(c: CloseData) -> Seq<Seq<u8>> {
    seq![spec_ser_state(c.state), spec_bytes_vec(c.sig_a@), spec_bytes_vec(c.sig_b@)]
}

/// A cooperative close as a table.
pub open spec fn spec_ser_close(c: CloseData) -> Seq<u8> {
    spec_table(close_fields(c))
}

/// The numeric tag of each witness variant.
pub open spec fn witness_tag(w: ChannelWitness) -> u32 {
    match w {
        ChannelWitness::Fund => 0u32,
        ChannelWitness::Dispute(_) => 1u32,
        ChannelWitness::VCDispute(_) => 2u32,
        ChannelWitness::Close(_) => 3u32,
        ChannelWitness::ForceClose => 4u32,
        ChannelWitness::Abort => 5u32,
    }
}

/// A witness: its tag, then the variant's body.
pub open spec fn spec_ser_witness(w: ChannelWitness) -> Seq<u8> {
    spec_u32_to_le_bytes(witness_tag(w)) + match w {
        ChannelWitness::Fund => Seq::<u8>::empty(),
        ChannelWitness::Dispute(d) => spec_ser_dispute(d),
        ChannelWitness::VCDispute(d) => spec_ser_vc_dispute(d),
        ChannelWitness::Close(c) => spec_ser_close(c),
        ChannelWitness::ForceClose => Seq::<u8>::empty(),
        ChannelWitness::Abort => Seq::<u8>::empty(),
    }
}

// --- lemmas about the item lists ---

pub proof fn lemma_locked_items_props(s: Seq<SubAlloc>)
    ensures
        locked_items(s).len() == s.len(),
        forall|i: int| 0 <= i < s.len() ==> locked_items(s)[i] == spec_ser_suballoc(s[i]),
    decreases s.len(),
{
    if s.len() > 0 {
        lemma_locked_items_props(s.drop_first());
        assert forall|i: int| 0 <= i < s.len() implies locked_items(s)[i] == spec_ser_suballoc(
            s[i],
        ) by {
            if i > 0 {
                assert(locked_items(s)[i] == locked_items(s.drop_first())[i - 1]);
                assert(s.drop_first()[i - 1] == s[i]);
            }
        }
    }
}

pub proof fn lemma_parent_items_min_len(ps: Seq<ParentData>)
    ensures
        total_len(parent_items(ps)) >= 2 * ps.len(),
    decreases ps.len(),
{
    if ps.len() > 0 {
        assert(parent_items(ps).drop_first() =~= parent_items(ps.drop_first()));
        lemma_parent_items_min_len(ps.drop_first());
        assert(parent_items(ps)[0].len() >= 2);
    }
}

// --- serializers ---

fn ser_bool(b: bool) -> (r: Vec<u8>)
    ensures
        r@ == spec_bool_byte(b),
{
    let mut v: Vec<u8> = Vec::new();
    if b {
        v.push(1u8);
    } else {
        v.push(0u8);
    }
    proof {
        assert(v@ =~= spec_bool_byte(b));
    }
    v
}

fn ser_byte(b: u8) -> (r: Vec<u8>)
    ensures
        r@ == seq![b],
{
    let mut v: Vec<u8> = Vec::new();
    v.push(b);
    proof {
        assert(v@ =~= seq![b]);
    }
    v
}

/// Length-prefixes a byte string; fails exactly when the length does
/// not fit the count header.
fn ser_bytes_vec(b: &Vec<u8>) -> (r: Result<Vec<u8>, Error>)
    ensures
        r is Ok <==> b@.len() <= u32::MAX,
        r is Ok ==> r->Ok_0@ == spec_bytes_vec(b@),
{
    if b.len() > u32::MAX as usize {
        return Err(Error::Encoding);
    }
    let mut out = u32_to_le_bytes(b.len() as u32);
    out.extend_from_slice(b.as_slice());
    proof {
        assert(out@ =~= spec_bytes_vec(b@));
    }
    Ok(out)
}

pub fn ser_participant(p: &Participant) -> (r: Vec<u8>)
    ensures
        r@ == spec_ser_participant(*p),
{
    let mut out: Vec<u8> = Vec::new();
    out.extend_from_slice(p.payment_script_hash.as_slice());
    let cap = u64_to_le_bytes(p.payment_min_capacity);
    out.extend_from_slice(cap.as_slice());
    out.extend_from_slice(p.pub_key.as_slice());
    out.extend_from_slice(p.unlock_script_hash.as_slice());
    proof {
        assert(out@ =~= spec_ser_participant(*p));
    }
    out
}

/// Serializes the channel parameters; this is what the channel id hashes.
pub fn serialize_params(p: &ChannelParameters) -> (r: Result<Vec<u8>, Error>)
    ensures
        r is Ok <==> spec_ser_params(*p).len() <= u32::MAX,
        r is Ok ==> r->Ok_0@ == spec_ser_params(*p),
{
    let ghost ss = params_fields(*p);
    let mut fields: Vec<Vec<u8>> = Vec::new();
    fields.push(ser_participant(&p.party_a));
    fields.push(ser_participant(&p.party_b));
    fields.push(slice_to_vec(p.nonce.as_slice()));
    fields.push(u64_to_le_bytes(p.challenge_duration));
    let app_field: Vec<u8> = match &p.app {
        None => Vec::new(),
        Some(b) => match ser_bytes_vec(b) {
            Ok(v) => v,
            Err(e) => {
                proof {
                    lemma_field_le_table(ss, 4);
                }
                return Err(e);
            },
        },
    };
    fields.push(app_field);
    fields.push(ser_bool(p.is_ledger_channel));
    fields.push(ser_bool(p.is_virtual_channel));
    proof {
        assert(field_views(fields@) =~= ss);
        lemma_spec_table_len(ss);
    }
    emit_table(&fields)
}

/// Serializes the channel constants (the channel type script's args).
pub fn serialize_constants(c: &ChannelConstants) -> (r: Result<Vec<u8>, Error>)
    ensures
        r is Ok <==> spec_ser_constants(*c).len() <= u32::MAX,
        r is Ok ==> r->Ok_0@ == spec_ser_constants(*c),
{
    let ghost ss = constants_fields(*c);
    let params = match serialize_params(&c.params) {
        Ok(v) => v,
        Err(e) => {
            proof {
                lemma_spec_table_len(params_fields(c.params));
                lemma_field_le_table(ss, 0);
            }
            return Err(e);
        },
    };
    let mut fields: Vec<Vec<u8>> = Vec::new();
    fields.push(params);
    fields.push(slice_to_vec(c.pcls_code_hash.as_slice()));
    fields.push(ser_byte(c.pcls_hash_type));
    fields.push(slice_to_vec(c.pfls_code_hash.as_slice()));
    fields.push(ser_byte(c.pfls_hash_type));
    fields.push(u64_to_le_bytes(c.pfls_min_capacity));
    fields.push(slice_to_vec(c.thread_token.as_slice()));
    proof {
        assert(field_views(fields@) =~= ss);
        lemma_spec_table_len(ss);
    }
    emit_table(&fields)
}

/// Serializes the virtual channel constants.
pub fn serialize_vc_constants(c: &VCChannelConstants) -> (r: Result<Vec<u8>, Error>)
    ensures
        r is Ok <==> spec_ser_vc_constants(*c).len() <= u32::MAX,
        r is Ok ==> r->Ok_0@ == spec_ser_vc_constants(*c),
{
    let ghost ss = vc_constants_fields(*c);
    let params = match serialize_params(&c.params) {
        Ok(v) => v,
        Err(e) => {
            proof {
                lemma_spec_table_len(params_fields(c.params));
                lemma_field_le_table(ss, 0);
            }
            return Err(e);
        },
    };
    let mut fields: Vec<Vec<u8>> = Vec::new();
    fields.push(params);
    fields.push(slice_to_vec(c.vcls_code_hash.as_slice()));
    fields.push(ser_byte(c.vcls_hash_type));
    fields.push(slice_to_vec(c.thread_token.as_slice()));
    proof {
        assert(field_views(fields@) =~= ss);
        lemma_spec_table_len(ss);
    }
    emit_table(&fields)
}

fn ser_script(s: &ScriptDesc) -> (r: Result<Vec<u8>, Error>)
    ensures
        r is Ok <==> spec_ser_script(*s).len() <= u32::MAX,
        r is Ok ==> r->Ok_0@ == spec_ser_script(*s),
{
    let ghost ss = script_fields(*s);
    let args = match ser_bytes_vec(&s.args) {
        Ok(v) => v,
        Err(e) => {
            proof {
                lemma_field_le_table(ss, 2);
            }
            return Err(e);
        },
    };
    let mut fields: Vec<Vec<u8>> = Vec::new();
    fields.push(slice_to_vec(s.code_hash.as_slice()));
    fields.push(ser_byte(s.hash_type));
    fields.push(args);
    proof {
        assert(field_views(fields@) =~= ss);
        lemma_spec_table_len(ss);
    }
    emit_table(&fields)
}

fn ser_sudt(s: &SudtDistribution) -> (r: Result<Vec<u8>, Error>)
    ensures
        r is Ok <==> spec_ser_sudt(*s).len() <= u32::MAX,
        r is Ok ==> r->Ok_0@ == spec_ser_sudt(*s),
{
    let ghost ss = sudt_fields(*s);
    let script = match ser_script(&s.type_script) {
        Ok(v) => v,
        Err(e) => {
            proof {
                lemma_spec_table_len(script_fields(s.type_script));
                lemma_field_le_table(ss, 0);
            }
            return Err(e);
        },
    };
    let mut fields: Vec<Vec<u8>> = Vec::new();
    fields.push(script);
    fields.push(u64_to_le_bytes(s.max_capacity));
    let mut dist = u128_to_le_bytes(s.distribution[0]);
    let d1 = u128_to_le_bytes(s.distribution[1]);
    dist.extend_from_slice(d1.as_slice());
    fields.push(dist);
    proof {
        assert(field_views(fields@) =~~= ss);
        lemma_spec_table_len(ss);
    }
    emit_table(&fields)
}

fn ser_ckbytes(b: &Balances) -> (r: Vec<u8>)
    ensures
        r@ == spec_ckbytes_bytes(*b),
{
    let mut out = u64_to_le_bytes(b.ckbytes[0]);
    let c1 = u64_to_le_bytes(b.ckbytes[1]);
    out.extend_from_slice(c1.as_slice());
    proof {
        assert(out@ =~= spec_ckbytes_bytes(*b));
    }
    out
}

/// Serializes a balance distribution.
pub fn serialize_balances(b: &Balances) -> (r: Result<Vec<u8>, Error>)
    ensures
        r is Ok <==> spec_ser_balances(*b).len() <= u32::MAX,
        r is Ok ==> r->Ok_0@ == spec_ser_balances(*b),
    decreases *b, 1int,
{
    let ghost ss = balances_fields(*b);
    proof {
        lemma_spec_table_len(ss);
    }

    // token distributions
    let ghost sitems = sudt_items(b.sudts@);
    let mut items: Vec<Vec<u8>> = Vec::new();
    let n = b.sudts.len();
    let mut i: usize = 0;
    while i < n
        invariant
            0 <= i <= n,
            n == b.sudts@.len(),
            sitems == sudt_items(b.sudts@),
            sitems.len() == n,
            items@.len() == i,
            forall|k: int| 0 <= k < i ==> (#[trigger] items@[k])@ == sitems[k],
            ss == balances_fields(*b),
            spec_table(ss).len() == table_size(ss),
        decreases n - i,
    {
        assert(sitems[i as int] == spec_ser_sudt(b.sudts@[i as int]));
        let item = match ser_sudt(&b.sudts[i]) {
            Ok(v) => v,
            Err(e) => {
                proof {
                    lemma_field_len_le_total(sitems, i as int);
                    lemma_spec_table_len(sitems);
                    lemma_field_le_table(ss, 1);
                }
                return Err(e);
            },
        };
        items.push(item);
        i += 1;
    }
    proof {
        assert(field_views(items@) =~= sitems);
    }
    let sudts_field = match emit_table(&items) {
        Ok(v) => v,
        Err(e) => {
            proof {
                lemma_spec_table_len(sitems);
                lemma_field_le_table(ss, 1);
            }
            return Err(e);
        },
    };

    // locked allocations
    let ghost litems = locked_items(b.locked@);
    proof {
        lemma_locked_items_props(b.locked@);
    }
    let mut items2: Vec<Vec<u8>> = Vec::new();
    let m = b.locked.len();
    let mut j: usize = 0;
    while j < m
        invariant
            0 <= j <= m,
            m == b.locked@.len(),
            litems == locked_items(b.locked@),
            litems.len() == m,
            forall|k: int| 0 <= k < m ==> litems[k] == spec_ser_suballoc(b.locked@[k]),
            items2@.len() == j,
            forall|k: int| 0 <= k < j ==> (#[trigger] items2@[k])@ == litems[k],
            ss == balances_fields(*b),
            spec_table(ss).len() == table_size(ss),
        decreases m - j,
    {
        let item = match serialize_suballoc(&b.locked[j]) {
            Ok(v) => v,
            Err(e) => {
                proof {
                    lemma_field_len_le_total(litems, j as int);
                    lemma_spec_table_len(litems);
                    lemma_field_le_table(ss, 2);
                }
                return Err(e);
            },
        };
        items2.push(item);
        j += 1;
    }
    proof {
        assert(field_views(items2@) =~= litems);
    }
    let locked_field = match emit_table(&items2) {
        Ok(v) => v,
        Err(e) => {
            proof {
                lemma_spec_table_len(litems);
                lemma_field_le_table(ss, 2);
            }
            return Err(e);
        },
    };

    let mut fields: Vec<Vec<u8>> = Vec::new();
    fields.push(ser_ckbytes(b));
    fields.push(sudts_field);
    fields.push(locked_field);
    proof {
        assert(field_views(fields@) =~= ss);
    }
    emit_table(&fields)
}

/// Serializes a locked allocation.
pub fn serialize_suballoc(sa: &SubAlloc) -> (r: Result<Vec<u8>, Error>)
    ensures
        r is Ok <==> spec_ser_suballoc(*sa).len() <= u32::MAX,
        r is Ok ==> r->Ok_0@ == spec_ser_suballoc(*sa),
    decreases *sa, 3int,
{
    let ghost ss = suballoc_fields(*sa);
    proof {
        lemma_spec_table_len(ss);
    }
    let bal = match serialize_balances(&sa.balances) {
        Ok(v) => v,
        Err(e) => {
            proof {
                lemma_spec_table_len(balances_fields(sa.balances));
                lemma_field_le_table(ss, 1);
            }
            return Err(e);
        },
    };
    let mut fields: Vec<Vec<u8>> = Vec::new();
    fields.push(slice_to_vec(sa.id.as_slice()));
    fields.push(bal);
    proof {
        assert(field_views(fields@) =~= ss);
    }
    emit_table(&fields)
}

/// Serializes a channel state; its Ethereum message hash is what the
/// parties sign.
pub fn serialize_state(s: &ChannelState) -> (r: Result<Vec<u8>, Error>)
    ensures
        r is Ok <==> spec_ser_state(*s).len() <= u32::MAX,
        r is Ok ==> r->Ok_0@ == spec_ser_state(*s),
{
    let ghost ss = state_fields(*s);
    proof {
        lemma_spec_table_len(ss);
    }
    let bal = match serialize_balances(&s.balances) {
        Ok(v) => v,
        Err(e) => {
            proof {
                lemma_spec_table_len(balances_fields(s.balances));
                lemma_field_le_table(ss, 2);
            }
            return Err(e);
        },
    };
    let mut fields: Vec<Vec<u8>> = Vec::new();
    fields.push(slice_to_vec(s.channel_id.as_slice()));
    fields.push(u64_to_le_bytes(s.version));
    fields.push(bal);
    fields.push(ser_bool(s.is_final));
    proof {
        assert(field_views(fields@) =~= ss);
    }
    emit_table(&fields)
}

/// Serializes a channel status (the channel cell's data).
pub fn serialize_status(s: &ChannelStatus) -> (r: Result<Vec<u8>, Error>)
    ensures
        r is Ok <==> spec_ser_status(*s).len() <= u32::MAX,
        r is Ok ==> r->Ok_0@ == spec_ser_status(*s),
{
    let ghost ss = status_fields(*s);
    proof {
        lemma_spec_table_len(ss);
    }
    let state = match serialize_state(&s.state) {
        Ok(v) => v,
        Err(e) => {
            proof {
                lemma_spec_table_len(state_fields(s.state));
                lemma_field_le_table(ss, 0);
            }
            return Err(e);
        },
    };
    let mut fields: Vec<Vec<u8>> = Vec::new();
    fields.push(state);
    fields.push(ser_bool(s.funded));
    fields.push(ser_bool(s.disputed));
    fields.push(ser_bool(s.vc_disputed));
    fields.push(slice_to_vec(s.vcts_hash.as_slice()));
    proof {
        assert(field_views(fields@) =~= ss);
    }
    emit_table(&fields)
}

fn ser_parent(p: &ParentData) -> (r: Vec<u8>)
    ensures
        r@ == spec_ser_parent(*p),
{
    let mut out: Vec<u8> = Vec::new();
    out.extend_from_slice(p.pcts_hash.as_slice());
    out.push(p.idx_map[0]);
    out.push(p.idx_map[1]);
    proof {
        assert(p.idx_map@ =~= seq![p.idx_map@[0], p.idx_map@[1]]);
        assert(out@ =~= spec_ser_parent(*p));
    }
    out
}

fn ser_parents(ps: &Vec<ParentData>) -> (r: Result<Vec<u8>, Error>)
    ensures
        r is Ok <==> ps@.len() <= u32::MAX,
        r is Ok ==> r->Ok_0@ == spec_ser_parents(ps@),
{
    if ps.len() > u32::MAX as usize {
        return Err(Error::Encoding);
    }
    let ghost items = parent_items(ps@);
    let mut out = u32_to_le_bytes(ps.len() as u32);
    let n = ps.len();
    let mut i: usize = 0;
    proof {
        assert(concat_bytes(items.take(0)) =~= Seq::<u8>::empty());
        assert(out@ =~= spec_u32_to_le_bytes(ps@.len() as u32) + concat_bytes(items.take(0)));
    }
    while i < n
        invariant
            0 <= i <= n,
            n == ps@.len(),
            items == parent_items(ps@),
            items.len() == n,
            out@ == spec_u32_to_le_bytes(ps@.len() as u32) + concat_bytes(items.take(i as int)),
        decreases n - i,
    {
        let pb = ser_parent(&ps[i]);
        out.extend_from_slice(pb.as_slice());
        proof {
            lemma_total_len_take_succ(items, i as int);
        }
        i += 1;
        proof {
            assert(out@ =~= spec_u32_to_le_bytes(ps@.len() as u32) + concat_bytes(
                items.take(i as int),
            ));
        }
    }
    proof {
        assert(items.take(n as int) =~= items);
    }
    Ok(out)
}

/// Serializes a virtual channel status (the virtual channel cell's data).
pub fn serialize_vc_status(s: &VirtualChannelStatus) -> (r: Result<Vec<u8>, Error>)
    ensures
        r is Ok <==> spec_ser_vc_status(*s).len() <= u32::MAX,
        r is Ok ==> r->Ok_0@ == spec_ser_vc_status(*s),
{
    let ghost ss = vc_status_fields(*s);
    proof {
        lemma_spec_table_len(ss);
    }
    let state = match serialize_state(&s.vcstate) {
        Ok(v) => v,
        Err(e) => {
            proof {
                lemma_spec_table_len(state_fields(s.vcstate));
                lemma_field_le_table(ss, 0);
            }
            return Err(e);
        },
    };
    let parents = match ser_parents(&s.parents) {
        Ok(v) => v,
        Err(e) => {
            // the parent count exceeds the count header, so the encoding
            // is longer than the size header admits
            proof {
                lemma_auto_spec_u32_to_from_le_bytes();
                lemma_parent_items_min_len(s.parents@);
                lemma_concat_bytes_len(parent_items(s.parents@));
                lemma_field_le_table(ss, 1);
            }
            return Err(e);
        },
    };
    let mut fields: Vec<Vec<u8>> = Vec::new();
    fields.push(state);
    fields.push(parents);
    fields.push(ser_bool(s.first_force_close));
    fields.push(ser_participant(&s.owner));
    proof {
        assert(field_views(fields@) =~= ss);
    }
    emit_table(&fields)
}

fn ser_dispute(d: &DisputeSigs) -> (r: Result<Vec<u8>, Error>)
    ensures
        r is Ok <==> spec_ser_dispute(*d).len() <= u32::MAX,
        r is Ok ==> r->Ok_0@ == spec_ser_dispute(*d),
{
    let ghost ss = dispute_fields(*d);
    proof {
        lemma_spec_table_len(ss);
    }
    let sa = match ser_bytes_vec(&d.sig_a) {
        Ok(v) => v,
        Err(e) => {
            proof {
                lemma_field_le_table(ss, 0);
            }
            return Err(e);
        },
    };
    let sb = match ser_bytes_vec(&d.sig_b) {
        Ok(v) => v,
        Err(e) => {
            proof {
                lemma_field_le_table(ss, 1);
            }
            return Err(e);
        },
    };
    let mut fields: Vec<Vec<u8>> = Vec::new();
    fields.push(sa);
    fields.push(sb);
    proof {
        assert(field_views(fields@) =~= ss);
    }
    emit_table(&fields)
}

fn ser_vc_dispute(d: &VcDisputeData) -> (r: Result<Vec<u8>, Error>)
    ensures
        r is Ok <==> spec_ser_vc_dispute(*d).len() <= u32::MAX,
        r is Ok ==> r->Ok_0@ == spec_ser_vc_dispute(*d),
{
    let ghost ss = vc_dispute_fields(*d);
    proof {
        lemma_spec_table_len(ss);
    }
    let sa = match ser_bytes_vec(&d.sig_a) {
        Ok(v) => v,
        Err(e) => {
            proof {
                lemma_field_le_table(ss, 0);
            }
            return Err(e);
        },
    };
    let sb = match ser_bytes_vec(&d.sig_b) {
        Ok(v) => v,
        Err(e) => {
            proof {
                lemma_field_le_table(ss, 1);
            }
            return Err(e);
        },
    };
    let ps = match ser_dispute(&d.parent_sigs) {
        Ok(v) => v,
        Err(e) => {
            proof {
                lemma_spec_table_len(dispute_fields(d.parent_sigs));
                lemma_field_le_table(ss, 2);
            }
            return Err(e);
        },
    };
    let mut fields: Vec<Vec<u8>> = Vec::new();
    fields.push(sa);
    fields.push(sb);
    fields.push(ps);
    proof {
        assert(field_views(fields@) =~= ss);
    }
    emit_table(&fields)
}

fn ser_close(c: &CloseData) -> (r: Result<Vec<u8>, Error>)
    ensures
        r is Ok <==> spec_ser_close(*c).len() <= u32::MAX,
        r is Ok ==> r->Ok_0@ == spec_ser_close(*c),
{
    let ghost ss = close_fields(*c);
    proof {
        lemma_spec_table_len(ss);
    }
    let state = match serialize_state(&c.state) {
        Ok(v) => v,
        Err(e) => {
            proof {
                lemma_spec_table_len(state_fields(c.state));
                lemma_field_le_table(ss, 0);
            }
            return Err(e);
        },
    };
    let sa = match ser_bytes_vec(&c.sig_a) {
        Ok(v) => v,
        Err(e) => {
            proof {
                lemma_field_le_table(ss, 1);
            }
            return Err(e);
        },
    };
    let sb = match ser_bytes_vec(&c.sig_b) {
        Ok(v) => v,
        Err(e) => {
            proof {
                lemma_field_le_table(ss, 2);
            }
            return Err(e);
        },
    };
    let mut fields: Vec<Vec<u8>> = Vec::new();
    fields.push(state);
    fields.push(sa);
    fields.push(sb);
    proof {
        assert(field_views(fields@) =~= ss);
    }
    emit_table(&fields)
}

/// Serializes a witness.
pub fn serialize_witness(w: &ChannelWitness) -> (r: Result<Vec<u8>, Error>)
    ensures
        r is Ok <==> spec_ser_witness(*w).len() <= u32::MAX + 4,
        r is Ok ==> r->Ok_0@ == spec_ser_witness(*w),
{
    proof {
        lemma_auto_spec_u32_to_from_le_bytes();
    }
    let mut out: Vec<u8>;
    match w {
        ChannelWitness::Fund => {
            out = u32_to_le_bytes(0u32);
            proof {
                assert(out@ =~= spec_ser_witness(*w));
            }
        },
        ChannelWitness::Dispute(d) => {
            out = u32_to_le_bytes(1u32);
            let body = match ser_dispute(d) {
                Ok(v) => v,
                Err(e) => {
                    proof {
                        lemma_spec_table_len(dispute_fields(*d));
                    }
                    return Err(e);
                },
            };
            out.extend_from_slice(body.as_slice());
            proof {
                lemma_spec_table_len(dispute_fields(*d));
                assert(out@ =~= spec_ser_witness(*w));
            }
        },
        ChannelWitness::VCDispute(d) => {
            out = u32_to_le_bytes(2u32);
            let body = match ser_vc_dispute(d) {
                Ok(v) => v,
                Err(e) => {
                    proof {
                        lemma_spec_table_len(vc_dispute_fields(*d));
                    }
                    return Err(e);
                },
            };
            out.extend_from_slice(body.as_slice());
            proof {
                lemma_spec_table_len(vc_dispute_fields(*d));
                assert(out@ =~= spec_ser_witness(*w));
            }
        },
        ChannelWitness::Close(c) => {
            out = u32_to_le_bytes(3u32);
            let body = match ser_close(c) {
                Ok(v) => v,
                Err(e) => {
                    proof {
                        lemma_spec_table_len(close_fields(*c));
                    }
                    return Err(e);
                },
            };
            out.extend_from_slice(body.as_slice());
            proof {
                lemma_spec_table_len(close_fields(*c));
                assert(out@ =~= spec_ser_witness(*w));
            }
        },
        ChannelWitness::ForceClose => {
            out = u32_to_le_bytes(4u32);
            proof {
                assert(out@ =~= spec_ser_witness(*w));
            }
        },
        ChannelWitness::Abort => {
            out = u32_to_le_bytes(5u32);
            proof {
                assert(out@ =~= spec_ser_witness(*w));
            }
        },
    }
    Ok(out)
}

} // verus!

// --- parsers ---
//
// Parsing is two-phase: a loose phase reads the offsets and fields and
// builds the record (establishing the size invariants), then the record
// is re-serialized and compared with the input. A byte string is
// accepted exactly when it is the canonical encoding of the result, so
// `serialize(parse(bytes)) == bytes` holds by the parser's contract.
// Each loose phase also carries a ghost witness: a caller that knows
// some well-formed record encodes to the bytes passes it and learns
// that parsing succeeds, so the public parsers accept every canonical
// encoding.

verus! {

fn parse_bool_loose(f: &[u8]) -> (r: Option<bool>)
    ensures
        r is Some <==> f@.len() == 1,
        r is Some ==> (r->0 <==> f@[0] != 0),
{
    if f.len() != 1 {
        None
    } else {
        Some(*vstd::slice::slice_index_get(f, 0) != 0)
    }
}

fn parse_u64_loose(f: &[u8]) -> (r: Option<u64>)
    ensures
        r is Some <==> f@.len() == 8,
        r is Some ==> r->0 == spec_u64_from_le_bytes(f@),
{
    if f.len() != 8 {
        None
    } else {
        Some(u64_from_le_bytes(f))
    }
}

fn parse_hash32_loose(f: &[u8]) -> (r: Option<Vec<u8>>)
    ensures
        r is Some <==> f@.len() == 32,
        r is Some ==> r->0@ == f@,
{
    if f.len() != 32 {
        None
    } else {
        Some(slice_to_vec(f))
    }
}

/// Reads the payload of a length-prefixed byte string, ignoring the
/// count header; the re-serialization check enforces that the header
/// was canonical.
fn parse_bytes_payload_loose(f: &[u8]) -> (r: Option<Vec<u8>>)
    ensures
        r is Some <==> f@.len() >= 4,
        r is Some ==> r->0@ == f@.subrange(4, f@.len() as int),
{
    if f.len() < 4 {
        None
    } else {
        Some(slice_to_vec(slice_subrange(f, 4, f.len())))
    }
}

fn parse_participant_loose(f: &[u8]) -> (r: Option<Participant>)
    ensures
        r is Some <==> f@.len() == 105,
        r is Some ==> wf_participant(r->0) && spec_ser_participant(r->0) == f@,
{
    if f.len() != 105 {
        return None;
    }
    let payment_script_hash = slice_to_vec(slice_subrange(f, 0, 32));
    let payment_min_capacity = u64_from_le_bytes(slice_subrange(f, 32, 40));
    let pub_key = slice_to_vec(slice_subrange(f, 40, 73));
    let unlock_script_hash = slice_to_vec(slice_subrange(f, 73, 105));
    let p = Participant { payment_script_hash, payment_min_capacity, pub_key, unlock_script_hash };
    proof {
        lemma_auto_spec_u64_to_from_le_bytes();
        assert(spec_ser_participant(p) =~= f@);
    }
    Some(p)
}

fn parse_parent_loose(f: &[u8]) -> (r: Option<ParentData>)
    ensures
        r is Some <==> f@.len() == 34,
        r is Some ==> wf_parent(r->0) && spec_ser_parent(r->0) == f@,
{
    if f.len() != 34 {
        return None;
    }
    let pcts_hash = slice_to_vec(slice_subrange(f, 0, 32));
    let b0 = *vstd::slice::slice_index_get(f, 32);
    let b1 = *vstd::slice::slice_index_get(f, 33);
    let idx_map: [u8; 2] = [b0, b1];
    let p = ParentData { pcts_hash, idx_map };
    proof {
        assert(p.idx_map@ =~= seq![b0, b1]);
        assert(spec_ser_parent(p) =~= f@);
    }
    Some(p)
}

fn parse_script_loose(f: &[u8], Ghost(w): Ghost<Option<ScriptDesc>>) -> (r: Option<ScriptDesc>)
    requires
        w is Some ==> wf_script(w->0) && spec_ser_script(w->0) == f@ && f@.len() <= u32::MAX,
    ensures
        r is Some ==> wf_script(r->0),
        w is Some ==> r is Some && spec_ser_script(r->0) == f@,
{
    let ghost ws: Option<Seq<Seq<u8>>> = match w {
        Some(v) => Some(script_fields(v)),
        None => None,
    };
    proof {
        if w is Some {
            lemma_spec_table_len(script_fields(w->0));
            lemma_table_recover(script_fields(w->0));
            lemma_auto_spec_u32_to_from_le_bytes();
            lemma_auto_spec_u64_to_from_le_bytes();
            lemma_auto_spec_u128_to_from_le_bytes();
        }
    }
    let bs = match parse_ranges(f, 3, Ghost(ws)) {
        Some(bs) => bs,
        None => {
            return None;
        },
    };
    proof {
        if w is Some {
            let ss = script_fields(w->0);
            assert(f@.subrange(table_offset(ss, 0) as int, table_offset(ss, 1) as int) == ss[0]);
            assert(f@.subrange(table_offset(ss, 1) as int, table_offset(ss, 2) as int) == ss[1]);
            assert(f@.subrange(table_offset(ss, 2) as int, table_offset(ss, 3) as int) == ss[2]);
        }
    }
    let code_hash = match parse_hash32_loose(slice_subrange(f, bs[0], bs[1])) {
        Some(v) => v,
        None => {
            return None;
        },
    };
    let ht = slice_subrange(f, bs[1], bs[2]);
    if ht.len() != 1 {
        return None;
    }
    let hash_type = *vstd::slice::slice_index_get(ht, 0);
    let args = match parse_bytes_payload_loose(slice_subrange(f, bs[2], bs[3])) {
        Some(v) => v,
        None => {
            return None;
        },
    };
    let s = ScriptDesc { code_hash, hash_type, args };
    proof {
        if w is Some {
            let ss = script_fields(w->0);
            lemma_auto_spec_u32_to_from_le_bytes();
            assert(ss[2] == spec_bytes_vec(w->0.args@));
            assert(s.args@ =~= w->0.args@);
            assert(spec_bytes_vec(s.args@) =~= ss[2]);
            assert(script_fields(s) =~= ss);
        }
    }
    Some(s)
}

fn parse_sudt_loose(f: &[u8], Ghost(w): Ghost<Option<SudtDistribution>>) -> (r: Option<
    SudtDistribution,
>)
    requires
        w is Some ==> wf_sudt(w->0) && spec_ser_sudt(w->0) == f@ && f@.len() <= u32::MAX,
    ensures
        r is Some ==> wf_sudt(r->0),
        w is Some ==> r is Some && spec_ser_sudt(r->0) == f@,
{
    let ghost ws: Option<Seq<Seq<u8>>> = match w {
        Some(v) => Some(sudt_fields(v)),
        None => None,
    };
    proof {
        if w is Some {
            lemma_spec_table_len(sudt_fields(w->0));
            lemma_table_recover(sudt_fields(w->0));
            lemma_auto_spec_u32_to_from_le_bytes();
            lemma_auto_spec_u64_to_from_le_bytes();
            lemma_auto_spec_u128_to_from_le_bytes();
        }
    }
    let bs = match parse_ranges(f, 3, Ghost(ws)) {
        Some(bs) => bs,
        None => {
            return None;
        },
    };
    proof {
        if w is Some {
            let ss = sudt_fields(w->0);
            assert(f@.subrange(table_offset(ss, 0) as int, table_offset(ss, 1) as int) == ss[0]);
            assert(f@.subrange(table_offset(ss, 1) as int, table_offset(ss, 2) as int) == ss[1]);
            assert(f@.subrange(table_offset(ss, 2) as int, table_offset(ss, 3) as int) == ss[2]);
            lemma_field_le_table(ss, 0);
        }
    }
    let type_script = match parse_script_loose(
        slice_subrange(f, bs[0], bs[1]),
        Ghost(match w {
            Some(v) => Some(v.type_script),
            None => None,
        }),
    ) {
        Some(v) => v,
        None => {
            return None;
        },
    };
    let max_capacity = match parse_u64_loose(slice_subrange(f, bs[1], bs[2])) {
        Some(v) => v,
        None => {
            return None;
        },
    };
    let dist = slice_subrange(f, bs[2], bs[3]);
    if dist.len() != 32 {
        return None;
    }
    let d0 = u128_from_le_bytes(slice_subrange(dist, 0, 16));
    let d1 = u128_from_le_bytes(slice_subrange(dist, 16, 32));
    let distribution: [u128; 2] = [d0, d1];
    let s = SudtDistribution { type_script, max_capacity, distribution };
    proof {
        if w is Some {
            let ss = sudt_fields(w->0);
            lemma_auto_spec_u64_to_from_le_bytes();
            lemma_auto_spec_u128_to_from_le_bytes();
            assert(dist@.subrange(0, 16) =~= spec_u128_to_le_bytes(w->0.distribution@[0]));
            assert(dist@.subrange(16, 32) =~= spec_u128_to_le_bytes(w->0.distribution@[1]));
            assert(s.distribution@[0] == w->0.distribution@[0]);
            assert(s.distribution@[1] == w->0.distribution@[1]);
            assert(sudt_fields(s) =~= ss);
        }
    }
    Some(s)
}

/// Reads the item count of an offset vector from its first offset.
fn parse_dynvec_count(f: &[u8], Ghost(w): Ghost<Option<Seq<Seq<u8>>>>) -> (r: Option<usize>)
    requires
        w is Some ==> table_size(w->0) <= u32::MAX && f@ == spec_table(w->0),
    ensures
        w is Some ==> r is Some && r->0 == w->0.len(),
{
    proof {
        if w is Some {
            lemma_table_recover(w->0);
            lemma_auto_spec_u32_to_from_le_bytes();
        }
    }
    if f.len() < 4 {
        return None;
    }
    if f.len() == 4 {
        return Some(0);
    }
    let o0 = match read_u32_at(f, 4) {
        Some(o) => o as usize,
        None => {
            return None;
        },
    };
    proof {
        if w is Some {
            let m = w->0.len();
            assert(m >= 1);
            let off = table_offset(w->0, 0);
            assert(spec_table(w->0).subrange(4, 8) == spec_u32_to_le_bytes(off as u32));
            assert(o0 == (off as u32) as usize);
            assert(o0 == 4 + 4 * m);
        }
    }
    if o0 < 8 || o0 % 4 != 0 {
        proof {
            if w is Some {
                let m = w->0.len();
                assert((4 + 4 * m) % 4 == 0) by (nonlinear_arith);
            }
        }
        return None;
    }
    proof {
        if w is Some {
            let m = w->0.len();
            assert(((4 + 4 * m) - 4) / 4 == m) by (nonlinear_arith);
        }
    }
    Some((o0 - 4) / 4)
}

#[verifier::rlimit(60)]
#[verifier::loop_isolation(false)]
fn parse_balances_loose(bytes: &[u8], Ghost(w): Ghost<Option<Balances>>) -> (r: Option<Balances>)
    requires
        w is Some ==> wf_balances(w->0) && spec_ser_balances(w->0) == bytes@ && bytes@.len()
            <= u32::MAX,
    ensures
        r is Some ==> wf_balances(r->0),
        w is Some ==> r is Some && spec_ser_balances(r->0) == bytes@,
    decreases bytes@.len(),
{
    let ghost ws: Option<Seq<Seq<u8>>> = match w {
        Some(v) => Some(balances_fields(v)),
        None => None,
    };
    proof {
        if w is Some {
            lemma_spec_table_len(balances_fields(w->0));
            lemma_table_recover(balances_fields(w->0));
            lemma_auto_spec_u32_to_from_le_bytes();
            lemma_auto_spec_u64_to_from_le_bytes();
            lemma_auto_spec_u128_to_from_le_bytes();
        }
    }
    let bs = match parse_ranges(bytes, 3, Ghost(ws)) {
        Some(bs) => bs,
        None => {
            return None;
        },
    };
    proof {
        if w is Some {
            let ss = balances_fields(w->0);
            assert(bytes@.subrange(table_offset(ss, 0) as int, table_offset(ss, 1) as int)
                == ss[0]);
            assert(bytes@.subrange(table_offset(ss, 1) as int, table_offset(ss, 2) as int)
                == ss[1]);
            assert(bytes@.subrange(table_offset(ss, 2) as int, table_offset(ss, 3) as int)
                == ss[2]);
            lemma_spec_table_len(sudt_items(w->0.sudts@));
            lemma_spec_table_len(locked_items(w->0.locked@));
            lemma_locked_items_props(w->0.locked@);
        }
    }
    let ck = slice_subrange(bytes, bs[0], bs[1]);
    if ck.len() != 16 {
        return None;
    }
    let ck0 = u64_from_le_bytes(slice_subrange(ck, 0, 8));
    let ck1 = u64_from_le_bytes(slice_subrange(ck, 8, 16));
    let ckbytes: [u64; 2] = [ck0, ck1];
    proof {
        if w is Some {
            lemma_auto_spec_u64_to_from_le_bytes();
            assert(ck@.subrange(0, 8) =~= spec_u64_to_le_bytes(w->0.ckbytes@[0]));
            assert(ck@.subrange(8, 16) =~= spec_u64_to_le_bytes(w->0.ckbytes@[1]));
            assert(ck0 == w->0.ckbytes@[0] && ck1 == w->0.ckbytes@[1]);
        }
    }

    // token distributions
    let ghost sitems: Seq<Seq<u8>> = match w {
        Some(v) => sudt_items(v.sudts@),
        None => Seq::empty(),
    };
    let sf = slice_subrange(bytes, bs[1], bs[2]);
    let n = match parse_dynvec_count(
        sf,
        Ghost(match w {
            Some(_) => Some(sitems),
            None => None,
        }),
    ) {
        Some(n) => n,
        None => {
            return None;
        },
    };
    let rs = match parse_ranges(
        sf,
        n,
        Ghost(match w {
            Some(_) => Some(sitems),
            None => None,
        }),
    ) {
        Some(rs) => rs,
        None => {
            return None;
        },
    };
    proof {
        if w is Some {
            lemma_table_recover(sitems);
        }
    }
    let mut sudts: Vec<SudtDistribution> = Vec::new();
    let mut i: usize = 0;
    while i < n
        invariant
            0 <= i <= n,
            rs@.len() == n + 1,
            forall|k: int| 0 <= k <= n ==> 4 <= #[trigger] rs@[k] <= sf@.len(),
            forall|k: int| 0 <= k < n ==> #[trigger] rs@[k] <= rs@[k + 1],
            sudts@.len() == i,
            forall|k: int| 0 <= k < i ==> wf_sudt(#[trigger] sudts@[k]),
            w is Some ==> forall|k: int|
                0 <= k < i ==> spec_ser_sudt(#[trigger] sudts@[k]) == sitems[k],
        decreases n - i,
    {
        proof {
            if w is Some {
                assert(rs@[i as int] == table_offset(sitems, i as int));
                assert(rs@[i as int + 1] == table_offset(sitems, i as int + 1));
                assert(sf@.subrange(
                    table_offset(sitems, i as int) as int,
                    table_offset(sitems, i as int + 1) as int,
                ) == sitems[i as int]);
                assert(sitems[i as int] == spec_ser_sudt(w->0.sudts@[i as int]));
                lemma_field_len_le_total(sitems, i as int);
            }
        }
        let item = slice_subrange(sf, rs[i], rs[i + 1]);
        let s = match parse_sudt_loose(
            item,
            Ghost(match w {
                Some(v) => Some(v.sudts@[i as int]),
                None => None,
            }),
        ) {
            Some(s) => s,
            None => {
                return None;
            },
        };
        sudts.push(s);
        i += 1;
    }
    proof {
        if w is Some {
            assert(sudt_items(sudts@) =~= sitems);
        }
    }

    // locked allocations
    let ghost litems: Seq<Seq<u8>> = match w {
        Some(v) => locked_items(v.locked@),
        None => Seq::empty(),
    };
    let lf = slice_subrange(bytes, bs[2], bs[3]);
    let m = match parse_dynvec_count(
        lf,
        Ghost(match w {
            Some(_) => Some(litems),
            None => None,
        }),
    ) {
        Some(m) => m,
        None => {
            return None;
        },
    };
    let ls = match parse_ranges(
        lf,
        m,
        Ghost(match w {
            Some(_) => Some(litems),
            None => None,
        }),
    ) {
        Some(ls) => ls,
        None => {
            return None;
        },
    };
    proof {
        if w is Some {
            lemma_table_recover(litems);
        }
    }
    let mut locked: Vec<SubAlloc> = Vec::new();
    let mut j: usize = 0;
    while j < m
        invariant
            0 <= j <= m,
            ls@.len() == m + 1,
            forall|k: int| 0 <= k <= m ==> 4 <= #[trigger] ls@[k] <= lf@.len(),
            forall|k: int| 0 <= k < m ==> #[trigger] ls@[k] <= ls@[k + 1],
            lf@.len() <= bytes@.len() - 4,
            locked@.len() == j,
            forall|k: int| 0 <= k < j ==> wf_suballoc(#[trigger] locked@[k]),
            w is Some ==> forall|k: int|
                0 <= k < j ==> spec_ser_suballoc(#[trigger] locked@[k]) == litems[k],
        decreases m - j,
    {
        proof {
            if w is Some {
                assert(ls@[j as int] == table_offset(litems, j as int));
                assert(ls@[j as int + 1] == table_offset(litems, j as int + 1));
                assert(lf@.subrange(
                    table_offset(litems, j as int) as int,
                    table_offset(litems, j as int + 1) as int,
                ) == litems[j as int]);
                assert(litems[j as int] == spec_ser_suballoc(w->0.locked@[j as int]));
                lemma_field_len_le_total(litems, j as int);
            }
        }
        let item = slice_subrange(lf, ls[j], ls[j + 1]);
        assert(item@.len() < bytes@.len());
        let sa = match parse_suballoc_loose(
            item,
            Ghost(match w {
                Some(v) => Some(v.locked@[j as int]),
                None => None,
            }),
        ) {
            Some(sa) => sa,
            None => {
                return None;
            },
        };
        locked.push(sa);
        j += 1;
    }
    let b = Balances { ckbytes, sudts, locked };
    proof {
        if w is Some {
            lemma_locked_items_props(b.locked@);
            assert(locked_items(b.locked@) =~= litems);
            assert(spec_ckbytes_bytes(b) =~= balances_fields(w->0)[0]);
            assert(balances_fields(b) =~= balances_fields(w->0));
        }
    }
    Some(b)
}

#[verifier::loop_isolation(false)]
fn parse_suballoc_loose(bytes: &[u8], Ghost(w): Ghost<Option<SubAlloc>>) -> (r: Option<SubAlloc>)
    requires
        w is Some ==> wf_suballoc(w->0) && spec_ser_suballoc(w->0) == bytes@ && bytes@.len()
            <= u32::MAX,
    ensures
        r is Some ==> wf_suballoc(r->0),
        w is Some ==> r is Some && spec_ser_suballoc(r->0) == bytes@,
    decreases bytes@.len(),
{
    let ghost ws: Option<Seq<Seq<u8>>> = match w {
        Some(v) => Some(suballoc_fields(v)),
        None => None,
    };
    proof {
        if w is Some {
            lemma_spec_table_len(suballoc_fields(w->0));
            lemma_table_recover(suballoc_fields(w->0));
            lemma_auto_spec_u32_to_from_le_bytes();
            lemma_auto_spec_u64_to_from_le_bytes();
            lemma_auto_spec_u128_to_from_le_bytes();
        }
    }
    let bs = match parse_ranges(bytes, 2, Ghost(ws)) {
        Some(bs) => bs,
        None => {
            return None;
        },
    };
    proof {
        if w is Some {
            let ss = suballoc_fields(w->0);
            assert(bytes@.subrange(table_offset(ss, 0) as int, table_offset(ss, 1) as int)
                == ss[0]);
            assert(bytes@.subrange(table_offset(ss, 1) as int, table_offset(ss, 2) as int)
                == ss[1]);
        }
    }
    let id = match parse_hash32_loose(slice_subrange(bytes, bs[0], bs[1])) {
        Some(v) => v,
        None => {
            return None;
        },
    };
    let bal_field = slice_subrange(bytes, bs[1], bs[2]);
    assert(bal_field@.len() < bytes@.len());
    let balances = match parse_balances_loose(
        bal_field,
        Ghost(match w {
            Some(v) => Some(v.balances),
            None => None,
        }),
    ) {
        Some(b) => b,
        None => {
            return None;
        },
    };
    let sa = SubAlloc { id, balances };
    proof {
        if w is Some {
            assert(suballoc_fields(sa) =~= suballoc_fields(w->0));
        }
    }
    Some(sa)
}

fn parse_state_loose(bytes: &[u8], Ghost(w): Ghost<Option<ChannelState>>) -> (r: Option<
    ChannelState,
>)
    requires
        w is Some ==> wf_state(w->0) && spec_ser_state(w->0) == bytes@ && bytes@.len()
            <= u32::MAX,
    ensures
        r is Some ==> wf_state(r->0),
        w is Some ==> r is Some && spec_ser_state(r->0) == bytes@,
{
    let ghost ws: Option<Seq<Seq<u8>>> = match w {
        Some(v) => Some(state_fields(v)),
        None => None,
    };
    proof {
        if w is Some {
            lemma_spec_table_len(state_fields(w->0));
            lemma_table_recover(state_fields(w->0));
            lemma_auto_spec_u32_to_from_le_bytes();
            lemma_auto_spec_u64_to_from_le_bytes();
            lemma_auto_spec_u128_to_from_le_bytes();
        }
    }
    let bs = match parse_ranges(bytes, 4, Ghost(ws)) {
        Some(bs) => bs,
        None => {
            return None;
        },
    };
    proof {
        if w is Some {
            let ss = state_fields(w->0);
            assert(bytes@.subrange(table_offset(ss, 0) as int, table_offset(ss, 1) as int)
                == ss[0]);
            assert(bytes@.subrange(table_offset(ss, 1) as int, table_offset(ss, 2) as int)
                == ss[1]);
            assert(bytes@.subrange(table_offset(ss, 2) as int, table_offset(ss, 3) as int)
                == ss[2]);
            assert(bytes@.subrange(table_offset(ss, 3) as int, table_offset(ss, 4) as int)
                == ss[3]);
        }
    }
    let channel_id = match parse_hash32_loose(slice_subrange(bytes, bs[0], bs[1])) {
        Some(v) => v,
        None => {
            return None;
        },
    };
    let version = match parse_u64_loose(slice_subrange(bytes, bs[1], bs[2])) {
        Some(v) => v,
        None => {
            return None;
        },
    };
    let balances = match parse_balances_loose(
        slice_subrange(bytes, bs[2], bs[3]),
        Ghost(match w {
            Some(v) => Some(v.balances),
            None => None,
        }),
    ) {
        Some(v) => v,
        None => {
            return None;
        },
    };
    let is_final = match parse_bool_loose(slice_subrange(bytes, bs[3], bs[4])) {
        Some(v) => v,
        None => {
            return None;
        },
    };
    let s = ChannelState { channel_id, version, balances, is_final };
    proof {
        if w is Some {
            lemma_auto_spec_u64_to_from_le_bytes();
            assert(s.version == w->0.version);
            assert(s.is_final == w->0.is_final);
            assert(spec_bool_byte(s.is_final) == state_fields(w->0)[3]);
            assert(state_fields(s) =~= state_fields(w->0));
        }
    }
    Some(s)
}

fn parse_status_loose(bytes: &[u8], Ghost(w): Ghost<Option<ChannelStatus>>) -> (r: Option<
    ChannelStatus,
>)
    requires
        w is Some ==> wf_status(w->0) && spec_ser_status(w->0) == bytes@ && bytes@.len()
            <= u32::MAX,
    ensures
        r is Some ==> wf_status(r->0),
        w is Some ==> r is Some && spec_ser_status(r->0) == bytes@,
{
    let ghost ws: Option<Seq<Seq<u8>>> = match w {
        Some(v) => Some(status_fields(v)),
        None => None,
    };
    proof {
        if w is Some {
            lemma_spec_table_len(status_fields(w->0));
            lemma_table_recover(status_fields(w->0));
            lemma_auto_spec_u32_to_from_le_bytes();
            lemma_auto_spec_u64_to_from_le_bytes();
            lemma_auto_spec_u128_to_from_le_bytes();
        }
    }
    let bs = match parse_ranges(bytes, 5, Ghost(ws)) {
        Some(bs) => bs,
        None => {
            return None;
        },
    };
    proof {
        if w is Some {
            let ss = status_fields(w->0);
            assert(bytes@.subrange(table_offset(ss, 0) as int, table_offset(ss, 1) as int)
                == ss[0]);
            assert(bytes@.subrange(table_offset(ss, 1) as int, table_offset(ss, 2) as int)
                == ss[1]);
            assert(bytes@.subrange(table_offset(ss, 2) as int, table_offset(ss, 3) as int)
                == ss[2]);
            assert(bytes@.subrange(table_offset(ss, 3) as int, table_offset(ss, 4) as int)
                == ss[3]);
            assert(bytes@.subrange(table_offset(ss, 4) as int, table_offset(ss, 5) as int)
                == ss[4]);
        }
    }
    let state = match parse_state_loose(
        slice_subrange(bytes, bs[0], bs[1]),
        Ghost(match w {
            Some(v) => Some(v.state),
            None => None,
        }),
    ) {
        Some(v) => v,
        None => {
            return None;
        },
    };
    let funded = match parse_bool_loose(slice_subrange(bytes, bs[1], bs[2])) {
        Some(v) => v,
        None => {
            return None;
        },
    };
    let disputed = match parse_bool_loose(slice_subrange(bytes, bs[2], bs[3])) {
        Some(v) => v,
        None => {
            return None;
        },
    };
    let vc_disputed = match parse_bool_loose(slice_subrange(bytes, bs[3], bs[4])) {
        Some(v) => v,
        None => {
            return None;
        },
    };
    let vcts_hash = match parse_hash32_loose(slice_subrange(bytes, bs[4], bs[5])) {
        Some(v) => v,
        None => {
            return None;
        },
    };
    let s = ChannelStatus { state, funded, disputed, vc_disputed, vcts_hash };
    proof {
        if w is Some {
            assert(s.funded == w->0.funded);
            assert(s.disputed == w->0.disputed);
            assert(s.vc_disputed == w->0.vc_disputed);
            assert(status_fields(s) =~= status_fields(w->0));
        }
    }
    Some(s)
}

fn parse_params_loose(bytes: &[u8], Ghost(w): Ghost<Option<ChannelParameters>>) -> (r: Option<
    ChannelParameters,
>)
    requires
        w is Some ==> wf_params(w->0) && spec_ser_params(w->0) == bytes@ && bytes@.len()
            <= u32::MAX,
    ensures
        r is Some ==> wf_params(r->0),
        w is Some ==> r is Some && spec_ser_params(r->0) == bytes@,
{
    let ghost ws: Option<Seq<Seq<u8>>> = match w {
        Some(v) => Some(params_fields(v)),
        None => None,
    };
    proof {
        if w is Some {
            lemma_spec_table_len(params_fields(w->0));
            lemma_table_recover(params_fields(w->0));
            lemma_auto_spec_u32_to_from_le_bytes();
            lemma_auto_spec_u64_to_from_le_bytes();
            lemma_auto_spec_u128_to_from_le_bytes();
        }
    }
    let bs = match parse_ranges(bytes, 7, Ghost(ws)) {
        Some(bs) => bs,
        None => {
            return None;
        },
    };
    proof {
        if w is Some {
            let ss = params_fields(w->0);
            assert(bytes@.subrange(table_offset(ss, 0) as int, table_offset(ss, 1) as int)
                == ss[0]);
            assert(bytes@.subrange(table_offset(ss, 1) as int, table_offset(ss, 2) as int)
                == ss[1]);
            assert(bytes@.subrange(table_offset(ss, 2) as int, table_offset(ss, 3) as int)
                == ss[2]);
            assert(bytes@.subrange(table_offset(ss, 3) as int, table_offset(ss, 4) as int)
                == ss[3]);
            assert(bytes@.subrange(table_offset(ss, 4) as int, table_offset(ss, 5) as int)
                == ss[4]);
            assert(bytes@.subrange(table_offset(ss, 5) as int, table_offset(ss, 6) as int)
                == ss[5]);
            assert(bytes@.subrange(table_offset(ss, 6) as int, table_offset(ss, 7) as int)
                == ss[6]);
        }
    }
    let party_a = match parse_participant_loose(slice_subrange(bytes, bs[0], bs[1])) {
        Some(v) => v,
        None => {
            return None;
        },
    };
    let party_b = match parse_participant_loose(slice_subrange(bytes, bs[1], bs[2])) {
        Some(v) => v,
        None => {
            return None;
        },
    };
    let nonce = match parse_hash32_loose(slice_subrange(bytes, bs[2], bs[3])) {
        Some(v) => v,
        None => {
            return None;
        },
    };
    let challenge_duration = match parse_u64_loose(slice_subrange(bytes, bs[3], bs[4])) {
        Some(v) => v,
        None => {
            return None;
        },
    };
    let af = slice_subrange(bytes, bs[4], bs[5]);
    let app: Option<Vec<u8>> = if af.len() == 0 {
        None
    } else {
        match parse_bytes_payload_loose(af) {
            Some(v) => Some(v),
            None => {
                return None;
            },
        }
    };
    let is_ledger_channel = match parse_bool_loose(slice_subrange(bytes, bs[5], bs[6])) {
        Some(v) => v,
        None => {
            return None;
        },
    };
    let is_virtual_channel = match parse_bool_loose(slice_subrange(bytes, bs[6], bs[7])) {
        Some(v) => v,
        None => {
            return None;
        },
    };
    let p = ChannelParameters {
        party_a,
        party_b,
        nonce,
        challenge_duration,
        app,
        is_ledger_channel,
        is_virtual_channel,
    };
    proof {
        if w is Some {
            let ss = params_fields(w->0);
            lemma_auto_spec_u64_to_from_le_bytes();
            lemma_auto_spec_u32_to_from_le_bytes();
            match w->0.app {
                Option::None => {
                    assert(ss[4].len() == 0);
                    assert(p.app is None);
                },
                Option::Some(b) => {
                    assert(ss[4] == spec_bytes_vec(b@));
                    assert(ss[4].len() >= 4);
                    assert(p.app is Some);
                    assert(p.app->0@ =~= b@);
                    assert(spec_option_bytes(p.app) =~= ss[4]);
                },
            }
            assert(p.challenge_duration == w->0.challenge_duration);
            assert(p.is_ledger_channel == w->0.is_ledger_channel);
            assert(p.is_virtual_channel == w->0.is_virtual_channel);
            assert(params_fields(p) =~= ss);
        }
    }
    Some(p)
}

fn parse_constants_loose(bytes: &[u8], Ghost(w): Ghost<Option<ChannelConstants>>) -> (r: Option<
    ChannelConstants,
>)
    requires
        w is Some ==> wf_constants(w->0) && spec_ser_constants(w->0) == bytes@ && bytes@.len()
            <= u32::MAX,
    ensures
        r is Some ==> wf_constants(r->0),
        w is Some ==> r is Some && spec_ser_constants(r->0) == bytes@,
{
    let ghost ws: Option<Seq<Seq<u8>>> = match w {
        Some(v) => Some(constants_fields(v)),
        None => None,
    };
    proof {
        if w is Some {
            lemma_spec_table_len(constants_fields(w->0));
            lemma_table_recover(constants_fields(w->0));
            lemma_auto_spec_u32_to_from_le_bytes();
            lemma_auto_spec_u64_to_from_le_bytes();
            lemma_auto_spec_u128_to_from_le_bytes();
        }
    }
    let bs = match parse_ranges(bytes, 7, Ghost(ws)) {
        Some(bs) => bs,
        None => {
            return None;
        },
    };
    proof {
        if w is Some {
            let ss = constants_fields(w->0);
            assert(bytes@.subrange(table_offset(ss, 0) as int, table_offset(ss, 1) as int)
                == ss[0]);
            assert(bytes@.subrange(table_offset(ss, 1) as int, table_offset(ss, 2) as int)
                == ss[1]);
            assert(bytes@.subrange(table_offset(ss, 2) as int, table_offset(ss, 3) as int)
                == ss[2]);
            assert(bytes@.subrange(table_offset(ss, 3) as int, table_offset(ss, 4) as int)
                == ss[3]);
            assert(bytes@.subrange(table_offset(ss, 4) as int, table_offset(ss, 5) as int)
                == ss[4]);
            assert(bytes@.subrange(table_offset(ss, 5) as int, table_offset(ss, 6) as int)
                == ss[5]);
            assert(bytes@.subrange(table_offset(ss, 6) as int, table_offset(ss, 7) as int)
                == ss[6]);
            lemma_field_le_table(ss, 0);
        }
    }
    let params = match parse_params_loose(
        slice_subrange(bytes, bs[0], bs[1]),
        Ghost(match w {
            Some(v) => Some(v.params),
            None => None,
        }),
    ) {
        Some(v) => v,
        None => {
            return None;
        },
    };
    let pcls_code_hash = match parse_hash32_loose(slice_subrange(bytes, bs[1], bs[2])) {
        Some(v) => v,
        None => {
            return None;
        },
    };
    let ht1 = slice_subrange(bytes, bs[2], bs[3]);
    if ht1.len() != 1 {
        return None;
    }
    let pcls_hash_type = *vstd::slice::slice_index_get(ht1, 0);
    let pfls_code_hash = match parse_hash32_loose(slice_subrange(bytes, bs[3], bs[4])) {
        Some(v) => v,
        None => {
            return None;
        },
    };
    let ht2 = slice_subrange(bytes, bs[4], bs[5]);
    if ht2.len() != 1 {
        return None;
    }
    let pfls_hash_type = *vstd::slice::slice_index_get(ht2, 0);
    let pfls_min_capacity = match parse_u64_loose(slice_subrange(bytes, bs[5], bs[6])) {
        Some(v) => v,
        None => {
            return None;
        },
    };
    let tt = slice_subrange(bytes, bs[6], bs[7]);
    if tt.len() != 36 {
        return None;
    }
    let thread_token = slice_to_vec(tt);
    let c = ChannelConstants {
        params,
        pcls_code_hash,
        pcls_hash_type,
        pfls_code_hash,
        pfls_hash_type,
        pfls_min_capacity,
        thread_token,
    };
    proof {
        if w is Some {
            lemma_auto_spec_u64_to_from_le_bytes();
            assert(c.pcls_hash_type == w->0.pcls_hash_type);
            assert(c.pfls_hash_type == w->0.pfls_hash_type);
            assert(seq![c.pcls_hash_type] =~= constants_fields(w->0)[2]);
            assert(seq![c.pfls_hash_type] =~= constants_fields(w->0)[4]);
            assert(constants_fields(c) =~= constants_fields(w->0));
        }
    }
    Some(c)
}

fn parse_vc_constants_loose(
    bytes: &[u8],
    Ghost(w): Ghost<Option<VCChannelConstants>>,
) -> (r: Option<VCChannelConstants>)
    requires
        w is Some ==> wf_vc_constants(w->0) && spec_ser_vc_constants(w->0) == bytes@
            && bytes@.len() <= u32::MAX,
    ensures
        r is Some ==> wf_vc_constants(r->0),
        w is Some ==> r is Some && spec_ser_vc_constants(r->0) == bytes@,
{
    let ghost ws: Option<Seq<Seq<u8>>> = match w {
        Some(v) => Some(vc_constants_fields(v)),
        None => None,
    };
    proof {
        if w is Some {
            lemma_spec_table_len(vc_constants_fields(w->0));
            lemma_table_recover(vc_constants_fields(w->0));
            lemma_auto_spec_u32_to_from_le_bytes();
            lemma_auto_spec_u64_to_from_le_bytes();
            lemma_auto_spec_u128_to_from_le_bytes();
        }
    }
    let bs = match parse_ranges(bytes, 4, Ghost(ws)) {
        Some(bs) => bs,
        None => {
            return None;
        },
    };
    proof {
        if w is Some {
            let ss = vc_constants_fields(w->0);
            assert(bytes@.subrange(table_offset(ss, 0) as int, table_offset(ss, 1) as int)
                == ss[0]);
            assert(bytes@.subrange(table_offset(ss, 1) as int, table_offset(ss, 2) as int)
                == ss[1]);
            assert(bytes@.subrange(table_offset(ss, 2) as int, table_offset(ss, 3) as int)
                == ss[2]);
            assert(bytes@.subrange(table_offset(ss, 3) as int, table_offset(ss, 4) as int)
                == ss[3]);
            lemma_field_le_table(ss, 0);
        }
    }
    let params = match parse_params_loose(
        slice_subrange(bytes, bs[0], bs[1]),
        Ghost(match w {
            Some(v) => Some(v.params),
            None => None,
        }),
    ) {
        Some(v) => v,
        None => {
            return None;
        },
    };
    let vcls_code_hash = match parse_hash32_loose(slice_subrange(bytes, bs[1], bs[2])) {
        Some(v) => v,
        None => {
            return None;
        },
    };
    let ht = slice_subrange(bytes, bs[2], bs[3]);
    if ht.len() != 1 {
        return None;
    }
    let vcls_hash_type = *vstd::slice::slice_index_get(ht, 0);
    let tt = slice_subrange(bytes, bs[3], bs[4]);
    if tt.len() != 36 {
        return None;
    }
    let thread_token = slice_to_vec(tt);
    let c = VCChannelConstants { params, vcls_code_hash, vcls_hash_type, thread_token };
    proof {
        if w is Some {
            assert(c.vcls_hash_type == w->0.vcls_hash_type);
            assert(seq![c.vcls_hash_type] =~= vc_constants_fields(w->0)[2]);
            assert(vc_constants_fields(c) =~= vc_constants_fields(w->0));
        }
    }
    Some(c)
}

proof fn lemma_parent_items_layout(ps: Seq<ParentData>, k: int)
    requires
        forall|j: int| 0 <= j < ps.len() ==> wf_parent(#[trigger] ps[j]),
        0 <= k <= ps.len(),
    ensures
        total_len(parent_items(ps).take(k)) == 34 * k,
        total_len(parent_items(ps)) == 34 * ps.len(),
    decreases k, ps.len(),
{
    let items = parent_items(ps);
    if k == 0 {
        assert(items.take(0) =~= Seq::<Seq<u8>>::empty());
        if ps.len() == 0 {
            assert(items =~= Seq::<Seq<u8>>::empty());
        } else {
            let tl = ps.drop_first();
            lemma_parent_items_layout(tl, 0);
            assert(parent_items(tl) =~= items.drop_first());
            assert(items[0].len() == 34);
        }
    } else {
        lemma_parent_items_layout(ps, k - 1);
        lemma_total_len_take_succ(items, k - 1);
        assert(items[k - 1].len() == 34);
    }
}

#[verifier::loop_isolation(false)]
fn parse_parents_loose(f: &[u8], Ghost(w): Ghost<Option<Seq<ParentData>>>) -> (r: Option<
    Vec<ParentData>,
>)
    requires
        w is Some ==> (forall|j: int| 0 <= j < w->0.len() ==> wf_parent(#[trigger] w->0[j]))
            && w->0.len() <= u32::MAX && spec_ser_parents(w->0) == f@,
    ensures
        r is Some ==> forall|k: int| 0 <= k < r->0@.len() ==> wf_parent(#[trigger] r->0@[k]),
        w is Some ==> r is Some && spec_ser_parents(r->0@) == f@,
{
    proof {
        if w is Some {
            lemma_auto_spec_u32_to_from_le_bytes();
            lemma_parent_items_layout(w->0, w->0.len() as int);
            lemma_concat_bytes_len(parent_items(w->0));
        }
    }
    if f.len() < 4 {
        return None;
    }
    let m = f.len() - 4;
    proof {
        if w is Some {
            assert(m == 34 * w->0.len());
            assert((34 * w->0.len()) % 34 == 0) by (nonlinear_arith);
        }
    }
    if m % 34 != 0 {
        return None;
    }
    let n = m / 34;
    proof {
        vstd::arithmetic::div_mod::lemma_fundamental_div_mod(m as int, 34);
        if w is Some {
            assert((34 * w->0.len()) / 34 == w->0.len()) by (nonlinear_arith);
            assert(n == w->0.len());
        }
    }
    assert(n * 34 == m);
    let mut ps: Vec<ParentData> = Vec::new();
    let mut i: usize = 0;
    while i < n
        invariant
            0 <= i <= n,
            n * 34 + 4 == f@.len(),
            f@.len() <= usize::MAX,
            ps@.len() == i,
            forall|k: int| 0 <= k < i ==> wf_parent(#[trigger] ps@[k]),
            w is Some ==> n == w->0.len() && spec_ser_parents(w->0) == f@ && (forall|j: int|
                0 <= j < w->0.len() ==> wf_parent(#[trigger] w->0[j])),
            w is Some ==> forall|k: int|
                0 <= k < i ==> spec_ser_parent(#[trigger] ps@[k]) == parent_items(w->0)[k],
        decreases n - i,
    {
        assert(i * 34 + 34 <= n * 34) by (nonlinear_arith)
            requires
                i + 1 <= n,
        ;
        let start = 4 + i * 34;
        let item = slice_subrange(f, start, start + 34);
        proof {
            if w is Some {
                let items = parent_items(w->0);
                lemma_auto_spec_u32_to_from_le_bytes();
                lemma_concat_bytes_len(items);
                lemma_parent_items_layout(w->0, i as int);
                lemma_parent_items_layout(w->0, i as int + 1);
                lemma_parent_items_layout(w->0, w->0.len() as int);
                assert(total_len(items.take(i as int)) == 34 * (i as int));
                assert(total_len(items.take(i as int + 1)) == 34 * (i as int) + 34);
                crate::wire::lemma_concat_extract(items, i as int);
                assert(concat_bytes(items).subrange(34 * (i as int), 34 * (i as int) + 34)
                    == items[i as int]);
                assert(item@ =~= concat_bytes(items).subrange(
                    34 * (i as int),
                    34 * (i as int) + 34,
                ));
                assert(items[i as int] == spec_ser_parent(w->0[i as int]));
                assert(item@.len() == 34);
            }
        }
        let p = match parse_parent_loose(item) {
            Some(p) => p,
            None => {
                return None;
            },
        };
        ps.push(p);
        i += 1;
    }
    proof {
        if w is Some {
            lemma_auto_spec_u32_to_from_le_bytes();
            assert(parent_items(ps@) =~= parent_items(w->0));
            assert(spec_ser_parents(ps@) =~= spec_ser_parents(w->0));
        }
    }
    Some(ps)
}

fn parse_vc_status_loose(
    bytes: &[u8],
    Ghost(w): Ghost<Option<VirtualChannelStatus>>,
) -> (r: Option<VirtualChannelStatus>)
    requires
        w is Some ==> wf_vc_status(w->0) && spec_ser_vc_status(w->0) == bytes@ && bytes@.len()
            <= u32::MAX,
    ensures
        r is Some ==> wf_vc_status(r->0),
        w is Some ==> r is Some && spec_ser_vc_status(r->0) == bytes@,
{
    let ghost ws: Option<Seq<Seq<u8>>> = match w {
        Some(v) => Some(vc_status_fields(v)),
        None => None,
    };
    proof {
        if w is Some {
            lemma_spec_table_len(vc_status_fields(w->0));
            lemma_table_recover(vc_status_fields(w->0));
            lemma_auto_spec_u32_to_from_le_bytes();
            lemma_auto_spec_u64_to_from_le_bytes();
            lemma_auto_spec_u128_to_from_le_bytes();
        }
    }
    let bs = match parse_ranges(bytes, 4, Ghost(ws)) {
        Some(bs) => bs,
        None => {
            return None;
        },
    };
    proof {
        if w is Some {
            let ss = vc_status_fields(w->0);
            assert(bytes@.subrange(table_offset(ss, 0) as int, table_offset(ss, 1) as int)
                == ss[0]);
            assert(bytes@.subrange(table_offset(ss, 1) as int, table_offset(ss, 2) as int)
                == ss[1]);
            assert(bytes@.subrange(table_offset(ss, 2) as int, table_offset(ss, 3) as int)
                == ss[2]);
            assert(bytes@.subrange(table_offset(ss, 3) as int, table_offset(ss, 4) as int)
                == ss[3]);
            // the parent count fits the count header because each entry
            // takes a fixed share of the field
            lemma_parent_items_layout(w->0.parents@, w->0.parents@.len() as int);
            lemma_concat_bytes_len(parent_items(w->0.parents@));
            lemma_auto_spec_u32_to_from_le_bytes();
            assert(ss[1].len() == 4 + 34 * w->0.parents@.len());
            lemma_field_le_table(ss, 1);
        }
    }
    let vcstate = match parse_state_loose(
        slice_subrange(bytes, bs[0], bs[1]),
        Ghost(match w {
            Some(v) => Some(v.vcstate),
            None => None,
        }),
    ) {
        Some(v) => v,
        None => {
            return None;
        },
    };
    let parents = match parse_parents_loose(
        slice_subrange(bytes, bs[1], bs[2]),
        Ghost(match w {
            Some(v) => Some(v.parents@),
            None => None,
        }),
    ) {
        Some(v) => v,
        None => {
            return None;
        },
    };
    let first_force_close = match parse_bool_loose(slice_subrange(bytes, bs[2], bs[3])) {
        Some(v) => v,
        None => {
            return None;
        },
    };
    let owner = match parse_participant_loose(slice_subrange(bytes, bs[3], bs[4])) {
        Some(v) => v,
        None => {
            return None;
        },
    };
    let s = VirtualChannelStatus { vcstate, parents, first_force_close, owner };
    proof {
        if w is Some {
            assert(s.first_force_close == w->0.first_force_close);
            assert(vc_status_fields(s) =~= vc_status_fields(w->0));
        }
    }
    Some(s)
}

fn parse_dispute_loose(f: &[u8], Ghost(w): Ghost<Option<DisputeSigs>>) -> (r: Option<DisputeSigs>)
    requires
        w is Some ==> spec_ser_dispute(w->0) == f@ && f@.len() <= u32::MAX,
    ensures
        w is Some ==> r is Some && spec_ser_dispute(r->0) == f@,
{
    let ghost ws: Option<Seq<Seq<u8>>> = match w {
        Some(v) => Some(dispute_fields(v)),
        None => None,
    };
    proof {
        if w is Some {
            lemma_spec_table_len(dispute_fields(w->0));
            lemma_table_recover(dispute_fields(w->0));
            lemma_auto_spec_u32_to_from_le_bytes();
            lemma_auto_spec_u64_to_from_le_bytes();
            lemma_auto_spec_u128_to_from_le_bytes();
        }
    }
    let bs = match parse_ranges(f, 2, Ghost(ws)) {
        Some(bs) => bs,
        None => {
            return None;
        },
    };
    proof {
        if w is Some {
            let ss = dispute_fields(w->0);
            assert(f@.subrange(table_offset(ss, 0) as int, table_offset(ss, 1) as int) == ss[0]);
            assert(f@.subrange(table_offset(ss, 1) as int, table_offset(ss, 2) as int) == ss[1]);
        }
    }
    let sig_a = match parse_bytes_payload_loose(slice_subrange(f, bs[0], bs[1])) {
        Some(v) => v,
        None => {
            return None;
        },
    };
    let sig_b = match parse_bytes_payload_loose(slice_subrange(f, bs[1], bs[2])) {
        Some(v) => v,
        None => {
            return None;
        },
    };
    let d = DisputeSigs { sig_a, sig_b };
    proof {
        if w is Some {
            lemma_auto_spec_u32_to_from_le_bytes();
            assert(d.sig_a@ =~= w->0.sig_a@);
            assert(d.sig_b@ =~= w->0.sig_b@);
            assert(spec_bytes_vec(d.sig_a@) =~= dispute_fields(w->0)[0]);
            assert(spec_bytes_vec(d.sig_b@) =~= dispute_fields(w->0)[1]);
            assert(dispute_fields(d) =~= dispute_fields(w->0));
        }
    }
    Some(d)
}

fn parse_vc_dispute_loose(f: &[u8], Ghost(w): Ghost<Option<VcDisputeData>>) -> (r: Option<
    VcDisputeData,
>)
    requires
        w is Some ==> spec_ser_vc_dispute(w->0) == f@ && f@.len() <= u32::MAX,
    ensures
        w is Some ==> r is Some && spec_ser_vc_dispute(r->0) == f@,
{
    let ghost ws: Option<Seq<Seq<u8>>> = match w {
        Some(v) => Some(vc_dispute_fields(v)),
        None => None,
    };
    proof {
        if w is Some {
            lemma_spec_table_len(vc_dispute_fields(w->0));
            lemma_table_recover(vc_dispute_fields(w->0));
            lemma_auto_spec_u32_to_from_le_bytes();
            lemma_auto_spec_u64_to_from_le_bytes();
            lemma_auto_spec_u128_to_from_le_bytes();
        }
    }
    let bs = match parse_ranges(f, 3, Ghost(ws)) {
        Some(bs) => bs,
        None => {
            return None;
        },
    };
    proof {
        if w is Some {
            let ss = vc_dispute_fields(w->0);
            assert(f@.subrange(table_offset(ss, 0) as int, table_offset(ss, 1) as int) == ss[0]);
            assert(f@.subrange(table_offset(ss, 1) as int, table_offset(ss, 2) as int) == ss[1]);
            assert(f@.subrange(table_offset(ss, 2) as int, table_offset(ss, 3) as int) == ss[2]);
            lemma_field_le_table(ss, 2);
        }
    }
    let sig_a = match parse_bytes_payload_loose(slice_subrange(f, bs[0], bs[1])) {
        Some(v) => v,
        None => {
            return None;
        },
    };
    let sig_b = match parse_bytes_payload_loose(slice_subrange(f, bs[1], bs[2])) {
        Some(v) => v,
        None => {
            return None;
        },
    };
    let parent_sigs = match parse_dispute_loose(
        slice_subrange(f, bs[2], bs[3]),
        Ghost(match w {
            Some(v) => Some(v.parent_sigs),
            None => None,
        }),
    ) {
        Some(v) => v,
        None => {
            return None;
        },
    };
    let d = VcDisputeData { sig_a, sig_b, parent_sigs };
    proof {
        if w is Some {
            lemma_auto_spec_u32_to_from_le_bytes();
            assert(d.sig_a@ =~= w->0.sig_a@);
            assert(d.sig_b@ =~= w->0.sig_b@);
            assert(spec_bytes_vec(d.sig_a@) =~= vc_dispute_fields(w->0)[0]);
            assert(spec_bytes_vec(d.sig_b@) =~= vc_dispute_fields(w->0)[1]);
            assert(vc_dispute_fields(d) =~= vc_dispute_fields(w->0));
        }
    }
    Some(d)
}

fn parse_close_loose(f: &[u8], Ghost(w): Ghost<Option<CloseData>>) -> (r: Option<CloseData>)
    requires
        w is Some ==> wf_state(w->0.state) && spec_ser_close(w->0) == f@ && f@.len() <= u32::MAX,
    ensures
        r is Some ==> wf_state(r->0.state),
        w is Some ==> r is Some && spec_ser_close(r->0) == f@,
{
    let ghost ws: Option<Seq<Seq<u8>>> = match w {
        Some(v) => Some(close_fields(v)),
        None => None,
    };
    proof {
        if w is Some {
            lemma_spec_table_len(close_fields(w->0));
            lemma_table_recover(close_fields(w->0));
            lemma_auto_spec_u32_to_from_le_bytes();
            lemma_auto_spec_u64_to_from_le_bytes();
            lemma_auto_spec_u128_to_from_le_bytes();
        }
    }
    let bs = match parse_ranges(f, 3, Ghost(ws)) {
        Some(bs) => bs,
        None => {
            return None;
        },
    };
    proof {
        if w is Some {
            let ss = close_fields(w->0);
            assert(f@.subrange(table_offset(ss, 0) as int, table_offset(ss, 1) as int) == ss[0]);
            assert(f@.subrange(table_offset(ss, 1) as int, table_offset(ss, 2) as int) == ss[1]);
            assert(f@.subrange(table_offset(ss, 2) as int, table_offset(ss, 3) as int) == ss[2]);
            lemma_field_le_table(ss, 0);
        }
    }
    let state = match parse_state_loose(
        slice_subrange(f, bs[0], bs[1]),
        Ghost(match w {
            Some(v) => Some(v.state),
            None => None,
        }),
    ) {
        Some(v) => v,
        None => {
            return None;
        },
    };
    let sig_a = match parse_bytes_payload_loose(slice_subrange(f, bs[1], bs[2])) {
        Some(v) => v,
        None => {
            return None;
        },
    };
    let sig_b = match parse_bytes_payload_loose(slice_subrange(f, bs[2], bs[3])) {
        Some(v) => v,
        None => {
            return None;
        },
    };
    let c = CloseData { state, sig_a, sig_b };
    proof {
        if w is Some {
            lemma_auto_spec_u32_to_from_le_bytes();
            assert(c.sig_a@ =~= w->0.sig_a@);
            assert(c.sig_b@ =~= w->0.sig_b@);
            assert(spec_bytes_vec(c.sig_a@) =~= close_fields(w->0)[1]);
            assert(spec_bytes_vec(c.sig_b@) =~= close_fields(w->0)[2]);
            assert(close_fields(c) =~= close_fields(w->0));
        }
    }
    Some(c)
}

#[verifier::rlimit(60)]
fn parse_witness_loose(bytes: &[u8], Ghost(w): Ghost<Option<ChannelWitness>>) -> (r: Option<
    ChannelWitness,
>)
    requires
        w is Some ==> wf_witness(w->0) && spec_ser_witness(w->0) == bytes@ && bytes@.len()
            <= u32::MAX + 4,
    ensures
        r is Some ==> wf_witness(r->0),
        w is Some ==> r is Some && spec_ser_witness(r->0) == bytes@,
{
    proof {
        if w is Some {
            lemma_auto_spec_u32_to_from_le_bytes();
        }
    }
    if bytes.len() < 4 {
        return None;
    }
    let tag = match read_u32_at(bytes, 0) {
        Some(t) => t,
        None => {
            return None;
        },
    };
    let body = slice_subrange(bytes, 4, bytes.len());
    proof {
        if w is Some {
            assert(bytes@.subrange(0, 4) =~= spec_u32_to_le_bytes(witness_tag(w->0)));
            assert(tag == witness_tag(w->0));
            match w->0 {
                ChannelWitness::Fund => {
                    assert(spec_ser_witness(w->0) =~= spec_u32_to_le_bytes(0u32));
                },
                ChannelWitness::Dispute(d) => {
                    assert(body@ =~= spec_ser_dispute(d));
                },
                ChannelWitness::VCDispute(d) => {
                    assert(body@ =~= spec_ser_vc_dispute(d));
                },
                ChannelWitness::Close(c) => {
                    assert(body@ =~= spec_ser_close(c));
                },
                ChannelWitness::ForceClose => {
                    assert(spec_ser_witness(w->0) =~= spec_u32_to_le_bytes(4u32));
                },
                ChannelWitness::Abort => {
                    assert(spec_ser_witness(w->0) =~= spec_u32_to_le_bytes(5u32));
                },
            }
        }
    }
    let r: Option<ChannelWitness> = if tag == 0 {
        Some(ChannelWitness::Fund)
    } else if tag == 1 {
        match parse_dispute_loose(
            body,
            Ghost(match w {
                Some(ChannelWitness::Dispute(d)) => Some(d),
                _ => None,
            }),
        ) {
            Some(d) => Some(ChannelWitness::Dispute(d)),
            None => None,
        }
    } else if tag == 2 {
        match parse_vc_dispute_loose(
            body,
            Ghost(match w {
                Some(ChannelWitness::VCDispute(d)) => Some(d),
                _ => None,
            }),
        ) {
            Some(d) => Some(ChannelWitness::VCDispute(d)),
            None => None,
        }
    } else if tag == 3 {
        match parse_close_loose(
            body,
            Ghost(match w {
                Some(ChannelWitness::Close(c)) => Some(c),
                _ => None,
            }),
        ) {
            Some(c) => Some(ChannelWitness::Close(c)),
            None => None,
        }
    } else if tag == 4 {
        Some(ChannelWitness::ForceClose)
    } else if tag == 5 {
        Some(ChannelWitness::Abort)
    } else {
        None
    };
    proof {
        if w is Some {
            assert(r is Some);
            assert(spec_ser_witness(r->0) =~= bytes@);
        }
    }
    r
}

// --- public parsers: loose parse, re-serialize, compare ---

/// Some well-formed channel constants record encodes canonically to the
/// bytes.
pub open spec fn parseable_constants(bytes: Seq<u8>) -> bool {
    exists|v: ChannelConstants|
        wf_constants(v) && #[trigger] spec_ser_constants(v) == bytes && bytes.len() <= u32::MAX
}

/// Some well-formed virtual channel constants record encodes
/// canonically to the bytes.
pub open spec fn parseable_vc_constants(bytes: Seq<u8>) -> bool {
    exists|v: VCChannelConstants|
        wf_vc_constants(v) && #[trigger] spec_ser_vc_constants(v) == bytes && bytes.len()
            <= u32::MAX
}

/// Some well-formed channel status encodes canonically to the bytes.
pub open spec fn parseable_status(bytes: Seq<u8>) -> bool {
    exists|v: ChannelStatus|
        wf_status(v) && #[trigger] spec_ser_status(v) == bytes && bytes.len() <= u32::MAX
}

/// Some well-formed virtual channel status encodes canonically to the
/// bytes.
pub open spec fn parseable_vc_status(bytes: Seq<u8>) -> bool {
    exists|v: VirtualChannelStatus|
        wf_vc_status(v) && #[trigger] spec_ser_vc_status(v) == bytes && bytes.len() <= u32::MAX
}

/// Some well-formed witness encodes canonically to the bytes.
pub open spec fn parseable_witness(bytes: Seq<u8>) -> bool {
    exists|v: ChannelWitness|
        wf_witness(v) && #[trigger] spec_ser_witness(v) == bytes && bytes.len() <= u32::MAX + 4
}

/// Parses channel constants; accepts a byte string exactly when it is
/// the canonical encoding of a well-formed record.
pub fn parse_channel_constants(bytes: &[u8]) -> (r: Option<ChannelConstants>)
    ensures
        r is Some <==> parseable_constants(bytes@),
        r is Some ==> wf_constants(r->0) && spec_ser_constants(r->0) == bytes@ && bytes@.len()
            <= u32::MAX,
{
    let ghost w: Option<ChannelConstants> = if parseable_constants(bytes@) {
        Some(
            choose|v: ChannelConstants|
                wf_constants(v) && #[trigger] spec_ser_constants(v) == bytes@,
        )
    } else {
        None
    };
    let c = match parse_constants_loose(bytes, Ghost(w)) {
        Some(c) => c,
        None => {
            return None;
        },
    };
    let enc = match serialize_constants(&c) {
        Ok(v) => v,
        Err(_) => {
            return None;
        },
    };
    if bytes_eq(enc.as_slice(), bytes) {
        Some(c)
    } else {
        None
    }
}

/// Parses virtual channel constants; accepts a byte string exactly when
/// it is the canonical encoding of a well-formed record.
pub fn parse_vc_channel_constants(bytes: &[u8]) -> (r: Option<VCChannelConstants>)
    ensures
        r is Some <==> parseable_vc_constants(bytes@),
        r is Some ==> wf_vc_constants(r->0) && spec_ser_vc_constants(r->0) == bytes@
            && bytes@.len() <= u32::MAX,
{
    let ghost w: Option<VCChannelConstants> = if parseable_vc_constants(bytes@) {
        Some(
            choose|v: VCChannelConstants|
                wf_vc_constants(v) && #[trigger] spec_ser_vc_constants(v) == bytes@,
        )
    } else {
        None
    };
    let c = match parse_vc_constants_loose(bytes, Ghost(w)) {
        Some(c) => c,
        None => {
            return None;
        },
    };
    let enc = match serialize_vc_constants(&c) {
        Ok(v) => v,
        Err(_) => {
            return None;
        },
    };
    if bytes_eq(enc.as_slice(), bytes) {
        Some(c)
    } else {
        None
    }
}

/// Parses a channel status; accepts a byte string exactly when it is
/// the canonical encoding of a well-formed record.
pub fn parse_channel_status(bytes: &[u8]) -> (r: Option<ChannelStatus>)
    ensures
        r is Some <==> parseable_status(bytes@),
        r is Some ==> wf_status(r->0) && spec_ser_status(r->0) == bytes@ && bytes@.len()
            <= u32::MAX,
{
    let ghost w: Option<ChannelStatus> = if parseable_status(bytes@) {
        Some(choose|v: ChannelStatus| wf_status(v) && #[trigger] spec_ser_status(v) == bytes@)
    } else {
        None
    };
    let s = match parse_status_loose(bytes, Ghost(w)) {
        Some(s) => s,
        None => {
            return None;
        },
    };
    let enc = match serialize_status(&s) {
        Ok(v) => v,
        Err(_) => {
            return None;
        },
    };
    if bytes_eq(enc.as_slice(), bytes) {
        Some(s)
    } else {
        None
    }
}

/// Parses a virtual channel status; accepts a byte string exactly when
/// it is the canonical encoding of a well-formed record.
pub fn parse_virtual_channel_status(bytes: &[u8]) -> (r: Option<VirtualChannelStatus>)
    ensures
        r is Some <==> parseable_vc_status(bytes@),
        r is Some ==> wf_vc_status(r->0) && spec_ser_vc_status(r->0) == bytes@ && bytes@.len()
            <= u32::MAX,
{
    let ghost w: Option<VirtualChannelStatus> = if parseable_vc_status(bytes@) {
        Some(
            choose|v: VirtualChannelStatus|
                wf_vc_status(v) && #[trigger] spec_ser_vc_status(v) == bytes@,
        )
    } else {
        None
    };
    let s = match parse_vc_status_loose(bytes, Ghost(w)) {
        Some(s) => s,
        None => {
            return None;
        },
    };
    let enc = match serialize_vc_status(&s) {
        Ok(v) => v,
        Err(_) => {
            return None;
        },
    };
    if bytes_eq(enc.as_slice(), bytes) {
        Some(s)
    } else {
        None
    }
}

/// Parses a witness; accepts a byte string exactly when it is the
/// canonical encoding of a well-formed record.
pub fn parse_channel_witness(bytes: &[u8]) -> (r: Option<ChannelWitness>)
    ensures
        r is Some <==> parseable_witness(bytes@),
        r is Some ==> wf_witness(r->0) && spec_ser_witness(r->0) == bytes@ && bytes@.len()
            <= u32::MAX + 4,
{
    let ghost w: Option<ChannelWitness> = if parseable_witness(bytes@) {
        Some(choose|v: ChannelWitness| wf_witness(v) && #[trigger] spec_ser_witness(v) == bytes@)
    } else {
        None
    };
    let wp = match parse_witness_loose(bytes, Ghost(w)) {
        Some(wp) => wp,
        None => {
            return None;
        },
    };
    let enc = match serialize_witness(&wp) {
        Ok(v) => v,
        Err(_) => {
            return None;
        },
    };
    if bytes_eq(enc.as_slice(), bytes) {
        Some(wp)
    } else {
        None
    }
}

} // verus!
