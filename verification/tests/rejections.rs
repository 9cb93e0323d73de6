//! Rejections the channel state machine owes: one test per rule that a
//! malformed or premature action must trip.

use k256::ecdsa::signature::hazmat::PrehashSigner;
use k256::elliptic_curve::sec1::ToEncodedPoint;
use sha3::Digest;

use perun_core::codec::{
    serialize_constants, serialize_params, serialize_state, serialize_status, serialize_witness,
};
use perun_core::crypto::blake2b256;
use perun_core::error::Error;
use perun_core::pcts::pcts_validate;
use perun_core::records::{
    Balances, ChannelConstants, ChannelParameters, ChannelState, ChannelStatus, ChannelWitness,
    DisputeSigs, Participant, ScriptDesc,
};
use perun_core::tx::{CellInput, CellOutput, Transaction};

const CKB: u64 = 100000000;

fn h32(b: u8) -> Vec<u8> {
    vec![b; 32]
}

fn keypair(seed: u8) -> (k256::ecdsa::SigningKey, Vec<u8>) {
    let sk = k256::ecdsa::SigningKey::from_slice(&[seed; 32]).unwrap();
    let pk = sk.verifying_key().to_encoded_point(true).as_bytes().to_vec();
    (sk, pk)
}

fn participant(psh: u8, pk: &[u8]) -> Participant {
    Participant {
        payment_script_hash: h32(psh),
        payment_min_capacity: 1,
        pub_key: pk.to_vec(),
        unlock_script_hash: h32(psh),
    }
}

fn sign_state(sk: &k256::ecdsa::SigningKey, s: &ChannelState) -> Vec<u8> {
    let bytes = serialize_state(s).unwrap();
    let inner = sha3::Keccak256::digest(&bytes);
    let mut buf = b"\x19Ethereum Signed Message:\n32".to_vec();
    buf.extend_from_slice(&inner);
    let prehash = sha3::Keccak256::digest(&buf);
    let sig: k256::ecdsa::Signature = sk.sign_prehash(&prehash).unwrap();
    sig.to_der().as_bytes().to_vec()
}

fn pcls_lock() -> ScriptDesc {
    ScriptDesc { code_hash: h32(0xCC), hash_type: 0, args: vec![] }
}

fn plain_lock(tag: u8) -> ScriptDesc {
    ScriptDesc { code_hash: h32(tag), hash_type: 0, args: vec![] }
}

struct Setup {
    args: Vec<u8>,
    id: Vec<u8>,
    own: Vec<u8>,
    sk_a: k256::ecdsa::SigningKey,
    sk_b: k256::ecdsa::SigningKey,
}

fn setup() -> Setup {
    let (sk_a, pk_a) = keypair(1);
    let (sk_b, pk_b) = keypair(2);
    let params = ChannelParameters {
        party_a: participant(0xAA, &pk_a),
        party_b: participant(0xBB, &pk_b),
        nonce: h32(0x01),
        challenge_duration: 1000,
        app: None,
        is_ledger_channel: true,
        is_virtual_channel: false,
    };
    let id = blake2b256(&serialize_params(&params).unwrap());
    let c = ChannelConstants {
        params,
        pcls_code_hash: h32(0xCC),
        pcls_hash_type: 0,
        pfls_code_hash: h32(0xDD),
        pfls_hash_type: 0,
        pfls_min_capacity: 61 * CKB,
        thread_token: vec![3; 36],
    };
    Setup { args: serialize_constants(&c).unwrap(), id, own: h32(0xEE), sk_a, sk_b }
}

fn state(s: &Setup, version: u64, a: u64, b: u64, is_final: bool) -> ChannelState {
    ChannelState {
        channel_id: s.id.clone(),
        version,
        balances: Balances { ckbytes: [a, b], sudts: vec![], locked: vec![] },
        is_final,
    }
}

fn status(st: ChannelState, funded: bool, disputed: bool) -> ChannelStatus {
    ChannelStatus { state: st, funded, disputed, vc_disputed: false, vcts_hash: h32(0x00) }
}

fn channel_input(s: &Setup, st: &ChannelStatus, w: &ChannelWitness) -> CellInput {
    CellInput {
        out_point: vec![8; 36],
        capacity: 70 * CKB,
        lock: pcls_lock(),
        lock_hash: h32(0x77),
        type_hash: Some(s.own.clone()),
        type_args: None,
        data: serialize_status(st).unwrap(),
        witness_input_type: Some(serialize_witness(w).unwrap()),
        header: None,
    }
}

fn channel_output(s: &Setup, st: &ChannelStatus) -> CellOutput {
    CellOutput {
        capacity: 70 * CKB,
        lock: pcls_lock(),
        lock_hash: h32(0x77),
        type_hash: Some(s.own.clone()),
        type_script: None,
        data: serialize_status(st).unwrap(),
    }
}

fn payout(capacity: u64, psh: u8) -> CellOutput {
    CellOutput {
        capacity,
        lock: plain_lock(psh),
        lock_hash: h32(psh),
        type_hash: None,
        type_script: None,
        data: vec![],
    }
}

fn progress_tx(s: &Setup, old: &ChannelStatus, new: &ChannelStatus, w: &ChannelWitness) -> Transaction {
    Transaction {
        inputs: vec![channel_input(s, old, w)],
        outputs: vec![channel_output(s, new)],
        header_deps: vec![],
    }
}

fn dispute_witness(s: &Setup, st: &ChannelState) -> ChannelWitness {
    ChannelWitness::Dispute(
        DisputeSigs { sig_a: sign_state(&s.sk_a, st), sig_b: sign_state(&s.sk_b, st) },
    )
}

#[test]
fn dispute_requires_funding() {
    let s = setup();
    let old = status(state(&s, 0, 100 * CKB, 200 * CKB, false), false, false);
    let st1 = state(&s, 1, 100 * CKB, 200 * CKB, false);
    let w = dispute_witness(&s, &st1);
    let new = status(state(&s, 1, 100 * CKB, 200 * CKB, false), true, true);
    assert_eq!(
        pcts_validate(&progress_tx(&s, &old, &new, &w), &s.own, &s.args),
        Err(Error::ChannelNotFunded),
    );
}

#[test]
fn dispute_preserves_sums() {
    let s = setup();
    let old = status(state(&s, 0, 100 * CKB, 200 * CKB, false), true, false);
    // one unit leaks from the total
    let st1 = state(&s, 1, 100 * CKB, 200 * CKB - 1, false);
    let w = dispute_witness(&s, &st1);
    let new = status(state(&s, 1, 100 * CKB, 200 * CKB - 1, false), true, true);
    assert_eq!(
        pcts_validate(&progress_tx(&s, &old, &new, &w), &s.own, &s.args),
        Err(Error::SumOfBalancesNotEqual),
    );
}

#[test]
fn dispute_rejects_final_old_state() {
    let s = setup();
    let old = status(state(&s, 1, 100 * CKB, 200 * CKB, true), true, false);
    let st2 = state(&s, 2, 100 * CKB, 200 * CKB, false);
    let w = dispute_witness(&s, &st2);
    let new = status(state(&s, 2, 100 * CKB, 200 * CKB, false), true, true);
    assert_eq!(
        pcts_validate(&progress_tx(&s, &old, &new, &w), &s.own, &s.args),
        Err(Error::StateIsFinal),
    );
}

#[test]
fn dispute_must_set_the_flag() {
    let s = setup();
    let old = status(state(&s, 0, 100 * CKB, 200 * CKB, false), true, false);
    let st1 = state(&s, 1, 100 * CKB, 200 * CKB, false);
    let w = dispute_witness(&s, &st1);
    let new = status(state(&s, 1, 100 * CKB, 200 * CKB, false), true, false);
    assert_eq!(
        pcts_validate(&progress_tx(&s, &old, &new, &w), &s.own, &s.args),
        Err(Error::StatusNotDisputed),
    );
}

#[test]
fn fund_must_not_alter_the_state() {
    let s = setup();
    let old = status(state(&s, 0, 100 * CKB, 200 * CKB, false), false, false);
    let new = status(state(&s, 0, 100 * CKB, 200 * CKB + 1, false), true, false);
    let mut tx = progress_tx(&s, &old, &new, &ChannelWitness::Fund);
    tx.outputs.push(payout(200 * CKB, 0x78));
    tx.outputs[1].lock = ScriptDesc { code_hash: h32(0xDD), hash_type: 0, args: s.own.clone() };
    assert_eq!(pcts_validate(&tx, &s.own, &s.args), Err(Error::ChannelStateNotEqual));
}

#[test]
fn closing_actions_need_a_closing_shape() {
    let s = setup();
    let old = status(state(&s, 0, 100 * CKB, 200 * CKB, false), true, false);
    let new = status(state(&s, 0, 100 * CKB, 200 * CKB, false), true, false);
    // an abort with a continuing channel output is refused
    let tx = progress_tx(&s, &old, &new, &ChannelWitness::Abort);
    assert_eq!(pcts_validate(&tx, &s.own, &s.args), Err(Error::ChannelAbortWithChannelOutput));
    // a funding without a continuing channel output is refused
    let tx2 = Transaction {
        inputs: vec![channel_input(&s, &old, &ChannelWitness::Fund)],
        outputs: vec![payout(300 * CKB, 0xAA)],
        header_deps: vec![],
    };
    assert_eq!(pcts_validate(&tx2, &s.own, &s.args), Err(Error::ChannelFundWithoutChannelOutput));
}

#[test]
fn force_close_requires_dispute() {
    let s = setup();
    let old = status(state(&s, 1, 100 * CKB, 200 * CKB, false), true, false);
    let tx = Transaction {
        inputs: vec![
            CellInput {
                header: Some(perun_core::tx::Header { number: 1, timestamp: 1_000_000 }),
                ..channel_input(&s, &old, &ChannelWitness::ForceClose)
            },
        ],
        outputs: vec![payout(170 * CKB, 0xAA), payout(200 * CKB, 0xBB)],
        header_deps: vec![perun_core::tx::Header { number: 2, timestamp: 2_000_000 }],
    };
    assert_eq!(pcts_validate(&tx, &s.own, &s.args), Err(Error::StatusNotDisputed));
}

#[test]
fn progress_rejects_channel_id_change() {
    let s = setup();
    let old = status(state(&s, 0, 100 * CKB, 200 * CKB, false), true, false);
    let mut st1 = state(&s, 1, 100 * CKB, 200 * CKB, false);
    st1.channel_id = h32(0x12);
    let w = dispute_witness(&s, &st1);
    let new = ChannelStatus {
        state: st1,
        funded: true,
        disputed: true,
        vc_disputed: false,
        vcts_hash: h32(0x00),
    };
    assert_eq!(
        pcts_validate(&progress_tx(&s, &old, &new, &w), &s.own, &s.args),
        Err(Error::ChannelIdMismatch),
    );
}

#[test]
fn close_rejects_owed_total_beyond_native_word() {
    let s = setup();
    // the owed total for the first party exceeds what the native word
    // can carry; even outputs that cover it cannot make this acceptable
    let old = status(state(&s, 0, u64::MAX, 0, false), true, false);
    let st1 = state(&s, 1, u64::MAX, 0, true);
    let w = ChannelWitness::Close(perun_core::records::CloseData {
        state: state(&s, 1, u64::MAX, 0, true),
        sig_a: sign_state(&s.sk_a, &st1),
        sig_b: sign_state(&s.sk_b, &st1),
    });
    let tx = Transaction {
        inputs: vec![channel_input(&s, &old, &w)],
        outputs: vec![payout(u64::MAX, 0xAA), payout(u64::MAX, 0xAA), payout(1, 0xBB)],
        header_deps: vec![],
    };
    assert_eq!(pcts_validate(&tx, &s.own, &s.args), Err(Error::NotAllPaid));
}

#[test]
fn progress_requires_a_witness() {
    let s = setup();
    let old = status(state(&s, 0, 100 * CKB, 200 * CKB, false), true, false);
    let new = status(state(&s, 1, 100 * CKB, 200 * CKB, false), true, true);
    let mut tx = progress_tx(&s, &old, &new, &ChannelWitness::Fund);
    tx.inputs[0].witness_input_type = None;
    assert_eq!(pcts_validate(&tx, &s.own, &s.args), Err(Error::NoWitness));
}
