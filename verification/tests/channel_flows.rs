//! End-to-end flows of the ledger channel validator: open, fund,
//! cooperative close, abort, dispute, forced close, and the rejections
//! the protocol demands.

use k256::ecdsa::signature::hazmat::PrehashSigner;
use k256::elliptic_curve::sec1::ToEncodedPoint;
use sha3::Digest;

use perun_core::codec::{
    serialize_constants, serialize_params, serialize_state, serialize_status, serialize_witness,
};
use perun_core::crypto::blake2b256;
use perun_core::error::Error;
use perun_core::pcts::pcts_validate;
use perun_core::pfls::pfls_validate;
use perun_core::records::{
    Balances, ChannelConstants, ChannelParameters, ChannelState, ChannelStatus, ChannelWitness,
    CloseData, DisputeSigs, Participant, ScriptDesc,
};
use perun_core::tx::{CellInput, CellOutput, Header, Transaction};

const CKB: u64 = 100000000;

fn h32(b: u8) -> Vec<u8> {
    vec![b; 32]
}

fn keypair(seed: u8) -> (k256::ecdsa::SigningKey, Vec<u8>) {
    let sk = k256::ecdsa::SigningKey::from_slice(&[seed; 32]).unwrap();
    let pk = sk.verifying_key().to_encoded_point(true).as_bytes().to_vec();
    (sk, pk)
}

fn participant(psh: u8, pk: &[u8]) -> Participant {
    Participant {
        payment_script_hash: h32(psh),
        payment_min_capacity: 1,
        pub_key: pk.to_vec(),
        unlock_script_hash: h32(psh),
    }
}

fn ledger_params(pk_a: &[u8], pk_b: &[u8], psh_a: u8, psh_b: u8) -> ChannelParameters {
    ChannelParameters {
        party_a: participant(psh_a, pk_a),
        party_b: participant(psh_b, pk_b),
        nonce: h32(0x01),
        challenge_duration: 1000,
        app: None,
        is_ledger_channel: true,
        is_virtual_channel: false,
    }
}

fn constants(params: ChannelParameters) -> ChannelConstants {
    ChannelConstants {
        params,
        pcls_code_hash: h32(0xCC),
        pcls_hash_type: 0,
        pfls_code_hash: h32(0xDD),
        pfls_hash_type: 0,
        pfls_min_capacity: 61 * CKB,
        thread_token: vec![3; 36],
    }
}

fn balances(a: u64, b: u64) -> Balances {
    Balances { ckbytes: [a, b], sudts: vec![], locked: vec![] }
}

fn state(channel_id: &[u8], version: u64, a: u64, b: u64, is_final: bool) -> ChannelState {
    ChannelState {
        channel_id: channel_id.to_vec(),
        version,
        balances: balances(a, b),
        is_final,
    }
}

fn status(state: ChannelState, funded: bool, disputed: bool) -> ChannelStatus {
    ChannelStatus { state, funded, disputed, vc_disputed: false, vcts_hash: h32(0x00) }
}

fn pcls_lock() -> ScriptDesc {
    ScriptDesc { code_hash: h32(0xCC), hash_type: 0, args: vec![] }
}

fn pfls_lock(own_hash: &[u8]) -> ScriptDesc {
    ScriptDesc { code_hash: h32(0xDD), hash_type: 0, args: own_hash.to_vec() }
}

fn plain_lock(tag: u8) -> ScriptDesc {
    ScriptDesc { code_hash: h32(tag), hash_type: 0, args: vec![] }
}

fn sign_state(sk: &k256::ecdsa::SigningKey, s: &ChannelState) -> Vec<u8> {
    let bytes = serialize_state(s).unwrap();
    let inner = sha3::Keccak256::digest(&bytes);
    let mut buf = b"\x19Ethereum Signed Message:\n32".to_vec();
    buf.extend_from_slice(&inner);
    let prehash = sha3::Keccak256::digest(&buf);
    let sig: k256::ecdsa::Signature = sk.sign_prehash(&prehash).unwrap();
    sig.to_der().as_bytes().to_vec()
}

fn input(
    out_point: Vec<u8>,
    capacity: u64,
    lock: ScriptDesc,
    lock_hash: Vec<u8>,
    type_hash: Option<Vec<u8>>,
    data: Vec<u8>,
    witness: Option<Vec<u8>>,
    header: Option<Header>,
) -> CellInput {
    CellInput {
        out_point,
        capacity,
        lock,
        lock_hash,
        type_hash,
        type_args: None,
        data,
        witness_input_type: witness,
        header,
    }
}

fn output(
    capacity: u64,
    lock: ScriptDesc,
    lock_hash: Vec<u8>,
    type_hash: Option<Vec<u8>>,
    data: Vec<u8>,
) -> CellOutput {
    CellOutput { capacity, lock, lock_hash, type_hash, type_script: None, data }
}

struct Channel {
    c: ChannelConstants,
    args: Vec<u8>,
    id: Vec<u8>,
    own: Vec<u8>,
    sk_a: k256::ecdsa::SigningKey,
    sk_b: k256::ecdsa::SigningKey,
}

fn channel(psh_a: u8, psh_b: u8) -> Channel {
    let (sk_a, pk_a) = keypair(1);
    let (sk_b, pk_b) = keypair(2);
    let params = ledger_params(&pk_a, &pk_b, psh_a, psh_b);
    let id = blake2b256(&serialize_params(&params).unwrap());
    let c = constants(params);
    let args = serialize_constants(&c).unwrap();
    Channel { c, args, id, own: h32(0xEE), sk_a, sk_b }
}

fn open_tx(ch: &Channel, a: u64, b: u64, funded: bool) -> Transaction {
    let st = status(state(&ch.id, 0, a, b, false), funded, false);
    Transaction {
        inputs: vec![
            input(
                ch.c.thread_token.clone(),
                1000 * CKB,
                plain_lock(0x11),
                h32(0x11),
                None,
                vec![],
                None,
                None,
            ),
        ],
        outputs: vec![
            output(
                70 * CKB,
                pcls_lock(),
                h32(0x77),
                Some(ch.own.clone()),
                serialize_status(&st).unwrap(),
            ),
            output(a, pfls_lock(&ch.own), h32(0x78), None, vec![]),
        ],
        header_deps: vec![],
    }
}

#[test]
fn happy_open_fund_close() {
    let ch = channel(0xAA, 0xBB);
    // the first party opens with 100 and 200 native units owed
    let tx_open = open_tx(&ch, 100 * CKB, 200 * CKB, false);
    assert_eq!(pcts_validate(&tx_open, &ch.own, &ch.args), Ok(()));

    // the second party funds
    let st_open = status(state(&ch.id, 0, 100 * CKB, 200 * CKB, false), false, false);
    let st_funded = status(state(&ch.id, 0, 100 * CKB, 200 * CKB, false), true, false);
    let tx_fund = Transaction {
        inputs: vec![
            input(
                vec![9; 36],
                70 * CKB,
                pcls_lock(),
                h32(0x77),
                Some(ch.own.clone()),
                serialize_status(&st_open).unwrap(),
                Some(serialize_witness(&ChannelWitness::Fund).unwrap()),
                None,
            ),
        ],
        outputs: vec![
            output(
                70 * CKB,
                pcls_lock(),
                h32(0x77),
                Some(ch.own.clone()),
                serialize_status(&st_funded).unwrap(),
            ),
            output(200 * CKB, pfls_lock(&ch.own), h32(0x78), None, vec![]),
        ],
        header_deps: vec![],
    };
    assert_eq!(pcts_validate(&tx_fund, &ch.own, &ch.args), Ok(()));

    // a final state signed by both closes the channel; the first party
    // receives its balance plus the channel cell's capacity
    let final_state = state(&ch.id, 5, 80 * CKB, 220 * CKB, true);
    let sig_a = sign_state(&ch.sk_a, &final_state);
    let sig_b = sign_state(&ch.sk_b, &final_state);
    let close_w = ChannelWitness::Close(CloseData { state: final_state, sig_a, sig_b });
    let tx_close = Transaction {
        inputs: vec![
            input(
                vec![10; 36],
                70 * CKB,
                pcls_lock(),
                h32(0x77),
                Some(ch.own.clone()),
                serialize_status(&st_funded).unwrap(),
                Some(serialize_witness(&close_w).unwrap()),
                None,
            ),
        ],
        outputs: vec![
            output(150 * CKB, plain_lock(0xAA), h32(0xAA), None, vec![]),
            output(220 * CKB, plain_lock(0xBB), h32(0xBB), None, vec![]),
        ],
        header_deps: vec![],
    };
    assert_eq!(pcts_validate(&tx_close, &ch.own, &ch.args), Ok(()));

    // underpaying the second party is rejected
    let final_state2 = state(&ch.id, 5, 80 * CKB, 220 * CKB, true);
    let close_w2 = ChannelWitness::Close(
        CloseData {
            state: state(&ch.id, 5, 80 * CKB, 220 * CKB, true),
            sig_a: sign_state(&ch.sk_a, &final_state2),
            sig_b: sign_state(&ch.sk_b, &final_state2),
        },
    );
    let tx_short = Transaction {
        inputs: vec![
            input(
                vec![10; 36],
                70 * CKB,
                pcls_lock(),
                h32(0x77),
                Some(ch.own.clone()),
                serialize_status(&st_funded).unwrap(),
                Some(serialize_witness(&close_w2).unwrap()),
                None,
            ),
        ],
        outputs: vec![
            output(150 * CKB, plain_lock(0xAA), h32(0xAA), None, vec![]),
            output(219 * CKB, plain_lock(0xBB), h32(0xBB), None, vec![]),
        ],
        header_deps: vec![],
    };
    assert_eq!(pcts_validate(&tx_short, &ch.own, &ch.args), Err(Error::NotAllPaid));
}

#[test]
fn close_requires_final_state() {
    let ch = channel(0xAA, 0xBB);
    let st_funded = status(state(&ch.id, 0, 100 * CKB, 200 * CKB, false), true, false);
    let non_final = state(&ch.id, 5, 80 * CKB, 220 * CKB, false);
    let close_w = ChannelWitness::Close(
        CloseData {
            state: state(&ch.id, 5, 80 * CKB, 220 * CKB, false),
            sig_a: sign_state(&ch.sk_a, &non_final),
            sig_b: sign_state(&ch.sk_b, &non_final),
        },
    );
    let tx = Transaction {
        inputs: vec![
            input(
                vec![10; 36],
                70 * CKB,
                pcls_lock(),
                h32(0x77),
                Some(ch.own.clone()),
                serialize_status(&st_funded).unwrap(),
                Some(serialize_witness(&close_w).unwrap()),
                None,
            ),
        ],
        outputs: vec![
            output(150 * CKB, plain_lock(0xAA), h32(0xAA), None, vec![]),
            output(220 * CKB, plain_lock(0xBB), h32(0xBB), None, vec![]),
        ],
        header_deps: vec![],
    };
    assert_eq!(pcts_validate(&tx, &ch.own, &ch.args), Err(Error::StateNotFinal));
}

#[test]
fn close_rejects_wrong_signature() {
    let ch = channel(0xAA, 0xBB);
    let st_funded = status(state(&ch.id, 0, 100 * CKB, 200 * CKB, false), true, false);
    let final_state = state(&ch.id, 5, 80 * CKB, 220 * CKB, true);
    // the second signature is made by the wrong key
    let close_w = ChannelWitness::Close(
        CloseData {
            state: state(&ch.id, 5, 80 * CKB, 220 * CKB, true),
            sig_a: sign_state(&ch.sk_a, &final_state),
            sig_b: sign_state(&ch.sk_a, &final_state),
        },
    );
    let tx = Transaction {
        inputs: vec![
            input(
                vec![10; 36],
                70 * CKB,
                pcls_lock(),
                h32(0x77),
                Some(ch.own.clone()),
                serialize_status(&st_funded).unwrap(),
                Some(serialize_witness(&close_w).unwrap()),
                None,
            ),
        ],
        outputs: vec![
            output(150 * CKB, plain_lock(0xAA), h32(0xAA), None, vec![]),
            output(220 * CKB, plain_lock(0xBB), h32(0xBB), None, vec![]),
        ],
        header_deps: vec![],
    };
    assert_eq!(pcts_validate(&tx, &ch.own, &ch.args), Err(Error::SignatureVerificationError));
}

#[test]
fn abort_refunds_opener() {
    let ch = channel(0xAA, 0xBB);
    // the channel opened unfunded (the second party still owes)
    let st_open = status(state(&ch.id, 0, 100 * CKB, 200 * CKB, false), false, false);
    let tx = Transaction {
        inputs: vec![
            input(
                vec![10; 36],
                70 * CKB,
                pcls_lock(),
                h32(0x77),
                Some(ch.own.clone()),
                serialize_status(&st_open).unwrap(),
                Some(serialize_witness(&ChannelWitness::Abort).unwrap()),
                None,
            ),
        ],
        outputs: vec![
            // the opener receives its balance plus the channel cell's capacity
            output(170 * CKB, plain_lock(0xAA), h32(0xAA), None, vec![]),
        ],
        header_deps: vec![],
    };
    assert_eq!(pcts_validate(&tx, &ch.own, &ch.args), Ok(()));

    // a funded channel cannot be aborted
    let st_funded = status(state(&ch.id, 0, 100 * CKB, 200 * CKB, false), true, false);
    let tx2 = Transaction {
        inputs: vec![
            input(
                vec![10; 36],
                70 * CKB,
                pcls_lock(),
                h32(0x77),
                Some(ch.own.clone()),
                serialize_status(&st_funded).unwrap(),
                Some(serialize_witness(&ChannelWitness::Abort).unwrap()),
                None,
            ),
        ],
        outputs: vec![output(170 * CKB, plain_lock(0xAA), h32(0xAA), None, vec![])],
        header_deps: vec![],
    };
    assert_eq!(pcts_validate(&tx2, &ch.own, &ch.args), Err(Error::StateIsFunded));
}

fn dispute_tx(ch: &Channel, old: &ChannelStatus, new_state: ChannelState) -> Transaction {
    let sig_a = sign_state(&ch.sk_a, &new_state);
    let sig_b = sign_state(&ch.sk_b, &new_state);
    let new_status = ChannelStatus {
        state: new_state,
        funded: true,
        disputed: true,
        vc_disputed: false,
        vcts_hash: h32(0x00),
    };
    let w = ChannelWitness::Dispute(DisputeSigs { sig_a, sig_b });
    Transaction {
        inputs: vec![
            input(
                vec![11; 36],
                70 * CKB,
                pcls_lock(),
                h32(0x77),
                Some(ch.own.clone()),
                serialize_status(old).unwrap(),
                Some(serialize_witness(&w).unwrap()),
                None,
            ),
        ],
        outputs: vec![
            output(
                70 * CKB,
                pcls_lock(),
                h32(0x77),
                Some(ch.own.clone()),
                serialize_status(&new_status).unwrap(),
            ),
        ],
        header_deps: vec![],
    }
}

#[test]
fn dispute_then_force_close() {
    let ch = channel(0xAA, 0xBB);
    // a funded channel at version three is disputed with a version-four state
    let st3 = status(state(&ch.id, 3, 100 * CKB, 200 * CKB, false), true, false);
    let st4 = state(&ch.id, 4, 90 * CKB, 210 * CKB, false);
    let tx_dispute = dispute_tx(&ch, &st3, st4);
    assert_eq!(pcts_validate(&tx_dispute, &ch.own, &ch.args), Ok(()));

    // after the challenge duration, the channel force-closes at the
    // registered state
    let disputed = ChannelStatus {
        state: state(&ch.id, 4, 90 * CKB, 210 * CKB, false),
        funded: true,
        disputed: true,
        vc_disputed: false,
        vcts_hash: h32(0x00),
    };
    let consumed_at: u64 = 1_000_000;
    let force_close = |dep_ts: u64| -> Transaction {
        Transaction {
            inputs: vec![
                input(
                    vec![12; 36],
                    70 * CKB,
                    pcls_lock(),
                    h32(0x77),
                    Some(ch.own.clone()),
                    serialize_status(&disputed).unwrap(),
                    Some(serialize_witness(&ChannelWitness::ForceClose).unwrap()),
                    Some(Header { number: 10, timestamp: consumed_at }),
                ),
            ],
            outputs: vec![
                output(160 * CKB, plain_lock(0xAA), h32(0xAA), None, vec![]),
                output(210 * CKB, plain_lock(0xBB), h32(0xBB), None, vec![]),
            ],
            header_deps: vec![Header { number: 11, timestamp: dep_ts }],
        }
    };
    // exactly at the deadline: accepted
    assert_eq!(pcts_validate(&force_close(consumed_at + 1000), &ch.own, &ch.args), Ok(()));
    // one millisecond early: rejected
    assert_eq!(
        pcts_validate(&force_close(consumed_at + 999), &ch.own, &ch.args),
        Err(Error::TimeLockNotExpired),
    );
}

#[test]
fn replayed_old_state_is_rejected() {
    let ch = channel(0xAA, 0xBB);
    // the channel sits at version five, funded and disputed
    let st5 = ChannelStatus {
        state: state(&ch.id, 5, 100 * CKB, 200 * CKB, false),
        funded: true,
        disputed: true,
        vc_disputed: false,
        vcts_hash: h32(0x00),
    };
    // a version-four state is presented
    let st4 = state(&ch.id, 4, 90 * CKB, 210 * CKB, false);
    let tx = dispute_tx(&ch, &st5, st4);
    assert_eq!(pcts_validate(&tx, &ch.own, &ch.args), Err(Error::VersionNumberNotIncreasing));
}

#[test]
fn open_rejects_same_payment_address() {
    let ch = channel(0xAA, 0xAA);
    let tx = open_tx(&ch, 100 * CKB, 200 * CKB, false);
    assert_eq!(pcts_validate(&tx, &ch.own, &ch.args), Err(Error::SamePaymentAddress));
}

#[test]
fn open_rejects_vc_disputed_status() {
    let ch = channel(0xAA, 0xBB);
    // the fresh status claims to sit in a virtual channel dispute
    let st = ChannelStatus {
        state: state(&ch.id, 0, 100 * CKB, 200 * CKB, false),
        funded: false,
        disputed: false,
        vc_disputed: true,
        vcts_hash: h32(0x00),
    };
    let mut tx = open_tx(&ch, 100 * CKB, 200 * CKB, false);
    tx.outputs[0].data = serialize_status(&st).unwrap();
    assert_eq!(pcts_validate(&tx, &ch.own, &ch.args), Err(Error::StatusDisputed));
}

#[test]
fn open_rejects_missing_thread_token() {
    let ch = channel(0xAA, 0xBB);
    let mut tx = open_tx(&ch, 100 * CKB, 200 * CKB, false);
    tx.inputs[0].out_point = vec![4; 36];
    assert_eq!(pcts_validate(&tx, &ch.own, &ch.args), Err(Error::InvalidThreadToken));
}

#[test]
fn open_rejects_wrong_channel_id() {
    let ch = channel(0xAA, 0xBB);
    let st = status(state(&h32(0x99), 0, 100 * CKB, 200 * CKB, false), false, false);
    let mut tx = open_tx(&ch, 100 * CKB, 200 * CKB, false);
    tx.outputs[0].data = serialize_status(&st).unwrap();
    assert_eq!(pcts_validate(&tx, &ch.own, &ch.args), Err(Error::InvalidChannelId));
}

#[test]
fn open_rejects_balance_below_funds_cell_minimum() {
    let ch = channel(0xAA, 0xBB);
    // sixty units is below the funds-cell minimum of sixty-one
    let tx = open_tx(&ch, 60 * CKB, 200 * CKB, false);
    assert_eq!(pcts_validate(&tx, &ch.own, &ch.args), Err(Error::BalanceBelowPFLSMinCapacity));
}

#[test]
fn open_funded_bit_must_match_owed_funds() {
    let ch = channel(0xAA, 0xBB);
    // the second party still owes, so the funded bit must be clear
    let tx = open_tx(&ch, 100 * CKB, 200 * CKB, true);
    assert_eq!(pcts_validate(&tx, &ch.own, &ch.args), Err(Error::FundedBitStatusNotCorrect));
    // with nothing owed by the second party the bit must be set
    let tx2 = open_tx(&ch, 100 * CKB, 0, true);
    assert_eq!(pcts_validate(&tx2, &ch.own, &ch.args), Ok(()));
    let tx3 = open_tx(&ch, 100 * CKB, 0, false);
    assert_eq!(pcts_validate(&tx3, &ch.own, &ch.args), Err(Error::FundedBitStatusNotCorrect));
}

#[test]
fn open_funding_must_match_exactly() {
    let ch = channel(0xAA, 0xBB);
    let mut tx = open_tx(&ch, 100 * CKB, 200 * CKB, false);
    tx.outputs[1].capacity = 99 * CKB;
    assert_eq!(pcts_validate(&tx, &ch.own, &ch.args), Err(Error::OwnFundingNotInOutputs));
    // a funds cell bound to another channel rejects the opening
    let mut tx2 = open_tx(&ch, 100 * CKB, 200 * CKB, false);
    tx2.outputs[1].lock.args = h32(0x99);
    assert_eq!(pcts_validate(&tx2, &ch.own, &ch.args), Err(Error::InvalidPFLSInOutputs));
}

#[test]
fn progress_rejects_consumed_funds_cell() {
    let ch = channel(0xAA, 0xBB);
    let st_open = status(state(&ch.id, 0, 100 * CKB, 200 * CKB, false), false, false);
    let st_funded = status(state(&ch.id, 0, 100 * CKB, 200 * CKB, false), true, false);
    let tx = Transaction {
        inputs: vec![
            input(
                vec![9; 36],
                70 * CKB,
                pcls_lock(),
                h32(0x77),
                Some(ch.own.clone()),
                serialize_status(&st_open).unwrap(),
                Some(serialize_witness(&ChannelWitness::Fund).unwrap()),
                None,
            ),
            // a funds cell of this channel is consumed in the same transaction
            input(vec![13; 36], 100 * CKB, pfls_lock(&ch.own), h32(0x78), None, vec![], None, None),
        ],
        outputs: vec![
            output(
                70 * CKB,
                pcls_lock(),
                h32(0x77),
                Some(ch.own.clone()),
                serialize_status(&st_funded).unwrap(),
            ),
            output(200 * CKB, pfls_lock(&ch.own), h32(0x78), None, vec![]),
        ],
        header_deps: vec![],
    };
    assert_eq!(pcts_validate(&tx, &ch.own, &ch.args), Err(Error::FundsInInputs));
}

#[test]
fn progress_keeps_the_lock() {
    let ch = channel(0xAA, 0xBB);
    let st_open = status(state(&ch.id, 0, 100 * CKB, 200 * CKB, false), false, false);
    let st_funded = status(state(&ch.id, 0, 100 * CKB, 200 * CKB, false), true, false);
    let mut tx = Transaction {
        inputs: vec![
            input(
                vec![9; 36],
                70 * CKB,
                pcls_lock(),
                h32(0x77),
                Some(ch.own.clone()),
                serialize_status(&st_open).unwrap(),
                Some(serialize_witness(&ChannelWitness::Fund).unwrap()),
                None,
            ),
        ],
        outputs: vec![
            output(
                70 * CKB,
                pcls_lock(),
                h32(0x77),
                Some(ch.own.clone()),
                serialize_status(&st_funded).unwrap(),
            ),
            output(200 * CKB, pfls_lock(&ch.own), h32(0x78), None, vec![]),
        ],
        header_deps: vec![],
    };
    tx.outputs[0].lock.args = vec![1];
    assert_eq!(pcts_validate(&tx, &ch.own, &ch.args), Err(Error::ChannelDoesNotContinue));
}

#[test]
fn at_most_one_channel_cell() {
    let ch = channel(0xAA, 0xBB);
    let mut tx = open_tx(&ch, 100 * CKB, 200 * CKB, false);
    let st = status(state(&ch.id, 0, 100 * CKB, 200 * CKB, false), false, false);
    tx.outputs.push(output(
        70 * CKB,
        pcls_lock(),
        h32(0x77),
        Some(ch.own.clone()),
        serialize_status(&st).unwrap(),
    ));
    assert_eq!(pcts_validate(&tx, &ch.own, &ch.args), Err(Error::MoreThanOneChannel));
}

#[test]
fn validator_requires_args() {
    let ch = channel(0xAA, 0xBB);
    let tx = open_tx(&ch, 100 * CKB, 200 * CKB, false);
    assert_eq!(pcts_validate(&tx, &ch.own, &vec![]), Err(Error::NoArgs));
}

#[test]
fn funds_lock_requires_paired_channel_input() {
    let ch = channel(0xAA, 0xBB);
    let st = status(state(&ch.id, 0, 100 * CKB, 200 * CKB, false), true, false);
    let with_channel = Transaction {
        inputs: vec![
            input(
                vec![9; 36],
                70 * CKB,
                pcls_lock(),
                h32(0x77),
                Some(ch.own.clone()),
                serialize_status(&st).unwrap(),
                None,
                None,
            ),
        ],
        outputs: vec![],
        header_deps: vec![],
    };
    assert_eq!(pfls_validate(&with_channel, &ch.own), Ok(()));
    let without = Transaction {
        inputs: vec![
            input(vec![9; 36], 70 * CKB, plain_lock(0x11), h32(0x11), None, vec![], None, None),
        ],
        outputs: vec![],
        header_deps: vec![],
    };
    assert_eq!(pfls_validate(&without, &ch.own), Err(Error::PCTSNotFound));
    assert_eq!(pfls_validate(&without, &vec![1, 2]), Err(Error::Encoding));
}

#[test]
fn lock_script_entry_always_accepts() {
    assert_eq!(perun_core::vcls::program_entry(), 0);
}
