//! Flows with a user-defined token: opening locks the token's cell
//! capacity with the funds, and closing pays each party's token share
//! and reimburses the token-cell capacity.

use k256::ecdsa::signature::hazmat::PrehashSigner;
use k256::elliptic_curve::sec1::ToEncodedPoint;
use sha3::Digest;

use perun_core::codec::{
    serialize_constants, serialize_params, serialize_state, serialize_status, serialize_witness,
};
use perun_core::crypto::blake2b256;
use perun_core::error::Error;
use perun_core::pcts::pcts_validate;
use perun_core::records::{
    Balances, ChannelConstants, ChannelParameters, ChannelState, ChannelStatus, ChannelWitness,
    CloseData, Participant, ScriptDesc, SudtDistribution,
};
use perun_core::tx::{CellInput, CellOutput, Transaction};

const CKB: u64 = 100000000;

fn h32(b: u8) -> Vec<u8> {
    vec![b; 32]
}

fn keypair(seed: u8) -> (k256::ecdsa::SigningKey, Vec<u8>) {
    let sk = k256::ecdsa::SigningKey::from_slice(&[seed; 32]).unwrap();
    let pk = sk.verifying_key().to_encoded_point(true).as_bytes().to_vec();
    (sk, pk)
}

fn participant(psh: u8, pk: &[u8]) -> Participant {
    Participant {
        payment_script_hash: h32(psh),
        payment_min_capacity: 1,
        pub_key: pk.to_vec(),
        unlock_script_hash: h32(psh),
    }
}

fn sign_state(sk: &k256::ecdsa::SigningKey, s: &ChannelState) -> Vec<u8> {
    let bytes = serialize_state(s).unwrap();
    let inner = sha3::Keccak256::digest(&bytes);
    let mut buf = b"\x19Ethereum Signed Message:\n32".to_vec();
    buf.extend_from_slice(&inner);
    let prehash = sha3::Keccak256::digest(&buf);
    let sig: k256::ecdsa::Signature = sk.sign_prehash(&prehash).unwrap();
    sig.to_der().as_bytes().to_vec()
}

fn token_script() -> ScriptDesc {
    ScriptDesc { code_hash: h32(0x51), hash_type: 1, args: vec![9] }
}

fn token_balances(a: u64, b: u64, ta: u128, tb: u128) -> Balances {
    Balances {
        ckbytes: [a, b],
        sudts: vec![
            SudtDistribution {
                type_script: token_script(),
                max_capacity: 10 * CKB,
                distribution: [ta, tb],
            },
        ],
        locked: vec![],
    }
}

fn pcls_lock() -> ScriptDesc {
    ScriptDesc { code_hash: h32(0xCC), hash_type: 0, args: vec![] }
}

fn pfls_lock(own: &[u8]) -> ScriptDesc {
    ScriptDesc { code_hash: h32(0xDD), hash_type: 0, args: own.to_vec() }
}

fn plain_lock(tag: u8) -> ScriptDesc {
    ScriptDesc { code_hash: h32(tag), hash_type: 0, args: vec![] }
}

struct Setup {
    args: Vec<u8>,
    id: Vec<u8>,
    own: Vec<u8>,
    sk_a: k256::ecdsa::SigningKey,
    sk_b: k256::ecdsa::SigningKey,
}

fn setup() -> Setup {
    let (sk_a, pk_a) = keypair(1);
    let (sk_b, pk_b) = keypair(2);
    let params = ChannelParameters {
        party_a: participant(0xAA, &pk_a),
        party_b: participant(0xBB, &pk_b),
        nonce: h32(0x02),
        challenge_duration: 1000,
        app: None,
        is_ledger_channel: true,
        is_virtual_channel: false,
    };
    let id = blake2b256(&serialize_params(&params).unwrap());
    let c = ChannelConstants {
        params,
        pcls_code_hash: h32(0xCC),
        pcls_hash_type: 0,
        pfls_code_hash: h32(0xDD),
        pfls_hash_type: 0,
        pfls_min_capacity: 61 * CKB,
        thread_token: vec![3; 36],
    };
    Setup { args: serialize_constants(&c).unwrap(), id, own: h32(0xEE), sk_a, sk_b }
}

fn state(s: &Setup, version: u64, bal: Balances, is_final: bool) -> ChannelState {
    ChannelState { channel_id: s.id.clone(), version, balances: bal, is_final }
}

fn amount_data(x: u128) -> Vec<u8> {
    x.to_le_bytes().to_vec()
}

fn token_output(
    capacity: u64,
    lock: ScriptDesc,
    lock_hash: Vec<u8>,
    amount: u128,
) -> CellOutput {
    CellOutput {
        capacity,
        lock,
        lock_hash,
        type_hash: Some(h32(0x52)),
        type_script: Some(token_script()),
        data: amount_data(amount),
    }
}

fn plain_output(capacity: u64, lock: ScriptDesc, lock_hash: Vec<u8>) -> CellOutput {
    CellOutput { capacity, lock, lock_hash, type_hash: None, type_script: None, data: vec![] }
}

fn channel_input(s: &Setup, status: &ChannelStatus, witness: &ChannelWitness) -> CellInput {
    CellInput {
        out_point: vec![8; 36],
        capacity: 70 * CKB,
        lock: pcls_lock(),
        lock_hash: h32(0x77),
        type_hash: Some(s.own.clone()),
        type_args: None,
        data: serialize_status(status).unwrap(),
        witness_input_type: Some(serialize_witness(witness).unwrap()),
        header: None,
    }
}

#[test]
fn open_with_token_locks_its_capacity_and_amount() {
    let s = setup();
    // the opener owes its native balance plus the token cell capacity,
    // and the token cell must carry its token share
    let st = ChannelStatus {
        state: state(&s, 0, token_balances(100 * CKB, 200 * CKB, 7, 9), false),
        funded: false,
        disputed: false,
        vc_disputed: false,
        vcts_hash: h32(0x00),
    };
    let mut funding = token_output(110 * CKB, pfls_lock(&s.own), h32(0x78), 7);
    funding.lock = pfls_lock(&s.own);
    let tx = Transaction {
        inputs: vec![
            CellInput {
                out_point: vec![3; 36],
                capacity: 1000 * CKB,
                lock: plain_lock(0x11),
                lock_hash: h32(0x11),
                type_hash: None,
                type_args: None,
                data: vec![],
                witness_input_type: None,
                header: None,
            },
        ],
        outputs: vec![
            CellOutput {
                capacity: 70 * CKB,
                lock: pcls_lock(),
                lock_hash: h32(0x77),
                type_hash: Some(s.own.clone()),
                type_script: None,
                data: serialize_status(&st).unwrap(),
            },
            funding,
        ],
        header_deps: vec![],
    };
    assert_eq!(pcts_validate(&tx, &s.own, &s.args), Ok(()));

    // the same opening with the token share missing from the funds cell
    let mut short = tx;
    short.outputs[1].data = amount_data(6);
    assert_eq!(pcts_validate(&short, &s.own, &s.args), Err(Error::OwnFundingNotInOutputs));
}

#[test]
fn close_pays_token_shares_and_reimburses_capacity() {
    let s = setup();
    let funded = ChannelStatus {
        state: state(&s, 0, token_balances(100 * CKB, 200 * CKB, 7, 9), false),
        funded: true,
        disputed: false,
        vc_disputed: false,
        vcts_hash: h32(0x00),
    };
    let final_state = state(&s, 1, token_balances(100 * CKB, 200 * CKB, 3, 13), true);
    let w = ChannelWitness::Close(
        CloseData {
            state: state(&s, 1, token_balances(100 * CKB, 200 * CKB, 3, 13), true),
            sig_a: sign_state(&s.sk_a, &final_state),
            sig_b: sign_state(&s.sk_b, &final_state),
        },
    );
    // each party is paid its native share plus the reimbursed token-cell
    // capacity; the first also receives the channel cell's capacity
    let close = |amt_a: u128, amt_b: u128| -> Transaction {
        Transaction {
            inputs: vec![channel_input(&s, &funded, &w)],
            outputs: vec![
                token_output(180 * CKB, plain_lock(0xAA), h32(0xAA), amt_a),
                token_output(210 * CKB, plain_lock(0xBB), h32(0xBB), amt_b),
            ],
            header_deps: vec![],
        }
    };
    assert_eq!(pcts_validate(&close(3, 13), &s.own, &s.args), Ok(()));
    // a short token payment is rejected
    assert_eq!(pcts_validate(&close(3, 12), &s.own, &s.args), Err(Error::NotAllPaid));

    // a payment output with an unlisted token rejects the close
    let mut alien = close(3, 13);
    alien.outputs[1].type_script = Some(ScriptDesc {
        code_hash: h32(0x99),
        hash_type: 1,
        args: vec![],
    });
    assert_eq!(pcts_validate(&alien, &s.own, &s.args), Err(Error::InvalidSUDT));

    // a token payment with truncated amount data rejects the close
    let mut thin = close(3, 13);
    thin.outputs[1].data = vec![1, 2, 3];
    assert_eq!(pcts_validate(&thin, &s.own, &s.args), Err(Error::InvalidSUDTDataLength));
}
