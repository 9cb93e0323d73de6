//! End-to-end flows of the virtual channel validator, together with the
//! ledger channel validator where one transaction touches both: the
//! registration (a virtual channel dispute on a parent), an update, the
//! two-step close, and a merge.

use k256::ecdsa::signature::hazmat::PrehashSigner;
use k256::elliptic_curve::sec1::ToEncodedPoint;
use sha3::Digest;

use perun_core::codec::{
    serialize_constants, serialize_params, serialize_state, serialize_status,
    serialize_vc_constants, serialize_vc_status, serialize_witness,
};
use perun_core::crypto::blake2b256;
use perun_core::error::Error;
use perun_core::pcts::pcts_validate;
use perun_core::records::{
    Balances, ChannelConstants, ChannelParameters, ChannelState, ChannelStatus, ChannelWitness,
    DisputeSigs, ParentData, Participant, ScriptDesc, SubAlloc, VCChannelConstants, VcDisputeData,
    VirtualChannelStatus,
};
use perun_core::tx::{CellInput, CellOutput, Header, Transaction};
use perun_core::vcts::vcts_validate;

const CKB: u64 = 100000000;

fn h32(b: u8) -> Vec<u8> {
    vec![b; 32]
}

fn keypair(seed: u8) -> (k256::ecdsa::SigningKey, Vec<u8>) {
    let sk = k256::ecdsa::SigningKey::from_slice(&[seed; 32]).unwrap();
    let pk = sk.verifying_key().to_encoded_point(true).as_bytes().to_vec();
    (sk, pk)
}

fn participant(psh: u8, pk: &[u8]) -> Participant {
    Participant {
        payment_script_hash: h32(psh),
        payment_min_capacity: 1,
        pub_key: pk.to_vec(),
        unlock_script_hash: h32(psh),
    }
}

fn sign_state(sk: &k256::ecdsa::SigningKey, s: &ChannelState) -> Vec<u8> {
    let bytes = serialize_state(s).unwrap();
    let inner = sha3::Keccak256::digest(&bytes);
    let mut buf = b"\x19Ethereum Signed Message:\n32".to_vec();
    buf.extend_from_slice(&inner);
    let prehash = sha3::Keccak256::digest(&buf);
    let sig: k256::ecdsa::Signature = sk.sign_prehash(&prehash).unwrap();
    sig.to_der().as_bytes().to_vec()
}

fn balances(a: u64, b: u64) -> Balances {
    Balances { ckbytes: [a, b], sudts: vec![], locked: vec![] }
}

fn pcls_lock() -> ScriptDesc {
    ScriptDesc { code_hash: h32(0xCC), hash_type: 0, args: vec![] }
}

fn plain_lock(tag: u8) -> ScriptDesc {
    ScriptDesc { code_hash: h32(tag), hash_type: 0, args: vec![] }
}

fn input(
    capacity: u64,
    lock: ScriptDesc,
    lock_hash: Vec<u8>,
    type_hash: Option<Vec<u8>>,
    type_args: Option<Vec<u8>>,
    data: Vec<u8>,
    witness: Option<Vec<u8>>,
    header: Option<Header>,
) -> CellInput {
    CellInput {
        out_point: vec![7; 36],
        capacity,
        lock,
        lock_hash,
        type_hash,
        type_args,
        data,
        witness_input_type: witness,
        header,
    }
}

fn output(
    capacity: u64,
    lock: ScriptDesc,
    lock_hash: Vec<u8>,
    type_hash: Option<Vec<u8>>,
    data: Vec<u8>,
) -> CellOutput {
    CellOutput { capacity, lock, lock_hash, type_hash, type_script: None, data }
}

/// The whole cast: ledger channel between the intermediary (first
/// party, paid at 0x1A) and the second party (paid at 0x2B), and a
/// virtual channel whose proposer is the ledger channel's second party.
struct Setup {
    lc_args: Vec<u8>,
    lc_id: Vec<u8>,
    own_lc: Vec<u8>,
    vc_args: Vec<u8>,
    vc_id: Vec<u8>,
    own_vc: Vec<u8>,
    sk_i: k256::ecdsa::SigningKey,
    sk_b: k256::ecdsa::SigningKey,
    sk_a: k256::ecdsa::SigningKey,
}

fn setup() -> Setup {
    let (sk_a, pk_a) = keypair(1);
    let (sk_b, pk_b) = keypair(2);
    let (sk_i, pk_i) = keypair(3);
    let lc_params = ChannelParameters {
        party_a: participant(0x1A, &pk_i),
        party_b: participant(0x2B, &pk_b),
        nonce: h32(0x05),
        challenge_duration: 1000,
        app: None,
        is_ledger_channel: true,
        is_virtual_channel: false,
    };
    let lc_id = blake2b256(&serialize_params(&lc_params).unwrap());
    let lc = ChannelConstants {
        params: lc_params,
        pcls_code_hash: h32(0xCC),
        pcls_hash_type: 0,
        pfls_code_hash: h32(0xDD),
        pfls_hash_type: 0,
        pfls_min_capacity: 61 * CKB,
        thread_token: vec![5; 36],
    };
    let lc_args = serialize_constants(&lc).unwrap();
    let vc_params = ChannelParameters {
        party_a: participant(0x2B, &pk_b),
        party_b: participant(0x3C, &pk_a),
        nonce: h32(0x06),
        challenge_duration: 1000,
        app: None,
        is_ledger_channel: false,
        is_virtual_channel: true,
    };
    let vc_id = blake2b256(&serialize_params(&vc_params).unwrap());
    let vcc = VCChannelConstants {
        params: vc_params,
        vcls_code_hash: h32(0xF2),
        vcls_hash_type: 0,
        thread_token: vec![6; 36],
    };
    let vc_args = serialize_vc_constants(&vcc).unwrap();
    Setup {
        lc_args,
        lc_id,
        own_lc: h32(0xE1),
        vc_args,
        vc_id,
        own_vc: h32(0xF1),
        sk_i,
        sk_b,
        sk_a,
    }
}

fn parents(s: &Setup) -> Vec<ParentData> {
    vec![
        ParentData { pcts_hash: h32(0xE0), idx_map: [1, 0] },
        ParentData { pcts_hash: s.own_lc.clone(), idx_map: [1, 0] },
    ]
}

fn vc_state(s: &Setup, version: u64, a: u64, b: u64) -> ChannelState {
    ChannelState { channel_id: s.vc_id.clone(), version, balances: balances(a, b), is_final: false }
}

fn vc_status(s: &Setup, version: u64, a: u64, b: u64, ffc: bool, owner_psh: u8) -> VirtualChannelStatus {
    let (_, pk_i) = keypair(3);
    VirtualChannelStatus {
        vcstate: vc_state(s, version, a, b),
        parents: parents(s),
        first_force_close: ffc,
        owner: participant(owner_psh, &pk_i),
    }
}

fn lc_funded_status(s: &Setup) -> ChannelStatus {
    ChannelStatus {
        state: ChannelState {
            channel_id: s.lc_id.clone(),
            version: 0,
            balances: balances(100 * CKB, 200 * CKB),
            is_final: false,
        },
        funded: true,
        disputed: false,
        vc_disputed: false,
        vcts_hash: h32(0x00),
    }
}

fn lc_vc_disputed_status(s: &Setup) -> ChannelStatus {
    ChannelStatus {
        state: ChannelState {
            channel_id: s.lc_id.clone(),
            version: 0,
            balances: Balances {
                ckbytes: [100 * CKB, 200 * CKB],
                sudts: vec![],
                locked: vec![
                    SubAlloc { id: s.vc_id.clone(), balances: balances(10 * CKB, 20 * CKB) },
                ],
            },
            is_final: false,
        },
        funded: true,
        disputed: true,
        vc_disputed: true,
        vcts_hash: s.own_vc.clone(),
    }
}

fn vc_start_tx(s: &Setup) -> Transaction {
    let new_lc = lc_vc_disputed_status(s);
    let vc0 = vc_status(s, 0, 10 * CKB, 20 * CKB, false, 0x1A);
    let w = ChannelWitness::VCDispute(
        VcDisputeData {
            sig_a: sign_state(&s.sk_b, &vc0.vcstate),
            sig_b: sign_state(&s.sk_a, &vc0.vcstate),
            parent_sigs: DisputeSigs {
                sig_a: sign_state(&s.sk_i, &new_lc.state),
                sig_b: sign_state(&s.sk_b, &new_lc.state),
            },
        },
    );
    Transaction {
        inputs: vec![
            input(
                70 * CKB,
                pcls_lock(),
                h32(0x77),
                Some(s.own_lc.clone()),
                None,
                serialize_status(&lc_funded_status(s)).unwrap(),
                Some(serialize_witness(&w).unwrap()),
                None,
            ),
            // the owner funds the new cell
            input(30 * CKB, plain_lock(0x1A), h32(0x1A), None, None, vec![], None, None),
        ],
        outputs: vec![
            output(
                70 * CKB,
                pcls_lock(),
                h32(0x77),
                Some(s.own_lc.clone()),
                serialize_status(&new_lc).unwrap(),
            ),
            output(
                30 * CKB,
                plain_lock(0xF2),
                h32(0xF2),
                Some(s.own_vc.clone()),
                serialize_vc_status(&vc0).unwrap(),
            ),
        ],
        header_deps: vec![],
    }
}

#[test]
fn vc_registration_passes_both_validators() {
    let s = setup();
    let tx = vc_start_tx(&s);
    assert_eq!(pcts_validate(&tx, &s.own_lc, &s.lc_args), Ok(()));
    assert_eq!(vcts_validate(&tx, &s.own_vc, &s.vc_args), Ok(()));
}

#[test]
fn vc_registration_requires_locked_funds() {
    let s = setup();
    let mut tx = vc_start_tx(&s);
    // the new ledger status locks a different amount than the virtual
    // channel's balances
    let mut new_lc = lc_vc_disputed_status(&s);
    new_lc.state.balances.locked[0].balances = balances(10 * CKB, 19 * CKB);
    let w = ChannelWitness::VCDispute(
        VcDisputeData {
            sig_a: sign_state(&s.sk_b, &vc_status(&s, 0, 10 * CKB, 20 * CKB, false, 0x1A).vcstate),
            sig_b: sign_state(&s.sk_a, &vc_status(&s, 0, 10 * CKB, 20 * CKB, false, 0x1A).vcstate),
            parent_sigs: DisputeSigs {
                sig_a: sign_state(&s.sk_i, &new_lc.state),
                sig_b: sign_state(&s.sk_b, &new_lc.state),
            },
        },
    );
    tx.inputs[0].witness_input_type = Some(serialize_witness(&w).unwrap());
    tx.outputs[0].data = serialize_status(&new_lc).unwrap();
    assert_eq!(
        pcts_validate(&tx, &s.own_lc, &s.lc_args),
        Err(Error::UnequalBalanceInLockedFundsAndVirtualChannelBalance),
    );
}

#[test]
fn vc_update_accepts_newer_signed_state() {
    let s = setup();
    let vc0 = vc_status(&s, 0, 10 * CKB, 20 * CKB, false, 0x1A);
    let vc1 = vc_status(&s, 1, 5 * CKB, 25 * CKB, false, 0x1A);
    let own_w = ChannelWitness::Dispute(
        DisputeSigs {
            sig_a: sign_state(&s.sk_b, &vc1.vcstate),
            sig_b: sign_state(&s.sk_a, &vc1.vcstate),
        },
    );
    // the parent ledger channel is disputed in the same transaction
    let parent_w = ChannelWitness::Dispute(DisputeSigs { sig_a: vec![], sig_b: vec![] });
    let tx = Transaction {
        inputs: vec![
            input(
                70 * CKB,
                pcls_lock(),
                h32(0x77),
                Some(s.own_lc.clone()),
                None,
                serialize_status(&lc_vc_disputed_status(&s)).unwrap(),
                Some(serialize_witness(&parent_w).unwrap()),
                None,
            ),
            input(
                30 * CKB,
                plain_lock(0xF2),
                h32(0xF2),
                Some(s.own_vc.clone()),
                None,
                serialize_vc_status(&vc0).unwrap(),
                Some(serialize_witness(&own_w).unwrap()),
                None,
            ),
        ],
        outputs: vec![
            output(
                30 * CKB,
                plain_lock(0xF2),
                h32(0xF2),
                Some(s.own_vc.clone()),
                serialize_vc_status(&vc1).unwrap(),
            ),
        ],
        header_deps: vec![],
    };
    assert_eq!(vcts_validate(&tx, &s.own_vc, &s.vc_args), Ok(()));

    // replaying an older state over a newer one is rejected
    let tx_replay = Transaction {
        inputs: vec![
            input(
                70 * CKB,
                pcls_lock(),
                h32(0x77),
                Some(s.own_lc.clone()),
                None,
                serialize_status(&lc_vc_disputed_status(&s)).unwrap(),
                Some(serialize_witness(&ChannelWitness::Dispute(DisputeSigs {
                    sig_a: vec![],
                    sig_b: vec![],
                })).unwrap()),
                None,
            ),
            input(
                30 * CKB,
                plain_lock(0xF2),
                h32(0xF2),
                Some(s.own_vc.clone()),
                None,
                serialize_vc_status(&vc_status(&s, 1, 5 * CKB, 25 * CKB, false, 0x1A)).unwrap(),
                None,
                None,
            ),
        ],
        outputs: vec![
            output(
                30 * CKB,
                plain_lock(0xF2),
                h32(0xF2),
                Some(s.own_vc.clone()),
                serialize_vc_status(&vc_status(&s, 0, 10 * CKB, 20 * CKB, false, 0x1A)).unwrap(),
            ),
        ],
        header_deps: vec![],
    };
    assert_eq!(
        vcts_validate(&tx_replay, &s.own_vc, &s.vc_args),
        Err(Error::InvalidVersionNumberVCProgressTx),
    );
}

fn close1_tx(s: &Setup, dep_ts: u64) -> Transaction {
    let vc0 = vc_status(s, 0, 10 * CKB, 20 * CKB, false, 0x1A);
    let vc1 = vc_status(s, 0, 10 * CKB, 20 * CKB, true, 0x1A);
    Transaction {
        inputs: vec![
            input(
                70 * CKB,
                pcls_lock(),
                h32(0x77),
                Some(s.own_lc.clone()),
                None,
                serialize_status(&lc_vc_disputed_status(s)).unwrap(),
                Some(serialize_witness(&ChannelWitness::ForceClose).unwrap()),
                Some(Header { number: 20, timestamp: 2_000_000 }),
            ),
            input(
                30 * CKB,
                plain_lock(0xF2),
                h32(0xF2),
                Some(s.own_vc.clone()),
                Some(s.vc_args.clone()),
                serialize_vc_status(&vc0).unwrap(),
                None,
                None,
            ),
        ],
        outputs: vec![
            output(
                30 * CKB,
                plain_lock(0xF2),
                h32(0xF2),
                Some(s.own_vc.clone()),
                serialize_vc_status(&vc1).unwrap(),
            ),
            // the intermediary: its ledger share, the channel capacity,
            // and the virtual share it fronted
            output(190 * CKB, plain_lock(0x1A), h32(0x1A), None, vec![]),
            // the other ledger party: its ledger share plus its virtual share
            output(210 * CKB, plain_lock(0x2B), h32(0x2B), None, vec![]),
        ],
        header_deps: vec![Header { number: 21, timestamp: dep_ts }],
    }
}

#[test]
fn vc_force_close_first_parent() {
    let s = setup();
    let tx = close1_tx(&s, 2_001_000);
    assert_eq!(pcts_validate(&tx, &s.own_lc, &s.lc_args), Ok(()));
    assert_eq!(vcts_validate(&tx, &s.own_vc, &s.vc_args), Ok(()));
    // before the virtual channel's challenge expires, the parent cannot close
    let early = close1_tx(&s, 2_000_999);
    assert_eq!(pcts_validate(&early, &s.own_lc, &s.lc_args), Err(Error::TimeLockNotExpired));
}

#[test]
fn vc_force_close_second_parent_refunds_owner() {
    let s = setup();
    let vc1 = vc_status(&s, 0, 10 * CKB, 20 * CKB, true, 0x1A);
    // the other parent ledger channel, between the third party (paid at
    // 0x3C) and the intermediary; it force-closes in the same transaction
    let (_, pk_a) = keypair(1);
    let (_, pk_i) = keypair(3);
    let cai_params = ChannelParameters {
        party_a: participant(0x3C, &pk_a),
        party_b: participant(0x1A, &pk_i),
        nonce: h32(0x07),
        challenge_duration: 1000,
        app: None,
        is_ledger_channel: true,
        is_virtual_channel: false,
    };
    let cai_id = blake2b256(&serialize_params(&cai_params).unwrap());
    let cai = ChannelConstants {
        params: cai_params,
        pcls_code_hash: h32(0xCC),
        pcls_hash_type: 0,
        pfls_code_hash: h32(0xDD),
        pfls_hash_type: 0,
        pfls_min_capacity: 61 * CKB,
        thread_token: vec![8; 36],
    };
    let cai_args = serialize_constants(&cai).unwrap();
    let other_lc_status = ChannelStatus {
        state: ChannelState {
            channel_id: cai_id,
            version: 0,
            balances: balances(50 * CKB, 60 * CKB),
            is_final: false,
        },
        funded: true,
        disputed: true,
        vc_disputed: true,
        vcts_hash: s.own_vc.clone(),
    };
    let tx = Transaction {
        inputs: vec![
            input(
                70 * CKB,
                pcls_lock(),
                h32(0x79),
                Some(h32(0xE0)),
                None,
                serialize_status(&other_lc_status).unwrap(),
                Some(serialize_witness(&ChannelWitness::ForceClose).unwrap()),
                Some(Header { number: 30, timestamp: 3_000_000 }),
            ),
            input(
                30 * CKB,
                plain_lock(0xF2),
                h32(0xF2),
                Some(s.own_vc.clone()),
                Some(s.vc_args.clone()),
                serialize_vc_status(&vc1).unwrap(),
                None,
                None,
            ),
        ],
        outputs: vec![
            // the third party: its ledger share, the channel capacity,
            // and its virtual share
            output(140 * CKB, plain_lock(0x3C), h32(0x3C), None, vec![]),
            // the intermediary: its ledger share, the virtual share it
            // fronted, and the cell capacity it gets back as the owner
            output(100 * CKB, plain_lock(0x1A), h32(0x1A), None, vec![]),
        ],
        header_deps: vec![Header { number: 31, timestamp: 3_001_000 }],
    };
    assert_eq!(pcts_validate(&tx, &h32(0xE0), &cai_args), Ok(()));
    assert_eq!(vcts_validate(&tx, &s.own_vc, &s.vc_args), Ok(()));

    // without the first closing step the second is refused
    let vc0 = vc_status(&s, 0, 10 * CKB, 20 * CKB, false, 0x1A);
    let mut tx2 = tx;
    tx2.inputs[1].data = serialize_vc_status(&vc0).unwrap();
    assert_eq!(
        vcts_validate(&tx2, &s.own_vc, &s.vc_args),
        Err(Error::FirstForceCloseFlagNotSet),
    );
}

fn merge_tx(s: &Setup, refund_cap: u64, extra_refund_output: bool) -> Transaction {
    // the first cell was created earlier, so it is kept; the second
    // belongs to another owner and is discarded
    let kept = vc_status(s, 0, 10 * CKB, 20 * CKB, false, 0x1A);
    let discarded = vc_status(s, 0, 10 * CKB, 20 * CKB, false, 0x2B);
    let merged = vc_status(s, 0, 10 * CKB, 20 * CKB, false, 0x1A);
    let mut outputs = vec![
        output(
            30 * CKB,
            plain_lock(0xF2),
            h32(0xF2),
            Some(s.own_vc.clone()),
            serialize_vc_status(&merged).unwrap(),
        ),
        output(refund_cap, plain_lock(0x2B), h32(0x2B), None, vec![]),
    ];
    if extra_refund_output {
        outputs.push(output(1, plain_lock(0x2B), h32(0x2B), None, vec![]));
    }
    Transaction {
        inputs: vec![
            input(
                30 * CKB,
                plain_lock(0xF2),
                h32(0xF2),
                Some(s.own_vc.clone()),
                None,
                serialize_vc_status(&kept).unwrap(),
                None,
                Some(Header { number: 5, timestamp: 100 }),
            ),
            input(
                40 * CKB,
                plain_lock(0xF2),
                h32(0xF2),
                Some(s.own_vc.clone()),
                None,
                serialize_vc_status(&discarded).unwrap(),
                None,
                Some(Header { number: 8, timestamp: 200 }),
            ),
        ],
        outputs,
        header_deps: vec![],
    }
}

#[test]
fn vc_merge_refunds_discarded_cell_once() {
    let s = setup();
    assert_eq!(vcts_validate(&merge_tx(&s, 40 * CKB, false), &s.own_vc, &s.vc_args), Ok(()));
    // a wrong refund amount is rejected
    assert_eq!(
        vcts_validate(&merge_tx(&s, 39 * CKB, false), &s.own_vc, &s.vc_args),
        Err(Error::InvalidVCRentPayoutCell),
    );
    // refunding across two outputs is rejected: the refund is exact and single
    assert_eq!(
        vcts_validate(&merge_tx(&s, 40 * CKB, true), &s.own_vc, &s.vc_args),
        Err(Error::NoVCRentPayoutCell),
    );
}

#[test]
fn vc_registration_needs_exactly_one_parent() {
    let s = setup();
    let mut tx = vc_start_tx(&s);
    // the other parent also shows up among the inputs, with a channel
    // status of its own and the same registering witness
    let w = tx.inputs[0].witness_input_type.clone();
    tx.inputs.push(input(
        1,
        plain_lock(0x44),
        h32(0x44),
        Some(h32(0xE0)),
        None,
        serialize_status(&lc_funded_status(&s)).unwrap(),
        w,
        None,
    ));
    assert_eq!(vcts_validate(&tx, &s.own_vc, &s.vc_args), Err(Error::InvalidVCTxStart));
}
