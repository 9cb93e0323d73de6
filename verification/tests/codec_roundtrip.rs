//! Round trips of the wire format: parsing accepts exactly the bytes
//! that serializing the parsed record reproduces.

use sha3::Digest;

use perun_core::codec::{
    parse_channel_constants, parse_channel_status, parse_channel_witness,
    parse_vc_channel_constants, parse_virtual_channel_status, serialize_constants,
    serialize_params, serialize_status, serialize_vc_constants, serialize_vc_status,
    serialize_witness,
};
use perun_core::records::{
    Balances, ChannelConstants, ChannelParameters, ChannelState, ChannelStatus, ChannelWitness,
    CloseData, DisputeSigs, ParentData, Participant, ScriptDesc, SubAlloc, SudtDistribution,
    VCChannelConstants, VcDisputeData, VirtualChannelStatus,
};

fn h32(b: u8) -> Vec<u8> {
    vec![b; 32]
}

fn participant(psh: u8) -> Participant {
    Participant {
        payment_script_hash: h32(psh),
        payment_min_capacity: 1,
        pub_key: vec![2; 33],
        unlock_script_hash: h32(psh),
    }
}

fn params() -> ChannelParameters {
    ChannelParameters {
        party_a: participant(0xAA),
        party_b: participant(0xBB),
        nonce: h32(0x01),
        challenge_duration: 1000,
        app: None,
        is_ledger_channel: true,
        is_virtual_channel: false,
    }
}

fn sudt(tag: u8, a: u128, b: u128) -> SudtDistribution {
    SudtDistribution {
        type_script: ScriptDesc { code_hash: h32(tag), hash_type: 1, args: vec![tag, tag] },
        max_capacity: 142_00000000,
        distribution: [a, b],
    }
}

fn rich_balances() -> Balances {
    Balances {
        ckbytes: [100_00000000, 200_00000000],
        sudts: vec![sudt(0x51, 7, 9), sudt(0x52, 0, 31)],
        locked: vec![
            SubAlloc {
                id: h32(0x61),
                balances: Balances {
                    ckbytes: [10, 20],
                    sudts: vec![sudt(0x51, 1, 2)],
                    locked: vec![],
                },
            },
        ],
    }
}

fn rich_status() -> ChannelStatus {
    ChannelStatus {
        state: ChannelState {
            channel_id: h32(0x41),
            version: 5,
            balances: rich_balances(),
            is_final: false,
        },
        funded: true,
        disputed: true,
        vc_disputed: false,
        vcts_hash: h32(0x42),
    }
}

#[test]
fn status_round_trip() {
    let bytes = serialize_status(&rich_status()).unwrap();
    let parsed = parse_channel_status(&bytes).expect("canonical bytes must parse");
    let again = serialize_status(&parsed).unwrap();
    assert_eq!(again, bytes);
    assert_eq!(parsed.state.version, 5);
    assert_eq!(parsed.state.balances.sudts.len(), 2);
    assert_eq!(parsed.state.balances.locked.len(), 1);
    assert_eq!(parsed.state.balances.locked[0].balances.sudts[0].distribution, [1, 2]);
}

#[test]
fn status_rejects_tampered_bytes() {
    let bytes = serialize_status(&rich_status()).unwrap();
    // truncation
    assert!(parse_channel_status(&bytes[..bytes.len() - 1]).is_none());
    // a wrong total size
    let mut grown = bytes.clone();
    grown.push(0);
    assert!(parse_channel_status(&grown).is_none());
    // a non-canonical boolean byte still re-serializes to 1, so it is refused
    let mut twisted = bytes.clone();
    let pos = twisted.len() - 33;  // the `vc_disputed` byte sits before the 32-byte hash
    assert_eq!(twisted[pos - 2], 1);  // funded
    twisted[pos - 2] = 7;
    assert!(parse_channel_status(&twisted).is_none());
    assert!(parse_channel_status(&[]).is_none());
}

#[test]
fn constants_round_trip() {
    let c = ChannelConstants {
        params: params(),
        pcls_code_hash: h32(0xCC),
        pcls_hash_type: 0,
        pfls_code_hash: h32(0xDD),
        pfls_hash_type: 1,
        pfls_min_capacity: 61_00000000,
        thread_token: vec![3; 36],
    };
    let bytes = serialize_constants(&c).unwrap();
    let parsed = parse_channel_constants(&bytes).unwrap();
    assert_eq!(serialize_constants(&parsed).unwrap(), bytes);
    assert_eq!(parsed.pfls_min_capacity, 61_00000000);
    assert_eq!(parsed.params.challenge_duration, 1000);
    assert!(parsed.params.is_ledger_channel);
}

#[test]
fn vc_constants_round_trip() {
    let c = VCChannelConstants {
        params: params(),
        vcls_code_hash: h32(0xF2),
        vcls_hash_type: 1,
        thread_token: vec![4; 36],
    };
    let bytes = serialize_vc_constants(&c).unwrap();
    let parsed = parse_vc_channel_constants(&bytes).unwrap();
    assert_eq!(serialize_vc_constants(&parsed).unwrap(), bytes);
}

#[test]
fn vc_status_round_trip() {
    let v = VirtualChannelStatus {
        vcstate: ChannelState {
            channel_id: h32(0x43),
            version: 1,
            balances: Balances { ckbytes: [10, 20], sudts: vec![], locked: vec![] },
            is_final: false,
        },
        parents: vec![
            ParentData { pcts_hash: h32(0xE0), idx_map: [0, 1] },
            ParentData { pcts_hash: h32(0xE1), idx_map: [1, 0] },
        ],
        first_force_close: false,
        owner: participant(0x1A),
    };
    let bytes = serialize_vc_status(&v).unwrap();
    let parsed = parse_virtual_channel_status(&bytes).unwrap();
    assert_eq!(serialize_vc_status(&parsed).unwrap(), bytes);
    assert_eq!(parsed.parents.len(), 2);
    assert_eq!(parsed.parents[1].idx_map, [1, 0]);
}

#[test]
fn witness_round_trips() {
    let ws = vec![
        ChannelWitness::Fund,
        ChannelWitness::ForceClose,
        ChannelWitness::Abort,
        ChannelWitness::Dispute(DisputeSigs { sig_a: vec![1, 2, 3], sig_b: vec![] }),
        ChannelWitness::VCDispute(
            VcDisputeData {
                sig_a: vec![9],
                sig_b: vec![8, 7],
                parent_sigs: DisputeSigs { sig_a: vec![6], sig_b: vec![5] },
            },
        ),
        ChannelWitness::Close(
            CloseData {
                state: ChannelState {
                    channel_id: h32(0x44),
                    version: 9,
                    balances: Balances { ckbytes: [1, 2], sudts: vec![], locked: vec![] },
                    is_final: true,
                },
                sig_a: vec![1],
                sig_b: vec![2],
            },
        ),
    ];
    for w in &ws {
        let bytes = serialize_witness(w).unwrap();
        let parsed = parse_channel_witness(&bytes).expect("canonical witness must parse");
        assert_eq!(serialize_witness(&parsed).unwrap(), bytes);
    }
    // an unknown tag is refused
    assert!(parse_channel_witness(&[6, 0, 0, 0]).is_none());
    // a tag alone parses as the unit variant it names
    let fund = parse_channel_witness(&[0, 0, 0, 0]).unwrap();
    assert!(matches!(fund, ChannelWitness::Fund));
    // trailing bytes after a unit variant are refused
    assert!(parse_channel_witness(&[0, 0, 0, 0, 0]).is_none());
}

#[test]
fn params_serialization_is_field_sensitive() {
    let p1 = params();
    let mut p2 = params();
    p2.challenge_duration = 1001;
    let b1 = serialize_params(&p1).unwrap();
    let b2 = serialize_params(&p2).unwrap();
    assert_ne!(b1, b2);
    // hashing the encodings gives 32-byte, input-sensitive digests
    let d1 = perun_core::crypto::blake2b256(&b1);
    let d2 = perun_core::crypto::blake2b256(&b2);
    assert_eq!(d1.len(), 32);
    assert_ne!(d1, d2);
    assert_ne!(d1, b1);
}

#[test]
fn eth_message_hash_matches_keccak_convention() {
    let data = b"a serialized state".to_vec();
    let inner = sha3::Keccak256::digest(&data);
    let mut buf = b"\x19Ethereum Signed Message:\n32".to_vec();
    buf.extend_from_slice(&inner);
    let expected = sha3::Keccak256::digest(&buf).to_vec();
    assert_eq!(perun_core::crypto::ethereum_message_hash(&data), expected);
}
