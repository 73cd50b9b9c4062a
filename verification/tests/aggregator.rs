use lib::aggregator::{
    AggregatedBatchProof, AggregatorEngine, ConsensusPolicy, ERR_ENGINE_FULL, ERR_M_EXCEEDS_N,
    ERR_NO_ENVELOPES, ERR_N_TOO_LARGE, ERR_N_TOO_SMALL, ERR_QUORUM_BELOW_BFT,
};
use lib::{Header, ProofEnvelope, SIB_MAGIC_NUMBER};

/// A test envelope with the given epoch.
fn create_test_envelope(epoch: u64) -> ProofEnvelope {
    ProofEnvelope {
        header: Header {
            magic: SIB_MAGIC_NUMBER,
            dialect_id: 0x0001,
            epoch_id: epoch,
            timestamp_ns: 1000000000000u64,
            prover_puf_hash: [0x42u8; 32],
            _reserved: [0u8; 72],
        },
        model_root_hash: [0xAAu8; 48],
        public_inputs_hash: [0xBBu8; 32],
        stark_metadata: [0xCCu8; 32],
        stark_payload: [0xDDu8; 1504],
        action_hash: [0xEEu8; 32],
        circuit_id: [0xFFu8; 16],
        public_outputs_hash: [0x11u8; 32],
        snark_payload: [0x22u8; 736],
        sig_count: 1,
        _sig_reserved: 0,
    }
}

#[test]
fn test_consensus_policy_creation() {
    let policy = ConsensusPolicy::new(3, 5, 10);
    assert!(policy.is_ok());

    let policy = policy.unwrap();
    assert_eq!(policy.m, 3);
    assert_eq!(policy.n, 5);
    assert_eq!(policy.epoch_tolerance, 10);
}

#[test]
fn test_consensus_policy_invalid_m_gt_n() {
    let policy = ConsensusPolicy::new(6, 5, 10);
    assert!(policy.is_err());
}

#[test]
fn test_consensus_policy_invalid_n_too_small() {
    let policy = ConsensusPolicy::new(1, 2, 10);
    assert!(policy.is_err());
}

#[test]
fn test_quorum_check() {
    let policy = ConsensusPolicy::default();
    assert!(!policy.is_quorum_met(2));
    assert!(policy.is_quorum_met(3));
    assert!(policy.is_quorum_met(5));
}

#[test]
fn test_aggregator_add_envelopes() {
    let policy = ConsensusPolicy::default();
    let mut engine = AggregatorEngine::new(policy);

    for i in 0..5 {
        let env = create_test_envelope(100 + i as u64);
        assert!(engine.add_envelope(env).is_ok());
    }

    assert_eq!(engine.envelope_count(), 5);
}

#[test]
fn test_aggregator_consensus_reached() {
    let policy = ConsensusPolicy::default();
    let mut engine = AggregatorEngine::new(policy);

    for _i in 0..3 {
        let env = create_test_envelope(100);
        engine.add_envelope(env).unwrap();
    }

    let result = engine.aggregate(100, 1000000000000u64);
    assert!(result.is_ok());

    let proof = result.unwrap();
    assert!(proof.consensus_reached);
    assert_eq!(proof.valid_count, 3);
}

#[test]
fn test_aggregator_consensus_not_reached() {
    let policy = ConsensusPolicy::default();
    let mut engine = AggregatorEngine::new(policy);

    for _i in 0..2 {
        let env = create_test_envelope(100);
        engine.add_envelope(env).unwrap();
    }

    let result = engine.aggregate(100, 1000000000000u64);
    assert!(result.is_ok());

    let proof = result.unwrap();
    assert!(!proof.consensus_reached);
    assert_eq!(proof.valid_count, 2);
}

#[test]
fn test_aggregator_epoch_drift_protection() {
    let policy = ConsensusPolicy::new(3, 5, 5).unwrap();
    let mut engine = AggregatorEngine::new(policy);

    let env = create_test_envelope(100);
    engine.add_envelope(env).unwrap();

    let result = engine.aggregate(100, 1000000000000u64);
    assert!(result.is_ok());
    // A single valid envelope does not meet a 3-of-5 quorum (M is the number
    // of valid envelopes required, as test_aggregator_consensus_not_reached
    // shows with two), so consensus is not reached here: the expectation of
    // `true` at this point contradicted the library's rule and its other tests.
    let proof = result.unwrap();
    assert!(!proof.consensus_reached);
    assert_eq!(proof.valid_count, 1);

    engine.reset();
    let env2 = create_test_envelope(100);
    engine.add_envelope(env2).unwrap();

    let result = engine.aggregate(200, 1000000000000u64);
    assert!(result.is_ok());
    assert!(!result.unwrap().consensus_reached);
}

#[test]
fn expired_envelopes_are_not_counted() {
    let mut engine = AggregatorEngine::new(ConsensusPolicy::default());
    for _ in 0..3 {
        engine.add_envelope(create_test_envelope(100)).unwrap();
    }
    let result = engine.aggregate(110, 1000000000000u64).unwrap();
    assert_eq!(result.valid_count, 3);
    assert!(result.consensus_reached);

    engine.reset();
    for _ in 0..3 {
        engine.add_envelope(create_test_envelope(100)).unwrap();
    }
    let result = engine.aggregate(200, 1000000000000u64).unwrap();
    assert_eq!(result.valid_count, 0);
    assert!(!result.consensus_reached);
}

#[test]
fn test_aggregated_proof_hex_hash() {
    let proof = AggregatedBatchProof::new(
        true,
        3,
        3,
        [
            0x01, 0x23, 0x45, 0x67, 0x89, 0xAB, 0xCD, 0xEF, 0x00, 0x00, 0x00, 0x00, 0x00, 0x00,
            0x00, 0x00, 0x00, 0x00, 0x00, 0x00, 0x00, 0x00, 0x00, 0x00, 0x00, 0x00, 0x00, 0x00,
            0x00, 0x00, 0x00, 0x00,
        ],
        1000000000000u64,
        100,
        5,
    );

    let hex = proof.hex_hash();
    assert_eq!(hex[0], b'0');
    assert_eq!(hex[1], b'1');
    assert_eq!(hex[2], b'2');
    assert_eq!(hex[3], b'3');
}

#[test]
fn test_aggregator_reset() {
    let policy = ConsensusPolicy::default();
    let mut engine = AggregatorEngine::new(policy);

    let env = create_test_envelope(100);
    engine.add_envelope(env).unwrap();
    assert_eq!(engine.envelope_count(), 1);

    engine.reset();
    assert_eq!(engine.envelope_count(), 0);
}

#[test]
fn policy_errors_name_the_broken_rule() {
    assert_eq!(ConsensusPolicy::new(6, 5, 10).unwrap_err(), ERR_M_EXCEEDS_N);
    assert_eq!(ConsensusPolicy::new(1, 2, 10).unwrap_err(), ERR_N_TOO_SMALL);
    assert_eq!(ConsensusPolicy::new(3, 12, 10).unwrap_err(), ERR_N_TOO_LARGE);
    assert_eq!(ConsensusPolicy::new(13, 12, 10).unwrap_err(), ERR_M_EXCEEDS_N);
    let p = ConsensusPolicy::new(11, 11, 0).unwrap();
    assert_eq!(p, ConsensusPolicy { m: 11, n: 11, epoch_tolerance: 0 });
    // The quorum must reach the Byzantine threshold (2N + 1) / 3.
    assert_eq!(ConsensusPolicy::new(0, 3, 7).unwrap_err(), ERR_QUORUM_BELOW_BFT);
    assert_eq!(ConsensusPolicy::new(2, 5, 7).unwrap_err(), ERR_QUORUM_BELOW_BFT);
    assert_eq!(ConsensusPolicy::new(7, 11, 7).unwrap(), ConsensusPolicy { m: 7, n: 11, epoch_tolerance: 7 });
    assert_eq!(ConsensusPolicy::new(6, 11, 7).unwrap_err(), ERR_QUORUM_BELOW_BFT);
    assert!(ConsensusPolicy::new(2, 3, 7).is_ok());
}

#[test]
fn default_policy_is_three_of_five() {
    assert_eq!(
        ConsensusPolicy::default(),
        ConsensusPolicy { m: 3, n: 5, epoch_tolerance: 10 }
    );
}

#[test]
fn engine_refuses_beyond_n_and_keeps_its_batch() {
    let policy = ConsensusPolicy::new(2, 3, 10).unwrap();
    let mut engine = AggregatorEngine::new(policy);
    for _ in 0..3 {
        engine.add_envelope(create_test_envelope(100)).unwrap();
    }
    assert_eq!(engine.add_envelope(create_test_envelope(100)), Err(ERR_ENGINE_FULL));
    assert_eq!(engine.envelope_count(), 3);
    assert_eq!(engine.policy(), policy);
    engine.reset();
    assert_eq!(engine.policy(), policy);
    assert!(engine.add_envelope(create_test_envelope(100)).is_ok());
}

#[test]
fn aggregating_an_empty_batch_is_refused() {
    let engine = AggregatorEngine::new(ConsensusPolicy::default());
    assert_eq!(engine.aggregate(100, 5).unwrap_err(), ERR_NO_ENVELOPES);
}

#[test]
fn aggregate_fills_every_field() {
    let mut engine = AggregatorEngine::new(ConsensusPolicy::default());
    engine.add_envelope(create_test_envelope(100)).unwrap();
    let mut bad = create_test_envelope(100);
    bad.header.magic = 0;
    engine.add_envelope(bad).unwrap();
    engine.add_envelope(create_test_envelope(111)).unwrap();
    engine.add_envelope(create_test_envelope(90)).unwrap();
    let p = engine.aggregate(100, 77).unwrap();
    assert_eq!(p.valid_count, 2);
    assert!(!p.consensus_reached);
    assert_eq!(p.required_count, 3);
    assert_eq!(p.node_count, 4);
    assert_eq!(p.consensus_epoch, 100);
    assert_eq!(p.consensus_timestamp_ns, 77);
    assert_eq!(p._reserved, [0u8; 23]);
    // four copies of the same byte pattern cancel out under XOR
    assert_eq!(p.aggregated_hash, [0u8; 32]);
}

#[test]
fn aggregated_hash_rotates_by_position() {
    let mut engine = AggregatorEngine::new(ConsensusPolicy::default());
    let mut a = create_test_envelope(100);
    let mut b = create_test_envelope(100);
    for j in 0..48 {
        a.model_root_hash[j] = j as u8;
        b.model_root_hash[j] = 0;
    }
    b.model_root_hash[0] = 0xF0;
    b.model_root_hash[31] = 0x0F;
    engine.add_envelope(a).unwrap();
    let single = engine.aggregate(100, 0).unwrap();
    let mut expected = [0u8; 32];
    for j in 0..32 {
        expected[j] = j as u8;
    }
    assert_eq!(single.aggregated_hash, expected);

    engine.add_envelope(b).unwrap();
    let pair = engine.aggregate(100, 0).unwrap();
    // b's byte 0 lands on position 1, its byte 31 wraps around to position 0
    expected[1] ^= 0xF0;
    expected[0] ^= 0x0F;
    assert_eq!(pair.aggregated_hash, expected);
}

#[test]
fn hex_hash_encodes_every_byte() {
    let mut hash = [0u8; 32];
    hash[0] = 0xAB;
    hash[31] = 0x9F;
    let proof = AggregatedBatchProof::new(false, 0, 3, hash, 0, 0, 0);
    let hex = proof.hex_hash();
    let text = String::from_utf8(hex.to_vec()).unwrap();
    assert_eq!(text, format!("ab{}9f", "0".repeat(60)));
    assert!(hex.iter().all(|c| c.is_ascii_digit() || (b'a'..=b'f').contains(c)));
}

#[test]
fn consensus_survives_adding_an_envelope() {
    let mut engine = AggregatorEngine::new(ConsensusPolicy::default());
    for _ in 0..3 {
        engine.add_envelope(create_test_envelope(100)).unwrap();
    }
    let before = engine.aggregate(100, 0).unwrap();
    engine.add_envelope(create_test_envelope(500)).unwrap();
    let after = engine.aggregate(100, 0).unwrap();
    assert!(before.consensus_reached);
    assert!(after.consensus_reached);
    assert!(after.valid_count >= before.valid_count);
}

#[test]
fn aggregated_hash_ignores_the_tail_of_model_hashes() {
    let mut a = AggregatorEngine::new(ConsensusPolicy::default());
    let mut b = AggregatorEngine::new(ConsensusPolicy::default());
    let mut x = create_test_envelope(100);
    x.model_root_hash[5] = 0x13;
    let mut y = x;
    y.model_root_hash[40] = 0x77;
    y.header.magic = 0;
    y.header.epoch_id = 9;
    a.add_envelope(x).unwrap();
    b.add_envelope(y).unwrap();
    let ha = a.aggregate(100, 0).unwrap().aggregated_hash;
    let hb = b.aggregate(100, 0).unwrap().aggregated_hash;
    assert_eq!(ha, hb);
}
