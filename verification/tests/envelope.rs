use lib::{
    ProofEnvelope, ValidationError, BASE_STRUCT_SIZE, ENDORSEMENT_OFFSET, MAX_ENVELOPE_SIZE,
    ML_DSA_65_SIG_SIZE, SIB_MAGIC_NUMBER,
};

/// A valid test envelope: magic "SIB1", epoch 100, `sig_count` zeroed signatures.
fn create_test_envelope(sig_count: u32) -> (Vec<u8>, usize) {
    let total_size = BASE_STRUCT_SIZE + (sig_count as usize * ML_DSA_65_SIG_SIZE);
    let mut buf = vec![0u8; total_size];
    buf[0..4].copy_from_slice(&SIB_MAGIC_NUMBER.to_le_bytes());
    buf[8..16].copy_from_slice(&100u64.to_le_bytes());
    buf[ENDORSEMENT_OFFSET..ENDORSEMENT_OFFSET + 4].copy_from_slice(&sig_count.to_le_bytes());
    (buf, total_size)
}

#[test]
fn test_parse_happy_path() {
    let (buf, _) = create_test_envelope(2);
    let result = ProofEnvelope::parse(&buf);
    assert!(result.is_ok());

    let (envelope, sig_bytes) = result.unwrap();
    assert_eq!(envelope.header.magic, SIB_MAGIC_NUMBER);
    assert_eq!(envelope.sig_count, 2);
    assert_eq!(sig_bytes.len(), 2 * ML_DSA_65_SIG_SIZE);
    assert!(envelope.is_epoch_valid(100, 5));
}

#[test]
fn test_parse_fail_bad_magic() {
    let (mut buf, _) = create_test_envelope(1);
    buf[0] = 0x00;
    let result = ProofEnvelope::parse(&buf);
    assert_eq!(result.unwrap_err(), ValidationError::BadMagic);
}

#[test]
fn test_parse_fail_unaligned() {
    let (buf, _) = create_test_envelope(1);
    let unaligned = &buf[1..];
    let result = ProofEnvelope::parse(unaligned);
    assert_eq!(result.unwrap_err(), ValidationError::UnalignedPointer);
}

#[test]
fn test_parse_fail_too_many_signatures() {
    let (buf, _) = create_test_envelope(4);
    let result = ProofEnvelope::parse(&buf);
    assert_eq!(result.unwrap_err(), ValidationError::TooManySignatures);
}

#[test]
fn test_epoch_validation() {
    let (buf, _) = create_test_envelope(1);
    let result = ProofEnvelope::parse(&buf);
    assert!(result.is_ok());

    let (envelope, _) = result.unwrap();
    assert!(envelope.is_epoch_valid(100, 5));
    assert!(envelope.is_epoch_valid(105, 5));
    assert!(envelope.is_epoch_valid(95, 5));
    assert!(!envelope.is_epoch_valid(200, 5));
}

#[test]
fn test_get_signature() {
    let (buf, _) = create_test_envelope(3);
    let result = ProofEnvelope::parse(&buf);
    assert!(result.is_ok());

    let (envelope, sig_bytes) = result.unwrap();

    let sig0 = envelope.get_signature(sig_bytes, 0);
    assert!(sig0.is_some());
    assert_eq!(sig0.unwrap().len(), ML_DSA_65_SIG_SIZE);

    let sig1 = envelope.get_signature(sig_bytes, 1);
    assert!(sig1.is_some());

    let sig2 = envelope.get_signature(sig_bytes, 2);
    assert!(sig2.is_some());

    let sig3 = envelope.get_signature(sig_bytes, 3);
    assert!(sig3.is_none());
}

#[test]
fn parse_rejects_short_buffer() {
    let buf = vec![0u8; BASE_STRUCT_SIZE - 1];
    assert_eq!(
        ProofEnvelope::parse_at_address(&buf, 0).unwrap_err(),
        ValidationError::BufferTooSmall
    );
}

#[test]
fn parse_rejects_oversized_buffer() {
    let (mut buf, _) = create_test_envelope(3);
    buf.push(0);
    assert_eq!(buf.len(), MAX_ENVELOPE_SIZE + 1);
    assert_eq!(
        ProofEnvelope::parse_at_address(&buf, 0).unwrap_err(),
        ValidationError::BufferTooLarge
    );
}

#[test]
fn parse_rejects_size_mismatch() {
    let (mut buf, _) = create_test_envelope(1);
    buf.push(0);
    assert_eq!(
        ProofEnvelope::parse_at_address(&buf, 8).unwrap_err(),
        ValidationError::SizeMismatch
    );
}

#[test]
fn parse_checks_the_given_address() {
    let (buf, _) = create_test_envelope(0);
    assert_eq!(
        ProofEnvelope::parse_at_address(&buf, 12).unwrap_err(),
        ValidationError::UnalignedPointer
    );
    let (envelope, sigs) = ProofEnvelope::parse_at_address(&buf, 16).unwrap();
    assert_eq!(envelope.sig_count, 0);
    assert!(sigs.is_empty());
}

#[test]
fn parse_decodes_every_field_little_endian() {
    let (mut buf, _) = create_test_envelope(1);
    buf[4..8].copy_from_slice(&0x0102_0304u32.to_le_bytes());
    buf[8..16].copy_from_slice(&0x1122_3344_5566_7788u64.to_le_bytes());
    buf[16..24].copy_from_slice(&42u64.to_le_bytes());
    buf[24] = 0x42;
    buf[127] = 0x7f;
    buf[128] = 0xAA;
    buf[175] = 0xAB;
    buf[240] = 0xDD;
    buf[1743] = 0xDE;
    buf[1776] = 0xFF;
    buf[2559] = 0x22;
    buf[2564..2568].copy_from_slice(&9u32.to_le_bytes());
    buf[BASE_STRUCT_SIZE] = 0x55;
    let (envelope, sigs) = ProofEnvelope::parse_at_address(&buf, 0).unwrap();
    assert_eq!(envelope.header.dialect_id, 0x0102_0304);
    assert_eq!(envelope.header.epoch_id, 0x1122_3344_5566_7788);
    assert_eq!(envelope.header.timestamp_ns, 42);
    assert_eq!(envelope.header.prover_puf_hash[0], 0x42);
    assert_eq!(envelope.header._reserved[71], 0x7f);
    assert_eq!(envelope.model_root_hash[0], 0xAA);
    assert_eq!(envelope.model_root_hash[47], 0xAB);
    assert_eq!(envelope.stark_payload[0], 0xDD);
    assert_eq!(envelope.stark_payload[1503], 0xDE);
    assert_eq!(envelope.circuit_id[0], 0xFF);
    assert_eq!(envelope.snark_payload[735], 0x22);
    assert_eq!(envelope.sig_count, 1);
    assert_eq!(envelope._sig_reserved, 9);
    assert_eq!(sigs.len(), ML_DSA_65_SIG_SIZE);
    assert_eq!(sigs[0], 0x55);
}

#[test]
fn get_signature_returns_the_indexed_chunk() {
    let (mut buf, _) = create_test_envelope(2);
    buf[BASE_STRUCT_SIZE + ML_DSA_65_SIG_SIZE] = 7;
    buf[BASE_STRUCT_SIZE + 2 * ML_DSA_65_SIG_SIZE - 1] = 9;
    let (envelope, sigs) = ProofEnvelope::parse_at_address(&buf, 0).unwrap();
    let sig1 = envelope.get_signature(sigs, 1).unwrap();
    assert_eq!(sig1.len(), ML_DSA_65_SIG_SIZE);
    assert_eq!(sig1[0], 7);
    assert_eq!(sig1[ML_DSA_65_SIG_SIZE - 1], 9);
    assert!(envelope.get_signature(sigs, 2).is_none());
    assert!(envelope.get_signature(&sigs[..ML_DSA_65_SIG_SIZE], 1).is_none());
}

#[test]
fn epoch_window_is_symmetric_and_clipped() {
    let (buf, _) = create_test_envelope(0);
    let (envelope, _) = ProofEnvelope::parse_at_address(&buf, 0).unwrap();
    assert!(envelope.is_epoch_valid(104, 4));
    assert!(envelope.is_epoch_valid(96, 4));
    assert!(!envelope.is_epoch_valid(105, 4));
    assert!(!envelope.is_epoch_valid(94, 4));
    assert!(envelope.is_epoch_valid(0, u64::MAX));
    assert!(envelope.is_epoch_valid(u64::MAX, u64::MAX));
    assert!(!envelope.is_epoch_valid(u64::MAX, 5));
}

#[test]
fn error_messages_are_distinct() {
    let all = [
        ValidationError::BufferTooSmall,
        ValidationError::BufferTooLarge,
        ValidationError::BadMagic,
        ValidationError::TooManySignatures,
        ValidationError::SizeMismatch,
        ValidationError::ExpiredEpoch,
        ValidationError::UnalignedPointer,
    ];
    for (i, a) in all.iter().enumerate() {
        for (j, b) in all.iter().enumerate() {
            assert_eq!(i == j, a.message() == b.message());
        }
    }
    assert_eq!(ValidationError::BadMagic.message(), "التوقيع السحري غير صحيح");
}
