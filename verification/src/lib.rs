//! Core proof-envelope kernel of the Sovereign Immunity Blueprint (SIB).
//!
//! A proof envelope is a fixed 2568-byte little-endian record followed by up to
//! three ML-DSA-65 endorsement signatures. This crate decodes and checks such
//! envelopes without copying the signature section, guards against replay with
//! an epoch window, and (in [`aggregator`]) combines envelopes from several nodes
//! into an M-of-N consensus result.
#![allow(unused_imports)]

pub mod aggregator;

use vstd::prelude::*;
use vstd::bytes::*;
use vstd::slice::slice_subrange;

verus! {

/// The architect whose name the kernel carries.
pub const GENESIS_ARCHITECT: &'static str = "Adel Lakosha";

/// The ASCII bytes of "Adel_Lakosha_", meant for the header's reserved area.
pub const GENESIS_SIGNATURE_BYTES: [u8; 13] = [65, 100, 101, 108, 95, 76, 97, 107, 111, 115, 104, 97, 95];

/// Magic number of an envelope (ASCII "SIB1").
pub const SIB_MAGIC_NUMBER: u32 = 0x5349_4231;

/// Size in bytes of one ML-DSA-65 signature (NIST category 3).
pub const ML_DSA_65_SIG_SIZE: usize = 3309;

/// Largest number of endorsements an envelope may carry.
pub const MAX_SIGNATURES: usize = 3;

/// Upper bound on the size of a whole envelope (about 12 KB): the fixed record
/// followed by the largest allowed number of signatures.
pub const MAX_ENVELOPE_SIZE: usize = 12_495;

/// Byte offset of the endorsement count within the fixed record.
pub const ENDORSEMENT_OFFSET: usize = 0x0A00;

/// Size in bytes of the fixed record, signatures excluded.
pub const BASE_STRUCT_SIZE: usize = 2568;

/// Errors reported when an envelope is checked.
#[derive(Debug, Clone, Copy, PartialEq, Eq, Structural)]
pub enum ValidationError {
    /// The buffer is shorter than the fixed record.
    BufferTooSmall,
    /// The buffer is longer than [`MAX_ENVELOPE_SIZE`].
    BufferTooLarge,
    /// The magic number is not "SIB1".
    BadMagic,
    /// More endorsements are declared than are allowed.
    TooManySignatures,
    /// The buffer length does not match the declared endorsement count.
    SizeMismatch,
    /// The epoch lies outside the accepted window.
    ExpiredEpoch,
    /// The buffer does not start on an 8-byte boundary.
    UnalignedPointer,
}

impl ValidationError {
    /// The human-readable description of the error.
    pub fn message(&self) -> (s: &'static str)
        ensures
            s@ == self.spec_message()@,
    {
        match self {
            ValidationError::BufferTooSmall => "الذاكرة أقل من الحجم الأساسي للهيكل",
            ValidationError::BufferTooLarge => "الذاكرة تتجاوز الحد الأقصى 12 كيلوبايت",
            ValidationError::BadMagic => "التوقيع السحري غير صحيح",
            ValidationError::TooManySignatures => "عدد التوقيعات يتجاوز الحد المسموح (3)",
            ValidationError::SizeMismatch => "حجم الذاكرة لا يتطابق مع عدد التوقيعات",
            ValidationError::ExpiredEpoch => "العهد الزمني منتهي الصلاحية",
            ValidationError::UnalignedPointer => "مؤشر الذاكرة غير محاذٍ لحافة 8-بايت",
        }
    }

    /// The description that [`ValidationError::message`] returns.
    pub open spec fn spec_message(&self) -> &'static str {
        match self {
            ValidationError::BufferTooSmall => "الذاكرة أقل من الحجم الأساسي للهيكل",
            ValidationError::BufferTooLarge => "الذاكرة تتجاوز الحد الأقصى 12 كيلوبايت",
            ValidationError::BadMagic => "التوقيع السحري غير صحيح",
            ValidationError::TooManySignatures => "عدد التوقيعات يتجاوز الحد المسموح (3)",
            ValidationError::SizeMismatch => "حجم الذاكرة لا يتطابق مع عدد التوقيعات",
            ValidationError::ExpiredEpoch => "العهد الزمني منتهي الصلاحية",
            ValidationError::UnalignedPointer => "مؤشر الذاكرة غير محاذٍ لحافة 8-بايت",
        }
    }
}

/// Whether `epoch` lies within `drift` epochs of `current`, on both sides.
pub open spec fn epoch_in_window(epoch: u64, current: u64, drift: u64) -> bool {
    current - drift <= epoch <= current + drift
}

/// The fixed header of an envelope (128 bytes).
#[derive(Debug, Clone, Copy, PartialEq, Eq)]
pub struct Header {
    /// Magic number (0x53494231).
    pub magic: u32,
    /// Identifier of the hardware (TEE) dialect.
    pub dialect_id: u32,
    /// Epoch identifier, used against replay.
    pub epoch_id: u64,
    /// Timestamp in nanoseconds since the Unix epoch.
    pub timestamp_ns: u64,
    /// Physical (PUF) fingerprint of the prover's hardware.
    pub prover_puf_hash: [u8; 32],
    /// Reserved bytes.
    pub _reserved: [u8; 72],
}

/// The fixed record of an envelope (2568 bytes), signatures excluded.
#[derive(Debug, Clone, Copy, PartialEq, Eq)]
pub struct ProofEnvelope {
    /// The fixed header (128 bytes).
    pub header: Header,
    /// Root hash of the neural model (SHA3-384).
    pub model_root_hash: [u8; 48],
    /// Hash of the public inputs (SHA3-256).
    pub public_inputs_hash: [u8; 32],
    /// zk-STARK metadata.
    pub stark_metadata: [u8; 32],
    /// zk-STARK (FRI) proof body.
    pub stark_payload: [u8; 1504],
    /// Hash of the action decision (SHA3-256).
    pub action_hash: [u8; 32],
    /// Identifier (UUID) of the constitutional circuit.
    pub circuit_id: [u8; 16],
    /// Hash of the public outputs (SHA3-256).
    pub public_outputs_hash: [u8; 32],
    /// zk-SNARK (Groth16/PlonK) proof body.
    pub snark_payload: [u8; 736],
    /// Number of endorsements that follow the record (0..=3).
    pub sig_count: u32,
    /// Reserved for alignment.
    pub _sig_reserved: u32,
}

impl Header {
    /// The 128 bytes that encode this header, fields in order, integers little-endian.
    pub open spec fn spec_bytes(&self) -> Seq<u8> {
        spec_u32_to_le_bytes(self.magic) + spec_u32_to_le_bytes(self.dialect_id)
            + spec_u64_to_le_bytes(self.epoch_id) + spec_u64_to_le_bytes(self.timestamp_ns)
            + self.prover_puf_hash@ + self._reserved@
    }
}

impl ProofEnvelope {
    /// The 2568 bytes that encode this record, fields in order, integers little-endian.
    pub open spec fn spec_bytes(&self) -> Seq<u8> {
        self.header.spec_bytes() + self.model_root_hash@ + self.public_inputs_hash@
            + self.stark_metadata@ + self.stark_payload@ + self.action_hash@ + self.circuit_id@
            + self.public_outputs_hash@ + self.snark_payload@ + spec_u32_to_le_bytes(self.sig_count)
            + spec_u32_to_le_bytes(self._sig_reserved)
    }
}

/// The little-endian `u32` stored at `off` in `b`.
pub open spec fn le_u32_at(b: Seq<u8>, off: int) -> u32 {
    spec_u32_from_le_bytes(b.subrange(off, off + 4))
}

/// Why the envelope in `b`, found at memory address `address`, is refused, if it is.
pub open spec fn parse_error(b: Seq<u8>, address: usize) -> Option<ValidationError> {
    if b.len() < BASE_STRUCT_SIZE {
        Some(ValidationError::BufferTooSmall)
    } else if address % 8 != 0 {
        Some(ValidationError::UnalignedPointer)
    } else if le_u32_at(b, 0) != SIB_MAGIC_NUMBER {
        Some(ValidationError::BadMagic)
    } else if le_u32_at(b, ENDORSEMENT_OFFSET as int) > MAX_SIGNATURES {
        Some(ValidationError::TooManySignatures)
    } else if b.len() > MAX_ENVELOPE_SIZE {
        Some(ValidationError::BufferTooLarge)
    } else if b.len() != BASE_STRUCT_SIZE + le_u32_at(b, ENDORSEMENT_OFFSET as int)
        * ML_DSA_65_SIG_SIZE {
        Some(ValidationError::SizeMismatch)
    } else {
        None
    }
}

/// `r` is what parsing `b`, found at `address`, gives: the refusal that
/// [`parse_error`] names, or the decoded record and the signature section.
pub open spec fn parse_agrees<'a>(
    b: Seq<u8>,
    address: usize,
    r: Result<(ProofEnvelope, &'a [u8]), ValidationError>,
) -> bool {
    match r {
        Ok((env, sigs)) => {
            &&& parse_error(b, address) is None
            &&& env.spec_bytes() == b.take(BASE_STRUCT_SIZE as int)
            &&& sigs@ == b.skip(BASE_STRUCT_SIZE as int)
            &&& env.header.magic == SIB_MAGIC_NUMBER
            &&& env.sig_count <= MAX_SIGNATURES
            &&& sigs@.len() == env.sig_count * ML_DSA_65_SIG_SIZE
        },
        Err(e) => parse_error(b, address) == Some(e),
    }
}

/// The `index`-th signature of a signature section `sigs` holding `sig_count`
/// endorsements, if there is one.
pub open spec fn signature_at(sig_count: u32, sigs: Seq<u8>, index: int) -> Option<Seq<u8>> {
    if 0 <= index < sig_count && (index + 1) * ML_DSA_65_SIG_SIZE <= sigs.len() {
        Some(sigs.subrange(index * ML_DSA_65_SIG_SIZE, (index + 1) * ML_DSA_65_SIG_SIZE))
    } else {
        None
    }
}

/// The little-endian `u32` at `off` in `bytes`.
fn read_u32_le(bytes: &[u8], off: usize) -> (x: u32)
    requires
        off + 4 <= bytes.len(),
    ensures
        x == le_u32_at(bytes@, off as int),
        spec_u32_to_le_bytes(x) == bytes@.subrange(off as int, off + 4),
{
    proof {
        lemma_auto_spec_u32_to_from_le_bytes();
    }
    u32_from_le_bytes(slice_subrange(bytes, off, off + 4))
}

/// The little-endian `u64` at `off` in `bytes`.
fn read_u64_le(bytes: &[u8], off: usize) -> (x: u64)
    requires
        off + 8 <= bytes.len(),
    ensures
        spec_u64_to_le_bytes(x) == bytes@.subrange(off as int, off + 8),
{
    proof {
        lemma_auto_spec_u64_to_from_le_bytes();
    }
    u64_from_le_bytes(slice_subrange(bytes, off, off + 8))
}

/// Fills `dst` with the `N` bytes of `bytes` that start at `off`.
fn copy_bytes<const N: usize>(dst: &mut [u8; N], bytes: &[u8], off: usize)
    requires
        off + N <= bytes.len(),
    ensures
        final(dst)@ == bytes@.subrange(off as int, off + N),
{
    for i in 0..N
        invariant
            off + N <= bytes.len(),
            dst@.len() == N,
            forall|k: int| 0 <= k < i ==> dst@[k] == bytes@[off + k],
    {
        dst[i] = bytes[off + i];
    }
    assert(dst@ =~= bytes@.subrange(off as int, off + N));
}

/// Decodes the fixed record at the start of `bytes`.
fn decode_envelope(bytes: &[u8]) -> (env: ProofEnvelope)
    requires
        BASE_STRUCT_SIZE <= bytes.len(),
    ensures
        env.spec_bytes() == bytes@.take(BASE_STRUCT_SIZE as int),
        env.header.magic == le_u32_at(bytes@, 0),
        env.sig_count == le_u32_at(bytes@, ENDORSEMENT_OFFSET as int),
{
    let mut prover_puf_hash = [0u8; 32];
    copy_bytes(&mut prover_puf_hash, bytes, 24);
    let mut reserved = [0u8; 72];
    copy_bytes(&mut reserved, bytes, 56);
    let mut model_root_hash = [0u8; 48];
    copy_bytes(&mut model_root_hash, bytes, 128);
    let mut public_inputs_hash = [0u8; 32];
    copy_bytes(&mut public_inputs_hash, bytes, 176);
    let mut stark_metadata = [0u8; 32];
    copy_bytes(&mut stark_metadata, bytes, 208);
    let mut stark_payload = [0u8; 1504];
    copy_bytes(&mut stark_payload, bytes, 240);
    let mut action_hash = [0u8; 32];
    copy_bytes(&mut action_hash, bytes, 1744);
    let mut circuit_id = [0u8; 16];
    copy_bytes(&mut circuit_id, bytes, 1776);
    let mut public_outputs_hash = [0u8; 32];
    copy_bytes(&mut public_outputs_hash, bytes, 1792);
    let mut snark_payload = [0u8; 736];
    copy_bytes(&mut snark_payload, bytes, 1824);
    let header = Header {
        magic: read_u32_le(bytes, 0),
        dialect_id: read_u32_le(bytes, 4),
        epoch_id: read_u64_le(bytes, 8),
        timestamp_ns: read_u64_le(bytes, 16),
        prover_puf_hash,
        _reserved: reserved,
    };
    let env = ProofEnvelope {
        header,
        model_root_hash,
        public_inputs_hash,
        stark_metadata,
        stark_payload,
        action_hash,
        circuit_id,
        public_outputs_hash,
        snark_payload,
        sig_count: read_u32_le(bytes, ENDORSEMENT_OFFSET),
        _sig_reserved: read_u32_le(bytes, 2564),
    };
    assert(header.spec_bytes() =~= bytes@.subrange(0, 128));
    assert(env.spec_bytes() =~= bytes@.take(BASE_STRUCT_SIZE as int));
    env
}

/// The memory address at which `bytes` starts, as `<[u8]>::as_ptr` gives it.
/// Nothing is stated of the value: it depends on where the buffer was placed.
#[verifier::external_body]
fn slice_address(bytes: &[u8]) -> usize {
    bytes.as_ptr() as usize
}

impl ProofEnvelope {
    /// Checks and decodes an envelope held in `bytes`, which start at memory
    /// address `address`.
    ///
    /// The checks come in this order: the buffer holds the fixed record, it
    /// starts on an 8-byte boundary, the magic number is "SIB1", at most three
    /// endorsements are declared, the buffer is no larger than
    /// [`MAX_ENVELOPE_SIZE`], and it is exactly the record followed by that many
    /// signatures. On success the
    /// decoded record is returned with the signature section, which is not copied.
    pub fn parse_at_address<'a>(bytes: &'a [u8], address: usize) -> (r: Result<
        (ProofEnvelope, &'a [u8]),
        ValidationError,
    >)
        ensures
            parse_agrees(bytes@, address, r),
    {
        let len = bytes.len();
        if len < BASE_STRUCT_SIZE {
            return Err(ValidationError::BufferTooSmall);
        }
        if address % 8 != 0 {
            return Err(ValidationError::UnalignedPointer);
        }
        let envelope = decode_envelope(bytes);
        if envelope.header.magic != SIB_MAGIC_NUMBER {
            return Err(ValidationError::BadMagic);
        }
        if envelope.sig_count as usize > MAX_SIGNATURES {
            return Err(ValidationError::TooManySignatures);
        }
        if len > MAX_ENVELOPE_SIZE {
            return Err(ValidationError::BufferTooLarge);
        }
        let expected_len = BASE_STRUCT_SIZE + (envelope.sig_count as usize * ML_DSA_65_SIG_SIZE);
        if len != expected_len {
            return Err(ValidationError::SizeMismatch);
        }
        let sig_bytes = slice_subrange(bytes, BASE_STRUCT_SIZE, expected_len);
        assert(sig_bytes@ =~= bytes@.skip(BASE_STRUCT_SIZE as int));
        Ok((envelope, sig_bytes))
    }

    /// Checks and decodes an envelope held in `bytes`, wherever they lie in
    /// memory: as [`ProofEnvelope::parse_at_address`] at the buffer's own address.
    pub fn parse<'a>(bytes: &'a [u8]) -> (r: Result<(ProofEnvelope, &'a [u8]), ValidationError>)
        ensures
            exists|address: usize| parse_agrees(bytes@, address, r),
    {
        let address = slice_address(bytes);
        Self::parse_at_address(bytes, address)
    }

    /// Whether the envelope's epoch lies within `max_drift` epochs of
    /// `current_epoch` (protection against replay). The window is clipped at
    /// both ends of the `u64` range.
    pub fn is_epoch_valid(&self, current_epoch: u64, max_drift: u64) -> (r: bool)
        ensures
            r == epoch_in_window(self.header.epoch_id, current_epoch, max_drift),
            r == (current_epoch - max_drift <= self.header.epoch_id && self.header.epoch_id
                <= current_epoch + max_drift),
    {
        let lower = current_epoch.saturating_sub(max_drift);
        let upper = current_epoch.saturating_add(max_drift);
        self.header.epoch_id >= lower && self.header.epoch_id <= upper
    }

    /// The `index`-th ML-DSA-65 signature (3309 bytes) of the signature
    /// section `sig_bytes` returned by [`ProofEnvelope::parse`], without copying;
    /// `None` when the index is not below `sig_count` or the section is too short.
    pub fn get_signature<'a>(&self, sig_bytes: &'a [u8], index: usize) -> (r: Option<&'a [u8]>)
        ensures
            r is Some <==> signature_at(self.sig_count, sig_bytes@, index as int) is Some,
            r matches Some(s) ==> signature_at(self.sig_count, sig_bytes@, index as int) == Some(
                s@,
            ),
    {
        let available = sig_bytes.len();
        if index >= self.sig_count as usize {
            return None;
        }
        let start = match index.checked_mul(ML_DSA_65_SIG_SIZE) {
            Some(start) => start,
            None => return None,
        };
        let end = match start.checked_add(ML_DSA_65_SIG_SIZE) {
            Some(end) => end,
            None => return None,
        };
        if end > available {
            return None;
        }
        Some(slice_subrange(sig_bytes, start, end))
    }
}

/// Two records with the same encoding are the same record.
pub proof fn lemma_envelope_encoding_injective(a: ProofEnvelope, b: ProofEnvelope)
    requires
        a.spec_bytes() == b.spec_bytes(),
    ensures
        a == b,
{
    lemma_auto_spec_u32_to_from_le_bytes();
    lemma_auto_spec_u64_to_from_le_bytes();
    let x = a.spec_bytes();
    let y = b.spec_bytes();
    assert(x.subrange(0, 4) =~= spec_u32_to_le_bytes(a.header.magic));
    assert(y.subrange(0, 4) =~= spec_u32_to_le_bytes(b.header.magic));
    assert(x.subrange(4, 8) =~= spec_u32_to_le_bytes(a.header.dialect_id));
    assert(y.subrange(4, 8) =~= spec_u32_to_le_bytes(b.header.dialect_id));
    assert(x.subrange(8, 16) =~= spec_u64_to_le_bytes(a.header.epoch_id));
    assert(y.subrange(8, 16) =~= spec_u64_to_le_bytes(b.header.epoch_id));
    assert(x.subrange(16, 24) =~= spec_u64_to_le_bytes(a.header.timestamp_ns));
    assert(y.subrange(16, 24) =~= spec_u64_to_le_bytes(b.header.timestamp_ns));
    assert(x.subrange(24, 56) =~= a.header.prover_puf_hash@);
    assert(y.subrange(24, 56) =~= b.header.prover_puf_hash@);
    assert(x.subrange(56, 128) =~= a.header._reserved@);
    assert(y.subrange(56, 128) =~= b.header._reserved@);
    assert(x.subrange(128, 176) =~= a.model_root_hash@);
    assert(y.subrange(128, 176) =~= b.model_root_hash@);
    assert(x.subrange(176, 208) =~= a.public_inputs_hash@);
    assert(y.subrange(176, 208) =~= b.public_inputs_hash@);
    assert(x.subrange(208, 240) =~= a.stark_metadata@);
    assert(y.subrange(208, 240) =~= b.stark_metadata@);
    assert(x.subrange(240, 1744) =~= a.stark_payload@);
    assert(y.subrange(240, 1744) =~= b.stark_payload@);
    assert(x.subrange(1744, 1776) =~= a.action_hash@);
    assert(y.subrange(1744, 1776) =~= b.action_hash@);
    assert(x.subrange(1776, 1792) =~= a.circuit_id@);
    assert(y.subrange(1776, 1792) =~= b.circuit_id@);
    assert(x.subrange(1792, 1824) =~= a.public_outputs_hash@);
    assert(y.subrange(1792, 1824) =~= b.public_outputs_hash@);
    assert(x.subrange(1824, 2560) =~= a.snark_payload@);
    assert(y.subrange(1824, 2560) =~= b.snark_payload@);
    assert(x.subrange(2560, 2564) =~= spec_u32_to_le_bytes(a.sig_count));
    assert(y.subrange(2560, 2564) =~= spec_u32_to_le_bytes(b.sig_count));
    assert(x.subrange(2564, 2568) =~= spec_u32_to_le_bytes(a._sig_reserved));
    assert(y.subrange(2564, 2568) =~= spec_u32_to_le_bytes(b._sig_reserved));
    assert(a.header.prover_puf_hash =~= b.header.prover_puf_hash);
    assert(a.header._reserved =~= b.header._reserved);
    assert(a.model_root_hash =~= b.model_root_hash);
    assert(a.public_inputs_hash =~= b.public_inputs_hash);
    assert(a.stark_metadata =~= b.stark_metadata);
    assert(a.stark_payload =~= b.stark_payload);
    assert(a.action_hash =~= b.action_hash);
    assert(a.circuit_id =~= b.circuit_id);
    assert(a.public_outputs_hash =~= b.public_outputs_hash);
    assert(a.snark_payload =~= b.snark_payload);
}

/// An envelope made of a record whose magic number is right and which declares
/// at most three endorsements, followed by that many signatures, placed on an
/// 8-byte boundary, is accepted, and parsing gives back that record and those
/// signatures.
pub proof fn lemma_parse_recovers_envelope<'a>(
    env: ProofEnvelope,
    sigs: Seq<u8>,
    address: usize,
    r: Result<(ProofEnvelope, &'a [u8]), ValidationError>,
)
    requires
        env.header.magic == SIB_MAGIC_NUMBER,
        env.sig_count <= MAX_SIGNATURES,
        sigs.len() == env.sig_count * ML_DSA_65_SIG_SIZE,
        address % 8 == 0,
        parse_agrees(env.spec_bytes() + sigs, address, r),
    ensures
        r matches Ok((decoded, sig_bytes)) && decoded == env && sig_bytes@ == sigs,
{
    lemma_auto_spec_u32_to_from_le_bytes();
    lemma_auto_spec_u64_to_from_le_bytes();
    let b = env.spec_bytes() + sigs;
    assert(env.spec_bytes().len() == BASE_STRUCT_SIZE);
    assert(b.take(BASE_STRUCT_SIZE as int) =~= env.spec_bytes());
    assert(b.skip(BASE_STRUCT_SIZE as int) =~= sigs);
    assert(b.subrange(0, 4) =~= spec_u32_to_le_bytes(env.header.magic));
    assert(b.subrange(2560, 2564) =~= spec_u32_to_le_bytes(env.sig_count));
    assert(parse_error(b, address) is None);
    if let Ok((decoded, sig_bytes)) = r {
        lemma_envelope_encoding_injective(decoded, env);
    }
}

/// Every endorsement index below the declared count of an accepted envelope
/// names one signature of 3309 bytes, the index-th slice of the signature
/// section; no index at or above the count names any.
pub proof fn lemma_parsed_signatures_available<'a>(
    b: Seq<u8>,
    address: usize,
    env: ProofEnvelope,
    sig_bytes: &'a [u8],
    index: int,
)
    requires
        parse_agrees(b, address, Ok::<(ProofEnvelope, &'a [u8]), ValidationError>((env, sig_bytes))),
    ensures
        0 <= index < env.sig_count ==> signature_at(env.sig_count, sig_bytes@, index) == Some(
            b.subrange(
                BASE_STRUCT_SIZE + index * ML_DSA_65_SIG_SIZE,
                BASE_STRUCT_SIZE + (index + 1) * ML_DSA_65_SIG_SIZE,
            ),
        ),
        0 <= index < env.sig_count ==> signature_at(env.sig_count, sig_bytes@, index)->Some_0.len()
            == ML_DSA_65_SIG_SIZE,
        index >= env.sig_count ==> signature_at(env.sig_count, sig_bytes@, index) is None,
{
    if 0 <= index < env.sig_count {
        assert((index + 1) * ML_DSA_65_SIG_SIZE <= env.sig_count * ML_DSA_65_SIG_SIZE) by (
        nonlinear_arith)
            requires
                index + 1 <= env.sig_count,
        ;
        assert(sig_bytes@.subrange(index * ML_DSA_65_SIG_SIZE, (index + 1) * ML_DSA_65_SIG_SIZE)
            =~= b.subrange(
            BASE_STRUCT_SIZE + index * ML_DSA_65_SIG_SIZE,
            BASE_STRUCT_SIZE + (index + 1) * ML_DSA_65_SIG_SIZE,
        ));
    }
}

/// The epoch window is symmetric: `epoch` is within `drift` of `current` exactly
/// when `current` is within `drift` of `epoch`; and the current epoch is always
/// within the window.
pub proof fn lemma_epoch_window_symmetric(epoch: u64, current: u64, drift: u64)
    ensures
        epoch_in_window(epoch, current, drift) == epoch_in_window(current, epoch, drift),
        epoch_in_window(current, current, drift),
{
}

/// Every validation error has a non-empty description, and distinct errors
/// have distinct descriptions.
pub proof fn lemma_messages_distinct(e1: ValidationError, e2: ValidationError)
    ensures
        e1.spec_message()@.len() > 0,
        e1 != e2 ==> e1.spec_message()@ != e2.spec_message()@,
{
    reveal_strlit("الذاكرة أقل من الحجم الأساسي للهيكل");
    reveal_strlit("الذاكرة تتجاوز الحد الأقصى 12 كيلوبايت");
    reveal_strlit("التوقيع السحري غير صحيح");
    reveal_strlit("عدد التوقيعات يتجاوز الحد المسموح (3)");
    reveal_strlit("حجم الذاكرة لا يتطابق مع عدد التوقيعات");
    reveal_strlit("العهد الزمني منتهي الصلاحية");
    reveal_strlit("مؤشر الذاكرة غير محاذٍ لحافة 8-بايت");
    if e1 != e2 && e1.spec_message()@ == e2.spec_message()@ {
        assert(e1.spec_message()@.len() == e2.spec_message()@.len());
        assert(e1.spec_message()@[0] == e2.spec_message()@[0]);
        assert(e1.spec_message()@[1] == e2.spec_message()@[1]);
        assert(e1.spec_message()@[4] == e2.spec_message()@[4]);
    }
}

/// The epoch window is exactly the set of epochs at distance at most `drift`
/// from `current`: a drift of 0 accepts only `current` itself, and widening
/// the drift never rejects an epoch that was accepted.
pub proof fn lemma_epoch_window_by_distance(epoch: u64, current: u64, drift: u64, wider: u64)
    ensures
        epoch_in_window(epoch, current, drift) <==> (if epoch >= current {
            epoch - current
        } else {
            current - epoch
        }) <= drift,
        epoch_in_window(epoch, current, 0) <==> epoch == current,
        drift <= wider && epoch_in_window(epoch, current, drift) ==> epoch_in_window(
            epoch,
            current,
            wider,
        ),
{
}

/// Which refusal a buffer gets, in terms of its length `len`, its address, its
/// magic number `magic` (the first four bytes, little-endian) and its declared
/// endorsement count `count` (the four bytes at offset 2560): too short below
/// 2568 bytes; then misaligned unless the address is a multiple of 8; then a
/// bad magic unless it is 0x53494231; then too many endorsements above 3; then
/// too large above 12495 bytes; then a size mismatch unless
/// `len == 2568 + 3309 * count`; and otherwise accepted.
pub proof fn lemma_parse_refusals(b: Seq<u8>, address: usize)
    ensures
        ({
            let len = b.len();
            let magic = spec_u32_from_le_bytes(b.subrange(0, 4));
            let count = spec_u32_from_le_bytes(b.subrange(2560, 2564));
            &&& len < 2568 ==> parse_error(b, address) == Some(ValidationError::BufferTooSmall)
            &&& len >= 2568 && address % 8 != 0 ==> parse_error(b, address) == Some(
                ValidationError::UnalignedPointer,
            )
            &&& len >= 2568 && address % 8 == 0 && magic != 0x5349_4231u32 ==> parse_error(b, address)
                == Some(ValidationError::BadMagic)
            &&& len >= 2568 && address % 8 == 0 && magic == 0x5349_4231u32 && count > 3
                ==> parse_error(b, address) == Some(ValidationError::TooManySignatures)
            &&& len > 12495 && address % 8 == 0 && magic == 0x5349_4231u32 && count <= 3
                ==> parse_error(b, address) == Some(ValidationError::BufferTooLarge)
            &&& 2568 <= len <= 12495 && address % 8 == 0 && magic == 0x5349_4231u32 && count <= 3
                ==> (parse_error(b, address) is None <==> len == 2568 + 3309 * count)
            &&& 2568 <= len <= 12495 && address % 8 == 0 && magic == 0x5349_4231u32 && count <= 3
                && len != 2568 + 3309 * count ==> parse_error(b, address) == Some(
                ValidationError::SizeMismatch,
            )
        }),
{
}

} // verus!
