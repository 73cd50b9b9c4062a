//! Byzantine consensus engine: collects proof envelopes from several nodes and
//! decides whether a dynamic M-of-N quorum of them is valid.
use vstd::prelude::*;

use crate::{epoch_in_window, ProofEnvelope, ValidationError, SIB_MAGIC_NUMBER};

verus! {

/// Smallest number of nodes that can form a consensus.
pub const MIN_CONSENSUS_NODES: usize = 3;

/// Largest number of nodes.
pub const MAX_CONSENSUS_NODES: usize = 11;

/// Default quorum M (of N = 5).
pub const DEFAULT_QUORUM_M: usize = 3;

/// Default number of nodes N.
pub const DEFAULT_QUORUM_N: usize = 5;

/// Default tolerance, in epochs, on an envelope's epoch.
pub const DEFAULT_EPOCH_TOLERANCE: u64 = 10;

/// Refusal of a policy whose quorum exceeds its number of nodes.
pub const ERR_M_EXCEEDS_N: &'static str = "M يجب أن يكون أقل من أو يساوي N";

/// Refusal of a policy with fewer than three nodes.
pub const ERR_N_TOO_SMALL: &'static str = "N يجب أن يكون على الأقل 3";

/// Refusal of a policy with more than eleven nodes.
pub const ERR_N_TOO_LARGE: &'static str = "N لا يمكن أن يتجاوز 11";

/// Refusal of a policy whose quorum is below the Byzantine threshold `(2N + 1) / 3`.
pub const ERR_QUORUM_BELOW_BFT: &'static str = "M يجب أن يكون على الأقل (2N + 1) / 3 لضمان تحمل الأعطال البيزنطية";

/// Refusal of an envelope when the engine already holds N of them.
pub const ERR_ENGINE_FULL: &'static str = "تم الوصول إلى الحد الأقصى من الحاويات";

/// Refusal to aggregate an empty batch.
pub const ERR_NO_ENVELOPES: &'static str = "لم تتم إضافة أي حاويات";

/// A dynamic M-of-N consensus policy.
#[derive(Debug, Clone, Copy, PartialEq, Eq, Structural)]
pub struct ConsensusPolicy {
    /// Number of valid envelopes required for consensus.
    pub m: usize,
    /// Total number of nodes.
    pub n: usize,
    /// Accepted distance, in epochs, between an envelope's epoch and the current one.
    pub epoch_tolerance: u64,
}

/// The Byzantine fault-tolerance threshold for `n` nodes: `(2n + 1) / 3`.
pub open spec fn bft_threshold(n: usize) -> int {
    (2 * n + 1) / 3
}

impl ConsensusPolicy {
    /// A new policy, provided that `m <= n`, `3 <= n <= 11`, and the quorum
    /// tolerates Byzantine faults: `m` is at least the threshold `(2n + 1) / 3`
    /// (a quorum equal to the threshold is accepted as the weaker option).
    pub fn new(m: usize, n: usize, epoch_tolerance: u64) -> (r: Result<Self, &'static str>)
        ensures
            m > n ==> r == Err::<Self, &'static str>(ERR_M_EXCEEDS_N),
            m <= n && n < MIN_CONSENSUS_NODES ==> r == Err::<Self, &'static str>(ERR_N_TOO_SMALL),
            m <= n && n > MAX_CONSENSUS_NODES ==> r == Err::<Self, &'static str>(ERR_N_TOO_LARGE),
            m <= n && MIN_CONSENSUS_NODES <= n <= MAX_CONSENSUS_NODES && m < bft_threshold(n) ==> r
                == Err::<Self, &'static str>(ERR_QUORUM_BELOW_BFT),
            m <= n && MIN_CONSENSUS_NODES <= n <= MAX_CONSENSUS_NODES && m >= bft_threshold(n) ==> r == Ok::<
                Self,
                &'static str,
            >((ConsensusPolicy { m, n, epoch_tolerance })),
            m <= n && MIN_CONSENSUS_NODES <= n <= MAX_CONSENSUS_NODES && 3 * m + 1 >= 2 * n ==> r
                == Ok::<Self, &'static str>((ConsensusPolicy { m, n, epoch_tolerance })),
            m <= n && MIN_CONSENSUS_NODES <= n <= MAX_CONSENSUS_NODES && 3 * m + 1 < 2 * n ==> r
                == Err::<Self, &'static str>(ERR_QUORUM_BELOW_BFT),
    {
        if m > n {
            return Err(ERR_M_EXCEEDS_N);
        }
        if n < MIN_CONSENSUS_NODES {
            return Err(ERR_N_TOO_SMALL);
        }
        if n > MAX_CONSENSUS_NODES {
            return Err(ERR_N_TOO_LARGE);
        }
        let threshold = (2 * n + 1) / 3;
        if m < threshold {
            return Err(ERR_QUORUM_BELOW_BFT);
        }
        Ok(ConsensusPolicy { m, n, epoch_tolerance })
    }

    /// The default policy: 3 of 5, with a tolerance of 10 epochs.
    pub fn default() -> (r: Self)
        ensures
            r == (ConsensusPolicy {
                m: DEFAULT_QUORUM_M,
                n: DEFAULT_QUORUM_N,
                epoch_tolerance: DEFAULT_EPOCH_TOLERANCE,
            }),
    {
        ConsensusPolicy {
            m: DEFAULT_QUORUM_M,
            n: DEFAULT_QUORUM_N,
            epoch_tolerance: DEFAULT_EPOCH_TOLERANCE,
        }
    }

    /// Whether `valid_count` valid envelopes reach the quorum.
    pub fn is_quorum_met(&self, valid_count: usize) -> (r: bool)
        ensures
            r == (valid_count >= self.m),
    {
        valid_count >= self.m
    }
}

/// The outcome of aggregating a batch of envelopes.
#[derive(Debug, Clone, Copy, PartialEq, Eq)]
pub struct AggregatedBatchProof {
    /// Whether the quorum was reached.
    pub consensus_reached: bool,
    /// Number of valid envelopes.
    pub valid_count: u32,
    /// Number of valid envelopes that was required.
    pub required_count: u32,
    /// Rotating XOR of the envelopes' model hashes.
    pub aggregated_hash: [u8; 32],
    /// Timestamp of the consensus, in nanoseconds.
    pub consensus_timestamp_ns: u64,
    /// Epoch against which the envelopes were checked.
    pub consensus_epoch: u64,
    /// Number of participating nodes.
    pub node_count: u8,
    /// Reserved for future use (all zero).
    pub _reserved: [u8; 23],
}

/// The ASCII character of the lowercase hexadecimal digit `n` (below 16).
pub open spec fn hex_digit(n: u8) -> u8 {
    if n < 10 {
        (48 + n) as u8
    } else {
        (97 + n - 10) as u8
    }
}

/// The lowercase hexadecimal text of `s`, two characters per byte, high nibble first.
pub open spec fn hex_encode(s: Seq<u8>) -> Seq<u8> {
    Seq::new(
        2 * s.len(),
        |k: int|
            hex_digit(
                if k % 2 == 0 {
                    s[k / 2] / 16
                } else {
                    s[k / 2] % 16
                },
            ),
    )
}

/// The ASCII character of the hexadecimal digit `n`.
fn hex_char(n: u8) -> (c: u8)
    requires
        n < 16,
    ensures
        c == hex_digit(n),
{
    // 48 is ASCII '0', 97 is ASCII 'a'.
    match n {
        0..=9 => 48 + n,
        _ => 97 + (n - 10),
    }
}

impl AggregatedBatchProof {
    /// A new result with the given fields and a zeroed reserved area.
    pub fn new(
        consensus_reached: bool,
        valid_count: u32,
        required_count: u32,
        aggregated_hash: [u8; 32],
        consensus_timestamp_ns: u64,
        consensus_epoch: u64,
        node_count: u8,
    ) -> (r: Self)
        ensures
            r.consensus_reached == consensus_reached,
            r.valid_count == valid_count,
            r.required_count == required_count,
            r.aggregated_hash == aggregated_hash,
            r.consensus_timestamp_ns == consensus_timestamp_ns,
            r.consensus_epoch == consensus_epoch,
            r.node_count == node_count,
            r._reserved@ == Seq::new(23, |i: int| 0u8),
    {
        let r = AggregatedBatchProof {
            consensus_reached,
            valid_count,
            required_count,
            aggregated_hash,
            consensus_timestamp_ns,
            consensus_epoch,
            node_count,
            _reserved: [0u8; 23],
        };
        assert(r._reserved@ =~= Seq::new(23, |i: int| 0u8));
        r
    }

    /// The aggregated hash as 64 lowercase hexadecimal ASCII characters.
    pub fn hex_hash(&self) -> (hex: [u8; 64])
        ensures
            hex@ == hex_encode(self.aggregated_hash@),
    {
        let mut hex = [0u8; 64];
        for i in 0..32
            invariant
                hex@.len() == 64,
                forall|k: int| 0 <= k < 2 * i ==> hex@[k] == hex_encode(self.aggregated_hash@)[k],
        {
            let byte = self.aggregated_hash[i];
            let high = byte >> 4;
            let low = byte & 0xf;
            assert(high == byte / 16 && low == byte % 16) by (bit_vector)
                requires
                    high == byte >> 4,
                    low == byte & 0xf,
            ;
            hex[i * 2] = hex_char(high);
            hex[i * 2 + 1] = hex_char(low);
        }
        assert(hex@ =~= hex_encode(self.aggregated_hash@));
        hex
    }
}

/// Whether envelope `e` counts as valid at epoch `current_epoch` under tolerance
/// `tolerance`: its magic number is right and its epoch lies within the window.
pub open spec fn is_valid_member(e: ProofEnvelope, current_epoch: u64, tolerance: u64) -> bool {
    e.header.magic == SIB_MAGIC_NUMBER && epoch_in_window(
        e.header.epoch_id,
        current_epoch,
        tolerance,
    )
}

/// Number of envelopes of `envs` that count as valid.
pub open spec fn count_valid(envs: Seq<ProofEnvelope>, current_epoch: u64, tolerance: u64) -> nat
    decreases envs.len(),
{
    if envs.len() == 0 {
        0
    } else {
        count_valid(envs.drop_last(), current_epoch, tolerance) + if is_valid_member(
            envs.last(),
            current_epoch,
            tolerance,
        ) {
            1nat
        } else {
            0nat
        }
    }
}

/// `acc` with the first 32 bytes of `h`, rotated by `i` positions, XORed in:
/// byte `j` of `h` lands on position `(i + j) mod 32`.
pub open spec fn xor_rotated(acc: Seq<u8>, h: Seq<u8>, i: int) -> Seq<u8> {
    Seq::new(32, |idx: int| acc[idx] ^ h[(idx - i) % 32])
}

/// The aggregated hash of a batch: starting from 32 zero bytes, the model hash
/// of the `i`-th envelope is XORed in, rotated by `i` positions.
pub open spec fn aggregate_hash(envs: Seq<ProofEnvelope>) -> Seq<u8>
    decreases envs.len(),
{
    if envs.len() == 0 {
        Seq::new(32, |idx: int| 0u8)
    } else {
        xor_rotated(
            aggregate_hash(envs.drop_last()),
            envs.last().model_root_hash@,
            envs.len() - 1,
        )
    }
}

/// `p` is the result of aggregating `envs` under `policy` at epoch
/// `current_epoch` and time `timestamp_ns`.
pub open spec fn aggregates_to(
    p: AggregatedBatchProof,
    policy: ConsensusPolicy,
    envs: Seq<ProofEnvelope>,
    current_epoch: u64,
    timestamp_ns: u64,
) -> bool {
    &&& p.valid_count == count_valid(envs, current_epoch, policy.epoch_tolerance)
    &&& p.consensus_reached == (p.valid_count >= policy.m)
    &&& p.required_count == policy.m as u32
    &&& p.aggregated_hash@ == aggregate_hash(envs)
    &&& p.consensus_timestamp_ns == timestamp_ns
    &&& p.consensus_epoch == current_epoch
    &&& p.node_count == envs.len()
    &&& p._reserved@ == Seq::new(23, |i: int| 0u8)
}

/// The aggregation and Byzantine consensus engine. It holds the policy and up
/// to N envelopes of the current batch, in the order they were added.
pub struct AggregatorEngine {
    policy: ConsensusPolicy,
    envelopes: [Option<ProofEnvelope>; MAX_CONSENSUS_NODES],
    envelope_count: usize,
}

impl AggregatorEngine {
    #[verifier::type_invariant]
    spec fn well_formed(&self) -> bool {
        &&& self.envelope_count <= self.policy.n
        &&& self.envelope_count <= MAX_CONSENSUS_NODES
        &&& forall|i: int| 0 <= i < self.envelope_count ==> self.envelopes@[i] is Some
    }

    /// The engine's consensus policy.
    pub closed spec fn spec_policy(&self) -> ConsensusPolicy {
        self.policy
    }

    /// The envelopes of the current batch, in the order they were added.
    pub closed spec fn spec_envelopes(&self) -> Seq<ProofEnvelope> {
        Seq::new(self.envelope_count as nat, |i: int| self.envelopes@[i]->Some_0)
    }

    /// A new engine with the given policy and no envelopes.
    pub fn new(policy: ConsensusPolicy) -> (r: Self)
        ensures
            r.spec_policy() == policy,
            r.spec_envelopes() == Seq::<ProofEnvelope>::empty(),
    {
        let r = AggregatorEngine { policy, envelopes: [None; MAX_CONSENSUS_NODES], envelope_count: 0 };
        assert(r.spec_envelopes() =~= Seq::<ProofEnvelope>::empty());
        r
    }

    /// Adds an envelope to the batch; refused when the batch already holds N.
    pub fn add_envelope(&mut self, envelope: ProofEnvelope) -> (r: Result<(), &'static str>)
        requires
            old(self).spec_envelopes().len() < old(self).spec_policy().n ==> old(
                self,
            ).spec_envelopes().len() < MAX_CONSENSUS_NODES,
        ensures
            final(self).spec_policy() == old(self).spec_policy(),
            old(self).spec_envelopes().len() >= old(self).spec_policy().n ==> {
                &&& r == Err::<(), &'static str>(ERR_ENGINE_FULL)
                &&& final(self).spec_envelopes() == old(self).spec_envelopes()
            },
            old(self).spec_envelopes().len() < old(self).spec_policy().n ==> {
                &&& r == Ok::<(), &'static str>(())
                &&& final(self).spec_envelopes() == old(self).spec_envelopes().push(envelope)
            },
    {
        proof {
            use_type_invariant(&*self);
        }
        if self.envelope_count >= self.policy.n {
            return Err(ERR_ENGINE_FULL);
        }
        let ghost before = self.spec_envelopes();
        self.envelopes[self.envelope_count] = Some(envelope);
        self.envelope_count += 1;
        assert(self.spec_envelopes() =~= before.push(envelope));
        Ok(())
    }

    /// Checks an envelope's epoch against the policy's tolerance.
    #[allow(dead_code)]
    fn check_epoch_drift(&self, envelope: ProofEnvelope, current_epoch: u64) -> (r: Result<
        bool,
        ValidationError,
    >)
        ensures
            r == Ok::<bool, ValidationError>(
                epoch_in_window(envelope.header.epoch_id, current_epoch, self.policy.epoch_tolerance),
            ),
    {
        Ok(envelope.is_epoch_valid(current_epoch, self.policy.epoch_tolerance))
    }

    /// Forgets the batch, keeping the policy.
    pub fn reset(&mut self)
        ensures
            final(self).spec_policy() == old(self).spec_policy(),
            final(self).spec_envelopes() == Seq::<ProofEnvelope>::empty(),
    {
        self.envelope_count = 0;
        self.envelopes = [None; MAX_CONSENSUS_NODES];
        assert(self.spec_envelopes() =~= Seq::<ProofEnvelope>::empty());
    }

    /// Number of envelopes in the batch.
    pub fn envelope_count(&self) -> (r: usize)
        ensures
            r == self.spec_envelopes().len(),
            r <= self.spec_policy().n,
            r <= MAX_CONSENSUS_NODES,
    {
        proof {
            use_type_invariant(self);
        }
        self.envelope_count
    }

    /// The engine's policy.
    pub fn policy(&self) -> (r: ConsensusPolicy)
        ensures
            r == self.spec_policy(),
    {
        self.policy
    }

    /// The rotating XOR of the model hashes of the batch (see [`aggregate_hash`]).
    fn aggregate_proofs(&self) -> (r: [u8; 32])
        ensures
            r@ == aggregate_hash(self.spec_envelopes()),
    {
        proof {
            use_type_invariant(self);
        }
        let ghost envs = self.spec_envelopes();
        let mut result = [0u8; 32];
        assert(result@ =~= aggregate_hash(envs.take(0)));
        for i in 0..self.envelope_count
            invariant
                envs == self.spec_envelopes(),
                self.envelope_count <= MAX_CONSENSUS_NODES,
                forall|k: int| 0 <= k < self.envelope_count ==> self.envelopes@[k] is Some,
                result@ == aggregate_hash(envs.take(i as int)),
        {
            assert(envs.take(i + 1).drop_last() =~= envs.take(i as int));
            if let Some(envelope) = self.envelopes[i] {
                let ghost prev = result@;
                let ghost h = envelope.model_root_hash@;
                for j in 0..32
                    invariant
                        i < MAX_CONSENSUS_NODES,
                        result@.len() == 32,
                        h == envelope.model_root_hash@,
                        forall|idx: int|
                            0 <= idx < 32 ==> #[trigger] result@[idx] == if (idx - i) % 32 < j {
                                prev[idx] ^ h[(idx - i) % 32]
                            } else {
                                prev[idx]
                            },
                {
                    let idx = (i + j) % 32;
                    result[idx] = result[idx] ^ envelope.model_root_hash[j];
                }
                assert(result@ =~= xor_rotated(prev, h, i as int));
            }
        }
        assert(envs.take(self.envelope_count as int) =~= envs);
        result
    }

    /// Checks the batch against the policy at epoch `current_epoch` and
    /// produces the consensus result stamped with `timestamp_ns`; refused for
    /// an empty batch. An envelope counts as valid when its magic number is
    /// right and its epoch is within the policy's tolerance.
    pub fn aggregate(&self, current_epoch: u64, timestamp_ns: u64) -> (r: Result<
        AggregatedBatchProof,
        &'static str,
    >)
        ensures
            self.spec_envelopes().len() == 0 ==> r == Err::<AggregatedBatchProof, &'static str>(
                ERR_NO_ENVELOPES,
            ),
            self.spec_envelopes().len() > 0 ==> (r matches Ok(p) && aggregates_to(
                p,
                self.spec_policy(),
                self.spec_envelopes(),
                current_epoch,
                timestamp_ns,
            )),
            r matches Ok(p) ==> p.valid_count == count_valid(
                self.spec_envelopes(),
                current_epoch,
                self.spec_policy().epoch_tolerance,
            ) && p.consensus_reached == (p.valid_count >= self.spec_policy().m),
    {
        proof {
            use_type_invariant(self);
        }
        if self.envelope_count == 0 {
            return Err(ERR_NO_ENVELOPES);
        }
        let ghost envs = self.spec_envelopes();
        let tolerance = self.policy.epoch_tolerance;
        let mut valid_count = 0u32;
        for i in 0..self.envelope_count
            invariant
                envs == self.spec_envelopes(),
                tolerance == self.policy.epoch_tolerance,
                self.envelope_count <= MAX_CONSENSUS_NODES,
                forall|k: int| 0 <= k < self.envelope_count ==> self.envelopes@[k] is Some,
                valid_count == count_valid(envs.take(i as int), current_epoch, tolerance),
                valid_count <= i,
        {
            assert(envs.take(i + 1).drop_last() =~= envs.take(i as int));
            if let Some(envelope) = self.envelopes[i] {
                if envelope.header.magic == SIB_MAGIC_NUMBER && envelope.is_epoch_valid(
                    current_epoch,
                    tolerance,
                ) {
                    valid_count += 1;
                }
            }
        }
        assert(envs.take(self.envelope_count as int) =~= envs);
        let consensus_reached = self.policy.is_quorum_met(valid_count as usize);
        let aggregated_hash = self.aggregate_proofs();
        Ok(
            AggregatedBatchProof::new(
                consensus_reached,
                valid_count,
                self.policy.m as u32,
                aggregated_hash,
                timestamp_ns,
                current_epoch,
                self.envelope_count as u8,
            ),
        )
    }
}

/// No batch has more valid envelopes than envelopes.
pub proof fn lemma_count_valid_bounded(envs: Seq<ProofEnvelope>, current_epoch: u64, tolerance: u64)
    ensures
        count_valid(envs, current_epoch, tolerance) <= envs.len(),
    decreases envs.len(),
{
    if envs.len() > 0 {
        lemma_count_valid_bounded(envs.drop_last(), current_epoch, tolerance);
    }
}

/// When every envelope of a batch is valid, all of them are counted.
pub proof fn lemma_count_valid_all(envs: Seq<ProofEnvelope>, current_epoch: u64, tolerance: u64)
    requires
        forall|i: int| 0 <= i < envs.len() ==> is_valid_member(#[trigger] envs[i], current_epoch, tolerance),
    ensures
        count_valid(envs, current_epoch, tolerance) == envs.len(),
    decreases envs.len(),
{
    if envs.len() > 0 {
        let rest = envs.drop_last();
        assert forall|i: int| 0 <= i < rest.len() implies is_valid_member(
            #[trigger] rest[i],
            current_epoch,
            tolerance,
        ) by {
            assert(rest[i] == envs[i]);
        }
        lemma_count_valid_all(rest, current_epoch, tolerance);
        assert(is_valid_member(envs[envs.len() - 1], current_epoch, tolerance));
    }
}

/// Adding an envelope to a batch never undoes a consensus: if the batch
/// reached the quorum, the batch with one more envelope reaches it too, at the
/// same epoch and under the same policy.
pub proof fn lemma_consensus_survives_addition(
    policy: ConsensusPolicy,
    envs: Seq<ProofEnvelope>,
    e: ProofEnvelope,
    current_epoch: u64,
    timestamp_ns: u64,
    before: AggregatedBatchProof,
    after: AggregatedBatchProof,
)
    requires
        aggregates_to(before, policy, envs, current_epoch, timestamp_ns),
        aggregates_to(after, policy, envs.push(e), current_epoch, timestamp_ns),
        before.consensus_reached,
    ensures
        after.consensus_reached,
        after.valid_count >= before.valid_count,
{
    assert(envs.push(e).drop_last() =~= envs);
}

/// A batch of one envelope aggregates to the first 32 bytes of its model hash.
pub proof fn lemma_aggregate_hash_single(e: ProofEnvelope)
    ensures
        aggregate_hash(seq![e]) == e.model_root_hash@.take(32),
{
    let s = seq![e];
    assert(s.drop_last() =~= Seq::<ProofEnvelope>::empty());
    let zero = Seq::new(32, |idx: int| 0u8);
    assert forall|idx: int| 0 <= idx < 32 implies #[trigger] xor_rotated(zero, e.model_root_hash@, 0)[idx]
        == e.model_root_hash@[idx] by {
        let b = e.model_root_hash@[idx];
        assert(0u8 ^ b == b) by (bit_vector);
        assert((idx - 0) % 32 == idx);
    }
    assert(aggregate_hash(Seq::<ProofEnvelope>::empty()) == zero);
    assert(aggregate_hash(s) == xor_rotated(zero, e.model_root_hash@, 0));
    assert(aggregate_hash(s) =~= e.model_root_hash@.take(32));
}

/// Every character of a hexadecimal text is a digit `0`-`9` or a letter `a`-`f`.
pub proof fn lemma_hex_encode_digits(s: Seq<u8>, k: int)
    requires
        0 <= k < hex_encode(s).len(),
    ensures
        (48 <= hex_encode(s)[k] <= 57) || (97 <= hex_encode(s)[k] <= 102),
{
    let b = s[k / 2];
    assert(b / 16 < 16 && b % 16 < 16);
}

/// Distinct byte strings have distinct hexadecimal texts: the encoding loses nothing.
pub proof fn lemma_hex_encode_injective(a: Seq<u8>, b: Seq<u8>)
    requires
        hex_encode(a) == hex_encode(b),
    ensures
        a == b,
{
    assert(hex_encode(a).len() == 2 * a.len());
    assert(hex_encode(b).len() == 2 * b.len());
    assert(a.len() == b.len());
    assert forall|i: int| 0 <= i < a.len() implies a[i] == b[i] by {
        assert((2 * i) / 2 == i && (2 * i) % 2 == 0);
        assert((2 * i + 1) / 2 == i && (2 * i + 1) % 2 == 1);
        let x = a[i];
        let y = b[i];
        assert(hex_encode(a)[2 * i] == hex_digit(x / 16));
        assert(hex_encode(b)[2 * i] == hex_digit(y / 16));
        assert(hex_encode(a)[2 * i + 1] == hex_digit(x % 16));
        assert(hex_encode(b)[2 * i + 1] == hex_digit(y % 16));
        assert(x == 16 * (x / 16) + x % 16);
        assert(y == 16 * (y / 16) + y % 16);
    }
    assert(a =~= b);
}

/// The aggregated hash reads only the first 32 bytes of each model hash: two
/// batches of the same size whose envelopes agree, position by position, on
/// those bytes aggregate to the same hash, whatever else differs.
pub proof fn lemma_aggregate_hash_reads_first_32(a: Seq<ProofEnvelope>, b: Seq<ProofEnvelope>)
    requires
        a.len() == b.len(),
        forall|i: int|
            0 <= i < a.len() ==> (#[trigger] a[i]).model_root_hash@.take(32)
                == b[i].model_root_hash@.take(32),
    ensures
        aggregate_hash(a) == aggregate_hash(b),
    decreases a.len(),
{
    if a.len() > 0 {
        let (ra, rb) = (a.drop_last(), b.drop_last());
        assert forall|i: int| 0 <= i < ra.len() implies (#[trigger] ra[i]).model_root_hash@.take(32)
            == rb[i].model_root_hash@.take(32) by {
            assert(ra[i] == a[i] && rb[i] == b[i]);
        }
        lemma_aggregate_hash_reads_first_32(ra, rb);
        let ha = a.last().model_root_hash@;
        let hb = b.last().model_root_hash@;
        let k = a.len() - 1;
        assert(ha.take(32) == hb.take(32));
        let (xa, xb) = (xor_rotated(aggregate_hash(ra), ha, k), xor_rotated(aggregate_hash(rb), hb, k));
        assert forall|idx: int| 0 <= idx < 32 implies #[trigger] xa[idx] == xb[idx] by {
            let j = (idx - k) % 32;
            assert(ha.take(32)[j] == hb.take(32)[j]);
        }
        assert(xor_rotated(aggregate_hash(ra), ha, k) =~= xor_rotated(aggregate_hash(rb), hb, k));
    }
}

/// A quorum `m` of `n` nodes passes the Byzantine threshold exactly when
/// `3m + 1 >= 2n`, i.e. `m >= floor((2n + 1) / 3)`; in particular every `m`
/// with `3m > 2n` passes, and the threshold never decreases as `n` grows.
pub proof fn lemma_bft_threshold_exact(m: usize, n: usize, larger: usize)
    ensures
        (m >= bft_threshold(n)) <==> (3 * m + 1 >= 2 * n),
        3 * m > 2 * n ==> m >= bft_threshold(n),
        n <= larger ==> bft_threshold(n) <= bft_threshold(larger),
{
}

/// An envelope counts as valid exactly when its magic number is "SIB1" and its
/// epoch is at most `tolerance` epochs away from `current_epoch`.
pub proof fn lemma_valid_member_exact(e: ProofEnvelope, current_epoch: u64, tolerance: u64)
    ensures
        is_valid_member(e, current_epoch, tolerance) <==> (e.header.magic == 0x5349_4231u32
            && current_epoch - tolerance <= e.header.epoch_id && e.header.epoch_id <= current_epoch
            + tolerance),
{
}

/// The valid count of a batch: zero for an empty batch, and adding one
/// envelope raises it by one exactly when that envelope has the right magic
/// number and an epoch within `tolerance` of `current_epoch`.
pub proof fn lemma_count_valid_step(
    envs: Seq<ProofEnvelope>,
    e: ProofEnvelope,
    current_epoch: u64,
    tolerance: u64,
)
    ensures
        count_valid(Seq::<ProofEnvelope>::empty(), current_epoch, tolerance) == 0,
        count_valid(envs.push(e), current_epoch, tolerance) == count_valid(
            envs,
            current_epoch,
            tolerance,
        ) + if e.header.magic == 0x5349_4231u32 && current_epoch - tolerance <= e.header.epoch_id
            && e.header.epoch_id <= current_epoch + tolerance {
            1int
        } else {
            0int
        },
{
    assert(envs.push(e).drop_last() =~= envs);
}

/// No envelope whose epoch is more than `tolerance` epochs from
/// `current_epoch` is ever counted: a batch of such envelopes counts zero.
pub proof fn lemma_far_envelopes_not_counted(
    envs: Seq<ProofEnvelope>,
    current_epoch: u64,
    tolerance: u64,
)
    requires
        forall|i: int|
            0 <= i < envs.len() ==> (#[trigger] envs[i]).header.epoch_id + tolerance < current_epoch
                || envs[i].header.epoch_id > current_epoch + tolerance,
    ensures
        count_valid(envs, current_epoch, tolerance) == 0,
    decreases envs.len(),
{
    if envs.len() > 0 {
        let rest = envs.drop_last();
        assert forall|i: int| 0 <= i < rest.len() implies (#[trigger] rest[i]).header.epoch_id
            + tolerance < current_epoch || rest[i].header.epoch_id > current_epoch + tolerance by {
            assert(rest[i] == envs[i]);
        }
        lemma_far_envelopes_not_counted(rest, current_epoch, tolerance);
        assert(envs.last() == envs[envs.len() - 1]);
    }
}

/// A wider tolerance never lowers the valid count.
pub proof fn lemma_count_valid_monotone_in_tolerance(
    envs: Seq<ProofEnvelope>,
    current_epoch: u64,
    tolerance: u64,
    wider: u64,
)
    requires
        tolerance <= wider,
    ensures
        count_valid(envs, current_epoch, tolerance) <= count_valid(envs, current_epoch, wider),
    decreases envs.len(),
{
    if envs.len() > 0 {
        lemma_count_valid_monotone_in_tolerance(envs.drop_last(), current_epoch, tolerance, wider);
    }
}

/// Each hexadecimal character is the standard lowercase digit of its nibble,
/// taken from the table "0123456789abcdef": the high nibble of byte `i` at
/// position `2i`, the low nibble at `2i + 1`.
pub proof fn lemma_hex_encode_table(s: Seq<u8>, i: int)
    requires
        0 <= i < s.len(),
    ensures
        ({
            let table: Seq<u8> = seq![48u8, 49, 50, 51, 52, 53, 54, 55, 56, 57, 97, 98, 99, 100, 101, 102];
            &&& hex_encode(s).len() == 2 * s.len()
            &&& hex_encode(s)[2 * i] == table[(s[i] / 16) as int]
            &&& hex_encode(s)[2 * i + 1] == table[(s[i] % 16) as int]
        }),
{
    let table: Seq<u8> = seq![48u8, 49, 50, 51, 52, 53, 54, 55, 56, 57, 97, 98, 99, 100, 101, 102];
    assert((2 * i) / 2 == i && (2 * i) % 2 == 0);
    assert((2 * i + 1) / 2 == i && (2 * i + 1) % 2 == 1);
    let hi = s[i] / 16;
    let lo = s[i] % 16;
    assert(hex_digit(hi) == table[hi as int]);
    assert(hex_digit(lo) == table[lo as int]);
}

/// Hexadecimal digits grow with their value: larger nibbles give larger characters.
pub proof fn lemma_hex_digit_increasing(a: u8, b: u8)
    requires
        a < b < 16,
    ensures
        hex_digit(a) < hex_digit(b),
{
}

/// How the aggregated hash is built: an empty batch gives 32 zero bytes, and
/// appending the `k`-th envelope (counting from 0) XORs byte `j` of its model
/// hash, for `j < 32`, into position `(k + j) mod 32`.
pub proof fn lemma_aggregate_hash_step(envs: Seq<ProofEnvelope>, e: ProofEnvelope, j: int)
    requires
        0 <= j < 32,
    ensures
        aggregate_hash(Seq::<ProofEnvelope>::empty()) == Seq::new(32, |idx: int| 0u8),
        aggregate_hash(envs.push(e)).len() == 32,
        aggregate_hash(envs.push(e))[(envs.len() + j) % 32] == aggregate_hash(envs)[(envs.len()
            + j) % 32] ^ e.model_root_hash@[j],
{
    assert(envs.push(e).drop_last() =~= envs);
    let k = envs.len() as int;
    let p = (k + j) % 32;
    assert((p - k) % 32 == j);
}

} // verus!
