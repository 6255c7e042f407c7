//! The data model: records, keys, parameters, and the field configuration.

use vstd::prelude::*;
use vstd::arithmetic::power2::{pow2, lemma2_to64, lemma_pow2_adds};
use crate::field::{field_inv, invertible};

verus! {

/// Why circuit construction failed.
///
/// A value mismatch never fails construction — it only leaves the built
/// system unsatisfiable. Construction itself fails only when a required
/// witness value cannot be produced (`AssignmentMissing`), or when the
/// bit-width assumptions of the field configuration do not hold
/// (`AssumptionViolation`), which is checked before any allocation.
#[derive(Clone, Copy, PartialEq, Eq, Structural, Debug)]
pub enum SynthesisError {
    AssignmentMissing,
    AssumptionViolation,
}

/// A ledger record.
///
/// `commitment` is the declared record commitment over the remaining fields;
/// the circuit recomputes and checks it.
#[derive(Clone, Debug)]
pub struct Record {
    pub owner: Vec<u8>,
    pub is_dummy: bool,
    pub value: u64,
    pub payload: Vec<u8>,
    pub birth_predicate_id: Vec<u8>,
    pub death_predicate_id: Vec<u8>,
    pub serial_number_nonce: Vec<u8>,
    pub commitment_randomness: Vec<u8>,
    pub commitment: Vec<u8>,
}

/// The spender's account private key: the signature-key seed, the secret
/// key of the pseudorandom function, and the account-commitment randomness.
#[derive(Clone, Debug)]
pub struct AccountPrivateKey {
    pub seed: Vec<u8>,
    pub sk_prf: Vec<u8>,
    pub r_pk: Vec<u8>,
}

/// A Merkle membership witness: sibling digests from the leaf to the root,
/// with the position of the claimed node at each level (`true` when it is
/// the right child).
#[derive(Clone, Debug)]
pub struct MerklePath {
    pub siblings: Vec<Vec<u8>>,
    pub positions: Vec<bool>,
}

/// The parameter bytes of every scheme the circuit consumes, shared by
/// reference and never mutated.
#[derive(Clone, Debug)]
pub struct CircuitParameters {
    pub account_commitment: Vec<u8>,
    pub account_encryption: Vec<u8>,
    pub account_signature: Vec<u8>,
    pub record_commitment: Vec<u8>,
    pub record_ciphertext_crh: Vec<u8>,
    pub predicate_verification_key_commitment: Vec<u8>,
    pub local_data_crh: Vec<u8>,
    pub local_data_commitment: Vec<u8>,
    pub serial_number_nonce: Vec<u8>,
    pub value_commitment: Vec<u8>,
}

/// A point of the encryption curve's encoding, as a pair of base-field
/// coordinates.
#[derive(Clone, Copy, PartialEq, Eq, Structural, Debug)]
pub struct FpPair {
    pub x: u128,
    pub y: u128,
}

/// The ciphertext selector bits and the field-encoding ("fq high") selector
/// bits of one output record.
#[derive(Clone, Debug)]
pub struct SelectorBits {
    pub ciphertext: Vec<bool>,
    pub fq_high: Vec<bool>,
}

/// The field and curve configuration of the circuit.
///
/// `base_field_bits` is the bit width of the circuit's native field, tied to
/// `modulus` by [`assumptions_ok`]; `scalar_field_bits` and
/// `outer_field_bits` are the widths the packing assumptions speak of. The
/// Montgomery coefficients and the twisted-Edwards coefficient of the
/// encryption curve are given as residues of the native field.
#[derive(Clone, Copy, Debug)]
pub struct CircuitConfig {
    pub modulus: u128,
    pub base_field_bits: usize,
    pub scalar_field_bits: usize,
    pub outer_field_bits: usize,
    pub mont_a: u128,
    pub mont_b: u128,
    pub te_d: u128,
}

impl CircuitConfig {
    /// The standard unit for packing bits into data storage: one bit less
    /// than the field width.
    pub open spec fn data_bits(self) -> nat {
        (self.base_field_bits - 1) as nat
    }

    /// The payload packing unit: one more bit is reserved for the non-zero
    /// sentinel.
    pub open spec fn payload_bits(self) -> nat {
        (self.base_field_bits - 2) as nat
    }

    /// The length of a field element's byte serialization.
    pub open spec fn byte_len(self) -> nat {
        ((self.base_field_bits + 7) / 8) as nat
    }
}

/// The bit-width and curve assumptions the packing scheme rests on, checked
/// once before any allocation:
/// the modulus has exactly `base_field_bits` bits; the scalar field is
/// strictly narrower than the base field; the outer field exceeds the data
/// width by at most the data width, and the two outer-field remainders fit
/// in one data unit together; the curve coefficients are residues and the
/// Montgomery `b` coefficient is invertible.
pub open spec fn assumptions_ok(cfg: CircuitConfig) -> bool {
    &&& 1 < cfg.modulus
    &&& 4 <= cfg.base_field_bits <= 128
    &&& pow2((cfg.base_field_bits - 1) as nat) <= cfg.modulus as nat
    &&& (cfg.modulus as nat) < pow2(cfg.base_field_bits as nat)
    &&& cfg.scalar_field_bits < cfg.base_field_bits
    &&& cfg.base_field_bits - 1 <= cfg.outer_field_bits
    &&& cfg.outer_field_bits - (cfg.base_field_bits - 1) <= cfg.base_field_bits - 1
    &&& 2 * (cfg.outer_field_bits - (cfg.base_field_bits - 1)) <= cfg.base_field_bits - 1
    &&& cfg.mont_a < cfg.modulus
    &&& cfg.mont_b < cfg.modulus
    &&& cfg.te_d < cfg.modulus
    &&& invertible(cfg.modulus, cfg.mont_b)
}

/// Two raised to `n`, for exponents that fit a 128-bit value.
pub fn pow2_u128(n: usize) -> (r: u128)
    requires
        n <= 127,
    ensures
        r as nat == pow2(n as nat),
{
    let mut r: u128 = 1;
    let mut k: usize = 0;
    proof {
        lemma2_to64();
    }
    while k < n
        invariant
            k <= n,
            n <= 127,
            r as nat == pow2(k as nat),
        decreases n - k,
    {
        proof {
            lemma_pow2_adds(k as nat, 1);
            lemma2_to64();
            assert(pow2((k + 1) as nat) == 2 * pow2(k as nat));
            assert(pow2((k + 1) as nat) <= pow2(127)) by {
                if k + 1 < 127 {
                    vstd::arithmetic::power2::lemma_pow2_strictly_increases((k + 1) as nat, 127);
                }
            }
            assert(pow2(127) == pow2(63) * pow2(64)) by {
                lemma_pow2_adds(63, 64);
            }
            vstd::arithmetic::power2::lemma2_to64_rest();
        }
        r = r * 2;
        k += 1;
    }
    r
}

/// Decides [`assumptions_ok`].
pub fn check_assumptions(cfg: &CircuitConfig) -> (r: bool)
    ensures
        r == assumptions_ok(*cfg),
{
    if !(1 < cfg.modulus) {
        return false;
    }
    if !(4 <= cfg.base_field_bits && cfg.base_field_bits <= 128) {
        return false;
    }
    let lo = pow2_u128(cfg.base_field_bits - 1);
    if !(lo as u128 <= cfg.modulus) {
        return false;
    }
    if cfg.base_field_bits < 128 {
        let hi = pow2_u128(cfg.base_field_bits);
        if !(cfg.modulus < hi) {
            return false;
        }
    } else {
        proof {
            lemma2_to64();
            lemma_pow2_adds(64, 64);
            assert((cfg.modulus as nat) < pow2(128));
        }
    }
    if !(cfg.scalar_field_bits < cfg.base_field_bits) {
        return false;
    }
    let data = cfg.base_field_bits - 1;
    if !(data <= cfg.outer_field_bits) {
        return false;
    }
    let rem = cfg.outer_field_bits - data;
    if !(rem <= data) {
        return false;
    }
    if !(rem + rem <= data) {
        return false;
    }
    if !(cfg.mont_a < cfg.modulus && cfg.mont_b < cfg.modulus && cfg.te_d < cfg.modulus) {
        return false;
    }
    match field_inv(cfg.modulus, cfg.mont_b) {
        Some(_) => true,
        None => false,
    }
}

/// All the secret and public values one circuit construction consumes,
/// beside the scheme parameters, the ledger parameters and the ledger
/// digest.
#[derive(Clone, Debug)]
pub struct TransactionAssignment {
    pub old_records: Vec<Record>,
    pub old_witnesses: Vec<MerklePath>,
    pub old_account_private_keys: Vec<AccountPrivateKey>,
    pub old_serial_numbers: Vec<Vec<u8>>,
    pub new_records: Vec<Record>,
    pub new_sn_nonce_randomness: Vec<Vec<u8>>,
    pub new_commitments: Vec<Vec<u8>>,
    pub new_records_field_elements: Vec<Vec<u128>>,
    pub new_records_group_encoding: Vec<Vec<FpPair>>,
    pub new_records_encryption_randomness: Vec<Vec<u8>>,
    pub new_records_encryption_blinding_exponents: Vec<Vec<Vec<u8>>>,
    pub new_records_ciphertext_and_fq_high_selectors: Vec<SelectorBits>,
    pub new_records_ciphertext_hashes: Vec<Vec<u8>>,
    pub predicate_commitment: Vec<u8>,
    pub predicate_randomness: Vec<u8>,
    pub local_data_commitment: Vec<u8>,
    pub local_data_commitment_randomizers: Vec<Vec<u8>>,
    pub memo: Vec<u8>,
    pub input_value_commitments: Vec<Vec<u8>>,
    pub input_value_commitment_randomness: Vec<Vec<u8>>,
    pub output_value_commitments: Vec<Vec<u8>>,
    pub output_value_commitment_randomness: Vec<Vec<u8>>,
    pub value_balance: i64,
    pub binding_signature: Vec<u8>,
    pub network_id: u8,
}

/// Shape conditions under which circuit construction cannot index out of
/// bounds: the per-record sequences agree with the record counts, every
/// output record carries at least the five fixed field elements with one
/// group-encoding point each, at least one field-encoding selector bit, and
/// predicate identifiers wide enough for the packing; the memo is 32 bytes;
/// the record index fits one byte; field elements and coordinates are
/// residues; and the value balance has a 64-bit magnitude.
pub open spec fn assignment_wf(cfg: CircuitConfig, t: TransactionAssignment) -> bool {
    let n_in = t.old_records@.len();
    let n_out = t.new_records@.len();
    &&& t.old_witnesses@.len() == n_in
    &&& t.old_account_private_keys@.len() == n_in
    &&& t.old_serial_numbers@.len() == n_in
    &&& t.input_value_commitments@.len() == n_in
    &&& t.input_value_commitment_randomness@.len() == n_in
    &&& t.new_sn_nonce_randomness@.len() == n_out
    &&& t.new_commitments@.len() == n_out
    &&& t.new_records_field_elements@.len() == n_out
    &&& t.new_records_group_encoding@.len() == n_out
    &&& t.new_records_encryption_randomness@.len() == n_out
    &&& t.new_records_encryption_blinding_exponents@.len() == n_out
    &&& t.new_records_ciphertext_and_fq_high_selectors@.len() == n_out
    &&& t.new_records_ciphertext_hashes@.len() == n_out
    &&& t.output_value_commitments@.len() == n_out
    &&& t.output_value_commitment_randomness@.len() == n_out
    &&& t.local_data_commitment_randomizers@.len() == n_in + n_out
    &&& n_out <= 255
    &&& t.memo@.len() == 32
    &&& t.value_balance != i64::MIN
    &&& forall|j: int| 0 <= j < n_out ==> #[trigger] output_shape_ok(cfg, t, j)
}

/// Shape conditions of one output record: the fixed field elements are all
/// present with one group-encoding point each and all coordinates are
/// residues, there is at least one field-encoding selector bit, the selector
/// strings leave room for the packing arithmetic, and the predicate
/// identifiers are at least as wide as the outer field.
pub open spec fn output_shape_ok(cfg: CircuitConfig, t: TransactionAssignment, j: int) -> bool {
    &&& t.new_records_ciphertext_and_fq_high_selectors@[j].fq_high@.len() >= 1
    &&& t.new_records_ciphertext_and_fq_high_selectors@[j].fq_high@.len() + 64
        + cfg.base_field_bits < usize::MAX
    &&& t.new_records_ciphertext_and_fq_high_selectors@[j].ciphertext@.len() < usize::MAX - 9
    &&& t.new_records_field_elements@[j]@.len() >= 5
    &&& t.new_records_group_encoding@[j]@.len() == t.new_records_field_elements@[j]@.len()
    &&& t.new_records@[j].birth_predicate_id@.len() * 8 >= cfg.outer_field_bits
    &&& t.new_records@[j].death_predicate_id@.len() * 8 >= cfg.outer_field_bits
    &&& forall|k: int|
        0 <= k < t.new_records_field_elements@[j]@.len() ==> {
            &&& (#[trigger] t.new_records_field_elements@[j]@[k]) < cfg.modulus
            &&& t.new_records_group_encoding@[j]@[k].x < cfg.modulus
            &&& t.new_records_group_encoding@[j]@[k].y < cfg.modulus
        }
}

} // verus!
