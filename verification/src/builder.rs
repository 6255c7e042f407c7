//! The inner transaction-validity circuit builder.
//!
//! [`execute_inner_proof_gadget`] allocates the public inputs in the fixed
//! protocol order and emits every constraint of the transaction-validity
//! relation. Its contract states exactly which public inputs are allocated,
//! that the built system is satisfied precisely when the transaction is
//! valid ([`circuit_valid`]), and on which inputs construction itself fails
//! ([`circuit_error`], plus the up-front bit-width assumption check).

use vstd::prelude::*;
use crate::bits::{
    bits_eq, bits_subrange, bits_to_bytes, bytes_eq, bytes_to_bits, extend_bytes,
    spec_bits_to_bytes, spec_bytes_to_bits, spec_fe_le_bytes, u64_le_seq, u64_to_le_bytes,
    fe_to_le_bytes,
};
use crate::cs::{ConstraintKind, ConstraintSystem, InputCategory, PublicInputModel};
use crate::data::{
    assumptions_ok, assignment_wf, check_assumptions, AccountPrivateKey, CircuitConfig,
    CircuitParameters, FpPair, MerklePath, Record, SelectorBits, SynthesisError,
    TransactionAssignment,
};
use crate::field::{fadd, field_add, field_inv, field_mul, field_neg, finv, fmul, fneg, invertible};
use crate::packing::spec_record_elements;
use crate::schemes::SchemeSuite;

verus! {

/// The bytes of an option, or the empty string when there are none.
pub open spec fn some_bytes(o: Option<Seq<u8>>) -> Seq<u8> {
    match o {
        Some(s) => s,
        None => Seq::empty(),
    }
}

/// A boolean as its one-byte serialization.
pub open spec fn bool_byte(b: bool) -> Seq<u8> {
    seq![if b { 1u8 } else { 0u8 }]
}

/// The magnitude of the declared value balance.
pub open spec fn vb_magnitude(vb: i64) -> u64 {
    if vb >= 0 {
        vb as u64
    } else {
        (-(vb as int)) as u64
    }
}

/// The byte string a record commitment is computed over: owner, dummy flag,
/// value, payload, both predicate identifiers, and the serial-number nonce.
pub open spec fn record_commitment_input(r: Record) -> Seq<u8> {
    r.owner@ + bool_byte(r.is_dummy) + u64_le_seq(r.value) + r.payload@ + r.birth_predicate_id@
        + r.death_predicate_id@ + r.serial_number_nonce@
}

/// The signature public key derived from an account key.
pub open spec fn spec_pk_sig<S: SchemeSuite>(s: S, cp: CircuitParameters, k: AccountPrivateKey) -> Seq<u8> {
    some_bytes(s.derive_signature_public_key_model(cp.account_signature@, k.seed@))
}

/// The account view key derived from an account key.
pub open spec fn spec_view_key<S: SchemeSuite>(s: S, cp: CircuitParameters, k: AccountPrivateKey) -> Seq<u8> {
    some_bytes(
        s.derive_decryption_key_model(
            cp.account_signature@,
            cp.account_commitment@,
            k.seed@,
            k.sk_prf@,
            k.r_pk@,
        ),
    )
}

/// The serial number the circuit derives for an input record: the signature
/// public key randomized by the pseudorandom function's output on the
/// record's serial-number nonce.
pub open spec fn candidate_serial_number<S: SchemeSuite>(
    s: S,
    cp: CircuitParameters,
    r: Record,
    k: AccountPrivateKey,
) -> Seq<u8> {
    s.randomize_public_key_model(
        cp.account_signature@,
        spec_pk_sig(s, cp, k),
        s.prf_model(k.sk_prf@, r.serial_number_nonce@),
    )
}

/// Whether one input record's native key derivations fail, which aborts
/// construction.
pub open spec fn input_record_error<S: SchemeSuite>(
    s: S,
    cp: CircuitParameters,
    k: AccountPrivateKey,
) -> bool {
    ||| s.derive_signature_public_key_model(cp.account_signature@, k.seed@) is None
    ||| s.derive_decryption_key_model(
        cp.account_signature@,
        cp.account_commitment@,
        k.seed@,
        k.sk_prf@,
        k.r_pk@,
    ) is None
}

/// The conjunction of the checks emitted for one input record: conditional
/// ledger membership, key-pair consistency (view key and owner), serial
/// number derivation, the value commitment, and record well-formedness.
pub open spec fn input_record_checks<S: SchemeSuite>(
    s: S,
    cp: CircuitParameters,
    ledger_parameters: Seq<u8>,
    digest: Seq<u8>,
    r: Record,
    w: MerklePath,
    k: AccountPrivateKey,
    declared_serial_number: Seq<u8>,
    vc_randomness: Seq<u8>,
    declared_vc: Seq<u8>,
) -> bool {
    let pk_sig = spec_pk_sig(s, cp, k);
    let view_key = spec_view_key(s, cp, k);
    &&& (!r.is_dummy ==> s.merkle_path_valid_model(ledger_parameters, r.commitment@, w, digest))
    &&& s.account_commit_model(cp.account_commitment@, pk_sig + k.sk_prf@, k.r_pk@) == view_key
    &&& s.derive_encryption_public_key_model(cp.account_encryption@, view_key) == r.owner@
    &&& candidate_serial_number(s, cp, r, k) == declared_serial_number
    &&& s.value_commit_model(cp.value_commitment@, u64_le_seq(r.value), vc_randomness)
        == declared_vc
    &&& (r.is_dummy ==> r.value == 0)
    &&& s.record_commit_model(
        cp.record_commitment@,
        record_commitment_input(r),
        r.commitment_randomness@,
    ) == r.commitment@
}

/// [`input_record_error`] at index `i` of an assignment.
pub open spec fn input_error_at<S: SchemeSuite>(
    s: S,
    cp: CircuitParameters,
    t: TransactionAssignment,
    i: int,
) -> bool {
    input_record_error(s, cp, t.old_account_private_keys@[i])
}

/// [`input_record_checks`] at index `i` of an assignment.
pub open spec fn input_ok_at<S: SchemeSuite>(
    s: S,
    cp: CircuitParameters,
    ledger_parameters: Seq<u8>,
    digest: Seq<u8>,
    t: TransactionAssignment,
    i: int,
) -> bool {
    input_record_checks(
        s,
        cp,
        ledger_parameters,
        digest,
        t.old_records@[i],
        t.old_witnesses@[i],
        t.old_account_private_keys@[i],
        t.old_serial_numbers@[i]@,
        t.input_value_commitment_randomness@[i]@,
        t.input_value_commitments@[i]@,
    )
}

/// The concatenated bytes of the first `n` derived serial numbers — the
/// running buffer that binds every output nonce to all consumed inputs.
pub open spec fn serial_number_buffer<S: SchemeSuite>(
    s: S,
    cp: CircuitParameters,
    t: TransactionAssignment,
    n: int,
) -> Seq<u8>
    decreases n,
{
    if n <= 0 {
        Seq::empty()
    } else {
        serial_number_buffer(s, cp, t, n - 1) + candidate_serial_number(
            s,
            cp,
            t.old_records@[n - 1],
            t.old_account_private_keys@[n - 1],
        )
    }
}

/// Appends a copy of `src` to a fresh vector.
pub fn clone_bytes(src: &Vec<u8>) -> (r: Vec<u8>)
    ensures
        r@ == src@,
{
    let mut r: Vec<u8> = Vec::new();
    extend_bytes(&mut r, src);
    r
}

/// Builds the record-commitment input bytes of a record.
fn record_commitment_input_exec(r: &Record) -> (out: Vec<u8>)
    ensures
        out@ == record_commitment_input(*r),
{
    let mut out: Vec<u8> = Vec::new();
    extend_bytes(&mut out, &r.owner);
    out.push(if r.is_dummy { 1 } else { 0 });
    let value_bytes = u64_to_le_bytes(r.value);
    extend_bytes(&mut out, &value_bytes);
    extend_bytes(&mut out, &r.payload);
    extend_bytes(&mut out, &r.birth_predicate_id);
    extend_bytes(&mut out, &r.death_predicate_id);
    extend_bytes(&mut out, &r.serial_number_nonce);
    proof {
        assert(out@ =~= record_commitment_input(*r));
    }
    out
}

/// Processes one input record: declares its contents, checks conditional
/// ledger membership, key-pair consistency, the serial-number derivation
/// (allocating the declared serial number as a public input), the value
/// commitment, and record well-formedness; and appends the derived serial
/// number to the running buffer.
fn process_input_record<S: SchemeSuite>(
    cs: &mut ConstraintSystem,
    suite: &S,
    circuit_parameters: &CircuitParameters,
    ledger_parameters: &Vec<u8>,
    ledger_digest: &Vec<u8>,
    record: &Record,
    witness: &MerklePath,
    key: &AccountPrivateKey,
    serial_number: &Vec<u8>,
    vc_randomness: &Vec<u8>,
    declared_vc: &Vec<u8>,
    sn_buffer: &mut Vec<u8>,
    candidate_sns: &mut Vec<Vec<u8>>,
) -> (r: Result<(), SynthesisError>)
    ensures
        r is Ok <==> !input_record_error(*suite, *circuit_parameters, *key),
        r is Err ==> r == Err::<(), SynthesisError>(SynthesisError::AssignmentMissing),
        r is Ok ==> {
            let sn = candidate_serial_number(*suite, *circuit_parameters, *record, *key);
            &&& final(cs).inputs() == old(cs).inputs().push(
                PublicInputModel { category: InputCategory::SerialNumber, data: serial_number@ },
            )
            &&& (final(cs).satisfied() <==> old(cs).satisfied() && input_record_checks(
                *suite,
                *circuit_parameters,
                ledger_parameters@,
                ledger_digest@,
                *record,
                *witness,
                *key,
                serial_number@,
                vc_randomness@,
                declared_vc@,
            ))
            &&& final(sn_buffer)@ == old(sn_buffer)@ + sn
            &&& final(candidate_sns)@.len() == old(candidate_sns)@.len() + 1
            &&& final(candidate_sns)@[old(candidate_sns)@.len() as int]@ == sn
            &&& (forall|k: int|
                0 <= k < old(candidate_sns)@.len() ==> final(candidate_sns)@[k]
                    == old(candidate_sns)@[k])
        },
{
    // Ledger membership, conditioned on the record not being a dummy.
    let path_ok = suite.merkle_path_valid(
        ledger_parameters,
        &record.commitment,
        witness,
        ledger_digest,
    );
    cs.enforce(ConstraintKind::LedgerMembership, record.is_dummy || path_ok);
    // Key-pair consistency.
    let pk_sig = match suite.derive_signature_public_key(
        &circuit_parameters.account_signature,
        &key.seed,
    ) {
        Some(pk) => pk,
        None => {
            return Err(SynthesisError::AssignmentMissing);
        },
    };
    let mut view_key_input = clone_bytes(&pk_sig);
    extend_bytes(&mut view_key_input, &key.sk_prf);
    let candidate_commitment = suite.account_commit(
        &circuit_parameters.account_commitment,
        &view_key_input,
        &key.r_pk,
    );
    let view_key = match suite.derive_decryption_key(
        &circuit_parameters.account_signature,
        &circuit_parameters.account_commitment,
        &key.seed,
        &key.sk_prf,
        &key.r_pk,
    ) {
        Some(k) => k,
        None => {
            return Err(SynthesisError::AssignmentMissing);
        },
    };
    // The high bits of the account view key are left unconstrained; the
    // protocol does not yet enforce them.
    cs.enforce(ConstraintKind::AccountViewKey, bytes_eq(&candidate_commitment, &view_key));
    let candidate_owner = suite.derive_encryption_public_key(
        &circuit_parameters.account_encryption,
        &view_key,
    );
    cs.enforce(ConstraintKind::RecordOwner, bytes_eq(&candidate_owner, &record.owner));
    // Serial-number derivation.
    let randomizer = suite.prf(&key.sk_prf, &record.serial_number_nonce);
    let candidate_sn = suite.randomize_public_key(
        &circuit_parameters.account_signature,
        &pk_sig,
        &randomizer,
    );
    cs.alloc_input(InputCategory::SerialNumber, clone_bytes(serial_number));
    cs.enforce(ConstraintKind::SerialNumberDerivation, bytes_eq(&candidate_sn, serial_number));
    extend_bytes(sn_buffer, &candidate_sn);
    // Value commitment.
    let value_bytes = u64_to_le_bytes(record.value);
    let candidate_vc = suite.value_commit(
        &circuit_parameters.value_commitment,
        &value_bytes,
        vc_randomness,
    );
    cs.enforce(ConstraintKind::InputValueCommitment, bytes_eq(&candidate_vc, declared_vc));
    // Record well-formedness.
    cs.enforce(ConstraintKind::InputDummyValueZero, !record.is_dummy || record.value == 0);
    let commitment_input = record_commitment_input_exec(record);
    let candidate_record_commitment = suite.record_commit(
        &circuit_parameters.record_commitment,
        &commitment_input,
        &record.commitment_randomness,
    );
    cs.enforce(
        ConstraintKind::InputRecordCommitment,
        bytes_eq(&candidate_record_commitment, &record.commitment),
    );
    candidate_sns.push(candidate_sn);
    Ok(())
}

/// The Montgomery coefficient ratio `A / B`, as a residue of the native
/// field.
pub open spec fn a_coeff(cfg: CircuitConfig) -> u128 {
    fmul(cfg.modulus, cfg.mont_a, finv(cfg.modulus, cfg.mont_b))
}

/// The product of [`a_coeff`] and the twisted-Edwards coefficient.
pub open spec fn ua_coeff(cfg: CircuitConfig) -> u128 {
    fmul(cfg.modulus, a_coeff(cfg), cfg.te_d)
}

/// The x-coordinate recovered from a paired y-coordinate by the Montgomery
/// relation `x = (1 + y) / (b * (1 - y))`.
pub open spec fn recovery_x(cfg: CircuitConfig, y: u128) -> u128 {
    let m = cfg.modulus;
    fmul(m, fmul(m, fadd(m, y, 1), finv(m, fadd(m, fneg(m, y), 1))), finv(m, cfg.mont_b))
}

/// Whether a field inverse required by the recovery of one element does not
/// exist, which aborts construction.
pub open spec fn recovery_error(cfg: CircuitConfig, y: u128) -> bool {
    let m = cfg.modulus;
    let x = recovery_x(cfg, y);
    let ux = fmul(m, x, cfg.te_d);
    ||| !invertible(m, fadd(m, fneg(m, y), 1))
    ||| !invertible(m, fadd(m, ux, ua_coeff(cfg)))
    ||| !invertible(m, ux)
}

/// The recovery constraint of one element: of the two candidate quadratic
/// relations `a = -x / (ux + ua)` and `b = (-x - a) / (ux)` against the
/// element squared, exactly one holds.
pub open spec fn recovery_exactly_one(cfg: CircuitConfig, e: u128, y: u128) -> bool {
    let m = cfg.modulus;
    let x = recovery_x(cfg, y);
    let ux = fmul(m, x, cfg.te_d);
    let a_i = fmul(m, fneg(m, x), finv(m, fadd(m, ux, ua_coeff(cfg))));
    let b_i = fmul(m, fadd(m, fneg(m, x), fneg(m, a_coeff(cfg))), finv(m, ux));
    let e2 = fmul(m, e, e);
    (e2 == a_i) != (e2 == b_i)
}

/// One serialization comparison: the expected bits must be a prefix of the
/// element's serialized bits.
pub open spec fn ser_check(expected: Seq<bool>, actual: Seq<bool>) -> bool {
    expected.len() <= actual.len() && expected == actual.take(expected.len() as int)
}

/// The bits of one field element's byte serialization.
pub open spec fn element_bits(cfg: CircuitConfig, e: u128) -> Seq<bool> {
    spec_bytes_to_bits(spec_fe_le_bytes(e, cfg.byte_len()))
}

/// The field-encoding selector bits fed to the packing: all but the last.
pub open spec fn spec_fq_high_bits(sel: SelectorBits) -> Seq<bool> {
    sel.fq_high@.drop_last()
}

/// The expected bit strings a record packs into: the packed elements of its
/// fields.
pub open spec fn expected_bit_elements(cfg: CircuitConfig, r: Record, fq_high: Seq<bool>) -> Seq<
    Seq<bool>,
> {
    spec_record_elements(
        cfg,
        spec_bytes_to_bits(r.serial_number_nonce@),
        spec_bytes_to_bits(r.commitment_randomness@),
        spec_bytes_to_bits(r.birth_predicate_id@),
        spec_bytes_to_bits(r.death_predicate_id@),
        spec_bytes_to_bits(r.payload@),
        spec_bytes_to_bits(u64_le_seq(r.value)),
        fq_high,
    )
}

/// The serialization checks of one output record: each expected bit string
/// prefixes its field element's serialized bits, pairing expected strings
/// and provided elements in order as far as both reach.
pub open spec fn serialization_ok(
    cfg: CircuitConfig,
    r: Record,
    fq_high: Seq<bool>,
    elements: Seq<u128>,
) -> bool {
    let exp = expected_bit_elements(cfg, r, fq_high);
    let n = vstd::math::min(exp.len() as int, elements.len() as int);
    forall|k: int| 0 <= k < n ==> ser_check(exp[k], element_bits(cfg, elements[k]))
}

/// The encryption plaintext: each group-encoding pair read as a point.
pub open spec fn spec_plaintext<S: SchemeSuite>(s: S, ge: Seq<FpPair>) -> Seq<Seq<u8>> {
    Seq::new(ge.len(), |i: int| some_bytes(s.group_element_model(ge[i].x, ge[i].y)))
}

/// The ciphertext selector bits with the final field-encoding selector
/// appended, packed to bytes — the tail of the ciphertext-hash input.
pub open spec fn spec_selector_bytes(sel: SelectorBits) -> Seq<u8> {
    spec_bits_to_bytes(sel.ciphertext@ + seq![sel.fq_high@.last()])
}

/// Whether construction fails on one output record: a recovery inverse is
/// missing or a group-encoding pair is not a point.
pub open spec fn output_record_error<S: SchemeSuite>(
    s: S,
    cfg: CircuitConfig,
    fe: Seq<u128>,
    ge: Seq<FpPair>,
) -> bool {
    ||| exists|i: int| 0 <= i < ge.len() && s.group_element_model(ge[i].x, ge[i].y) is None
    ||| exists|i: int| 1 <= i < fe.len() && recovery_error(cfg, ge[i].y)
}

/// [`output_record_error`] at index `j` of an assignment.
pub open spec fn output_error_at<S: SchemeSuite>(
    s: S,
    cfg: CircuitConfig,
    t: TransactionAssignment,
    j: int,
) -> bool {
    output_record_error(
        s,
        cfg,
        t.new_records_field_elements@[j]@,
        t.new_records_group_encoding@[j]@,
    )
}

/// The conjunction of the checks emitted for one output record: the
/// serial-number-nonce derivation over the input serial-number buffer, the
/// value commitment, record well-formedness against both the public and the
/// declared commitment, the serialization of the packed fields, the
/// exactly-one recovery relation of every element after the first, and the
/// ciphertext hash.
pub open spec fn output_record_checks<S: SchemeSuite>(
    s: S,
    cfg: CircuitConfig,
    cp: CircuitParameters,
    r: Record,
    sn_nonce_randomness: Seq<u8>,
    declared_commitment: Seq<u8>,
    fe: Seq<u128>,
    ge: Seq<FpPair>,
    encryption_randomness: Seq<u8>,
    blinding_exponents: Seq<Seq<u8>>,
    sel: SelectorBits,
    declared_ciphertext_hash: Seq<u8>,
    vc_randomness: Seq<u8>,
    declared_vc: Seq<u8>,
    j: int,
    sn_buffer: Seq<u8>,
) -> bool {
    let recomputed_commitment = s.record_commit_model(
        cp.record_commitment@,
        record_commitment_input(r),
        r.commitment_randomness@,
    );
    &&& s.serial_number_nonce_crh_model(
        cp.serial_number_nonce@,
        seq![j as u8] + sn_nonce_randomness + sn_buffer,
    ) == r.serial_number_nonce@
    &&& s.value_commit_model(cp.value_commitment@, u64_le_seq(r.value), vc_randomness)
        == declared_vc
    &&& (r.is_dummy ==> r.value == 0)
    &&& recomputed_commitment == declared_commitment
    &&& recomputed_commitment == r.commitment@
    &&& serialization_ok(cfg, r, spec_fq_high_bits(sel), fe)
    &&& (forall|i: int| 1 <= i < fe.len() ==> recovery_exactly_one(cfg, fe[i], ge[i].y))
    &&& ({
        let ct = s.encrypt_model(
            cp.account_encryption@,
            encryption_randomness,
            r.owner@,
            spec_plaintext(s, ge),
            blinding_exponents,
        );
        s.record_ciphertext_crh_model(cp.record_ciphertext_crh@, ct + spec_selector_bytes(sel))
            == declared_ciphertext_hash
    })
}

/// [`output_record_checks`] at index `j` of an assignment, over the full
/// input serial-number buffer.
pub open spec fn output_ok_at<S: SchemeSuite>(
    s: S,
    cfg: CircuitConfig,
    cp: CircuitParameters,
    t: TransactionAssignment,
    j: int,
) -> bool {
    output_record_checks(
        s,
        cfg,
        cp,
        t.new_records@[j],
        t.new_sn_nonce_randomness@[j]@,
        t.new_commitments@[j]@,
        t.new_records_field_elements@[j]@,
        t.new_records_group_encoding@[j]@,
        t.new_records_encryption_randomness@[j]@,
        t.new_records_encryption_blinding_exponents@[j].deep_view(),
        t.new_records_ciphertext_and_fq_high_selectors@[j],
        t.new_records_ciphertext_hashes@[j]@,
        t.output_value_commitment_randomness@[j]@,
        t.output_value_commitments@[j]@,
        j,
        serial_number_buffer(s, cp, t, t.old_records@.len() as int),
    )
}

/// Emits the encryption-correctness checks of one output record: the
/// serialization comparisons of the packed fields against the provided
/// field elements, the curve-point recovery relations, and the ciphertext
/// hash (whose declared value is allocated as a public input).
#[verifier::loop_isolation(false)]
fn check_output_encryption<S: SchemeSuite>(
    cs: &mut ConstraintSystem,
    suite: &S,
    config: &CircuitConfig,
    circuit_parameters: &CircuitParameters,
    record: &Record,
    field_elements: &Vec<u128>,
    group_encoding: &Vec<FpPair>,
    encryption_randomness: &Vec<u8>,
    blinding_exponents: &Vec<Vec<u8>>,
    selectors: &SelectorBits,
    ciphertext_hash: &Vec<u8>,
) -> (r: Result<(), SynthesisError>)
    requires
        assumptions_ok(*config),
        record.birth_predicate_id@.len() * 8 >= config.outer_field_bits,
        record.death_predicate_id@.len() * 8 >= config.outer_field_bits,
        selectors.fq_high@.len() >= 1,
        selectors.fq_high@.len() + 64 + config.base_field_bits < usize::MAX,
        selectors.ciphertext@.len() < usize::MAX - 9,
        field_elements@.len() >= 5,
        group_encoding@.len() == field_elements@.len(),
        forall|k: int|
            0 <= k < field_elements@.len() ==> {
                &&& (#[trigger] field_elements@[k]) < config.modulus
                &&& group_encoding@[k].x < config.modulus
                &&& group_encoding@[k].y < config.modulus
            },
    ensures
        r is Ok <==> !output_record_error(*suite, *config, field_elements@, group_encoding@),
        r is Err ==> r == Err::<(), SynthesisError>(SynthesisError::AssignmentMissing),
        r is Ok ==> {
            &&& final(cs).inputs() == old(cs).inputs().push(
                PublicInputModel {
                    category: InputCategory::CiphertextHash,
                    data: ciphertext_hash@,
                },
            )
            &&& (final(cs).satisfied() <==> old(cs).satisfied() && {
                &&& serialization_ok(
                    *config,
                    *record,
                    spec_fq_high_bits(*selectors),
                    field_elements@,
                )
                &&& (forall|i: int|
                    1 <= i < field_elements@.len() ==> recovery_exactly_one(
                        *config,
                        field_elements@[i],
                        group_encoding@[i].y,
                    ))
                &&& ({
                    let ct = suite.encrypt_model(
                        circuit_parameters.account_encryption@,
                        encryption_randomness@,
                        record.owner@,
                        spec_plaintext(*suite, group_encoding@),
                        blinding_exponents.deep_view(),
                    );
                    suite.record_ciphertext_crh_model(
                        circuit_parameters.record_ciphertext_crh@,
                        ct + spec_selector_bytes(*selectors),
                    ) == ciphertext_hash@
                })
            })
        },
{
    let ghost sat0 = cs.satisfied();
    let ghost inputs0 = cs.inputs();
    // Expected bit strings of the packed record fields.
    let nonce_bits = bytes_to_bits(&record.serial_number_nonce);
    let rand_bits = bytes_to_bits(&record.commitment_randomness);
    let birth_bits = bytes_to_bits(&record.birth_predicate_id);
    let death_bits = bytes_to_bits(&record.death_predicate_id);
    let value_bytes = u64_to_le_bytes(record.value);
    let value_bits = bytes_to_bits(&value_bytes);
    let payload_bits = bytes_to_bits(&record.payload);
    let fq_high_bits = bits_subrange(&selectors.fq_high, 0, selectors.fq_high.len() - 1);
    proof {
        assert(fq_high_bits@ =~= spec_fq_high_bits(*selectors));
    }
    let expected = crate::packing::record_elements(
        config,
        &nonce_bits,
        &rand_bits,
        &birth_bits,
        &death_bits,
        &payload_bits,
        &value_bits,
        &fq_high_bits,
    );
    let ghost exp = expected_bit_elements(*config, *record, spec_fq_high_bits(*selectors));
    // Serialization comparisons, pairing expected strings and elements in
    // order as far as both reach.
    let byte_len: usize = (config.base_field_bits + 7) / 8;
    let n_pairs: usize = if expected.len() <= field_elements.len() {
        expected.len()
    } else {
        field_elements.len()
    };
    let mut k: usize = 0;
    while k < n_pairs
        invariant
            k <= n_pairs,
            cs.satisfied() <==> sat0 && (forall|kk: int|
                0 <= kk < k ==> ser_check(
                    exp[kk],
                    element_bits(*config, field_elements@[kk]),
                )),
            cs.inputs() == inputs0,
        decreases n_pairs - k,
    {
        let element_bytes = fe_to_le_bytes(field_elements[k], byte_len);
        let ebits = bytes_to_bits(&element_bytes);
        proof {
            crate::packing::lemma_deep_view_index(expected, k as int);
            assert(ebits@ == element_bits(*config, field_elements@[k as int]));
        }
        let exp_k = &expected[k];
        let holds = if exp_k.len() <= ebits.len() {
            let prefix = bits_subrange(&ebits, 0, exp_k.len());
            bits_eq(exp_k, &prefix)
        } else {
            false
        };
        proof {
            assert(holds == ser_check(exp[k as int], element_bits(*config, field_elements@[k as int])));
        }
        let kind = if k == 0 {
            ConstraintKind::SerializedNonce
        } else if k == 1 {
            ConstraintKind::SerializedCommitmentRandomness
        } else if k == 2 {
            ConstraintKind::SerializedBirthPredicateId
        } else if k == 3 {
            ConstraintKind::SerializedDeathPredicateId
        } else if k == 4 {
            ConstraintKind::SerializedPredicateRemainder
        } else {
            ConstraintKind::SerializedPayloadElement
        };
        cs.enforce(kind, holds);
        k += 1;
    }
    proof {
        assert((forall|kk: int|
            0 <= kk < n_pairs ==> ser_check(
                exp[kk],
                element_bits(*config, field_elements@[kk]),
            )) == serialization_ok(
            *config,
            *record,
            spec_fq_high_bits(*selectors),
            field_elements@,
        ));
    }
    // Group encoding: read each pair as a point of the encryption group.
    let mut plaintext: Vec<Vec<u8>> = Vec::new();
    let mut i: usize = 0;
    while i < group_encoding.len()
        invariant
            i <= group_encoding@.len(),
            plaintext@.len() == i,
            forall|ii: int|
                0 <= ii < i ==> suite.group_element_model(
                    group_encoding@[ii].x,
                    group_encoding@[ii].y,
                ) is Some,
            forall|ii: int|
                0 <= ii < i ==> (#[trigger] plaintext@[ii])@ == some_bytes(
                    suite.group_element_model(group_encoding@[ii].x, group_encoding@[ii].y),
                ),
            cs.satisfied() <==> sat0 && serialization_ok(
                *config,
                *record,
                spec_fq_high_bits(*selectors),
                field_elements@,
            ),
            cs.inputs() == inputs0,
        decreases group_encoding@.len() - i,
    {
        let pair = group_encoding[i];
        match suite.group_element_from_coordinates(pair.x, pair.y) {
            Some(p) => {
                plaintext.push(p);
            },
            None => {
                return Err(SynthesisError::AssignmentMissing);
            },
        }
        i += 1;
    }
    proof {
        assert(plaintext.deep_view() =~~= spec_plaintext(*suite, group_encoding@));
    }
    // Curve-point recovery of every element after the first.
    let m = config.modulus;
    let b_inv = match field_inv(m, config.mont_b) {
        Some(v) => v,
        None => {
            proof {
                assert(false);
            }
            return Err(SynthesisError::AssignmentMissing);
        },
    };
    let a_c = field_mul(m, config.mont_a, b_inv);
    let ua = field_mul(m, a_c, config.te_d);
    proof {
        assert(a_c == a_coeff(*config));
        assert(ua == ua_coeff(*config));
    }
    let mut i: usize = 1;
    while i < field_elements.len()
        invariant
            1 <= i <= field_elements@.len(),
            cs.satisfied() <==> sat0 && serialization_ok(
                *config,
                *record,
                spec_fq_high_bits(*selectors),
                field_elements@,
            ) && (forall|ii: int|
                1 <= ii < i ==> recovery_exactly_one(
                    *config,
                    field_elements@[ii],
                    group_encoding@[ii].y,
                )),
            forall|ii: int| 1 <= ii < i ==> !recovery_error(*config, group_encoding@[ii].y),
            cs.inputs() == inputs0,
        decreases field_elements@.len() - i,
    {
        proof {
            assert(field_elements@[i as int] < config.modulus);
        }
        let y = group_encoding[i].y;
        let neg_y = field_neg(m, y);
        let one_minus_y = field_add(m, neg_y, 1);
        let inv_denominator = match field_inv(m, one_minus_y) {
            Some(v) => v,
            None => {
                return Err(SynthesisError::AssignmentMissing);
            },
        };
        let numerator = field_add(m, y, 1);
        let temp = field_mul(m, numerator, inv_denominator);
        let x = field_mul(m, temp, b_inv);
        proof {
            assert(x == recovery_x(*config, y));
        }
        let ux = field_mul(m, x, config.te_d);
        let neg_x = field_neg(m, x);
        let ux_plus_ua = field_add(m, ux, ua);
        let inv_ux_plus_ua = match field_inv(m, ux_plus_ua) {
            Some(v) => v,
            None => {
                return Err(SynthesisError::AssignmentMissing);
            },
        };
        let a_i = field_mul(m, neg_x, inv_ux_plus_ua);
        let inv_ux = match field_inv(m, ux) {
            Some(v) => v,
            None => {
                return Err(SynthesisError::AssignmentMissing);
            },
        };
        let neg_a = field_neg(m, a_c);
        let b_i = field_mul(m, field_add(m, neg_x, neg_a), inv_ux);
        let element = field_elements[i];
        let element_squared = field_mul(m, element, element);
        let a_i_is_correct = element_squared == a_i;
        let b_i_is_correct = element_squared == b_i;
        cs.enforce(ConstraintKind::GroupRecovery, a_i_is_correct != b_i_is_correct);
        proof {
            assert((a_i_is_correct != b_i_is_correct) == recovery_exactly_one(
                *config,
                field_elements@[i as int],
                group_encoding@[i as int].y,
            ));
        }
        i += 1;
    }
    // Record encryption and the ciphertext hash.
    let ciphertext = suite.encrypt(
        &circuit_parameters.account_encryption,
        encryption_randomness,
        &record.owner,
        &plaintext,
        blinding_exponents,
    );
    let mut selector_bits: Vec<bool> = Vec::new();
    crate::bits::extend_bits(&mut selector_bits, &selectors.ciphertext);
    selector_bits.push(selectors.fq_high[selectors.fq_high.len() - 1]);
    proof {
        assert(selector_bits@ =~= selectors.ciphertext@ + seq![selectors.fq_high@.last()]);
    }
    let selector_bytes = bits_to_bytes(&selector_bits);
    let mut hash_input = ciphertext;
    extend_bytes(&mut hash_input, &selector_bytes);
    let candidate_hash = suite.record_ciphertext_crh(
        &circuit_parameters.record_ciphertext_crh,
        &hash_input,
    );
    let ghost sat_pre = cs.satisfied();
    proof {
        let ser = serialization_ok(
            *config,
            *record,
            spec_fq_high_bits(*selectors),
            field_elements@,
        );
        let recf = (forall|ii: int|
            1 <= ii < field_elements@.len() ==> recovery_exactly_one(
                *config,
                field_elements@[ii],
                group_encoding@[ii].y,
            ));
        assert(i as int == field_elements@.len());
        assert(sat_pre ==> sat0 && ser);
        assert(sat_pre ==> recf);
        assert((sat0 && ser && recf) ==> sat_pre);
        assert(sat_pre <==> sat0 && serialization_ok(
            *config,
            *record,
            spec_fq_high_bits(*selectors),
            field_elements@,
        ) && (forall|i: int|
            1 <= i < field_elements@.len() ==> recovery_exactly_one(
                *config,
                field_elements@[i],
                group_encoding@[i].y,
            )));
    }
    cs.alloc_input(InputCategory::CiphertextHash, clone_bytes(ciphertext_hash));
    proof {
        assert(cs.satisfied() <==> sat_pre);
    }
    let hash_ok = bytes_eq(&candidate_hash, ciphertext_hash);
    cs.enforce(ConstraintKind::CiphertextHash, hash_ok);
    proof {
        assert(cs.satisfied() <==> sat_pre && hash_ok);
    }
    proof {
        let ct = suite.encrypt_model(
            circuit_parameters.account_encryption@,
            encryption_randomness@,
            record.owner@,
            spec_plaintext(*suite, group_encoding@),
            blinding_exponents.deep_view(),
        );
        assert(hash_input@ == ct + spec_selector_bytes(*selectors));
        assert(hash_ok == (suite.record_ciphertext_crh_model(
            circuit_parameters.record_ciphertext_crh@,
            ct + spec_selector_bytes(*selectors),
        ) == ciphertext_hash@));
        assert(cs.satisfied() <==> sat0 && serialization_ok(
            *config,
            *record,
            spec_fq_high_bits(*selectors),
            field_elements@,
        ) && (forall|i: int|
            1 <= i < field_elements@.len() ==> recovery_exactly_one(
                *config,
                field_elements@[i],
                group_encoding@[i].y,
            )) && hash_ok);
    }
    Ok(())
}

/// Processes one output record: allocates its public commitment, checks the
/// serial-number-nonce derivation, the value commitment, well-formedness
/// against both commitments, and the encryption correctness.
fn process_output_record<S: SchemeSuite>(
    cs: &mut ConstraintSystem,
    suite: &S,
    config: &CircuitConfig,
    circuit_parameters: &CircuitParameters,
    record: &Record,
    sn_nonce_randomness: &Vec<u8>,
    declared_commitment: &Vec<u8>,
    field_elements: &Vec<u128>,
    group_encoding: &Vec<FpPair>,
    encryption_randomness: &Vec<u8>,
    blinding_exponents: &Vec<Vec<u8>>,
    selectors: &SelectorBits,
    ciphertext_hash: &Vec<u8>,
    vc_randomness: &Vec<u8>,
    declared_vc: &Vec<u8>,
    j: usize,
    sn_buffer: &Vec<u8>,
) -> (r: Result<(), SynthesisError>)
    requires
        assumptions_ok(*config),
        j <= 255,
        record.birth_predicate_id@.len() * 8 >= config.outer_field_bits,
        record.death_predicate_id@.len() * 8 >= config.outer_field_bits,
        selectors.fq_high@.len() >= 1,
        selectors.fq_high@.len() + 64 + config.base_field_bits < usize::MAX,
        selectors.ciphertext@.len() < usize::MAX - 9,
        field_elements@.len() >= 5,
        group_encoding@.len() == field_elements@.len(),
        forall|k: int|
            0 <= k < field_elements@.len() ==> {
                &&& (#[trigger] field_elements@[k]) < config.modulus
                &&& group_encoding@[k].x < config.modulus
                &&& group_encoding@[k].y < config.modulus
            },
    ensures
        r is Ok <==> !output_record_error(*suite, *config, field_elements@, group_encoding@),
        r is Err ==> r == Err::<(), SynthesisError>(SynthesisError::AssignmentMissing),
        r is Ok ==> {
            &&& final(cs).inputs() == old(cs).inputs().push(
                PublicInputModel {
                    category: InputCategory::OutputCommitment,
                    data: declared_commitment@,
                },
            ).push(
                PublicInputModel {
                    category: InputCategory::CiphertextHash,
                    data: ciphertext_hash@,
                },
            )
            &&& (final(cs).satisfied() <==> old(cs).satisfied() && output_record_checks(
                *suite,
                *config,
                *circuit_parameters,
                *record,
                sn_nonce_randomness@,
                declared_commitment@,
                field_elements@,
                group_encoding@,
                encryption_randomness@,
                blinding_exponents.deep_view(),
                *selectors,
                ciphertext_hash@,
                vc_randomness@,
                declared_vc@,
                j as int,
                sn_buffer@,
            ))
        },
{
    cs.alloc_input(InputCategory::OutputCommitment, clone_bytes(declared_commitment));
    // Serial-number nonce: the record index byte, the per-record nonce
    // randomness, and the full input serial-number buffer.
    let mut sn_nonce_input: Vec<u8> = Vec::new();
    sn_nonce_input.push(j as u8);
    extend_bytes(&mut sn_nonce_input, sn_nonce_randomness);
    extend_bytes(&mut sn_nonce_input, sn_buffer);
    proof {
        assert(sn_nonce_input@ =~= seq![(j as int) as u8] + sn_nonce_randomness@ + sn_buffer@);
    }
    let candidate_nonce = suite.serial_number_nonce_crh(
        &circuit_parameters.serial_number_nonce,
        &sn_nonce_input,
    );
    cs.enforce(
        ConstraintKind::OutputSerialNumberNonce,
        bytes_eq(&candidate_nonce, &record.serial_number_nonce),
    );
    // Value commitment.
    let value_bytes = u64_to_le_bytes(record.value);
    let candidate_vc = suite.value_commit(
        &circuit_parameters.value_commitment,
        &value_bytes,
        vc_randomness,
    );
    cs.enforce(ConstraintKind::OutputValueCommitment, bytes_eq(&candidate_vc, declared_vc));
    // Record well-formedness, against the public and the declared
    // commitment.
    cs.enforce(ConstraintKind::OutputDummyValueZero, !record.is_dummy || record.value == 0);
    let commitment_input = record_commitment_input_exec(record);
    let candidate_commitment = suite.record_commit(
        &circuit_parameters.record_commitment,
        &commitment_input,
        &record.commitment_randomness,
    );
    cs.enforce(
        ConstraintKind::OutputCommitmentMatchesPublic,
        bytes_eq(&candidate_commitment, declared_commitment),
    );
    cs.enforce(
        ConstraintKind::OutputCommitmentMatchesDeclared,
        bytes_eq(&candidate_commitment, &record.commitment),
    );
    // Encryption correctness.
    let enc = check_output_encryption(
        cs,
        suite,
        config,
        circuit_parameters,
        record,
        field_elements,
        group_encoding,
        encryption_randomness,
        blinding_exponents,
        selectors,
        ciphertext_hash,
    );
    match enc {
        Ok(()) => {},
        Err(e) => {
            return Err(e);
        },
    }
    Ok(())
}

/// The concatenated death-predicate identifiers of the first `n` input
/// records.
pub open spec fn death_ids_concat(t: TransactionAssignment, n: int) -> Seq<u8>
    decreases n,
{
    if n <= 0 {
        Seq::empty()
    } else {
        death_ids_concat(t, n - 1) + t.old_records@[n - 1].death_predicate_id@
    }
}

/// The concatenated birth-predicate identifiers of the first `n` output
/// records.
pub open spec fn birth_ids_concat(t: TransactionAssignment, n: int) -> Seq<u8>
    decreases n,
{
    if n <= 0 {
        Seq::empty()
    } else {
        birth_ids_concat(t, n - 1) + t.new_records@[n - 1].birth_predicate_id@
    }
}

/// The predicate-commitment check: the commitment over all death identifiers
/// of the inputs followed by all birth identifiers of the outputs equals the
/// declared predicate commitment.
pub open spec fn predicate_ok<S: SchemeSuite>(
    s: S,
    cp: CircuitParameters,
    t: TransactionAssignment,
) -> bool {
    s.predicate_commit_model(
        cp.predicate_verification_key_commitment@,
        death_ids_concat(t, t.old_records@.len() as int) + birth_ids_concat(
            t,
            t.new_records@.len() as int,
        ),
        t.predicate_randomness@,
    ) == t.predicate_commitment@
}

/// The concatenated local-data commitments of the first `n` input records,
/// each over the derived serial number, the record commitment, the memo and
/// the network id.
pub open spec fn local_data_inner1_input<S: SchemeSuite>(
    s: S,
    cp: CircuitParameters,
    t: TransactionAssignment,
    n: int,
) -> Seq<u8>
    decreases n,
{
    if n <= 0 {
        Seq::empty()
    } else {
        local_data_inner1_input(s, cp, t, n - 1) + s.local_data_commit_model(
            cp.local_data_commitment@,
            candidate_serial_number(
                s,
                cp,
                t.old_records@[n - 1],
                t.old_account_private_keys@[n - 1],
            ) + t.old_records@[n - 1].commitment@ + t.memo@ + seq![t.network_id],
            t.local_data_commitment_randomizers@[n - 1]@,
        )
    }
}

/// The concatenated local-data commitments of the first `n` output records,
/// each over the record commitment, the memo and the network id.
pub open spec fn local_data_inner2_input<S: SchemeSuite>(
    s: S,
    cp: CircuitParameters,
    t: TransactionAssignment,
    n: int,
) -> Seq<u8>
    decreases n,
{
    if n <= 0 {
        Seq::empty()
    } else {
        local_data_inner2_input(s, cp, t, n - 1) + s.local_data_commit_model(
            cp.local_data_commitment@,
            t.new_records@[n - 1].commitment@ + t.memo@ + seq![t.network_id],
            t.local_data_commitment_randomizers@[t.old_records@.len() + n - 1]@,
        )
    }
}

/// The local-data check: the two-level hash of the per-record commitments
/// equals the declared local-data commitment.
pub open spec fn local_data_ok<S: SchemeSuite>(
    s: S,
    cp: CircuitParameters,
    t: TransactionAssignment,
) -> bool {
    let inner1 = s.local_data_crh_model(
        cp.local_data_crh@,
        local_data_inner1_input(s, cp, t, t.old_records@.len() as int),
    );
    let inner2 = s.local_data_crh_model(
        cp.local_data_crh@,
        local_data_inner2_input(s, cp, t, t.new_records@.len() as int),
    );
    s.local_data_crh_model(cp.local_data_crh@, inner1 + inner2) == t.local_data_commitment@
}

/// Whether the native binding-signature setup fails, which aborts
/// construction.
pub open spec fn binding_error<S: SchemeSuite>(
    s: S,
    cp: CircuitParameters,
    t: TransactionAssignment,
) -> bool {
    s.binding_setup_model(
        cp.value_commitment@,
        t.input_value_commitments.deep_view(),
        t.output_value_commitments.deep_view(),
        t.local_data_commitment@,
        t.binding_signature@,
    ) is None
}

/// The binding-signature check: the algebraic verification relation holds
/// among the recomputed setup values, the value-balance commitment and the
/// declared sign.
pub open spec fn binding_ok<S: SchemeSuite>(
    s: S,
    cp: CircuitParameters,
    t: TransactionAssignment,
) -> bool {
    let setup = s.binding_setup_model(
        cp.value_commitment@,
        t.input_value_commitments.deep_view(),
        t.output_value_commitments.deep_view(),
        t.local_data_commitment@,
        t.binding_signature@,
    );
    let vbc = s.value_balance_commit_model(
        cp.value_commitment@,
        u64_le_seq(vb_magnitude(t.value_balance)),
    );
    setup matches Some(b) && s.binding_signature_verified_model(
        b.partial_bvk,
        vbc,
        t.value_balance < 0,
        b.c,
        b.affine_r,
        b.recommit,
    )
}

/// Whether circuit construction fails on this assignment: a key derivation
/// of some input record fails, a recovery inverse or curve point of some
/// output record is missing, or the binding-signature setup fails.
pub open spec fn circuit_error<S: SchemeSuite>(
    s: S,
    cfg: CircuitConfig,
    cp: CircuitParameters,
    t: TransactionAssignment,
) -> bool {
    ||| exists|i: int| 0 <= i < t.old_records@.len() && input_error_at(s, cp, t, i)
    ||| exists|j: int| 0 <= j < t.new_records@.len() && output_error_at(s, cfg, t, j)
    ||| binding_error(s, cp, t)
}

/// The transaction-validity relation: every input-record check, every
/// output-record check, and the three aggregate checks hold.
pub open spec fn circuit_valid<S: SchemeSuite>(
    s: S,
    cfg: CircuitConfig,
    cp: CircuitParameters,
    ledger_parameters: Seq<u8>,
    digest: Seq<u8>,
    t: TransactionAssignment,
) -> bool {
    &&& (forall|i: int|
        0 <= i < t.old_records@.len() ==> input_ok_at(s, cp, ledger_parameters, digest, t, i))
    &&& (forall|j: int| 0 <= j < t.new_records@.len() ==> output_ok_at(s, cfg, cp, t, j))
    &&& predicate_ok(s, cp, t)
    &&& local_data_ok(s, cp, t)
    &&& binding_ok(s, cp, t)
}

/// The scheme-parameter public inputs, in their fixed order, ending with the
/// ledger parameters.
pub open spec fn parameter_inputs(cp: CircuitParameters, ledger_parameters: Seq<u8>) -> Seq<
    PublicInputModel,
> {
    seq![
        PublicInputModel {
            category: InputCategory::AccountCommitmentParameters,
            data: cp.account_commitment@,
        },
        PublicInputModel {
            category: InputCategory::AccountEncryptionParameters,
            data: cp.account_encryption@,
        },
        PublicInputModel {
            category: InputCategory::AccountSignatureParameters,
            data: cp.account_signature@,
        },
        PublicInputModel {
            category: InputCategory::RecordCommitmentParameters,
            data: cp.record_commitment@,
        },
        PublicInputModel {
            category: InputCategory::RecordCiphertextCrhParameters,
            data: cp.record_ciphertext_crh@,
        },
        PublicInputModel {
            category: InputCategory::PredicateVkCommitmentParameters,
            data: cp.predicate_verification_key_commitment@,
        },
        PublicInputModel {
            category: InputCategory::LocalDataCrhParameters,
            data: cp.local_data_crh@,
        },
        PublicInputModel {
            category: InputCategory::LocalDataCommitmentParameters,
            data: cp.local_data_commitment@,
        },
        PublicInputModel {
            category: InputCategory::SerialNumberNonceCrhParameters,
            data: cp.serial_number_nonce@,
        },
        PublicInputModel {
            category: InputCategory::ValueCommitmentParameters,
            data: cp.value_commitment@,
        },
        PublicInputModel { category: InputCategory::LedgerParameters, data: ledger_parameters },
    ]
}

/// The declared serial numbers of the first `n` input records, as public
/// inputs.
pub open spec fn serial_number_inputs(t: TransactionAssignment, n: int) -> Seq<PublicInputModel> {
    Seq::new(n as nat, |i: int| PublicInputModel {
        category: InputCategory::SerialNumber,
        data: t.old_serial_numbers@[i]@,
    })
}

/// The public commitment and ciphertext hash of the first `n` output
/// records, as public inputs, in index order.
pub open spec fn output_inputs(t: TransactionAssignment, n: int) -> Seq<PublicInputModel>
    decreases n,
{
    if n <= 0 {
        Seq::empty()
    } else {
        output_inputs(t, n - 1) + seq![
            PublicInputModel {
                category: InputCategory::OutputCommitment,
                data: t.new_commitments@[n - 1]@,
            },
            PublicInputModel {
                category: InputCategory::CiphertextHash,
                data: t.new_records_ciphertext_hashes@[n - 1]@,
            },
        ]
    }
}

/// The aggregate public inputs: predicate commitment, memo, network id,
/// local-data commitment, value-balance magnitude, and value-balance sign.
pub open spec fn aggregate_inputs(t: TransactionAssignment) -> Seq<PublicInputModel> {
    seq![
        PublicInputModel {
            category: InputCategory::PredicateCommitment,
            data: t.predicate_commitment@,
        },
        PublicInputModel { category: InputCategory::Memo, data: t.memo@ },
        PublicInputModel { category: InputCategory::NetworkId, data: seq![t.network_id] },
        PublicInputModel {
            category: InputCategory::LocalDataCommitment,
            data: t.local_data_commitment@,
        },
        PublicInputModel {
            category: InputCategory::ValueBalance,
            data: u64_le_seq(vb_magnitude(t.value_balance)),
        },
        PublicInputModel {
            category: InputCategory::ValueBalanceSign,
            data: bool_byte(t.value_balance < 0),
        },
    ]
}

/// Every public input of one circuit construction, in allocation order: the
/// scheme parameters, the ledger digest, the input serial numbers, the
/// output commitments and ciphertext hashes, and the aggregate inputs.
pub open spec fn spec_public_inputs(
    cp: CircuitParameters,
    ledger_parameters: Seq<u8>,
    digest: Seq<u8>,
    t: TransactionAssignment,
) -> Seq<PublicInputModel> {
    parameter_inputs(cp, ledger_parameters) + seq![
        PublicInputModel { category: InputCategory::LedgerDigest, data: digest },
    ] + serial_number_inputs(t, t.old_records@.len() as int) + output_inputs(
        t,
        t.new_records@.len() as int,
    ) + aggregate_inputs(t)
}

/// Allocates the scheme parameters and the ledger digest as public inputs,
/// in the fixed order.
fn declare_parameters(
    cs: &mut ConstraintSystem,
    circuit_parameters: &CircuitParameters,
    ledger_parameters: &Vec<u8>,
    ledger_digest: &Vec<u8>,
)
    ensures
        final(cs).inputs() == old(cs).inputs() + parameter_inputs(
            *circuit_parameters,
            ledger_parameters@,
        ) + seq![PublicInputModel { category: InputCategory::LedgerDigest, data: ledger_digest@ }],
        final(cs).constraints@ == old(cs).constraints@,
        final(cs).satisfied() == old(cs).satisfied(),
{
    cs.alloc_input(
        InputCategory::AccountCommitmentParameters,
        clone_bytes(&circuit_parameters.account_commitment),
    );
    cs.alloc_input(
        InputCategory::AccountEncryptionParameters,
        clone_bytes(&circuit_parameters.account_encryption),
    );
    cs.alloc_input(
        InputCategory::AccountSignatureParameters,
        clone_bytes(&circuit_parameters.account_signature),
    );
    cs.alloc_input(
        InputCategory::RecordCommitmentParameters,
        clone_bytes(&circuit_parameters.record_commitment),
    );
    cs.alloc_input(
        InputCategory::RecordCiphertextCrhParameters,
        clone_bytes(&circuit_parameters.record_ciphertext_crh),
    );
    cs.alloc_input(
        InputCategory::PredicateVkCommitmentParameters,
        clone_bytes(&circuit_parameters.predicate_verification_key_commitment),
    );
    cs.alloc_input(
        InputCategory::LocalDataCrhParameters,
        clone_bytes(&circuit_parameters.local_data_crh),
    );
    cs.alloc_input(
        InputCategory::LocalDataCommitmentParameters,
        clone_bytes(&circuit_parameters.local_data_commitment),
    );
    cs.alloc_input(
        InputCategory::SerialNumberNonceCrhParameters,
        clone_bytes(&circuit_parameters.serial_number_nonce),
    );
    cs.alloc_input(
        InputCategory::ValueCommitmentParameters,
        clone_bytes(&circuit_parameters.value_commitment),
    );
    cs.alloc_input(InputCategory::LedgerParameters, clone_bytes(ledger_parameters));
    cs.alloc_input(InputCategory::LedgerDigest, clone_bytes(ledger_digest));
    proof {
        assert(cs.inputs() =~= old(cs).inputs() + parameter_inputs(
            *circuit_parameters,
            ledger_parameters@,
        ) + seq![
            PublicInputModel { category: InputCategory::LedgerDigest, data: ledger_digest@ },
        ]);
    }
}

/// Emits the predicate-commitment check and allocates the declared
/// predicate commitment as a public input.
#[verifier::loop_isolation(false)]
fn check_predicate_commitment<S: SchemeSuite>(
    cs: &mut ConstraintSystem,
    suite: &S,
    circuit_parameters: &CircuitParameters,
    t: &TransactionAssignment,
)
    ensures
        final(cs).inputs() == old(cs).inputs().push(
            PublicInputModel {
                category: InputCategory::PredicateCommitment,
                data: t.predicate_commitment@,
            },
        ),
        final(cs).satisfied() <==> old(cs).satisfied() && predicate_ok(
            *suite,
            *circuit_parameters,
            *t,
        ),
{
    let mut input: Vec<u8> = Vec::new();
    let mut i: usize = 0;
    proof {
        assert(input@ =~= death_ids_concat(*t, 0));
    }
    while i < t.old_records.len()
        invariant
            i <= t.old_records@.len(),
            input@ == death_ids_concat(*t, i as int),
            cs == old(cs),
        decreases t.old_records@.len() - i,
    {
        extend_bytes(&mut input, &t.old_records[i].death_predicate_id);
        i += 1;
    }
    let ghost death_part = input@;
    let mut j: usize = 0;
    proof {
        assert(input@ =~= death_part + birth_ids_concat(*t, 0));
    }
    while j < t.new_records.len()
        invariant
            j <= t.new_records@.len(),
            input@ == death_part + birth_ids_concat(*t, j as int),
            death_part == death_ids_concat(*t, t.old_records@.len() as int),
            cs == old(cs),
        decreases t.new_records@.len() - j,
    {
        extend_bytes(&mut input, &t.new_records[j].birth_predicate_id);
        proof {
            assert(input@ =~= death_part + birth_ids_concat(*t, j as int + 1));
        }
        j += 1;
    }
    let candidate = suite.predicate_commit(
        &circuit_parameters.predicate_verification_key_commitment,
        &input,
        &t.predicate_randomness,
    );
    cs.alloc_input(InputCategory::PredicateCommitment, clone_bytes(&t.predicate_commitment));
    cs.enforce(
        ConstraintKind::PredicateCommitment,
        bytes_eq(&candidate, &t.predicate_commitment),
    );
}

/// Emits the two-level local-data-commitment check, allocating the memo,
/// the network id and the declared local-data commitment as public inputs.
#[verifier::loop_isolation(false)]
fn check_local_data<S: SchemeSuite>(
    cs: &mut ConstraintSystem,
    suite: &S,
    circuit_parameters: &CircuitParameters,
    t: &TransactionAssignment,
    candidate_sns: &Vec<Vec<u8>>,
)
    requires
        t.local_data_commitment_randomizers@.len() == t.old_records@.len()
            + t.new_records@.len(),
        candidate_sns@.len() == t.old_records@.len(),
        forall|i: int|
            0 <= i < t.old_records@.len() ==> (#[trigger] candidate_sns@[i])@
                == candidate_serial_number(
                *suite,
                *circuit_parameters,
                t.old_records@[i],
                t.old_account_private_keys@[i],
            ),
    ensures
        final(cs).inputs() == old(cs).inputs() + seq![
            PublicInputModel { category: InputCategory::Memo, data: t.memo@ },
            PublicInputModel { category: InputCategory::NetworkId, data: seq![t.network_id] },
            PublicInputModel {
                category: InputCategory::LocalDataCommitment,
                data: t.local_data_commitment@,
            },
        ],
        final(cs).satisfied() <==> old(cs).satisfied() && local_data_ok(
            *suite,
            *circuit_parameters,
            *t,
        ),
{
    cs.alloc_input(InputCategory::Memo, clone_bytes(&t.memo));
    let mut network_id_bytes: Vec<u8> = Vec::new();
    network_id_bytes.push(t.network_id);
    cs.alloc_input(InputCategory::NetworkId, network_id_bytes);
    let mut old_record_commitment_bytes: Vec<u8> = Vec::new();
    let mut i: usize = 0;
    proof {
        assert(old_record_commitment_bytes@ =~= local_data_inner1_input(
            *suite,
            *circuit_parameters,
            *t,
            0,
        ));
    }
    while i < t.old_records.len()
        invariant
            i <= t.old_records@.len(),
            old_record_commitment_bytes@ == local_data_inner1_input(
                *suite,
                *circuit_parameters,
                *t,
                i as int,
            ),
            cs.inputs() == old(cs).inputs() + seq![
                PublicInputModel { category: InputCategory::Memo, data: t.memo@ },
                PublicInputModel { category: InputCategory::NetworkId, data: seq![t.network_id] },
            ],
            cs.satisfied() == old(cs).satisfied(),
        decreases t.old_records@.len() - i,
    {
        let mut input_bytes: Vec<u8> = Vec::new();
        extend_bytes(&mut input_bytes, &candidate_sns[i]);
        extend_bytes(&mut input_bytes, &t.old_records[i].commitment);
        extend_bytes(&mut input_bytes, &t.memo);
        input_bytes.push(t.network_id);
        proof {
            assert(input_bytes@ =~= candidate_serial_number(
                *suite,
                *circuit_parameters,
                t.old_records@[i as int],
                t.old_account_private_keys@[i as int],
            ) + t.old_records@[i as int].commitment@ + t.memo@ + seq![t.network_id]);
        }
        let commitment = suite.local_data_commit(
            &circuit_parameters.local_data_commitment,
            &input_bytes,
            &t.local_data_commitment_randomizers[i],
        );
        extend_bytes(&mut old_record_commitment_bytes, &commitment);
        i += 1;
    }
    let mut new_record_commitment_bytes: Vec<u8> = Vec::new();
    let n_in_count: usize = t.old_records.len();
    let total_randomizers: usize = t.local_data_commitment_randomizers.len();
    let mut j: usize = 0;
    proof {
        assert(new_record_commitment_bytes@ =~= local_data_inner2_input(
            *suite,
            *circuit_parameters,
            *t,
            0,
        ));
    }
    while j < t.new_records.len()
        invariant
            j <= t.new_records@.len(),
            new_record_commitment_bytes@ == local_data_inner2_input(
                *suite,
                *circuit_parameters,
                *t,
                j as int,
            ),
            old_record_commitment_bytes@ == local_data_inner1_input(
                *suite,
                *circuit_parameters,
                *t,
                t.old_records@.len() as int,
            ),
            cs.inputs() == old(cs).inputs() + seq![
                PublicInputModel { category: InputCategory::Memo, data: t.memo@ },
                PublicInputModel { category: InputCategory::NetworkId, data: seq![t.network_id] },
            ],
            cs.satisfied() == old(cs).satisfied(),
        decreases t.new_records@.len() - j,
    {
        let mut input_bytes: Vec<u8> = Vec::new();
        extend_bytes(&mut input_bytes, &t.new_records[j].commitment);
        extend_bytes(&mut input_bytes, &t.memo);
        input_bytes.push(t.network_id);
        proof {
            assert(input_bytes@ =~= t.new_records@[j as int].commitment@ + t.memo@ + seq![
                t.network_id,
            ]);
        }
        proof {
            assert(n_in_count + j < total_randomizers);
        }
        let commitment = suite.local_data_commit(
            &circuit_parameters.local_data_commitment,
            &input_bytes,
            &t.local_data_commitment_randomizers[n_in_count + j],
        );
        extend_bytes(&mut new_record_commitment_bytes, &commitment);
        j += 1;
    }
    let inner1 = suite.local_data_crh(
        &circuit_parameters.local_data_crh,
        &old_record_commitment_bytes,
    );
    let inner2 = suite.local_data_crh(
        &circuit_parameters.local_data_crh,
        &new_record_commitment_bytes,
    );
    let mut inner_hash_bytes = clone_bytes(&inner1);
    extend_bytes(&mut inner_hash_bytes, &inner2);
    let root = suite.local_data_crh(&circuit_parameters.local_data_crh, &inner_hash_bytes);
    cs.alloc_input(InputCategory::LocalDataCommitment, clone_bytes(&t.local_data_commitment));
    cs.enforce(
        ConstraintKind::LocalDataCommitment,
        bytes_eq(&root, &t.local_data_commitment),
    );
    proof {
        assert(cs.inputs() =~= old(cs).inputs() + seq![
            PublicInputModel { category: InputCategory::Memo, data: t.memo@ },
            PublicInputModel { category: InputCategory::NetworkId, data: seq![t.network_id] },
            PublicInputModel {
                category: InputCategory::LocalDataCommitment,
                data: t.local_data_commitment@,
            },
        ]);
    }
}

/// Recomputes the binding-signature verification values natively, allocates
/// the value-balance magnitude and sign as public inputs, and emits the
/// binding-signature verification constraint.
fn check_binding_signature<S: SchemeSuite>(
    cs: &mut ConstraintSystem,
    suite: &S,
    circuit_parameters: &CircuitParameters,
    t: &TransactionAssignment,
) -> (r: Result<(), SynthesisError>)
    requires
        t.value_balance != i64::MIN,
    ensures
        r is Ok <==> !binding_error(*suite, *circuit_parameters, *t),
        r is Err ==> r == Err::<(), SynthesisError>(SynthesisError::AssignmentMissing),
        r is Ok ==> {
            &&& final(cs).inputs() == old(cs).inputs() + seq![
                PublicInputModel {
                    category: InputCategory::ValueBalance,
                    data: u64_le_seq(vb_magnitude(t.value_balance)),
                },
                PublicInputModel {
                    category: InputCategory::ValueBalanceSign,
                    data: bool_byte(t.value_balance < 0),
                },
            ]
            &&& (final(cs).satisfied() <==> old(cs).satisfied() && binding_ok(
                *suite,
                *circuit_parameters,
                *t,
            ))
        },
{
    let setup = match suite.binding_verification_setup(
        &circuit_parameters.value_commitment,
        &t.input_value_commitments,
        &t.output_value_commitments,
        &t.local_data_commitment,
        &t.binding_signature,
    ) {
        Some(s) => s,
        None => {
            return Err(SynthesisError::AssignmentMissing);
        },
    };
    let is_negative = t.value_balance < 0;
    let magnitude: u64 = if is_negative {
        (-(t.value_balance as i128)) as u64
    } else {
        t.value_balance as u64
    };
    proof {
        assert(magnitude == vb_magnitude(t.value_balance));
    }
    let value_balance_bytes = u64_to_le_bytes(magnitude);
    cs.alloc_input(InputCategory::ValueBalance, clone_bytes(&value_balance_bytes));
    let mut sign_byte: Vec<u8> = Vec::new();
    sign_byte.push(if is_negative { 1 } else { 0 });
    cs.alloc_input(InputCategory::ValueBalanceSign, sign_byte);
    let value_balance_commitment = suite.value_balance_commit(
        &circuit_parameters.value_commitment,
        &value_balance_bytes,
    );
    let verified = suite.binding_signature_verified(
        &setup.partial_bvk,
        &value_balance_commitment,
        is_negative,
        &setup.c,
        &setup.affine_r,
        &setup.recommit,
    );
    cs.enforce(ConstraintKind::BindingSignature, verified);
    proof {
        assert(cs.inputs() =~= old(cs).inputs() + seq![
            PublicInputModel {
                category: InputCategory::ValueBalance,
                data: u64_le_seq(vb_magnitude(t.value_balance)),
            },
            PublicInputModel {
                category: InputCategory::ValueBalanceSign,
                data: bool_byte(t.value_balance < 0),
            },
        ]);
    }
    Ok(())
}

/// Builds the whole inner circuit over one suite of schemes: the parameter
/// and digest public inputs, the per-input-record pipeline, the
/// per-output-record pipeline over the accumulated serial-number buffer, and
/// the three aggregate checks.
#[verifier::loop_isolation(false)]
fn base_dpc_execute_gadget_helper<S: SchemeSuite>(
    cs: &mut ConstraintSystem,
    suite: &S,
    config: &CircuitConfig,
    circuit_parameters: &CircuitParameters,
    ledger_parameters: &Vec<u8>,
    ledger_digest: &Vec<u8>,
    assignment: &TransactionAssignment,
) -> (r: Result<(), SynthesisError>)
    requires
        assumptions_ok(*config),
        assignment_wf(*config, *assignment),
    ensures
        r is Ok <==> !circuit_error(*suite, *config, *circuit_parameters, *assignment),
        r is Err ==> r == Err::<(), SynthesisError>(SynthesisError::AssignmentMissing),
        r is Ok ==> final(cs).inputs() == old(cs).inputs() + spec_public_inputs(
            *circuit_parameters,
            ledger_parameters@,
            ledger_digest@,
            *assignment,
        ),
        r is Ok ==> (final(cs).satisfied() <==> old(cs).satisfied() && circuit_valid(
            *suite,
            *config,
            *circuit_parameters,
            ledger_parameters@,
            ledger_digest@,
            *assignment,
        )),
{
    let t = assignment;
    declare_parameters(cs, circuit_parameters, ledger_parameters, ledger_digest);
    let ghost inputs0 = cs.inputs();
    let ghost sat0 = cs.satisfied();
    let mut sn_buffer: Vec<u8> = Vec::new();
    let mut candidate_sns: Vec<Vec<u8>> = Vec::new();
    let mut i: usize = 0;
    proof {
        assert(cs.inputs() =~= inputs0 + serial_number_inputs(*t, 0));
    }
    while i < t.old_records.len()
        invariant
            i <= t.old_records@.len(),
            cs.inputs() == inputs0 + serial_number_inputs(*t, i as int),
            cs.satisfied() <==> sat0 && (forall|ii: int|
                0 <= ii < i ==> input_ok_at(
                    *suite,
                    *circuit_parameters,
                    ledger_parameters@,
                    ledger_digest@,
                    *t,
                    ii,
                )),
            forall|ii: int| 0 <= ii < i ==> !input_error_at(*suite, *circuit_parameters, *t, ii),
            sn_buffer@ == serial_number_buffer(*suite, *circuit_parameters, *t, i as int),
            candidate_sns@.len() == i,
            forall|ii: int|
                0 <= ii < i ==> (#[trigger] candidate_sns@[ii])@ == candidate_serial_number(
                    *suite,
                    *circuit_parameters,
                    t.old_records@[ii],
                    t.old_account_private_keys@[ii],
                ),
        decreases t.old_records@.len() - i,
    {
        let res = process_input_record(
            cs,
            suite,
            circuit_parameters,
            ledger_parameters,
            ledger_digest,
            &t.old_records[i],
            &t.old_witnesses[i],
            &t.old_account_private_keys[i],
            &t.old_serial_numbers[i],
            &t.input_value_commitment_randomness[i],
            &t.input_value_commitments[i],
            &mut sn_buffer,
            &mut candidate_sns,
        );
        match res {
            Ok(()) => {},
            Err(_) => {
                proof {
                    assert(input_error_at(*suite, *circuit_parameters, *t, i as int));
                }
                return Err(SynthesisError::AssignmentMissing);
            },
        }
        proof {
            assert(serial_number_inputs(*t, i as int + 1) =~= serial_number_inputs(
                *t,
                i as int,
            ).push(
                PublicInputModel {
                    category: InputCategory::SerialNumber,
                    data: t.old_serial_numbers@[i as int]@,
                },
            ));
            assert(cs.inputs() =~= inputs0 + serial_number_inputs(*t, i as int + 1));
            assert((forall|ii: int|
                0 <= ii < i + 1 ==> input_ok_at(
                    *suite,
                    *circuit_parameters,
                    ledger_parameters@,
                    ledger_digest@,
                    *t,
                    ii,
                )) == ((forall|ii: int|
                0 <= ii < i ==> input_ok_at(
                    *suite,
                    *circuit_parameters,
                    ledger_parameters@,
                    ledger_digest@,
                    *t,
                    ii,
                )) && input_ok_at(
                *suite,
                *circuit_parameters,
                ledger_parameters@,
                ledger_digest@,
                *t,
                i as int,
            ))) by {
                if (forall|ii: int|
                    0 <= ii < i ==> input_ok_at(
                        *suite,
                        *circuit_parameters,
                        ledger_parameters@,
                        ledger_digest@,
                        *t,
                        ii,
                    )) && input_ok_at(
                    *suite,
                    *circuit_parameters,
                    ledger_parameters@,
                    ledger_digest@,
                    *t,
                    i as int,
                ) {
                    assert forall|ii: int| 0 <= ii < i + 1 implies input_ok_at(
                        *suite,
                        *circuit_parameters,
                        ledger_parameters@,
                        ledger_digest@,
                        *t,
                        ii,
                    ) by {
                        if ii < i {
                            assert(input_ok_at(
                                *suite,
                                *circuit_parameters,
                                ledger_parameters@,
                                ledger_digest@,
                                *t,
                                ii,
                            ));
                        }
                    }
                }
            }
        }
        i += 1;
    }
    let ghost inputs1 = cs.inputs();
    let ghost sat1 = cs.satisfied();
    let ghost n_in = t.old_records@.len() as int;
    let mut j: usize = 0;
    proof {
        assert(cs.inputs() =~= inputs1 + output_inputs(*t, 0));
    }
    while j < t.new_records.len()
        invariant
            j <= t.new_records@.len(),
            cs.inputs() == inputs1 + output_inputs(*t, j as int),
            cs.satisfied() <==> sat1 && (forall|jj: int|
                0 <= jj < j ==> output_ok_at(*suite, *config, *circuit_parameters, *t, jj)),
            forall|jj: int| 0 <= jj < j ==> !output_error_at(*suite, *config, *t, jj),
            sn_buffer@ == serial_number_buffer(*suite, *circuit_parameters, *t, n_in),
            candidate_sns@.len() == t.old_records@.len(),
            forall|ii: int|
                0 <= ii < t.old_records@.len() ==> (#[trigger] candidate_sns@[ii])@
                    == candidate_serial_number(
                    *suite,
                    *circuit_parameters,
                    t.old_records@[ii],
                    t.old_account_private_keys@[ii],
                ),
        decreases t.new_records@.len() - j,
    {
        proof {
            assert(crate::data::output_shape_ok(*config, *t, j as int));
        }
        let res = process_output_record(
            cs,
            suite,
            config,
            circuit_parameters,
            &t.new_records[j],
            &t.new_sn_nonce_randomness[j],
            &t.new_commitments[j],
            &t.new_records_field_elements[j],
            &t.new_records_group_encoding[j],
            &t.new_records_encryption_randomness[j],
            &t.new_records_encryption_blinding_exponents[j],
            &t.new_records_ciphertext_and_fq_high_selectors[j],
            &t.new_records_ciphertext_hashes[j],
            &t.output_value_commitment_randomness[j],
            &t.output_value_commitments[j],
            j,
            &sn_buffer,
        );
        match res {
            Ok(()) => {},
            Err(_) => {
                proof {
                    assert(output_error_at(*suite, *config, *t, j as int));
                }
                return Err(SynthesisError::AssignmentMissing);
            },
        }
        proof {
            assert(output_inputs(*t, j as int + 1) =~= output_inputs(*t, j as int).push(
                PublicInputModel {
                    category: InputCategory::OutputCommitment,
                    data: t.new_commitments@[j as int]@,
                },
            ).push(
                PublicInputModel {
                    category: InputCategory::CiphertextHash,
                    data: t.new_records_ciphertext_hashes@[j as int]@,
                },
            ));
            assert(cs.inputs() =~= inputs1 + output_inputs(*t, j as int + 1));
            assert((forall|jj: int|
                0 <= jj < j + 1 ==> output_ok_at(*suite, *config, *circuit_parameters, *t, jj))
                == ((forall|jj: int|
                0 <= jj < j ==> output_ok_at(*suite, *config, *circuit_parameters, *t, jj))
                && output_ok_at(*suite, *config, *circuit_parameters, *t, j as int))) by {
                if (forall|jj: int|
                    0 <= jj < j ==> output_ok_at(*suite, *config, *circuit_parameters, *t, jj))
                    && output_ok_at(*suite, *config, *circuit_parameters, *t, j as int) {
                    assert forall|jj: int| 0 <= jj < j + 1 implies output_ok_at(
                        *suite,
                        *config,
                        *circuit_parameters,
                        *t,
                        jj,
                    ) by {
                        if jj < j {
                            assert(output_ok_at(*suite, *config, *circuit_parameters, *t, jj));
                        }
                    }
                }
            }
        }
        j += 1;
    }
    check_predicate_commitment(cs, suite, circuit_parameters, t);
    check_local_data(cs, suite, circuit_parameters, t, &candidate_sns);
    let res = check_binding_signature(cs, suite, circuit_parameters, t);
    match res {
        Ok(()) => {},
        Err(_) => {
            return Err(SynthesisError::AssignmentMissing);
        },
    }
    proof {
        assert(cs.inputs() =~= old(cs).inputs() + spec_public_inputs(
            *circuit_parameters,
            ledger_parameters@,
            ledger_digest@,
            *t,
        ));
        assert(cs.satisfied() <==> old(cs).satisfied() && circuit_valid(
            *suite,
            *config,
            *circuit_parameters,
            ledger_parameters@,
            ledger_digest@,
            *t,
        ));
        assert(!circuit_error(*suite, *config, *circuit_parameters, *t));
    }
    Ok(())
}

/// Builds the inner transaction-validity circuit.
///
/// The bit-width assumptions of the configuration are checked first, before
/// any allocation; on violation the system is left untouched and
/// construction fails with [`SynthesisError::AssumptionViolation`]. With the
/// assumptions in force, construction fails with
/// [`SynthesisError::AssignmentMissing`] exactly when a required native
/// value cannot be produced ([`circuit_error`]); otherwise the public inputs
/// grow by [`spec_public_inputs`] — in that exact, protocol-critical order —
/// and the built system is satisfied precisely when the assignment was
/// satisfied before and the transaction is valid ([`circuit_valid`]).
pub fn execute_inner_proof_gadget<S: SchemeSuite>(
    cs: &mut ConstraintSystem,
    suite: &S,
    config: &CircuitConfig,
    circuit_parameters: &CircuitParameters,
    ledger_parameters: &Vec<u8>,
    ledger_digest: &Vec<u8>,
    assignment: &TransactionAssignment,
) -> (r: Result<(), SynthesisError>)
    requires
        assignment_wf(*config, *assignment),
    ensures
        r == Err::<(), SynthesisError>(SynthesisError::AssumptionViolation) <==> !assumptions_ok(
            *config,
        ),
        !assumptions_ok(*config) ==> *final(cs) == *old(cs),
        assumptions_ok(*config) ==> (r is Ok <==> !circuit_error(
            *suite,
            *config,
            *circuit_parameters,
            *assignment,
        )),
        r is Ok ==> final(cs).inputs() == old(cs).inputs() + spec_public_inputs(
            *circuit_parameters,
            ledger_parameters@,
            ledger_digest@,
            *assignment,
        ),
        r is Ok ==> (final(cs).satisfied() <==> old(cs).satisfied() && circuit_valid(
            *suite,
            *config,
            *circuit_parameters,
            ledger_parameters@,
            ledger_digest@,
            *assignment,
        )),
{
    if !check_assumptions(config) {
        return Err(SynthesisError::AssumptionViolation);
    }
    base_dpc_execute_gadget_helper(
        cs,
        suite,
        config,
        circuit_parameters,
        ledger_parameters,
        ledger_digest,
        assignment,
    )
}

} // verus!

