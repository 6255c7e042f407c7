//! End-to-end scenarios for the inner circuit builder over the transparent
//! scheme suite.

use dpc_circuit::bits::{bits_to_bytes, bytes_to_bits, u64_to_le_bytes};
use dpc_circuit::builder::execute_inner_proof_gadget;
use dpc_circuit::cs::{ConstraintSystem, InputCategory};
use dpc_circuit::data::{
    AccountPrivateKey, CircuitConfig, CircuitParameters, FpPair, MerklePath, Record, SelectorBits,
    SynthesisError, TransactionAssignment,
};
use dpc_circuit::field::{field_add, field_inv, field_mul, field_neg};
use dpc_circuit::packing::record_elements;
use dpc_circuit::schemes::SchemeSuite;
use dpc_circuit::transparent::{
    digest9_exec, fold8, push_frame, push_frames, TransparentSuite, TAG_BINDING_BVK,
    TAG_BINDING_CHALLENGE, TAG_MERKLE_LEAF, TAG_MERKLE_NODE,
};

const MODULUS: u128 = (1u128 << 89) - 1;

fn test_config() -> CircuitConfig {
    CircuitConfig {
        modulus: MODULUS,
        base_field_bits: 89,
        scalar_field_bits: 80,
        outer_field_bits: 96,
        mont_a: 6,
        mont_b: 2,
        te_d: 5,
    }
}

fn test_parameters() -> CircuitParameters {
    CircuitParameters {
        account_commitment: vec![1],
        account_encryption: vec![2],
        account_signature: vec![3],
        record_commitment: vec![4],
        record_ciphertext_crh: vec![5],
        predicate_verification_key_commitment: vec![6],
        local_data_crh: vec![7],
        local_data_commitment: vec![8],
        serial_number_nonce: vec![9],
        value_commitment: vec![10],
    }
}

fn record_commitment_input_bytes(r: &Record) -> Vec<u8> {
    let mut out = r.owner.clone();
    out.push(if r.is_dummy { 1 } else { 0 });
    out.extend_from_slice(&u64_to_le_bytes(r.value));
    out.extend_from_slice(&r.payload);
    out.extend_from_slice(&r.birth_predicate_id);
    out.extend_from_slice(&r.death_predicate_id);
    out.extend_from_slice(&r.serial_number_nonce);
    out
}

fn bits_value_u128(bits: &[bool]) -> u128 {
    let mut v = 0u128;
    for (k, b) in bits.iter().enumerate() {
        if *b {
            v |= 1u128 << k;
        }
    }
    v
}

struct InputSpec {
    value: u64,
    is_dummy: bool,
    seed: Vec<u8>,
}

fn real_input(value: u64, tag: u8) -> InputSpec {
    InputSpec { value, is_dummy: false, seed: vec![tag, tag + 1] }
}

fn dummy_input(value: u64, tag: u8) -> InputSpec {
    InputSpec { value, is_dummy: true, seed: vec![tag, tag + 2] }
}

/// Builds a fully consistent transaction assignment: every declared value is
/// recomputed with the transparent suite, real input records get a valid
/// Merkle witness under the returned digest, dummy records get a junk
/// witness.
fn build_transaction(
    input_specs: &[InputSpec],
    output_values: &[u64],
    value_balance: i64,
) -> (CircuitConfig, CircuitParameters, Vec<u8>, Vec<u8>, TransactionAssignment) {
    let cfg = test_config();
    let cp = test_parameters();
    let suite = TransparentSuite;
    let ledger_parameters = vec![11u8];
    let memo = vec![7u8; 32];
    let network_id = 1u8;

    let mut old_records: Vec<Record> = Vec::new();
    let mut old_account_private_keys: Vec<AccountPrivateKey> = Vec::new();
    let mut old_serial_numbers: Vec<Vec<u8>> = Vec::new();
    let mut input_value_commitments: Vec<Vec<u8>> = Vec::new();
    let mut input_value_commitment_randomness: Vec<Vec<u8>> = Vec::new();
    let mut candidate_sns: Vec<Vec<u8>> = Vec::new();
    let mut sn_buffer: Vec<u8> = Vec::new();

    for (i, spec) in input_specs.iter().enumerate() {
        let idx = i as u8;
        let key = AccountPrivateKey {
            seed: spec.seed.clone(),
            sk_prf: vec![20 + idx, 21],
            r_pk: vec![30 + idx, 31],
        };
        let view_key = suite
            .derive_decryption_key(
                &cp.account_signature,
                &cp.account_commitment,
                &key.seed,
                &key.sk_prf,
                &key.r_pk,
            )
            .unwrap();
        let owner = suite.derive_encryption_public_key(&cp.account_encryption, &view_key);
        let mut r = Record {
            owner,
            is_dummy: spec.is_dummy,
            value: spec.value,
            payload: Vec::new(),
            birth_predicate_id: vec![40 + idx; 12],
            death_predicate_id: vec![50 + idx; 12],
            serial_number_nonce: vec![60 + idx; 4],
            commitment_randomness: vec![70 + idx; 4],
            commitment: Vec::new(),
        };
        r.commitment = suite.record_commit(
            &cp.record_commitment,
            &record_commitment_input_bytes(&r),
            &r.commitment_randomness,
        );
        let pk_sig = suite
            .derive_signature_public_key(&cp.account_signature, &key.seed)
            .unwrap();
        let randomizer = suite.prf(&key.sk_prf, &r.serial_number_nonce);
        let sn = suite.randomize_public_key(&cp.account_signature, &pk_sig, &randomizer);
        sn_buffer.extend_from_slice(&sn);
        candidate_sns.push(sn.clone());
        old_serial_numbers.push(sn);
        let vcr = vec![80 + idx, 81, 82];
        let vc = suite.value_commit(&cp.value_commitment, &u64_to_le_bytes(r.value), &vcr);
        input_value_commitments.push(vc);
        input_value_commitment_randomness.push(vcr);
        old_records.push(r);
        old_account_private_keys.push(key);
    }

    // Merkle membership: real records stand in a small tree; dummies get a
    // junk witness.
    let real_indices: Vec<usize> = input_specs
        .iter()
        .enumerate()
        .filter(|(_, s)| !s.is_dummy)
        .map(|(i, _)| i)
        .collect();
    let leaf_digests: Vec<Vec<u8>> = real_indices
        .iter()
        .map(|&i| digest9_exec(TAG_MERKLE_LEAF, &ledger_parameters, &old_records[i].commitment))
        .collect();
    let (ledger_digest, real_witnesses): (Vec<u8>, Vec<MerklePath>) = match leaf_digests.len() {
        0 => (vec![12u8; 4], Vec::new()),
        1 => (
            leaf_digests[0].clone(),
            vec![MerklePath { siblings: Vec::new(), positions: Vec::new() }],
        ),
        2 => {
            let mut children: Vec<u8> = Vec::new();
            push_frame(&mut children, &leaf_digests[0]);
            push_frame(&mut children, &leaf_digests[1]);
            let root = digest9_exec(TAG_MERKLE_NODE, &ledger_parameters, &children);
            (
                root,
                vec![
                    MerklePath {
                        siblings: vec![leaf_digests[1].clone()],
                        positions: vec![false],
                    },
                    MerklePath {
                        siblings: vec![leaf_digests[0].clone()],
                        positions: vec![true],
                    },
                ],
            )
        },
        _ => panic!("at most two real input records in these scenarios"),
    };
    let mut old_witnesses: Vec<MerklePath> = Vec::new();
    let mut next_real: usize = 0;
    for spec in input_specs.iter() {
        if spec.is_dummy {
            old_witnesses.push(MerklePath {
                siblings: vec![vec![9, 9, 9]],
                positions: vec![true],
            });
        } else {
            old_witnesses.push(real_witnesses[next_real].clone());
            next_real += 1;
        }
    }

    let mut new_records: Vec<Record> = Vec::new();
    let mut new_sn_nonce_randomness: Vec<Vec<u8>> = Vec::new();
    let mut new_commitments: Vec<Vec<u8>> = Vec::new();
    let mut new_records_field_elements: Vec<Vec<u128>> = Vec::new();
    let mut new_records_group_encoding: Vec<Vec<FpPair>> = Vec::new();
    let mut new_records_encryption_randomness: Vec<Vec<u8>> = Vec::new();
    let mut new_records_encryption_blinding_exponents: Vec<Vec<Vec<u8>>> = Vec::new();
    let mut new_records_ciphertext_and_fq_high_selectors: Vec<SelectorBits> = Vec::new();
    let mut new_records_ciphertext_hashes: Vec<Vec<u8>> = Vec::new();
    let mut output_value_commitments: Vec<Vec<u8>> = Vec::new();
    let mut output_value_commitment_randomness: Vec<Vec<u8>> = Vec::new();

    for (j, &value) in output_values.iter().enumerate() {
        let idx = j as u8;
        let mut nonce_input = vec![idx];
        let nonce_rand = vec![100 + idx, 101, 102];
        nonce_input.extend_from_slice(&nonce_rand);
        nonce_input.extend_from_slice(&sn_buffer);
        let nonce = suite.serial_number_nonce_crh(&cp.serial_number_nonce, &nonce_input);
        let mut r = Record {
            owner: vec![90 + idx; 5],
            is_dummy: false,
            value,
            payload: Vec::new(),
            birth_predicate_id: vec![110 + idx; 12],
            death_predicate_id: vec![120 + idx; 12],
            serial_number_nonce: nonce,
            commitment_randomness: vec![130 + idx; 4],
            commitment: Vec::new(),
        };
        r.commitment = suite.record_commit(
            &cp.record_commitment,
            &record_commitment_input_bytes(&r),
            &r.commitment_randomness,
        );
        let selectors = SelectorBits {
            ciphertext: vec![true, false, true],
            fq_high: vec![false, true],
        };
        let fq_used = vec![false];
        let nonce_bits = bytes_to_bits(&r.serial_number_nonce);
        let rand_bits = bytes_to_bits(&r.commitment_randomness);
        let birth_bits = bytes_to_bits(&r.birth_predicate_id);
        let death_bits = bytes_to_bits(&r.death_predicate_id);
        let payload_bits = bytes_to_bits(&r.payload);
        let value_bits = bytes_to_bits(&u64_to_le_bytes(r.value));
        let expected = record_elements(
            &cfg,
            &nonce_bits,
            &rand_bits,
            &birth_bits,
            &death_bits,
            &payload_bits,
            &value_bits,
            &fq_used,
        );
        let fe: Vec<u128> = expected.iter().map(|bits| bits_value_u128(bits)).collect();
        let m = cfg.modulus;
        let b_inv = field_inv(m, cfg.mont_b).unwrap();
        let a_c = field_mul(m, cfg.mont_a, b_inv);
        let ua = field_mul(m, a_c, cfg.te_d);
        let mut ge = vec![FpPair { x: 3, y: 4 }];
        for i in 1..fe.len() {
            let e = fe[i];
            let e2 = field_mul(m, e, e);
            // Solve the first recovery relation for x, then the Montgomery
            // relation for y.
            let denom = field_add(m, field_mul(m, e2, cfg.te_d), 1);
            let x = field_mul(
                m,
                field_mul(m, field_neg(m, e2), ua),
                field_inv(m, denom).unwrap(),
            );
            let xb = field_mul(m, x, cfg.mont_b);
            let y = field_mul(
                m,
                field_add(m, xb, field_neg(m, 1)),
                field_inv(m, field_add(m, xb, 1)).unwrap(),
            );
            ge.push(FpPair { x, y });
        }
        let enc_rand = vec![140 + idx, 141];
        let blinding = vec![vec![150 + idx, 151], vec![152 + idx, 153]];
        let mut plaintext: Vec<Vec<u8>> = Vec::new();
        for p in &ge {
            plaintext.push(suite.group_element_from_coordinates(p.x, p.y).unwrap());
        }
        let ciphertext = suite.encrypt(&cp.account_encryption, &enc_rand, &r.owner, &plaintext, &blinding);
        let mut sel_bits = selectors.ciphertext.clone();
        sel_bits.push(*selectors.fq_high.last().unwrap());
        let sel_bytes = bits_to_bytes(&sel_bits);
        let mut hash_input = ciphertext.clone();
        hash_input.extend_from_slice(&sel_bytes);
        let ct_hash = suite.record_ciphertext_crh(&cp.record_ciphertext_crh, &hash_input);
        let vcr = vec![160 + idx, 161];
        let vc = suite.value_commit(&cp.value_commitment, &u64_to_le_bytes(r.value), &vcr);
        new_commitments.push(r.commitment.clone());
        new_sn_nonce_randomness.push(nonce_rand);
        new_records_field_elements.push(fe);
        new_records_group_encoding.push(ge);
        new_records_encryption_randomness.push(enc_rand);
        new_records_encryption_blinding_exponents.push(blinding);
        new_records_ciphertext_and_fq_high_selectors.push(selectors);
        new_records_ciphertext_hashes.push(ct_hash);
        output_value_commitments.push(vc);
        output_value_commitment_randomness.push(vcr);
        new_records.push(r);
    }

    let mut predicate_input: Vec<u8> = Vec::new();
    for r in &old_records {
        predicate_input.extend_from_slice(&r.death_predicate_id);
    }
    for r in &new_records {
        predicate_input.extend_from_slice(&r.birth_predicate_id);
    }
    let predicate_randomness = vec![170u8, 171];
    let predicate_commitment = suite.predicate_commit(
        &cp.predicate_verification_key_commitment,
        &predicate_input,
        &predicate_randomness,
    );

    let n_in = old_records.len();
    let n_out = new_records.len();
    let local_data_commitment_randomizers: Vec<Vec<u8>> =
        (0..n_in + n_out).map(|k| vec![180 + k as u8, 181]).collect();
    let mut old_bytes: Vec<u8> = Vec::new();
    for i in 0..n_in {
        let mut input_bytes = candidate_sns[i].clone();
        input_bytes.extend_from_slice(&old_records[i].commitment);
        input_bytes.extend_from_slice(&memo);
        input_bytes.push(network_id);
        let c = suite.local_data_commit(
            &cp.local_data_commitment,
            &input_bytes,
            &local_data_commitment_randomizers[i],
        );
        old_bytes.extend_from_slice(&c);
    }
    let mut new_bytes: Vec<u8> = Vec::new();
    for j in 0..n_out {
        let mut input_bytes = new_records[j].commitment.clone();
        input_bytes.extend_from_slice(&memo);
        input_bytes.push(network_id);
        let c = suite.local_data_commit(
            &cp.local_data_commitment,
            &input_bytes,
            &local_data_commitment_randomizers[n_in + j],
        );
        new_bytes.extend_from_slice(&c);
    }
    let inner1 = suite.local_data_crh(&cp.local_data_crh, &old_bytes);
    let inner2 = suite.local_data_crh(&cp.local_data_crh, &new_bytes);
    let mut inner = inner1.clone();
    inner.extend_from_slice(&inner2);
    let local_data_commitment = suite.local_data_crh(&cp.local_data_crh, &inner);

    // Binding signature: build the byte string the transparent relation
    // accepts for these verification values.
    let c = digest9_exec(TAG_BINDING_CHALLENGE, &cp.value_commitment, &local_data_commitment);
    let mut bvk_input: Vec<u8> = Vec::new();
    push_frame(&mut bvk_input, &cp.value_commitment);
    push_frames(&mut bvk_input, &input_value_commitments);
    push_frames(&mut bvk_input, &output_value_commitments);
    let mut partial_bvk = vec![TAG_BINDING_BVK];
    partial_bvk.extend_from_slice(&fold8(&bvk_input));
    let magnitude = if value_balance < 0 {
        (-(value_balance as i128)) as u64
    } else {
        value_balance as u64
    };
    let vbc = suite.value_balance_commit(&cp.value_commitment, &u64_to_le_bytes(magnitude));
    let binding_signature =
        suite.binding_relation_bytes_exec(&partial_bvk, &vbc, value_balance < 0, &c);

    let t = TransactionAssignment {
        old_records,
        old_witnesses,
        old_account_private_keys,
        old_serial_numbers,
        new_records,
        new_sn_nonce_randomness,
        new_commitments,
        new_records_field_elements,
        new_records_group_encoding,
        new_records_encryption_randomness,
        new_records_encryption_blinding_exponents,
        new_records_ciphertext_and_fq_high_selectors,
        new_records_ciphertext_hashes,
        predicate_commitment,
        predicate_randomness,
        local_data_commitment,
        local_data_commitment_randomizers,
        memo,
        input_value_commitments,
        input_value_commitment_randomness,
        output_value_commitments,
        output_value_commitment_randomness,
        value_balance,
        binding_signature,
        network_id,
    };
    (cfg, cp, ledger_parameters, ledger_digest, t)
}

fn run(
    cfg: &CircuitConfig,
    cp: &CircuitParameters,
    lp: &Vec<u8>,
    digest: &Vec<u8>,
    t: &TransactionAssignment,
) -> (Result<(), SynthesisError>, ConstraintSystem) {
    let suite = TransparentSuite;
    let mut cs = ConstraintSystem::new();
    let r = execute_inner_proof_gadget(&mut cs, &suite, cfg, cp, lp, digest, t);
    (r, cs)
}

fn failing_kinds(cs: &ConstraintSystem) -> Vec<String> {
    cs.constraints
        .iter()
        .filter(|c| !c.holds)
        .map(|c| format!("{:?}", c.kind))
        .collect()
}

#[test]
fn two_inputs_two_outputs_satisfiable() {
    let (cfg, cp, lp, digest, t) = build_transaction(
        &[real_input(10, 1), dummy_input(0, 2)],
        &[7, 3],
        0,
    );
    let (r, cs) = run(&cfg, &cp, &lp, &digest, &t);
    assert_eq!(r, Ok(()));
    assert!(cs.is_satisfied(), "failing constraints: {:?}", failing_kinds(&cs));
}

#[test]
fn tampered_output_value_unsatisfiable() {
    let (cfg, cp, lp, digest, mut t) = build_transaction(
        &[real_input(10, 1), dummy_input(0, 2)],
        &[7, 3],
        0,
    );
    // Mutate the second output's value without updating its commitment or
    // encryption.
    t.new_records[1].value = 4;
    let (r, cs) = run(&cfg, &cp, &lp, &digest, &t);
    assert_eq!(r, Ok(()));
    assert!(!cs.is_satisfied());
}

#[test]
fn tampered_output_commitment_unsatisfiable() {
    let (cfg, cp, lp, digest, mut t) = build_transaction(
        &[real_input(10, 1), dummy_input(0, 2)],
        &[7, 3],
        0,
    );
    t.new_commitments[0][0] ^= 1;
    let (r, cs) = run(&cfg, &cp, &lp, &digest, &t);
    assert_eq!(r, Ok(()));
    assert!(!cs.is_satisfied());
}

#[test]
fn tampered_serial_number_unsatisfiable() {
    let (cfg, cp, lp, digest, mut t) = build_transaction(
        &[real_input(10, 1), dummy_input(0, 2)],
        &[7, 3],
        0,
    );
    t.old_serial_numbers[0][0] ^= 1;
    let (r, cs) = run(&cfg, &cp, &lp, &digest, &t);
    assert_eq!(r, Ok(()));
    assert!(!cs.is_satisfied());
}

#[test]
fn dummy_record_skips_ledger_membership() {
    // The dummy input record carries a junk witness and its commitment is
    // nowhere near the ledger digest, yet the system is satisfiable.
    let (cfg, cp, lp, digest, mut t) = build_transaction(
        &[real_input(10, 1), dummy_input(0, 2)],
        &[7, 3],
        0,
    );
    t.old_witnesses[1].siblings = vec![vec![255, 254, 253]];
    t.old_witnesses[1].positions = vec![false];
    let (r, cs) = run(&cfg, &cp, &lp, &digest, &t);
    assert_eq!(r, Ok(()));
    assert!(cs.is_satisfied(), "failing constraints: {:?}", failing_kinds(&cs));
}

#[test]
fn real_record_needs_ledger_membership() {
    let (cfg, cp, lp, digest, mut t) = build_transaction(
        &[real_input(10, 1), dummy_input(0, 2)],
        &[7, 3],
        0,
    );
    // Corrupt the real record's witness.
    t.old_witnesses[0].siblings = vec![vec![255, 254, 253]];
    t.old_witnesses[0].positions = vec![false];
    let (r, cs) = run(&cfg, &cp, &lp, &digest, &t);
    assert_eq!(r, Ok(()));
    assert!(!cs.is_satisfied());
}

#[test]
fn dummy_record_with_value_unsatisfiable() {
    // Everything is derived consistently, but the dummy record carries a
    // non-zero value: only the dummy-value constraint can fail.
    let (cfg, cp, lp, digest, t) = build_transaction(
        &[real_input(10, 1), dummy_input(1, 2)],
        &[7, 3],
        0,
    );
    let (r, cs) = run(&cfg, &cp, &lp, &digest, &t);
    assert_eq!(r, Ok(()));
    assert!(!cs.is_satisfied());
    assert_eq!(failing_kinds(&cs), vec!["InputDummyValueZero".to_string()]);
}

#[test]
fn negative_value_balance_verifies() {
    let (cfg, cp, lp, digest, t) = build_transaction(
        &[real_input(5, 1), dummy_input(0, 2)],
        &[10],
        -5,
    );
    let (r, cs) = run(&cfg, &cp, &lp, &digest, &t);
    assert_eq!(r, Ok(()));
    assert!(cs.is_satisfied(), "failing constraints: {:?}", failing_kinds(&cs));
    // The magnitude bytes and the sign bit stand as the last two public
    // inputs.
    let n = cs.public_inputs.len();
    assert_eq!(cs.public_inputs[n - 2].category, InputCategory::ValueBalance);
    assert_eq!(cs.public_inputs[n - 2].data, u64_to_le_bytes(5));
    assert_eq!(cs.public_inputs[n - 1].category, InputCategory::ValueBalanceSign);
    assert_eq!(cs.public_inputs[n - 1].data, vec![1u8]);
}

#[test]
fn flipped_value_balance_sign_fails_binding_signature() {
    let (cfg, cp, lp, digest, mut t) = build_transaction(
        &[real_input(5, 1), dummy_input(0, 2)],
        &[10],
        -5,
    );
    // Same magnitude, opposite sign, stale binding signature.
    t.value_balance = 5;
    let (r, cs) = run(&cfg, &cp, &lp, &digest, &t);
    assert_eq!(r, Ok(()));
    assert!(!cs.is_satisfied());
    assert_eq!(failing_kinds(&cs), vec!["BindingSignature".to_string()]);
}

#[test]
fn public_inputs_follow_protocol_order() {
    let (cfg, cp, lp, digest, t) = build_transaction(
        &[real_input(10, 1), dummy_input(0, 2)],
        &[7, 3],
        0,
    );
    let (r, cs) = run(&cfg, &cp, &lp, &digest, &t);
    assert_eq!(r, Ok(()));
    let categories: Vec<InputCategory> =
        cs.public_inputs.iter().map(|p| p.category).collect();
    let expected = vec![
        InputCategory::AccountCommitmentParameters,
        InputCategory::AccountEncryptionParameters,
        InputCategory::AccountSignatureParameters,
        InputCategory::RecordCommitmentParameters,
        InputCategory::RecordCiphertextCrhParameters,
        InputCategory::PredicateVkCommitmentParameters,
        InputCategory::LocalDataCrhParameters,
        InputCategory::LocalDataCommitmentParameters,
        InputCategory::SerialNumberNonceCrhParameters,
        InputCategory::ValueCommitmentParameters,
        InputCategory::LedgerParameters,
        InputCategory::LedgerDigest,
        InputCategory::SerialNumber,
        InputCategory::SerialNumber,
        InputCategory::OutputCommitment,
        InputCategory::CiphertextHash,
        InputCategory::OutputCommitment,
        InputCategory::CiphertextHash,
        InputCategory::PredicateCommitment,
        InputCategory::Memo,
        InputCategory::NetworkId,
        InputCategory::LocalDataCommitment,
        InputCategory::ValueBalance,
        InputCategory::ValueBalanceSign,
    ];
    assert_eq!(categories, expected);
    assert_eq!(cs.public_inputs[12].data, t.old_serial_numbers[0]);
    assert_eq!(cs.public_inputs[14].data, t.new_commitments[0]);
}

#[test]
fn reordered_public_inputs_differ() {
    let (cfg, cp, lp, digest, t) = build_transaction(
        &[real_input(10, 1), dummy_input(0, 2)],
        &[7, 3],
        0,
    );
    let (r, cs) = run(&cfg, &cp, &lp, &digest, &t);
    assert_eq!(r, Ok(()));
    // Swap two public-input categories while keeping all values: the
    // sequence a verifier reconstructs no longer matches.
    let mut swapped = cs.public_inputs.clone();
    swapped.swap(12, 14);
    assert_ne!(swapped, cs.public_inputs);
}

#[test]
fn assumption_violation_fails_fast() {
    let (mut cfg, cp, lp, digest, t) = build_transaction(
        &[real_input(10, 1), dummy_input(0, 2)],
        &[7, 3],
        0,
    );
    // The scalar field must be strictly narrower than the base field.
    cfg.scalar_field_bits = 89;
    let suite = TransparentSuite;
    let mut cs = ConstraintSystem::new();
    let r = execute_inner_proof_gadget(&mut cs, &suite, &cfg, &cp, &lp, &digest, &t);
    assert_eq!(r, Err(SynthesisError::AssumptionViolation));
    assert!(cs.public_inputs.is_empty());
    assert!(cs.constraints.is_empty());
}

#[test]
fn empty_account_seed_is_assignment_missing() {
    let (cfg, cp, lp, digest, mut t) = build_transaction(
        &[real_input(10, 1), dummy_input(0, 2)],
        &[7, 3],
        0,
    );
    // The transparent suite derives no signature key from an empty seed.
    t.old_account_private_keys[0].seed = Vec::new();
    let (r, _cs) = run(&cfg, &cp, &lp, &digest, &t);
    assert_eq!(r, Err(SynthesisError::AssignmentMissing));
}

#[test]
fn empty_binding_signature_is_assignment_missing() {
    let (cfg, cp, lp, digest, mut t) = build_transaction(
        &[real_input(10, 1), dummy_input(0, 2)],
        &[7, 3],
        0,
    );
    t.binding_signature = Vec::new();
    let (r, _cs) = run(&cfg, &cp, &lp, &digest, &t);
    assert_eq!(r, Err(SynthesisError::AssignmentMissing));
}

#[test]
fn non_invertible_recovery_denominator_is_assignment_missing() {
    let (cfg, cp, lp, digest, mut t) = build_transaction(
        &[real_input(10, 1), dummy_input(0, 2)],
        &[7, 3],
        0,
    );
    // With y = 1 the recovery denominator 1 - y is zero.
    t.new_records_group_encoding[0][1].y = 1;
    let (r, _cs) = run(&cfg, &cp, &lp, &digest, &t);
    assert_eq!(r, Err(SynthesisError::AssignmentMissing));
}

#[test]
fn tampered_recovery_element_unsatisfiable() {
    let (cfg, cp, lp, digest, mut t) = build_transaction(
        &[real_input(10, 1), dummy_input(0, 2)],
        &[7, 3],
        0,
    );
    // Move one paired y-coordinate off its solution: the element no longer
    // satisfies exactly one recovery relation (and the plaintext changes).
    let y = t.new_records_group_encoding[0][1].y;
    t.new_records_group_encoding[0][1].y = field_add(MODULUS, y, 2);
    let (r, cs) = run(&cfg, &cp, &lp, &digest, &t);
    assert_eq!(r, Ok(()));
    assert!(!cs.is_satisfied());
}
