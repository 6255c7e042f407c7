//! Laws of the circuit builder, stated and proved over the same spec
//! functions its contract uses.

use vstd::prelude::*;
use crate::builder::{
    binding_error, birth_ids_concat, circuit_error, circuit_valid, death_ids_concat,
    input_error_at, input_ok_at, local_data_inner1_input, local_data_inner2_input,
    output_error_at, output_ok_at, record_commitment_input, recovery_exactly_one,
    serial_number_buffer,
};
use crate::cs::{ConstraintSystem, PublicInputModel};
use crate::data::{CircuitConfig, CircuitParameters, TransactionAssignment};
use crate::schemes::SchemeSuite;

verus! {

/// A constraint system built from a satisfied accumulator is satisfied
/// exactly when the transaction is valid: in particular, for every
/// well-formed transaction whose native invariants all hold, the produced
/// system is satisfiable with the corresponding native witness.
pub proof fn lemma_valid_transaction_satisfiable<S: SchemeSuite>(
    s: S,
    cfg: CircuitConfig,
    cp: CircuitParameters,
    ledger_parameters: Seq<u8>,
    digest: Seq<u8>,
    t: TransactionAssignment,
    before: ConstraintSystem,
    after: ConstraintSystem,
)
    requires
        before.satisfied(),
        after.satisfied() <==> before.satisfied() && circuit_valid(
            s,
            cfg,
            cp,
            ledger_parameters,
            digest,
            t,
        ),
        circuit_valid(s, cfg, cp, ledger_parameters, digest, t),
    ensures
        after.satisfied(),
{
}

/// Any tamper that makes one declared value disagree with its recomputed
/// counterpart — here, an output value commitment that no longer matches the
/// commitment recomputed from the record's value — leaves the produced
/// system unsatisfiable.
pub proof fn lemma_value_tamper_unsatisfiable<S: SchemeSuite>(
    s: S,
    cfg: CircuitConfig,
    cp: CircuitParameters,
    ledger_parameters: Seq<u8>,
    digest: Seq<u8>,
    t: TransactionAssignment,
    before: ConstraintSystem,
    after: ConstraintSystem,
    j: int,
)
    requires
        after.satisfied() <==> before.satisfied() && circuit_valid(
            s,
            cfg,
            cp,
            ledger_parameters,
            digest,
            t,
        ),
        0 <= j < t.new_records@.len(),
        s.value_commit_model(
            cp.value_commitment@,
            crate::bits::u64_le_seq(t.new_records@[j].value),
            t.output_value_commitment_randomness@[j]@,
        ) != t.output_value_commitments@[j]@,
    ensures
        !after.satisfied(),
{
    assert(!output_ok_at(s, cfg, cp, t, j));
}

/// Dummy records bypass the ledger-membership check: replacing the Merkle
/// witness of a dummy input record — by any witness whatever — changes
/// neither the validity of the transaction nor whether construction fails.
pub proof fn lemma_dummy_record_ignores_witness<S: SchemeSuite>(
    s: S,
    cfg: CircuitConfig,
    cp: CircuitParameters,
    ledger_parameters: Seq<u8>,
    digest: Seq<u8>,
    t1: TransactionAssignment,
    t2: TransactionAssignment,
    i: int,
)
    requires
        0 <= i < t1.old_records@.len(),
        t1.old_witnesses@.len() == t1.old_records@.len(),
        t1.old_records@[i].is_dummy,
        t2 == (TransactionAssignment { old_witnesses: t2.old_witnesses, ..t1 }),
        t2.old_witnesses@.len() == t1.old_witnesses@.len(),
        forall|k: int|
            0 <= k < t1.old_witnesses@.len() && k != i ==> t2.old_witnesses@[k]
                == t1.old_witnesses@[k],
    ensures
        circuit_valid(s, cfg, cp, ledger_parameters, digest, t1) == circuit_valid(
            s,
            cfg,
            cp,
            ledger_parameters,
            digest,
            t2,
        ),
        circuit_error(s, cfg, cp, t1) == circuit_error(s, cfg, cp, t2),
{
    let n_in = t1.old_records@.len() as int;
    let n_out = t1.new_records@.len() as int;
    lemma_serial_number_buffer_congruence(s, cp, t1, t2, n_in);
    lemma_death_ids_congruence(t1, t2, n_in);
    lemma_birth_ids_congruence(t1, t2, n_out);
    lemma_local_data_inner1_congruence(s, cp, t1, t2, n_in);
    lemma_local_data_inner2_congruence(s, cp, t1, t2, n_out);
    assert forall|ii: int| 0 <= ii < n_in implies input_ok_at(
        s,
        cp,
        ledger_parameters,
        digest,
        t1,
        ii,
    ) == input_ok_at(s, cp, ledger_parameters, digest, t2, ii) by {
        if ii != i {
            assert(t2.old_witnesses@[ii] == t1.old_witnesses@[ii]);
        } else {
            assert(t1.old_records@[ii].is_dummy);
        }
    }
    assert forall|jj: int| 0 <= jj < n_out implies output_ok_at(s, cfg, cp, t1, jj)
        == output_ok_at(s, cfg, cp, t2, jj) by {
        assert(serial_number_buffer(s, cp, t1, n_in) == serial_number_buffer(s, cp, t2, n_in));
    }
    assert forall|ii: int| 0 <= ii < n_in implies input_error_at(s, cp, t1, ii)
        == input_error_at(s, cp, t2, ii) by {}
    assert forall|jj: int| 0 <= jj < n_out implies output_error_at(s, cfg, t1, jj)
        == output_error_at(s, cfg, t2, jj) by {}
    assert(binding_error(s, cp, t1) == binding_error(s, cp, t2));
    if circuit_error(s, cfg, cp, t1) {
        if exists|ii: int| 0 <= ii < n_in && input_error_at(s, cp, t1, ii) {
            let w = choose|ii: int| 0 <= ii < n_in && input_error_at(s, cp, t1, ii);
            assert(input_error_at(s, cp, t2, w));
        } else if exists|jj: int| 0 <= jj < n_out && output_error_at(s, cfg, t1, jj) {
            let w = choose|jj: int| 0 <= jj < n_out && output_error_at(s, cfg, t1, jj);
            assert(output_error_at(s, cfg, t2, w));
        }
        assert(circuit_error(s, cfg, cp, t2));
    }
    if circuit_error(s, cfg, cp, t2) {
        if exists|ii: int| 0 <= ii < n_in && input_error_at(s, cp, t2, ii) {
            let w = choose|ii: int| 0 <= ii < n_in && input_error_at(s, cp, t2, ii);
            assert(input_error_at(s, cp, t1, w));
        } else if exists|jj: int| 0 <= jj < n_out && output_error_at(s, cfg, t2, jj) {
            let w = choose|jj: int| 0 <= jj < n_out && output_error_at(s, cfg, t2, jj);
            assert(output_error_at(s, cfg, t1, w));
        }
        assert(circuit_error(s, cfg, cp, t1));
    }
}

/// The serial-number buffer reads only the input records and account keys.
proof fn lemma_serial_number_buffer_congruence<S: SchemeSuite>(
    s: S,
    cp: CircuitParameters,
    t1: TransactionAssignment,
    t2: TransactionAssignment,
    n: int,
)
    requires
        t2.old_records == t1.old_records,
        t2.old_account_private_keys == t1.old_account_private_keys,
    ensures
        serial_number_buffer(s, cp, t1, n) == serial_number_buffer(s, cp, t2, n),
    decreases n,
{
    if n > 0 {
        lemma_serial_number_buffer_congruence(s, cp, t1, t2, n - 1);
    }
}

/// The predicate-identifier concatenations read only the records.
proof fn lemma_death_ids_congruence(t1: TransactionAssignment, t2: TransactionAssignment, n: int)
    requires
        t2.old_records == t1.old_records,
    ensures
        death_ids_concat(t1, n) == death_ids_concat(t2, n),
    decreases n,
{
    if n > 0 {
        lemma_death_ids_congruence(t1, t2, n - 1);
    }
}

/// The predicate-identifier concatenations read only the records.
proof fn lemma_birth_ids_congruence(t1: TransactionAssignment, t2: TransactionAssignment, n: int)
    requires
        t2.new_records == t1.new_records,
    ensures
        birth_ids_concat(t1, n) == birth_ids_concat(t2, n),
    decreases n,
{
    if n > 0 {
        lemma_birth_ids_congruence(t1, t2, n - 1);
    }
}

/// The input-side local-data commitments read only the records, keys,
/// randomizers, memo and network id.
proof fn lemma_local_data_inner1_congruence<S: SchemeSuite>(
    s: S,
    cp: CircuitParameters,
    t1: TransactionAssignment,
    t2: TransactionAssignment,
    n: int,
)
    requires
        t2.old_records == t1.old_records,
        t2.old_account_private_keys == t1.old_account_private_keys,
        t2.local_data_commitment_randomizers == t1.local_data_commitment_randomizers,
        t2.memo == t1.memo,
        t2.network_id == t1.network_id,
    ensures
        local_data_inner1_input(s, cp, t1, n) == local_data_inner1_input(s, cp, t2, n),
    decreases n,
{
    if n > 0 {
        lemma_local_data_inner1_congruence(s, cp, t1, t2, n - 1);
    }
}

/// The output-side local-data commitments read only the records,
/// randomizers, memo and network id.
proof fn lemma_local_data_inner2_congruence<S: SchemeSuite>(
    s: S,
    cp: CircuitParameters,
    t1: TransactionAssignment,
    t2: TransactionAssignment,
    n: int,
)
    requires
        t2.old_records == t1.old_records,
        t2.new_records == t1.new_records,
        t2.local_data_commitment_randomizers == t1.local_data_commitment_randomizers,
        t2.memo == t1.memo,
        t2.network_id == t1.network_id,
    ensures
        local_data_inner2_input(s, cp, t1, n) == local_data_inner2_input(s, cp, t2, n),
    decreases n,
{
    if n > 0 {
        lemma_local_data_inner2_congruence(s, cp, t1, t2, n - 1);
    }
}

/// A dummy record is still held to the remaining well-formedness checks: in
/// any satisfied system built over a valid accumulator, a dummy input record
/// has value zero and a correctly derived commitment.
pub proof fn lemma_dummy_record_still_well_formed<S: SchemeSuite>(
    s: S,
    cfg: CircuitConfig,
    cp: CircuitParameters,
    ledger_parameters: Seq<u8>,
    digest: Seq<u8>,
    t: TransactionAssignment,
    before: ConstraintSystem,
    after: ConstraintSystem,
    i: int,
)
    requires
        after.satisfied() <==> before.satisfied() && circuit_valid(
            s,
            cfg,
            cp,
            ledger_parameters,
            digest,
            t,
        ),
        after.satisfied(),
        0 <= i < t.old_records@.len(),
        t.old_records@[i].is_dummy,
    ensures
        t.old_records@[i].value == 0,
        s.record_commit_model(
            cp.record_commitment@,
            record_commitment_input(t.old_records@[i]),
            t.old_records@[i].commitment_randomness@,
        ) == t.old_records@[i].commitment@,
{
    assert(input_ok_at(s, cp, ledger_parameters, digest, t, i));
}

/// In any satisfied system, exactly one of the two elliptic-curve recovery
/// relations holds for every recovered field element of every output record
/// — never both and never neither.
pub proof fn lemma_exactly_one_recovery<S: SchemeSuite>(
    s: S,
    cfg: CircuitConfig,
    cp: CircuitParameters,
    ledger_parameters: Seq<u8>,
    digest: Seq<u8>,
    t: TransactionAssignment,
    before: ConstraintSystem,
    after: ConstraintSystem,
)
    requires
        after.satisfied() <==> before.satisfied() && circuit_valid(
            s,
            cfg,
            cp,
            ledger_parameters,
            digest,
            t,
        ),
        after.satisfied(),
    ensures
        forall|j: int, i: int|
            0 <= j < t.new_records@.len() && 1 <= i < t.new_records_field_elements@[j]@.len()
                ==> recovery_exactly_one(
                cfg,
                t.new_records_field_elements@[j]@[i],
                t.new_records_group_encoding@[j]@[i].y,
            ),
{
    assert forall|j: int, i: int|
        0 <= j < t.new_records@.len() && 1 <= i
            < t.new_records_field_elements@[j]@.len() implies recovery_exactly_one(
        cfg,
        t.new_records_field_elements@[j]@[i],
        t.new_records_group_encoding@[j]@[i].y,
    ) by {
        assert(output_ok_at(s, cfg, cp, t, j));
    }
}

/// The public-input order is load-bearing: reordering two public inputs of
/// unequal value yields a different public-input sequence, so a verifier
/// that reconstructs the sequence in the fixed protocol order rejects the
/// reordered one even though every value is unchanged.
pub proof fn lemma_public_input_order_is_binding(
    inputs: Seq<PublicInputModel>,
    a: int,
    b: int,
)
    requires
        0 <= a < inputs.len(),
        0 <= b < inputs.len(),
        a != b,
        inputs[a] != inputs[b],
    ensures
        inputs.update(a, inputs[b]).update(b, inputs[a]) != inputs,
{
    let swapped = inputs.update(a, inputs[b]).update(b, inputs[a]);
    assert(swapped[a] == inputs[b]);
}

} // verus!
