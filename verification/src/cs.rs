//! The constraint-system model.
//!
//! The builder runs with a full witness, so every constraint it emits is
//! either satisfied or violated by the values at hand. The model therefore
//! records, for each emitted constraint, which check it belongs to and
//! whether the assignment satisfies it, and keeps the public inputs as an
//! ordered sequence — their allocation order is part of the protocol
//! contract. Witness allocations carry no observable information and are not
//! recorded.

use vstd::prelude::*;

verus! {

/// The categories of public input, in the order the protocol fixes them.
#[derive(Clone, Copy, PartialEq, Eq, Debug, Structural)]
pub enum InputCategory {
    AccountCommitmentParameters,
    AccountEncryptionParameters,
    AccountSignatureParameters,
    RecordCommitmentParameters,
    RecordCiphertextCrhParameters,
    PredicateVkCommitmentParameters,
    LocalDataCrhParameters,
    LocalDataCommitmentParameters,
    SerialNumberNonceCrhParameters,
    ValueCommitmentParameters,
    LedgerParameters,
    LedgerDigest,
    SerialNumber,
    OutputCommitment,
    CiphertextHash,
    PredicateCommitment,
    Memo,
    NetworkId,
    LocalDataCommitment,
    ValueBalance,
    ValueBalanceSign,
}

/// One allocated public input: its category and its byte value.
#[derive(Clone, PartialEq, Eq, Debug)]
pub struct PublicInput {
    pub category: InputCategory,
    pub data: Vec<u8>,
}

/// The mathematical value of a public input.
pub ghost struct PublicInputModel {
    pub category: InputCategory,
    pub data: Seq<u8>,
}

impl View for PublicInput {
    type V = PublicInputModel;

    open spec fn view(&self) -> PublicInputModel {
        PublicInputModel { category: self.category, data: self.data@ }
    }
}

/// The checks a constraint can belong to.
#[derive(Clone, Copy, PartialEq, Eq, Debug, Structural)]
pub enum ConstraintKind {
    LedgerMembership,
    AccountViewKey,
    RecordOwner,
    SerialNumberDerivation,
    InputValueCommitment,
    InputDummyValueZero,
    InputRecordCommitment,
    OutputSerialNumberNonce,
    OutputValueCommitment,
    OutputDummyValueZero,
    OutputCommitmentMatchesPublic,
    OutputCommitmentMatchesDeclared,
    SerializedNonce,
    SerializedCommitmentRandomness,
    SerializedBirthPredicateId,
    SerializedDeathPredicateId,
    SerializedPredicateRemainder,
    SerializedPayloadElement,
    GroupRecovery,
    CiphertextHash,
    PredicateCommitment,
    LocalDataCommitment,
    BindingSignature,
}

/// One emitted constraint: the check it belongs to and whether the witness
/// assignment satisfies it.
#[derive(Clone, Copy, PartialEq, Eq, Structural, Debug)]
pub struct Constraint {
    pub kind: ConstraintKind,
    pub holds: bool,
}

/// Every constraint in the sequence is satisfied.
pub open spec fn all_hold(cs: Seq<Constraint>) -> bool {
    forall|k: int| 0 <= k < cs.len() ==> cs[k].holds
}

/// Appending constraints conjoins their satisfaction.
pub proof fn lemma_all_hold_push(s: Seq<Constraint>, c: Constraint)
    ensures
        all_hold(s.push(c)) == (all_hold(s) && c.holds),
{
    if all_hold(s) && c.holds {
        assert forall|k: int| 0 <= k < s.push(c).len() implies s.push(c)[k].holds by {
            if k < s.len() {
                assert(s[k].holds);
            }
        }
    }
    if all_hold(s.push(c)) {
        assert forall|k: int| 0 <= k < s.len() implies s[k].holds by {
            assert(s.push(c)[k].holds);
        }
        assert(s.push(c)[s.len() as int].holds);
    }
}

/// The mutable accumulator of public inputs and constraints.
pub struct ConstraintSystem {
    pub public_inputs: Vec<PublicInput>,
    pub constraints: Vec<Constraint>,
}

impl ConstraintSystem {
    /// The public inputs as mathematical values, in allocation order.
    pub open spec fn inputs(self) -> Seq<PublicInputModel> {
        Seq::new(self.public_inputs@.len(), |i: int| self.public_inputs@[i]@)
    }

    /// The system is satisfied by the assignment it was built with.
    pub open spec fn satisfied(self) -> bool {
        all_hold(self.constraints@)
    }

    /// An empty system.
    pub fn new() -> (r: ConstraintSystem)
        ensures
            r.inputs() == Seq::<PublicInputModel>::empty(),
            r.constraints@ == Seq::<Constraint>::empty(),
            r.satisfied(),
    {
        let r = ConstraintSystem { public_inputs: Vec::new(), constraints: Vec::new() };
        proof {
            assert(r.inputs() =~= Seq::<PublicInputModel>::empty());
        }
        r
    }

    /// Allocates one public input.
    pub fn alloc_input(&mut self, category: InputCategory, data: Vec<u8>)
        ensures
            final(self).inputs() == old(self).inputs().push(
                PublicInputModel { category, data: data@ },
            ),
            final(self).constraints@ == old(self).constraints@,
    {
        let ghost d = data@;
        self.public_inputs.push(PublicInput { category, data });
        proof {
            assert(self.inputs() =~= old(self).inputs().push(
                PublicInputModel { category, data: d },
            ));
        }
    }

    /// Emits one constraint, recording whether the assignment satisfies it.
    pub fn enforce(&mut self, kind: ConstraintKind, holds: bool)
        ensures
            final(self).constraints@ == old(self).constraints@.push(Constraint { kind, holds }),
            final(self).inputs() == old(self).inputs(),
            final(self).satisfied() == (old(self).satisfied() && holds),
    {
        self.constraints.push(Constraint { kind, holds });
        proof {
            assert(self.inputs() =~= old(self).inputs());
            lemma_all_hold_push(old(self).constraints@, Constraint { kind, holds });
        }
    }

    /// Whether every emitted constraint is satisfied.
    pub fn is_satisfied(&self) -> (r: bool)
        ensures
            r == self.satisfied(),
    {
        let mut k: usize = 0;
        while k < self.constraints.len()
            invariant
                k <= self.constraints@.len(),
                forall|t: int| 0 <= t < k ==> self.constraints@[t].holds,
            decreases self.constraints@.len() - k,
        {
            if !self.constraints[k].holds {
                return false;
            }
            k += 1;
        }
        true
    }
}

} // verus!
