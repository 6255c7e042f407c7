//! The capability suite of cryptographic schemes the circuit builder
//! consumes.
//!
//! The builder is generic over one implementation of [`SchemeSuite`],
//! bundling the commitment schemes, the collision-resistant hashes, the
//! encryption scheme, the pseudorandom function, the signature scheme, the
//! Merkle-path checker and the binding-signature algebra. Each executable
//! method promises to agree with its own mathematical model (the paired
//! `spec` function), so everything the builder proves about the emitted
//! constraints holds for any implementation that meets these contracts.
//! Scheme parameters are carried as opaque byte strings.

use vstd::prelude::*;
use crate::data::MerklePath;

verus! {

/// The recomputed verification values of a binding signature: the challenge,
/// the partial verification key, the ephemeral point, and the re-commitment.
#[derive(Clone, Debug)]
pub struct BindingSetup {
    pub c: Vec<u8>,
    pub partial_bvk: Vec<u8>,
    pub affine_r: Vec<u8>,
    pub recommit: Vec<u8>,
}

/// The mathematical value of a [`BindingSetup`].
pub ghost struct BindingSetupModel {
    pub c: Seq<u8>,
    pub partial_bvk: Seq<u8>,
    pub affine_r: Seq<u8>,
    pub recommit: Seq<u8>,
}

impl View for BindingSetup {
    type V = BindingSetupModel;

    open spec fn view(&self) -> BindingSetupModel {
        BindingSetupModel {
            c: self.c@,
            partial_bvk: self.partial_bvk@,
            affine_r: self.affine_r@,
            recommit: self.recommit@,
        }
    }
}

/// The capability set of schemes one circuit construction consumes.
pub trait SchemeSuite: Sized {
    /// Model of the account commitment scheme.
    spec fn account_commit_model(self, parameters: Seq<u8>, input: Seq<u8>, randomness: Seq<u8>) -> Seq<u8>;

    /// Model of the record commitment scheme.
    spec fn record_commit_model(self, parameters: Seq<u8>, input: Seq<u8>, randomness: Seq<u8>) -> Seq<u8>;

    /// Model of the predicate-verification-key commitment scheme.
    spec fn predicate_commit_model(self, parameters: Seq<u8>, input: Seq<u8>, randomness: Seq<u8>) -> Seq<u8>;

    /// Model of the local-data commitment scheme.
    spec fn local_data_commit_model(self, parameters: Seq<u8>, input: Seq<u8>, randomness: Seq<u8>) -> Seq<u8>;

    /// Model of the value commitment scheme.
    spec fn value_commit_model(self, parameters: Seq<u8>, input: Seq<u8>, randomness: Seq<u8>) -> Seq<u8>;

    /// Model of the record-ciphertext collision-resistant hash.
    spec fn record_ciphertext_crh_model(self, parameters: Seq<u8>, input: Seq<u8>) -> Seq<u8>;

    /// Model of the local-data collision-resistant hash.
    spec fn local_data_crh_model(self, parameters: Seq<u8>, input: Seq<u8>) -> Seq<u8>;

    /// Model of the serial-number-nonce collision-resistant hash.
    spec fn serial_number_nonce_crh_model(self, parameters: Seq<u8>, input: Seq<u8>) -> Seq<u8>;

    /// Model of the pseudorandom function.
    spec fn prf_model(self, seed: Seq<u8>, input: Seq<u8>) -> Seq<u8>;

    /// Model of the signature scheme's public-key randomization.
    spec fn randomize_public_key_model(self, parameters: Seq<u8>, public_key: Seq<u8>, randomizer: Seq<u8>) -> Seq<u8>;

    /// Model of the signature public key derived from an account seed;
    /// `None` when the seed admits no key.
    spec fn derive_signature_public_key_model(self, parameters: Seq<u8>, seed: Seq<u8>) -> Option<Seq<u8>>;

    /// Model of the account decryption (view) key derived from an account
    /// private key; `None` when the derivation fails.
    spec fn derive_decryption_key_model(self, signature_parameters: Seq<u8>, commitment_parameters: Seq<u8>, seed: Seq<u8>, sk_prf: Seq<u8>, r_pk: Seq<u8>) -> Option<Seq<u8>>;

    /// Model of the encryption scheme's public-key derivation from a view
    /// key.
    spec fn derive_encryption_public_key_model(self, parameters: Seq<u8>, decryption_key: Seq<u8>) -> Seq<u8>;

    /// Model of the Merkle membership check of `leaf` under `root`.
    spec fn merkle_path_valid_model(self, parameters: Seq<u8>, leaf: Seq<u8>, path: MerklePath, root: Seq<u8>) -> bool;

    /// Model of reading one curve point from its two coordinate
    /// serializations; `None` when the coordinates are not a point of the
    /// encryption group.
    spec fn group_element_model(self, x: u128, y: u128) -> Option<Seq<u8>>;

    /// Model of the account encryption of a plaintext (a sequence of group
    /// elements) under the given randomness and blinding exponents.
    spec fn encrypt_model(self, parameters: Seq<u8>, randomness: Seq<u8>, public_key: Seq<u8>, plaintext: Seq<Seq<u8>>, blinding_exponents: Seq<Seq<u8>>) -> Seq<u8>;

    /// Model of the native recomputation of the binding-signature
    /// verification values; `None` when the signature bytes are malformed.
    spec fn binding_setup_model(self, parameters: Seq<u8>, input_value_commitments: Seq<Seq<u8>>, output_value_commitments: Seq<Seq<u8>>, message: Seq<u8>, signature: Seq<u8>) -> Option<BindingSetupModel>;

    /// Model of the commitment to the value-balance magnitude.
    spec fn value_balance_commit_model(self, parameters: Seq<u8>, value_balance_bytes: Seq<u8>) -> Seq<u8>;

    /// Model of the algebraic binding-signature verification relation.
    spec fn binding_signature_verified_model(self, partial_bvk: Seq<u8>, value_balance_commitment: Seq<u8>, is_negative: bool, c: Seq<u8>, affine_r: Seq<u8>, recommit: Seq<u8>) -> bool;

    /// Commits under the account commitment scheme.
    fn account_commit(&self, parameters: &Vec<u8>, input: &Vec<u8>, randomness: &Vec<u8>) -> (out: Vec<u8>)
        ensures
            out@ == self.account_commit_model(parameters@, input@, randomness@),
    ;

    /// Commits under the record commitment scheme.
    fn record_commit(&self, parameters: &Vec<u8>, input: &Vec<u8>, randomness: &Vec<u8>) -> (out: Vec<u8>)
        ensures
            out@ == self.record_commit_model(parameters@, input@, randomness@),
    ;

    /// Commits under the predicate-verification-key commitment scheme.
    fn predicate_commit(&self, parameters: &Vec<u8>, input: &Vec<u8>, randomness: &Vec<u8>) -> (out: Vec<u8>)
        ensures
            out@ == self.predicate_commit_model(parameters@, input@, randomness@),
    ;

    /// Commits under the local-data commitment scheme.
    fn local_data_commit(&self, parameters: &Vec<u8>, input: &Vec<u8>, randomness: &Vec<u8>) -> (out: Vec<u8>)
        ensures
            out@ == self.local_data_commit_model(parameters@, input@, randomness@),
    ;

    /// Commits under the value commitment scheme.
    fn value_commit(&self, parameters: &Vec<u8>, input: &Vec<u8>, randomness: &Vec<u8>) -> (out: Vec<u8>)
        ensures
            out@ == self.value_commit_model(parameters@, input@, randomness@),
    ;

    /// Hashes under the record-ciphertext collision-resistant hash.
    fn record_ciphertext_crh(&self, parameters: &Vec<u8>, input: &Vec<u8>) -> (out: Vec<u8>)
        ensures
            out@ == self.record_ciphertext_crh_model(parameters@, input@),
    ;

    /// Hashes under the local-data collision-resistant hash.
    fn local_data_crh(&self, parameters: &Vec<u8>, input: &Vec<u8>) -> (out: Vec<u8>)
        ensures
            out@ == self.local_data_crh_model(parameters@, input@),
    ;

    /// Hashes under the serial-number-nonce collision-resistant hash.
    fn serial_number_nonce_crh(&self, parameters: &Vec<u8>, input: &Vec<u8>) -> (out: Vec<u8>)
        ensures
            out@ == self.serial_number_nonce_crh_model(parameters@, input@),
    ;

    /// Evaluates the pseudorandom function.
    fn prf(&self, seed: &Vec<u8>, input: &Vec<u8>) -> (out: Vec<u8>)
        ensures
            out@ == self.prf_model(seed@, input@),
    ;

    /// Randomizes a signature public key.
    fn randomize_public_key(&self, parameters: &Vec<u8>, public_key: &Vec<u8>, randomizer: &Vec<u8>) -> (out: Vec<u8>)
        ensures
            out@ == self.randomize_public_key_model(parameters@, public_key@, randomizer@),
    ;

    /// Derives the signature public key of an account seed.
    fn derive_signature_public_key(&self, parameters: &Vec<u8>, seed: &Vec<u8>) -> (out: Option<Vec<u8>>)
        ensures
            out is Some <==> self.derive_signature_public_key_model(parameters@, seed@) is Some,
            out matches Some(k) ==> self.derive_signature_public_key_model(parameters@, seed@)
                == Some(k@),
    ;

    /// Derives the account decryption (view) key of an account private key.
    fn derive_decryption_key(&self, signature_parameters: &Vec<u8>, commitment_parameters: &Vec<u8>, seed: &Vec<u8>, sk_prf: &Vec<u8>, r_pk: &Vec<u8>) -> (out: Option<Vec<u8>>)
        ensures
            out is Some <==> self.derive_decryption_key_model(
                signature_parameters@,
                commitment_parameters@,
                seed@,
                sk_prf@,
                r_pk@,
            ) is Some,
            out matches Some(k) ==> self.derive_decryption_key_model(
                signature_parameters@,
                commitment_parameters@,
                seed@,
                sk_prf@,
                r_pk@,
            ) == Some(k@),
    ;

    /// Derives the encryption public key of a view key.
    fn derive_encryption_public_key(&self, parameters: &Vec<u8>, decryption_key: &Vec<u8>) -> (out: Vec<u8>)
        ensures
            out@ == self.derive_encryption_public_key_model(parameters@, decryption_key@),
    ;

    /// Checks a Merkle membership witness.
    fn merkle_path_valid(&self, parameters: &Vec<u8>, leaf: &Vec<u8>, path: &MerklePath, root: &Vec<u8>) -> (out: bool)
        ensures
            out == self.merkle_path_valid_model(parameters@, leaf@, *path, root@),
    ;

    /// Reads one curve point from its coordinates.
    fn group_element_from_coordinates(&self, x: u128, y: u128) -> (out: Option<Vec<u8>>)
        ensures
            out is Some <==> self.group_element_model(x, y) is Some,
            out matches Some(p) ==> self.group_element_model(x, y) == Some(p@),
    ;

    /// Encrypts a plaintext under the account encryption scheme.
    fn encrypt(&self, parameters: &Vec<u8>, randomness: &Vec<u8>, public_key: &Vec<u8>, plaintext: &Vec<Vec<u8>>, blinding_exponents: &Vec<Vec<u8>>) -> (out: Vec<u8>)
        ensures
            out@ == self.encrypt_model(
                parameters@,
                randomness@,
                public_key@,
                plaintext.deep_view(),
                blinding_exponents.deep_view(),
            ),
    ;

    /// Recomputes the binding-signature verification values natively.
    fn binding_verification_setup(&self, parameters: &Vec<u8>, input_value_commitments: &Vec<Vec<u8>>, output_value_commitments: &Vec<Vec<u8>>, message: &Vec<u8>, signature: &Vec<u8>) -> (out: Option<BindingSetup>)
        ensures
            out is Some <==> self.binding_setup_model(
                parameters@,
                input_value_commitments.deep_view(),
                output_value_commitments.deep_view(),
                message@,
                signature@,
            ) is Some,
            out matches Some(b) ==> self.binding_setup_model(
                parameters@,
                input_value_commitments.deep_view(),
                output_value_commitments.deep_view(),
                message@,
                signature@,
            ) == Some(b@),
    ;

    /// Commits to the value-balance magnitude.
    fn value_balance_commit(&self, parameters: &Vec<u8>, value_balance_bytes: &Vec<u8>) -> (out: Vec<u8>)
        ensures
            out@ == self.value_balance_commit_model(parameters@, value_balance_bytes@),
    ;

    /// Checks the algebraic binding-signature verification relation.
    fn binding_signature_verified(&self, partial_bvk: &Vec<u8>, value_balance_commitment: &Vec<u8>, is_negative: bool, c: &Vec<u8>, affine_r: &Vec<u8>, recommit: &Vec<u8>) -> (out: bool)
        ensures
            out == self.binding_signature_verified_model(
                partial_bvk@,
                value_balance_commitment@,
                is_negative,
                c@,
                affine_r@,
                recommit@,
            ),
    ;
}

} // verus!
