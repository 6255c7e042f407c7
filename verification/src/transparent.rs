//! A transparent, non-hiding instantiation of the scheme suite.
//!
//! Commitments and derived keys are length-framed, tagged concatenations of
//! their arguments; hashes compress their input by position-wise wrapping
//! byte addition into a fixed-width digest; the binding signature is the
//! byte string the verification relation expects. The suite hides nothing
//! and binds only structurally, but it meets every contract of
//! [`SchemeSuite`], so circuits built over it exercise the full builder.

use vstd::prelude::*;
use crate::bits::{bytes_eq, extend_bytes, u64_le_seq, u64_to_le_bytes, fe_to_le_bytes, spec_fe_le_bytes};
use crate::data::MerklePath;
use crate::schemes::{BindingSetup, BindingSetupModel, SchemeSuite};

verus! {

pub const TAG_ACCOUNT_COMMIT: u8 = 1;
pub const TAG_RECORD_COMMIT: u8 = 2;
pub const TAG_PREDICATE_COMMIT: u8 = 3;
pub const TAG_LOCAL_DATA_COMMIT: u8 = 4;
pub const TAG_VALUE_COMMIT: u8 = 5;
pub const TAG_RECORD_CIPHERTEXT_CRH: u8 = 6;
pub const TAG_LOCAL_DATA_CRH: u8 = 7;
pub const TAG_SERIAL_NUMBER_NONCE_CRH: u8 = 8;
pub const TAG_PRF: u8 = 9;
pub const TAG_RANDOMIZE: u8 = 10;
pub const TAG_SIGNATURE_PUBLIC_KEY: u8 = 11;
pub const TAG_ENCRYPTION_PUBLIC_KEY: u8 = 12;
pub const TAG_MERKLE_LEAF: u8 = 13;
pub const TAG_MERKLE_NODE: u8 = 14;
pub const TAG_POINT: u8 = 15;
pub const TAG_ENCRYPT: u8 = 16;
pub const TAG_BINDING_CHALLENGE: u8 = 17;
pub const TAG_BINDING_BVK: u8 = 18;
pub const TAG_BINDING_EPHEMERAL: u8 = 19;
pub const TAG_BINDING_RELATION: u8 = 20;
pub const TAG_VALUE_BALANCE_COMMIT: u8 = 21;

/// A byte string prefixed by its 64-bit little-endian length.
pub open spec fn frame_spec(s: Seq<u8>) -> Seq<u8> {
    u64_le_seq(s.len() as u64) + s
}

/// Framed concatenation of several byte strings.
pub open spec fn frames_of(s: Seq<Seq<u8>>) -> Seq<u8>
    decreases s.len(),
{
    if s.len() == 0 {
        Seq::empty()
    } else {
        frames_of(s.drop_last()) + frame_spec(s.last())
    }
}

/// Position-wise wrapping byte addition.
pub open spec fn wrap_add(a: u8, b: u8) -> u8 {
    (((a as nat) + (b as nat)) % 256) as u8
}

/// The eight-byte zero digest.
pub open spec fn zeros8() -> Seq<u8> {
    seq![0u8, 0u8, 0u8, 0u8, 0u8, 0u8, 0u8, 0u8]
}

/// Compresses a byte string into eight bytes by wrapping addition at
/// position `i % 8`.
pub open spec fn fold8_spec(s: Seq<u8>) -> Seq<u8>
    decreases s.len(),
{
    if s.len() == 0 {
        zeros8()
    } else {
        let p = fold8_spec(s.drop_last());
        let idx = (((s.len() - 1) as nat) % 8) as int;
        p.update(idx, wrap_add(p[idx], s.last()))
    }
}

/// The compressed digest keeps its eight-byte width.
pub proof fn lemma_fold8_len(s: Seq<u8>)
    ensures
        fold8_spec(s).len() == 8,
    decreases s.len(),
{
    if s.len() > 0 {
        lemma_fold8_len(s.drop_last());
    }
}

/// A tag byte followed by two framed arguments.
pub open spec fn tagged2(tag: u8, a: Seq<u8>, b: Seq<u8>) -> Seq<u8> {
    seq![tag] + frame_spec(a) + frame_spec(b)
}

/// A tag byte followed by three framed arguments.
pub open spec fn tagged3(tag: u8, a: Seq<u8>, b: Seq<u8>, c: Seq<u8>) -> Seq<u8> {
    seq![tag] + frame_spec(a) + frame_spec(b) + frame_spec(c)
}

/// A tag byte followed by the compressed digest of two framed arguments.
pub open spec fn digest9(tag: u8, a: Seq<u8>, b: Seq<u8>) -> Seq<u8> {
    seq![tag] + fold8_spec(frame_spec(a) + frame_spec(b))
}

/// One Merkle node digest over two framed children.
pub open spec fn merkle_node(parameters: Seq<u8>, left: Seq<u8>, right: Seq<u8>) -> Seq<u8> {
    digest9(TAG_MERKLE_NODE, parameters, frame_spec(left) + frame_spec(right))
}

/// Folds a membership path from level `i` upward, starting at digest `cur`.
pub open spec fn merkle_fold(parameters: Seq<u8>, cur: Seq<u8>, path: MerklePath, i: int) -> Seq<u8>
    decreases path.siblings@.len() - i,
{
    if i < 0 || i >= path.siblings@.len() {
        cur
    } else {
        let sibling = path.siblings@[i]@;
        let next = if i < path.positions@.len() && path.positions@[i] {
            merkle_node(parameters, sibling, cur)
        } else {
            merkle_node(parameters, cur, sibling)
        };
        merkle_fold(parameters, next, path, i + 1)
    }
}

/// The byte string the transparent binding-signature relation expects as
/// its re-commitment.
pub open spec fn binding_relation_bytes(
    partial_bvk: Seq<u8>,
    value_balance_commitment: Seq<u8>,
    is_negative: bool,
    c: Seq<u8>,
) -> Seq<u8> {
    seq![TAG_BINDING_RELATION] + frame_spec(partial_bvk) + frame_spec(value_balance_commitment)
        + seq![if is_negative { 1u8 } else { 0u8 }] + frame_spec(c)
}

/// Appends a framed copy of `s` to `out`.
pub fn push_frame(out: &mut Vec<u8>, s: &Vec<u8>)
    ensures
        final(out)@ == old(out)@ + frame_spec(s@),
{
    let len_bytes = u64_to_le_bytes(s.len() as u64);
    extend_bytes(out, &len_bytes);
    extend_bytes(out, s);
    proof {
        assert(final(out)@ =~= old(out)@ + frame_spec(s@));
    }
}

/// Appends a framed copy of every string in `s` to `out`.
#[verifier::loop_isolation(false)]
pub fn push_frames(out: &mut Vec<u8>, s: &Vec<Vec<u8>>)
    ensures
        final(out)@ == old(out)@ + frames_of(s.deep_view()),
{
    let mut i: usize = 0;
    proof {
        assert(out@ =~= old(out)@ + frames_of(s.deep_view().take(0)));
    }
    while i < s.len()
        invariant
            i <= s@.len(),
            out@ == old(out)@ + frames_of(s.deep_view().take(i as int)),
        decreases s@.len() - i,
    {
        let si = &s[i];
        proof {
            assert(s@[i as int].deep_view() =~= si@);
        }
        push_frame(out, si);
        proof {
            let pre = s.deep_view().take(i as int);
            let post = s.deep_view().take(i as int + 1);
            assert(post.drop_last() =~= pre);
            assert(post.last() == s.deep_view()[i as int]);
            assert(s.deep_view()[i as int] == si@);
            assert(out@ == old(out)@ + frames_of(pre) + frame_spec(si@));
            assert(out@ =~= old(out)@ + frames_of(post));
        }
        i += 1;
    }
    proof {
        assert(s.deep_view().take(s@.len() as int) =~= s.deep_view());
    }
}

/// Compresses a byte string into eight bytes.
#[verifier::loop_isolation(false)]
pub fn fold8(input: &Vec<u8>) -> (out: Vec<u8>)
    ensures
        out@ == fold8_spec(input@),
{
    let mut out: Vec<u8> = Vec::new();
    let mut z: usize = 0;
    while z < 8
        invariant
            z <= 8,
            out@.len() == z,
            forall|t: int| 0 <= t < z ==> out@[t] == 0u8,
        decreases 8 - z,
    {
        out.push(0);
        z += 1;
    }
    proof {
        assert(out@ =~= zeros8());
        assert(input@.take(0) =~= Seq::<u8>::empty());
    }
    let mut j: usize = 0;
    while j < input.len()
        invariant
            j <= input@.len(),
            out@.len() == 8,
            out@ == fold8_spec(input@.take(j as int)),
        decreases input@.len() - j,
    {
        let idx = j % 8;
        proof {
            vstd::arithmetic::div_mod::lemma_mod_bound(j as int, 8);
        }
        let cur = out[idx];
        let nv = (((cur as u16) + (input[j] as u16)) % 256) as u8;
        out[idx] = nv;
        proof {
            let pre = input@.take(j as int);
            let post = input@.take(j as int + 1);
            assert(post.drop_last() =~= pre);
            assert(post.last() == input@[j as int]);
            assert(out@ =~= fold8_spec(post));
        }
        j += 1;
    }
    proof {
        assert(input@.take(input@.len() as int) =~= input@);
    }
    out
}

/// Builds a tag byte followed by two framed arguments.
pub fn tagged2_exec(tag: u8, a: &Vec<u8>, b: &Vec<u8>) -> (out: Vec<u8>)
    ensures
        out@ == tagged2(tag, a@, b@),
{
    let mut out: Vec<u8> = Vec::new();
    out.push(tag);
    push_frame(&mut out, a);
    push_frame(&mut out, b);
    proof {
        assert(out@ =~= tagged2(tag, a@, b@));
    }
    out
}

/// Builds a tag byte followed by three framed arguments.
pub fn tagged3_exec(tag: u8, a: &Vec<u8>, b: &Vec<u8>, c: &Vec<u8>) -> (out: Vec<u8>)
    ensures
        out@ == tagged3(tag, a@, b@, c@),
{
    let mut out: Vec<u8> = Vec::new();
    out.push(tag);
    push_frame(&mut out, a);
    push_frame(&mut out, b);
    push_frame(&mut out, c);
    proof {
        assert(out@ =~= tagged3(tag, a@, b@, c@));
    }
    out
}

/// Builds a tag byte followed by the digest of two framed arguments.
pub fn digest9_exec(tag: u8, a: &Vec<u8>, b: &Vec<u8>) -> (out: Vec<u8>)
    ensures
        out@ == digest9(tag, a@, b@),
{
    let mut input: Vec<u8> = Vec::new();
    push_frame(&mut input, a);
    push_frame(&mut input, b);
    let digest = fold8(&input);
    let mut out: Vec<u8> = Vec::new();
    out.push(tag);
    extend_bytes(&mut out, &digest);
    proof {
        assert(input@ =~= frame_spec(a@) + frame_spec(b@));
        assert(out@ =~= digest9(tag, a@, b@));
    }
    out
}

/// The transparent scheme suite.
#[derive(Clone, Copy, Debug)]
pub struct TransparentSuite;

impl TransparentSuite {
    /// Builds the binding signature that the transparent relation accepts
    /// for the given verification values.
    pub fn binding_relation_bytes_exec(
        &self,
        partial_bvk: &Vec<u8>,
        value_balance_commitment: &Vec<u8>,
        is_negative: bool,
        c: &Vec<u8>,
    ) -> (out: Vec<u8>)
        ensures
            out@ == binding_relation_bytes(
                partial_bvk@,
                value_balance_commitment@,
                is_negative,
                c@,
            ),
    {
        let mut out: Vec<u8> = Vec::new();
        out.push(TAG_BINDING_RELATION);
        push_frame(&mut out, partial_bvk);
        push_frame(&mut out, value_balance_commitment);
        out.push(if is_negative { 1 } else { 0 });
        push_frame(&mut out, c);
        proof {
            assert(out@ =~= binding_relation_bytes(
                partial_bvk@,
                value_balance_commitment@,
                is_negative,
                c@,
            ));
        }
        out
    }
}

impl SchemeSuite for TransparentSuite {
    open spec fn account_commit_model(self, parameters: Seq<u8>, input: Seq<u8>, randomness: Seq<u8>) -> Seq<u8> {
        tagged3(TAG_ACCOUNT_COMMIT, parameters, input, randomness)
    }

    open spec fn record_commit_model(self, parameters: Seq<u8>, input: Seq<u8>, randomness: Seq<u8>) -> Seq<u8> {
        tagged3(TAG_RECORD_COMMIT, parameters, input, randomness)
    }

    open spec fn predicate_commit_model(self, parameters: Seq<u8>, input: Seq<u8>, randomness: Seq<u8>) -> Seq<u8> {
        tagged3(TAG_PREDICATE_COMMIT, parameters, input, randomness)
    }

    open spec fn local_data_commit_model(self, parameters: Seq<u8>, input: Seq<u8>, randomness: Seq<u8>) -> Seq<u8> {
        tagged3(TAG_LOCAL_DATA_COMMIT, parameters, input, randomness)
    }

    open spec fn value_commit_model(self, parameters: Seq<u8>, input: Seq<u8>, randomness: Seq<u8>) -> Seq<u8> {
        tagged3(TAG_VALUE_COMMIT, parameters, input, randomness)
    }

    open spec fn record_ciphertext_crh_model(self, parameters: Seq<u8>, input: Seq<u8>) -> Seq<u8> {
        digest9(TAG_RECORD_CIPHERTEXT_CRH, parameters, input)
    }

    open spec fn local_data_crh_model(self, parameters: Seq<u8>, input: Seq<u8>) -> Seq<u8> {
        digest9(TAG_LOCAL_DATA_CRH, parameters, input)
    }

    open spec fn serial_number_nonce_crh_model(self, parameters: Seq<u8>, input: Seq<u8>) -> Seq<u8> {
        digest9(TAG_SERIAL_NUMBER_NONCE_CRH, parameters, input)
    }

    open spec fn prf_model(self, seed: Seq<u8>, input: Seq<u8>) -> Seq<u8> {
        digest9(TAG_PRF, seed, input)
    }

    open spec fn randomize_public_key_model(self, parameters: Seq<u8>, public_key: Seq<u8>, randomizer: Seq<u8>) -> Seq<u8> {
        tagged3(TAG_RANDOMIZE, parameters, public_key, randomizer)
    }

    open spec fn derive_signature_public_key_model(self, parameters: Seq<u8>, seed: Seq<u8>) -> Option<Seq<u8>> {
        if seed.len() == 0 {
            None
        } else {
            Some(tagged2(TAG_SIGNATURE_PUBLIC_KEY, parameters, seed))
        }
    }

    open spec fn derive_decryption_key_model(self, signature_parameters: Seq<u8>, commitment_parameters: Seq<u8>, seed: Seq<u8>, sk_prf: Seq<u8>, r_pk: Seq<u8>) -> Option<Seq<u8>> {
        if seed.len() == 0 {
            None
        } else {
            let pk_sig = tagged2(TAG_SIGNATURE_PUBLIC_KEY, signature_parameters, seed);
            Some(tagged3(TAG_ACCOUNT_COMMIT, commitment_parameters, pk_sig + sk_prf, r_pk))
        }
    }

    open spec fn derive_encryption_public_key_model(self, parameters: Seq<u8>, decryption_key: Seq<u8>) -> Seq<u8> {
        tagged2(TAG_ENCRYPTION_PUBLIC_KEY, parameters, decryption_key)
    }

    open spec fn merkle_path_valid_model(self, parameters: Seq<u8>, leaf: Seq<u8>, path: MerklePath, root: Seq<u8>) -> bool {
        root == merkle_fold(parameters, digest9(TAG_MERKLE_LEAF, parameters, leaf), path, 0)
    }

    open spec fn group_element_model(self, x: u128, y: u128) -> Option<Seq<u8>> {
        Some(seq![TAG_POINT] + spec_fe_le_bytes(x, 16) + spec_fe_le_bytes(y, 16))
    }

    open spec fn encrypt_model(self, parameters: Seq<u8>, randomness: Seq<u8>, public_key: Seq<u8>, plaintext: Seq<Seq<u8>>, blinding_exponents: Seq<Seq<u8>>) -> Seq<u8> {
        seq![TAG_ENCRYPT] + frame_spec(parameters) + frame_spec(randomness) + frame_spec(public_key)
            + frames_of(plaintext) + frames_of(blinding_exponents)
    }

    open spec fn binding_setup_model(self, parameters: Seq<u8>, input_value_commitments: Seq<Seq<u8>>, output_value_commitments: Seq<Seq<u8>>, message: Seq<u8>, signature: Seq<u8>) -> Option<BindingSetupModel> {
        if signature.len() == 0 {
            None
        } else {
            Some(BindingSetupModel {
                c: digest9(TAG_BINDING_CHALLENGE, parameters, message),
                partial_bvk: seq![TAG_BINDING_BVK] + fold8_spec(
                    frame_spec(parameters) + frames_of(input_value_commitments) + frames_of(
                        output_value_commitments,
                    ),
                ),
                affine_r: digest9(TAG_BINDING_EPHEMERAL, parameters, signature),
                recommit: signature,
            })
        }
    }

    open spec fn value_balance_commit_model(self, parameters: Seq<u8>, value_balance_bytes: Seq<u8>) -> Seq<u8> {
        tagged2(TAG_VALUE_BALANCE_COMMIT, parameters, value_balance_bytes)
    }

    open spec fn binding_signature_verified_model(self, partial_bvk: Seq<u8>, value_balance_commitment: Seq<u8>, is_negative: bool, c: Seq<u8>, affine_r: Seq<u8>, recommit: Seq<u8>) -> bool {
        recommit == binding_relation_bytes(partial_bvk, value_balance_commitment, is_negative, c)
    }

    fn account_commit(&self, parameters: &Vec<u8>, input: &Vec<u8>, randomness: &Vec<u8>) -> (out: Vec<u8>) {
        tagged3_exec(TAG_ACCOUNT_COMMIT, parameters, input, randomness)
    }

    fn record_commit(&self, parameters: &Vec<u8>, input: &Vec<u8>, randomness: &Vec<u8>) -> (out: Vec<u8>) {
        tagged3_exec(TAG_RECORD_COMMIT, parameters, input, randomness)
    }

    fn predicate_commit(&self, parameters: &Vec<u8>, input: &Vec<u8>, randomness: &Vec<u8>) -> (out: Vec<u8>) {
        tagged3_exec(TAG_PREDICATE_COMMIT, parameters, input, randomness)
    }

    fn local_data_commit(&self, parameters: &Vec<u8>, input: &Vec<u8>, randomness: &Vec<u8>) -> (out: Vec<u8>) {
        tagged3_exec(TAG_LOCAL_DATA_COMMIT, parameters, input, randomness)
    }

    fn value_commit(&self, parameters: &Vec<u8>, input: &Vec<u8>, randomness: &Vec<u8>) -> (out: Vec<u8>) {
        tagged3_exec(TAG_VALUE_COMMIT, parameters, input, randomness)
    }

    fn record_ciphertext_crh(&self, parameters: &Vec<u8>, input: &Vec<u8>) -> (out: Vec<u8>) {
        digest9_exec(TAG_RECORD_CIPHERTEXT_CRH, parameters, input)
    }

    fn local_data_crh(&self, parameters: &Vec<u8>, input: &Vec<u8>) -> (out: Vec<u8>) {
        digest9_exec(TAG_LOCAL_DATA_CRH, parameters, input)
    }

    fn serial_number_nonce_crh(&self, parameters: &Vec<u8>, input: &Vec<u8>) -> (out: Vec<u8>) {
        digest9_exec(TAG_SERIAL_NUMBER_NONCE_CRH, parameters, input)
    }

    fn prf(&self, seed: &Vec<u8>, input: &Vec<u8>) -> (out: Vec<u8>) {
        digest9_exec(TAG_PRF, seed, input)
    }

    fn randomize_public_key(&self, parameters: &Vec<u8>, public_key: &Vec<u8>, randomizer: &Vec<u8>) -> (out: Vec<u8>) {
        tagged3_exec(TAG_RANDOMIZE, parameters, public_key, randomizer)
    }

    fn derive_signature_public_key(&self, parameters: &Vec<u8>, seed: &Vec<u8>) -> (out: Option<Vec<u8>>) {
        if seed.len() == 0 {
            None
        } else {
            Some(tagged2_exec(TAG_SIGNATURE_PUBLIC_KEY, parameters, seed))
        }
    }

    fn derive_decryption_key(&self, signature_parameters: &Vec<u8>, commitment_parameters: &Vec<u8>, seed: &Vec<u8>, sk_prf: &Vec<u8>, r_pk: &Vec<u8>) -> (out: Option<Vec<u8>>) {
        if seed.len() == 0 {
            None
        } else {
            let mut input = tagged2_exec(TAG_SIGNATURE_PUBLIC_KEY, signature_parameters, seed);
            extend_bytes(&mut input, sk_prf);
            let key = tagged3_exec(TAG_ACCOUNT_COMMIT, commitment_parameters, &input, r_pk);
            Some(key)
        }
    }

    fn derive_encryption_public_key(&self, parameters: &Vec<u8>, decryption_key: &Vec<u8>) -> (out: Vec<u8>) {
        tagged2_exec(TAG_ENCRYPTION_PUBLIC_KEY, parameters, decryption_key)
    }

    #[verifier::loop_isolation(false)]
    fn merkle_path_valid(&self, parameters: &Vec<u8>, leaf: &Vec<u8>, path: &MerklePath, root: &Vec<u8>) -> (out: bool) {
        let mut cur = digest9_exec(TAG_MERKLE_LEAF, parameters, leaf);
        let ghost start = cur@;
        let mut i: usize = 0;
        while i < path.siblings.len()
            invariant
                i <= path.siblings@.len(),
                merkle_fold(parameters@, cur@, *path, i as int) == merkle_fold(
                    parameters@,
                    start,
                    *path,
                    0,
                ),
            decreases path.siblings@.len() - i,
        {
            let sibling = &path.siblings[i];
            let right = i < path.positions.len() && path.positions[i];
            let mut children: Vec<u8> = Vec::new();
            if right {
                push_frame(&mut children, sibling);
                push_frame(&mut children, &cur);
            } else {
                push_frame(&mut children, &cur);
                push_frame(&mut children, sibling);
            }
            let next = digest9_exec(TAG_MERKLE_NODE, parameters, &children);
            proof {
                if right {
                    assert(children@ =~= frame_spec(path.siblings@[i as int]@) + frame_spec(cur@));
                    assert(next@ == merkle_node(parameters@, path.siblings@[i as int]@, cur@));
                } else {
                    assert(children@ =~= frame_spec(cur@) + frame_spec(path.siblings@[i as int]@));
                    assert(next@ == merkle_node(parameters@, cur@, path.siblings@[i as int]@));
                }
                assert(merkle_fold(parameters@, next@, *path, i as int + 1) == merkle_fold(
                    parameters@,
                    cur@,
                    *path,
                    i as int,
                ));
            }
            cur = next;
            i += 1;
        }
        bytes_eq(root, &cur)
    }

    fn group_element_from_coordinates(&self, x: u128, y: u128) -> (out: Option<Vec<u8>>) {
        let mut out: Vec<u8> = Vec::new();
        out.push(TAG_POINT);
        let xb = fe_to_le_bytes(x, 16);
        let yb = fe_to_le_bytes(y, 16);
        extend_bytes(&mut out, &xb);
        extend_bytes(&mut out, &yb);
        proof {
            assert(out@ =~= seq![TAG_POINT] + spec_fe_le_bytes(x, 16) + spec_fe_le_bytes(y, 16));
        }
        Some(out)
    }

    fn encrypt(&self, parameters: &Vec<u8>, randomness: &Vec<u8>, public_key: &Vec<u8>, plaintext: &Vec<Vec<u8>>, blinding_exponents: &Vec<Vec<u8>>) -> (out: Vec<u8>) {
        let mut out: Vec<u8> = Vec::new();
        out.push(TAG_ENCRYPT);
        push_frame(&mut out, parameters);
        push_frame(&mut out, randomness);
        push_frame(&mut out, public_key);
        push_frames(&mut out, plaintext);
        push_frames(&mut out, blinding_exponents);
        proof {
            assert(out@ =~= self.encrypt_model(
                parameters@,
                randomness@,
                public_key@,
                plaintext.deep_view(),
                blinding_exponents.deep_view(),
            ));
        }
        out
    }

    fn binding_verification_setup(&self, parameters: &Vec<u8>, input_value_commitments: &Vec<Vec<u8>>, output_value_commitments: &Vec<Vec<u8>>, message: &Vec<u8>, signature: &Vec<u8>) -> (out: Option<BindingSetup>) {
        if signature.len() == 0 {
            return None;
        }
        let c = digest9_exec(TAG_BINDING_CHALLENGE, parameters, message);
        let mut bvk_input: Vec<u8> = Vec::new();
        push_frame(&mut bvk_input, parameters);
        push_frames(&mut bvk_input, input_value_commitments);
        push_frames(&mut bvk_input, output_value_commitments);
        let bvk_digest = fold8(&bvk_input);
        let mut partial_bvk: Vec<u8> = Vec::new();
        partial_bvk.push(TAG_BINDING_BVK);
        extend_bytes(&mut partial_bvk, &bvk_digest);
        let affine_r = digest9_exec(TAG_BINDING_EPHEMERAL, parameters, signature);
        let mut recommit: Vec<u8> = Vec::new();
        extend_bytes(&mut recommit, signature);
        let out = BindingSetup { c, partial_bvk, affine_r, recommit };
        proof {
            assert(bvk_input@ =~= frame_spec(parameters@) + frames_of(
                input_value_commitments.deep_view(),
            ) + frames_of(output_value_commitments.deep_view()));
            assert(out.partial_bvk@ =~= seq![TAG_BINDING_BVK] + fold8_spec(bvk_input@));
            assert(out.recommit@ =~= signature@);
            assert(self.binding_setup_model(
                parameters@,
                input_value_commitments.deep_view(),
                output_value_commitments.deep_view(),
                message@,
                signature@,
            ) == Some(out@));
        }
        Some(out)
    }

    fn value_balance_commit(&self, parameters: &Vec<u8>, value_balance_bytes: &Vec<u8>) -> (out: Vec<u8>) {
        tagged2_exec(TAG_VALUE_BALANCE_COMMIT, parameters, value_balance_bytes)
    }

    fn binding_signature_verified(&self, partial_bvk: &Vec<u8>, value_balance_commitment: &Vec<u8>, is_negative: bool, c: &Vec<u8>, affine_r: &Vec<u8>, recommit: &Vec<u8>) -> (out: bool) {
        let expected = self.binding_relation_bytes_exec(
            partial_bvk,
            value_balance_commitment,
            is_negative,
            c,
        );
        bytes_eq(recommit, &expected)
    }
}

} // verus!
