//! Bit-level encodings.
//!
//! Bytes are expanded to bits least-significant first, eight bits per byte;
//! multi-byte integers are laid out little-endian. These conventions are
//! shared by the record serialization checks and the payload packing.

use vstd::prelude::*;
use vstd::arithmetic::power2::{pow2, lemma_pow2_adds, lemma2_to64};
use vstd::arithmetic::div_mod::{
    lemma_div_denominator, lemma_fundamental_div_mod_converse, lemma_small_mod,
};

verus! {

/// Bit `k` (counting from the least significant) of the natural number `n`.
pub open spec fn nat_bit(n: nat, k: nat) -> bool {
    (n / pow2(k)) % 2 == 1
}

/// All bits of a byte string, least significant bit of the first byte first.
pub open spec fn spec_bytes_to_bits(s: Seq<u8>) -> Seq<bool> {
    Seq::new(s.len() * 8, |t: int| nat_bit(s[t / 8] as nat, (t % 8) as nat))
}

/// The natural number whose little-endian bits are `s`.
pub open spec fn bits_value(s: Seq<bool>) -> nat
    decreases s.len(),
{
    if s.len() == 0 {
        0
    } else {
        (if s[0] { 1nat } else { 0nat }) + 2 * bits_value(s.skip(1))
    }
}

/// Bits regrouped into bytes, eight at a time; a final partial group is
/// padded with zero bits at the top.
pub open spec fn spec_bits_to_bytes(s: Seq<bool>) -> Seq<u8> {
    Seq::new(
        (s.len() + 7) / 8,
        |i: int|
            (bits_value(
                s.subrange(8 * i, if 8 * i + 8 <= s.len() { 8 * i + 8 } else { s.len() as int }),
            )) as u8,
    )
}

/// The eight little-endian bytes of a 64-bit integer.
pub open spec fn u64_le_seq(v: u64) -> Seq<u8> {
    Seq::new(8, |k: int| (((v as nat) / pow2((8 * k) as nat)) % 256) as u8)
}

/// The first `n` little-endian bytes of a 128-bit integer.
pub open spec fn spec_fe_le_bytes(x: u128, n: nat) -> Seq<u8> {
    Seq::new(n, |k: int| (((x as nat) / pow2((8 * k) as nat)) % 256) as u8)
}

/// The value described by a bit string is below two to its length.
pub proof fn lemma_bits_value_bound(s: Seq<bool>)
    ensures
        bits_value(s) < pow2(s.len()),
    decreases s.len(),
{
    if s.len() == 0 {
        lemma2_to64();
    } else {
        lemma_bits_value_bound(s.skip(1));
        lemma_pow2_adds(1, (s.len() - 1) as nat);
        lemma2_to64();
    }
}

/// The bits of `n % 2^len`, read back as a value, give `n % 2^len`.
pub proof fn lemma_nat_bits_value(n: nat, len: nat)
    ensures
        bits_value(Seq::new(len, |k: int| nat_bit(n, k as nat))) == n % pow2(len),
    decreases len,
{
    let s = Seq::new(len, |k: int| nat_bit(n, k as nat));
    if len == 0 {
        lemma2_to64();
        lemma_small_mod(n % pow2(0), pow2(0));
        assert(pow2(0) == 1);
        assert(n % 1 == 0) by {
            vstd::arithmetic::div_mod::lemma_mod_multiples_basic(n as int, 1);
            assert(n as int * 1 == n as int);
        }
    } else {
        lemma_nat_bits_value(n / 2, (len - 1) as nat);
        let s1 = Seq::new((len - 1) as nat, |k: int| nat_bit(n / 2, k as nat));
        assert forall|k: int| 0 <= k < len - 1 implies s.skip(1)[k] == s1[k] by {
            lemma_pow2_adds(1, k as nat);
            lemma2_to64();
            vstd::arithmetic::power2::lemma_pow2_pos(k as nat);
            lemma_div_denominator(n as int, 2, pow2(k as nat) as int);
            assert(n / pow2((k + 1) as nat) == (n / 2) / pow2(k as nat));
        }
        assert(s.skip(1) =~= s1);
        assert(s[0] == nat_bit(n, 0));
        lemma2_to64();
        assert(pow2(0) == 1);
        assert(n / 1 == n) by {
            vstd::arithmetic::div_mod::lemma_div_basics(n as int);
        }
        assert(bits_value(s) == (if n % 2 == 1 { 1nat } else { 0nat }) + 2 * ((n / 2) % pow2(
            (len - 1) as nat,
        )));
        // n % 2^len == n % 2 + 2 * ((n / 2) % 2^(len-1))
        assert(n % pow2(len) == n % 2 + 2 * ((n / 2) % pow2((len - 1) as nat))) by {
            lemma_pow2_adds(1, (len - 1) as nat);
            vstd::arithmetic::power2::lemma_pow2_pos((len - 1) as nat);
            vstd::arithmetic::div_mod::lemma_breakdown(n as int, 2, pow2((len - 1) as nat) as int);
            assert(pow2(1) == 2);
        }
        assert(n % 2 == 1 ==> (if n % 2 == 1 { 1nat } else { 0nat }) == n % 2);
        assert(n % 2 != 1 ==> n % 2 == 0) by {
            vstd::arithmetic::div_mod::lemma_mod_bound(n as int, 2);
        }
    }
}

/// Expanding a byte string to bits and regrouping the bits into bytes gives
/// the original string back.
pub proof fn lemma_bytes_bits_roundtrip(s: Seq<u8>)
    ensures
        spec_bits_to_bytes(spec_bytes_to_bits(s)) == s,
{
    let bits = spec_bytes_to_bits(s);
    assert(bits.len() == 8 * s.len());
    let back = spec_bits_to_bytes(bits);
    assert(back.len() == (8 * s.len() + 7) as int / 8);
    assert((8 * s.len() + 7) as int / 8 == s.len()) by {
        lemma_fundamental_div_mod_converse(8 * s.len() as int + 7, 8, s.len() as int, 7);
    }
    assert forall|i: int| 0 <= i < s.len() implies back[i] == s[i] by {
        let chunk = bits.subrange(8 * i, 8 * i + 8);
        let direct = Seq::new(8, |k: int| nat_bit(s[i] as nat, k as nat));
        assert forall|k: int| 0 <= k < 8 implies chunk[k] == direct[k] by {
            assert((8 * i + k) / 8 == i && (8 * i + k) % 8 == k) by {
                lemma_fundamental_div_mod_converse(8 * i + k, 8, i, k);
            }
        }
        assert(chunk =~= direct);
        lemma_nat_bits_value(s[i] as nat, 8);
        lemma2_to64();
        lemma_small_mod(s[i] as nat, 256);
        assert(bits_value(chunk) == s[i] as nat);
    }
    assert(back =~= s);
}

/// All bits of a byte vector, least significant bit of the first byte first.
pub fn bytes_to_bits(v: &Vec<u8>) -> (r: Vec<bool>)
    ensures
        r@ == spec_bytes_to_bits(v@),
{
    let mut r: Vec<bool> = Vec::new();
    let mut i: usize = 0;
    while i < v.len()
        invariant
            i <= v@.len(),
            r@.len() == 8 * i,
            forall|t: int| 0 <= t < r@.len() ==> r@[t] == nat_bit(v@[t / 8] as nat, (t % 8) as nat),
        decreases v@.len() - i,
    {
        let mut cur: u8 = v[i];
        let mut k: usize = 0;
        proof {
            lemma2_to64();
            assert(pow2(0) == 1);
            assert(v@[i as int] as nat / 1 == v@[i as int] as nat) by {
                vstd::arithmetic::div_mod::lemma_div_basics(v@[i as int] as int);
            }
        }
        while k < 8
            invariant
                k <= 8,
                i < v@.len(),
                cur as nat == (v@[i as int] as nat) / pow2(k as nat),
                r@.len() == 8 * i + k,
                forall|t: int| 0 <= t < r@.len() ==> r@[t] == nat_bit(
                    v@[t / 8] as nat,
                    (t % 8) as nat,
                ),
            decreases 8 - k,
        {
            r.push(cur % 2 == 1);
            proof {
                let t = 8 * (i as int) + (k as int);
                assert(t / 8 == i as int && t % 8 == k as int) by {
                    lemma_fundamental_div_mod_converse(t, 8, i as int, k as int);
                }
                assert((cur % 2 == 1) == nat_bit(v@[i as int] as nat, k as nat));
                lemma_pow2_adds(k as nat, 1);
                lemma2_to64();
                assert(pow2(1) == 2);
                lemma_div_denominator(v@[i as int] as int, pow2(k as nat) as int, 2);
            }
            cur = cur / 2;
            k += 1;
        }
        i += 1;
    }
    proof {
        assert(r@ =~= spec_bytes_to_bits(v@));
    }
    r
}

/// Regroups bits into bytes, eight at a time, least significant first; a
/// final partial byte is padded with zero bits at the top.
#[verifier::loop_isolation(false)]
pub fn bits_to_bytes(v: &Vec<bool>) -> (r: Vec<u8>)
    requires
        v@.len() <= usize::MAX - 8,
    ensures
        r@ == spec_bits_to_bytes(v@),
{
    let n: usize = v.len();
    let n_bytes: usize = n / 8 + if n % 8 == 0 { 0 } else { 1 };
    proof {
        assert(n_bytes as int == (n as int + 7) / 8) by {
            vstd::arithmetic::div_mod::lemma_fundamental_div_mod(n as int, 8);
            if n % 8 == 0 {
                lemma_fundamental_div_mod_converse(n as int + 7, 8, n as int / 8, 7);
            } else {
                lemma_fundamental_div_mod_converse(
                    n as int + 7,
                    8,
                    n as int / 8 + 1,
                    (n as int % 8) - 1,
                );
            }
        }
    }
    let mut r: Vec<u8> = Vec::new();
    let mut i: usize = 0;
    while i < n_bytes
        invariant
            i <= n_bytes,
            n == v@.len(),
            n_bytes as int == (n as int + 7) / 8,
            r@.len() == i,
            forall|t: int| 0 <= t < i ==> r@[t] == spec_bits_to_bytes(v@)[t],
        decreases n_bytes - i,
    {
        proof {
            assert(8 * (i as int) < n as int) by {
                assert(i as int <= (n as int + 7) / 8 - 1);
                vstd::arithmetic::div_mod::lemma_fundamental_div_mod(n as int + 7, 8);
            }
            assert((i as int) * 8 + 8 <= usize::MAX);
        }
        let hi: usize = if i * 8 + 8 <= n { i * 8 + 8 } else { n };
        let lo: usize = i * 8;
        let ghost chunk = v@.subrange(lo as int, hi as int);
        let mut acc: u16 = 0;
        let mut k: usize = hi;
        proof {
            assert(v@.subrange(k as int, hi as int) =~= Seq::<bool>::empty());
            lemma2_to64();
        }
        while k > lo
            invariant
                lo <= k <= hi,
                hi <= n,
                n == v@.len(),
                hi - lo <= 8,
                acc as nat == bits_value(v@.subrange(k as int, hi as int)),
                (acc as nat) < pow2((hi - k) as nat),
            decreases k,
        {
            k -= 1;
            let bit = v[k];
            proof {
                let sub0 = v@.subrange(k as int, hi as int);
                let sub1 = v@.subrange(k as int + 1, hi as int);
                assert(sub0.skip(1) =~= sub1);
                assert(bits_value(sub0) == (if sub0[0] { 1nat } else { 0nat }) + 2 * bits_value(
                    sub1,
                ));
                lemma_pow2_adds((hi - k - 1) as nat, 1);
                lemma2_to64();
                assert(pow2(1) == 2);
                assert(pow2((hi - k) as nat) <= pow2(8)) by {
                    if ((hi - k) as nat) < 8 {
                        vstd::arithmetic::power2::lemma_pow2_strictly_increases(
                            (hi - k) as nat,
                            8,
                        );
                    }
                }
            }
            acc = 2 * acc + if bit { 1 } else { 0 };
        }
        proof {
            assert(v@.subrange(lo as int, hi as int) == chunk);
            lemma_bits_value_bound(chunk);
            assert(chunk.len() <= 8);
            assert(pow2(chunk.len()) <= pow2(8)) by {
                if chunk.len() < 8 {
                    vstd::arithmetic::power2::lemma_pow2_strictly_increases(chunk.len(), 8);
                }
            }
            lemma2_to64();
        }
        r.push(acc as u8);
        proof {
            assert(r@[i as int] == spec_bits_to_bytes(v@)[i as int]);
        }
        i += 1;
    }
    proof {
        assert(r@ =~= spec_bits_to_bytes(v@));
    }
    r
}

/// The eight little-endian bytes of a 64-bit integer.
pub fn u64_to_le_bytes(v: u64) -> (r: Vec<u8>)
    ensures
        r@ == u64_le_seq(v),
{
    let mut r: Vec<u8> = Vec::new();
    let mut cur: u64 = v;
    let mut k: usize = 0;
    proof {
        lemma2_to64();
        assert(pow2(0) == 1);
        assert(v as nat / 1 == v as nat) by {
            vstd::arithmetic::div_mod::lemma_div_basics(v as int);
        }
    }
    while k < 8
        invariant
            k <= 8,
            cur as nat == (v as nat) / pow2((8 * k) as nat),
            r@.len() == k,
            forall|t: int| 0 <= t < k ==> r@[t] == u64_le_seq(v)[t],
        decreases 8 - k,
    {
        r.push((cur % 256) as u8);
        proof {
            lemma_pow2_adds((8 * k) as nat, 8);
            lemma2_to64();
            assert(pow2(8) == 256);
            vstd::arithmetic::power2::lemma_pow2_pos((8 * k) as nat);
            lemma_div_denominator(v as int, pow2((8 * k) as nat) as int, 256);
        }
        cur = cur / 256;
        k += 1;
    }
    proof {
        assert(r@ =~= u64_le_seq(v));
    }
    r
}

/// The first `n` little-endian bytes of a 128-bit integer.
pub fn fe_to_le_bytes(x: u128, n: usize) -> (r: Vec<u8>)
    ensures
        r@ == spec_fe_le_bytes(x, n as nat),
{
    let mut r: Vec<u8> = Vec::new();
    let mut cur: u128 = x;
    let mut k: usize = 0;
    proof {
        lemma2_to64();
        assert(pow2(0) == 1);
        assert(x as nat / 1 == x as nat) by {
            vstd::arithmetic::div_mod::lemma_div_basics(x as int);
        }
    }
    while k < n
        invariant
            k <= n,
            cur as nat == (x as nat) / pow2((8 * k) as nat),
            r@.len() == k,
            forall|t: int| 0 <= t < k ==> r@[t] == spec_fe_le_bytes(x, n as nat)[t],
        decreases n - k,
    {
        r.push((cur % 256) as u8);
        proof {
            lemma_pow2_adds((8 * k) as nat, 8);
            lemma2_to64();
            assert(pow2(8) == 256);
            vstd::arithmetic::power2::lemma_pow2_pos((8 * k) as nat);
            lemma_div_denominator(x as int, pow2((8 * k) as nat) as int, 256);
        }
        cur = cur / 256;
        k += 1;
    }
    proof {
        assert(r@ =~= spec_fe_le_bytes(x, n as nat));
    }
    r
}

/// Byte-string equality.
pub fn bytes_eq(a: &Vec<u8>, b: &Vec<u8>) -> (r: bool)
    ensures
        r == (a@ == b@),
{
    if a.len() != b.len() {
        return false;
    }
    let mut i: usize = 0;
    while i < a.len()
        invariant
            i <= a@.len(),
            a@.len() == b@.len(),
            forall|t: int| 0 <= t < i ==> a@[t] == b@[t],
        decreases a@.len() - i,
    {
        if a[i] != b[i] {
            return false;
        }
        i += 1;
    }
    proof {
        assert(a@ =~= b@);
    }
    true
}

/// Bit-string equality.
pub fn bits_eq(a: &Vec<bool>, b: &Vec<bool>) -> (r: bool)
    ensures
        r == (a@ == b@),
{
    if a.len() != b.len() {
        return false;
    }
    let mut i: usize = 0;
    while i < a.len()
        invariant
            i <= a@.len(),
            a@.len() == b@.len(),
            forall|t: int| 0 <= t < i ==> a@[t] == b@[t],
        decreases a@.len() - i,
    {
        if a[i] != b[i] {
            return false;
        }
        i += 1;
    }
    proof {
        assert(a@ =~= b@);
    }
    true
}

/// Appends a copy of `src` to `dst`.
pub fn extend_bytes(dst: &mut Vec<u8>, src: &Vec<u8>)
    ensures
        final(dst)@ == old(dst)@ + src@,
{
    let mut i: usize = 0;
    while i < src.len()
        invariant
            i <= src@.len(),
            dst@ == old(dst)@ + src@.subrange(0, i as int),
        decreases src@.len() - i,
    {
        dst.push(src[i]);
        proof {
            assert(old(dst)@ + src@.subrange(0, i as int) + seq![src@[i as int]] =~= old(dst)@
                + src@.subrange(0, i as int + 1));
        }
        i += 1;
    }
    proof {
        assert(src@.subrange(0, src@.len() as int) =~= src@);
    }
}

/// Appends a copy of `src` to `dst`.
pub fn extend_bits(dst: &mut Vec<bool>, src: &Vec<bool>)
    ensures
        final(dst)@ == old(dst)@ + src@,
{
    let mut i: usize = 0;
    while i < src.len()
        invariant
            i <= src@.len(),
            dst@ == old(dst)@ + src@.subrange(0, i as int),
        decreases src@.len() - i,
    {
        dst.push(src[i]);
        proof {
            assert(old(dst)@ + src@.subrange(0, i as int) + seq![src@[i as int]] =~= old(dst)@
                + src@.subrange(0, i as int + 1));
        }
        i += 1;
    }
    proof {
        assert(src@.subrange(0, src@.len() as int) =~= src@);
    }
}

/// The bits of `v` from `from` (inclusive) to `to` (exclusive).
pub fn bits_subrange(v: &Vec<bool>, from: usize, to: usize) -> (r: Vec<bool>)
    requires
        from <= to <= v@.len(),
    ensures
        r@ == v@.subrange(from as int, to as int),
{
    let mut r: Vec<bool> = Vec::new();
    let mut i: usize = from;
    while i < to
        invariant
            from <= i <= to <= v@.len(),
            r@ == v@.subrange(from as int, i as int),
        decreases to - i,
    {
        r.push(v[i]);
        proof {
            assert(v@.subrange(from as int, i as int) + seq![v@[i as int]] =~= v@.subrange(
                from as int,
                i as int + 1,
            ));
        }
        i += 1;
    }
    r
}

} // verus!
