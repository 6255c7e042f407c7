//! The versioned bit-packing of an output record's fields into field
//! elements.
//!
//! With `data_bits` one less than the field width and `payload_bits` one
//! less again (the spare bit is a non-zero sentinel), a record is packed as:
//! the serial-number nonce bits, the commitment-randomness bits, each
//! predicate identifier truncated to `data_bits`, one shared element holding
//! both identifiers' remainders up to `outer_field_bits`, one element per
//! full `payload_bits`-sized payload group with a trailing sentinel, and a
//! final element prefixed by a constant set bit holding the field-encoding
//! selector bits, the value bits, and any leftover payload bits — the
//! leftover moving to a group of its own when the three do not fit together.

use vstd::prelude::*;
use vstd::arithmetic::div_mod::{lemma_fundamental_div_mod, lemma_fundamental_div_mod_converse};
use crate::bits::{bits_subrange, extend_bits};
use crate::data::CircuitConfig;

verus! {


/// Pushing one bit vector extends the deep view by its view.
proof fn lemma_deep_view_push(a: Vec<Vec<bool>>, b: Vec<Vec<bool>>, x: Vec<bool>)
    requires
        b@ == a@.push(x),
    ensures
        b.deep_view() == a.deep_view().push(x@),
{
    assert forall|c: int| 0 <= c < b.deep_view().len() implies b.deep_view()[c]
        == a.deep_view().push(x@)[c] by {
        if c < a@.len() {
            assert(b@[c] == a@[c]);
        } else {
            assert(b@[c] == x);
            assert(x.deep_view() =~= x@);
        }
    }
    assert(b.deep_view() =~= a.deep_view().push(x@));
}

/// Payload group `c` with its sentinel bit appended.
pub open spec fn payload_chunk(payload: Seq<bool>, pfb: nat, c: int) -> Seq<bool> {
    payload.subrange(c * pfb, (c + 1) * pfb) + seq![true]
}

/// The payload bits left after the full groups.
pub open spec fn payload_leftover(payload: Seq<bool>, pfb: nat) -> Seq<bool> {
    payload.skip(((payload.len() / pfb) * pfb) as int)
}

/// Whether the leftover payload bits, the selector bits and the value bits
/// do not fit one payload group together.
pub open spec fn value_overflows(
    payload_len: nat,
    value_len: nat,
    fq_len: nat,
    pfb: nat,
) -> bool {
    payload_len % pfb + fq_len + value_len > pfb
}

/// The payload-carrying elements: full payload groups, then — when the
/// leftover, selector and value bits overflow one group — the leftover as a
/// group of its own, then the final element `[1] ++ selectors ++ value ++
/// leftover-if-it-fits`.
pub open spec fn spec_packed_payload_elements(
    payload: Seq<bool>,
    value: Seq<bool>,
    fq_high: Seq<bool>,
    pfb: nat,
) -> Seq<Seq<bool>> {
    let chunks = Seq::new(payload.len() / pfb, |c: int| payload_chunk(payload, pfb, c));
    let leftover = payload_leftover(payload, pfb);
    if value_overflows(payload.len(), value.len(), fq_high.len(), pfb) {
        chunks.push(leftover + seq![true]).push(seq![true] + fq_high + value)
    } else {
        chunks.push(seq![true] + fq_high + value + leftover)
    }
}

/// All packed elements of one record, in allocation order.
pub open spec fn spec_record_elements(
    cfg: CircuitConfig,
    nonce_bits: Seq<bool>,
    rand_bits: Seq<bool>,
    birth_bits: Seq<bool>,
    death_bits: Seq<bool>,
    payload_bits: Seq<bool>,
    value_bits: Seq<bool>,
    fq_high_bits: Seq<bool>,
) -> Seq<Seq<bool>> {
    let data = cfg.data_bits() as int;
    let outer = cfg.outer_field_bits as int;
    seq![
        nonce_bits,
        rand_bits,
        birth_bits.take(data),
        death_bits.take(data),
        birth_bits.subrange(data, outer) + death_bits.subrange(data, outer),
    ] + spec_packed_payload_elements(payload_bits, value_bits, fq_high_bits, cfg.payload_bits())
}

/// Packs the payload, value and selector bits into payload-carrying
/// elements.
#[verifier::loop_isolation(false)]
pub fn pack_payload_elements(
    payload_bits: &Vec<bool>,
    value_bits: &Vec<bool>,
    fq_high_bits: &Vec<bool>,
    pfb: usize,
) -> (r: Vec<Vec<bool>>)
    requires
        2 <= pfb,
        fq_high_bits@.len() + value_bits@.len() + pfb < usize::MAX,
    ensures
        r.deep_view() == spec_packed_payload_elements(
            payload_bits@,
            value_bits@,
            fq_high_bits@,
            pfb as nat,
        ),
{
    let mut elements: Vec<Vec<bool>> = Vec::new();
    let mut buf: Vec<bool> = Vec::new();
    let mut i: usize = 0;
    while i < payload_bits.len()
        invariant
            i <= payload_bits@.len(),
            elements.deep_view().len() == i as int / pfb as int,
            forall|c: int|
                0 <= c < elements.deep_view().len() ==> elements.deep_view()[c] == payload_chunk(
                    payload_bits@,
                    pfb as nat,
                    c,
                ),
            buf@ == payload_bits@.subrange(
                (i as int / pfb as int) * (pfb as int),
                i as int,
            ),
        decreases payload_bits@.len() - i,
    {
        let ghost c0 = i as int / pfb as int;
        proof {
            lemma_fundamental_div_mod(i as int, pfb as int);
        }
        buf.push(payload_bits[i]);
        if (i + 1) % pfb == 0 {
            proof {
                let r0 = i as int - (pfb as int) * c0;
                assert(0 <= r0 < pfb as int);
                assert((c0 + 1) * (pfb as int) == c0 * (pfb as int) + pfb as int)
                    by (nonlinear_arith);
                assert(c0 * (pfb as int) == (pfb as int) * c0) by (nonlinear_arith);
                if r0 + 1 < pfb as int {
                    lemma_fundamental_div_mod_converse(i as int + 1, pfb as int, c0, r0 + 1);
                    assert(false);
                } else {
                    lemma_fundamental_div_mod_converse(i as int + 1, pfb as int, c0 + 1, 0);
                }
                assert((i + 1) as int / pfb as int == c0 + 1);
                assert(buf@ =~= payload_bits@.subrange(c0 * (pfb as int), (c0 + 1) * (pfb as int)));
            }
            buf.push(true);
            proof {
                assert(buf@ =~= payload_chunk(payload_bits@, pfb as nat, c0));
            }
            let ghost els0 = elements;
            let ghost chunk0 = buf;
            elements.push(buf);
            buf = Vec::new();
            proof {
                lemma_deep_view_push(els0, elements, chunk0);
                assert(buf@ =~= payload_bits@.subrange(
                    ((i + 1) as int / pfb as int) * (pfb as int),
                    i as int + 1,
                ));
                assert(elements.deep_view() =~= Seq::new(
                    (c0 + 1) as nat,
                    |c: int| payload_chunk(payload_bits@, pfb as nat, c),
                ));
            }
        } else {
            proof {
                let r0 = i as int - (pfb as int) * c0;
                assert(0 <= r0 < pfb as int);
                assert((c0 + 1) * (pfb as int) == c0 * (pfb as int) + pfb as int)
                    by (nonlinear_arith);
                assert(c0 * (pfb as int) == (pfb as int) * c0) by (nonlinear_arith);
                if r0 + 1 < pfb as int {
                    lemma_fundamental_div_mod_converse(i as int + 1, pfb as int, c0, r0 + 1);
                } else {
                    lemma_fundamental_div_mod_converse(i as int + 1, pfb as int, c0 + 1, 0);
                    assert(false);
                }
                assert((i + 1) as int / pfb as int == c0);
                assert(buf@ =~= payload_bits@.subrange(c0 * (pfb as int), i as int + 1));
            }
        }
        i += 1;
    }
    let ghost fc = payload_bits@.len() as int / pfb as int;
    proof {
        let plen = payload_bits@.len() as int;
        lemma_fundamental_div_mod(plen, pfb as int);
        vstd::arithmetic::div_mod::lemma_mod_bound(plen, pfb as int);
        assert(plen == (pfb as int) * fc + plen % (pfb as int));
        assert(fc * (pfb as int) == (pfb as int) * fc) by (nonlinear_arith);
        assert(0 <= fc * (pfb as int) <= plen);
        assert(buf@ == payload_bits@.subrange(fc * (pfb as int), plen));
        assert(buf@ == payload_leftover(payload_bits@, pfb as nat));
        assert(buf@.len() == plen % (pfb as int));
        assert(buf@.len() < pfb);
    }
    let overflow = buf.len() + fq_high_bits.len() + value_bits.len() > pfb;
    let ghost leftover = buf@;
    if overflow {
        buf.push(true);
        proof {
            assert(buf@ =~= payload_leftover(payload_bits@, pfb as nat) + seq![true]);
        }
        let ghost els0 = elements;
        let ghost chunk0 = buf;
        elements.push(buf);
        buf = Vec::new();
        proof {
            lemma_deep_view_push(els0, elements, chunk0);
        }
    }
    let mut last: Vec<bool> = Vec::new();
    last.push(true);
    extend_bits(&mut last, fq_high_bits);
    extend_bits(&mut last, value_bits);
    extend_bits(&mut last, &buf);
    let ghost els1 = elements;
    let ghost last0 = last;
    elements.push(last);
    proof {
        lemma_deep_view_push(els1, elements, last0);
    }
    proof {
        let spec_r = spec_packed_payload_elements(
            payload_bits@,
            value_bits@,
            fq_high_bits@,
            pfb as nat,
        );
        assert(last@ == seq![true] + fq_high_bits@ + value_bits@ + buf@);
        assert(value_overflows(
            payload_bits@.len(),
            value_bits@.len(),
            fq_high_bits@.len(),
            pfb as nat,
        ) == overflow);
        if overflow {
            assert(last@ =~= seq![true] + fq_high_bits@ + value_bits@);
            assert(elements.deep_view() =~~= spec_r);
        } else {
            assert(last@ =~= seq![true] + fq_high_bits@ + value_bits@ + leftover);
            assert(elements.deep_view() =~~= spec_r);
        }
    }
    elements
}

/// Computes all packed elements of one record, in allocation order.
pub fn record_elements(
    cfg: &CircuitConfig,
    nonce_bits: &Vec<bool>,
    rand_bits: &Vec<bool>,
    birth_bits: &Vec<bool>,
    death_bits: &Vec<bool>,
    payload_bits: &Vec<bool>,
    value_bits: &Vec<bool>,
    fq_high_bits: &Vec<bool>,
) -> (r: Vec<Vec<bool>>)
    requires
        crate::data::assumptions_ok(*cfg),
        birth_bits@.len() >= cfg.outer_field_bits,
        death_bits@.len() >= cfg.outer_field_bits,
        fq_high_bits@.len() + value_bits@.len() + cfg.base_field_bits < usize::MAX,
    ensures
        r.deep_view() == spec_record_elements(
            *cfg,
            nonce_bits@,
            rand_bits@,
            birth_bits@,
            death_bits@,
            payload_bits@,
            value_bits@,
            fq_high_bits@,
        ),
{
    let data: usize = cfg.base_field_bits - 1;
    let pfb: usize = cfg.base_field_bits - 2;
    let outer: usize = cfg.outer_field_bits;
    let mut r: Vec<Vec<bool>> = Vec::new();
    r.push(nonce_bits.clone());
    r.push(rand_bits.clone());
    r.push(bits_subrange(birth_bits, 0, data));
    r.push(bits_subrange(death_bits, 0, data));
    let mut remainder = bits_subrange(birth_bits, data, outer);
    let death_remainder = bits_subrange(death_bits, data, outer);
    extend_bits(&mut remainder, &death_remainder);
    r.push(remainder);
    let mut packed = pack_payload_elements(payload_bits, value_bits, fq_high_bits, pfb);
    let mut k: usize = 0;
    let ghost packed0 = packed.deep_view();
    let ghost r5 = r.deep_view();
    while k < packed.len()
        invariant
            k <= packed@.len(),
            packed.deep_view() == packed0,
            r.deep_view() == r5 + packed0.take(k as int),
        decreases packed@.len() - k,
    {
        let el = packed[k].clone();
        proof {
            assert(el@ == packed0[k as int]);
            assert(r5 + packed0.take(k as int) + seq![packed0[k as int]] =~~= r5 + packed0.take(
                k as int + 1,
            ));
        }
        r.push(el);
        k += 1;
    }
    proof {
        assert(packed0.take(packed0.len() as int) =~~= packed0);
        assert(r.deep_view() =~~= spec_record_elements(
            *cfg,
            nonce_bits@,
            rand_bits@,
            birth_bits@,
            death_bits@,
            payload_bits@,
            value_bits@,
            fq_high_bits@,
        ));
    }
    r
}

/// The fields of a record, as bit strings, recovered from its packed
/// elements.
#[derive(Clone, Debug)]
pub struct RecordFieldBits {
    pub serial_number_nonce_bits: Vec<bool>,
    pub commitment_randomness_bits: Vec<bool>,
    pub birth_predicate_id_bits: Vec<bool>,
    pub death_predicate_id_bits: Vec<bool>,
    pub payload_bits: Vec<bool>,
    pub value_bits: Vec<bool>,
    pub fq_high_bits: Vec<bool>,
}

/// The mathematical value of [`RecordFieldBits`].
pub ghost struct RecordFieldBitsModel {
    pub serial_number_nonce_bits: Seq<bool>,
    pub commitment_randomness_bits: Seq<bool>,
    pub birth_predicate_id_bits: Seq<bool>,
    pub death_predicate_id_bits: Seq<bool>,
    pub payload_bits: Seq<bool>,
    pub value_bits: Seq<bool>,
    pub fq_high_bits: Seq<bool>,
}

impl View for RecordFieldBits {
    type V = RecordFieldBitsModel;

    open spec fn view(&self) -> RecordFieldBitsModel {
        RecordFieldBitsModel {
            serial_number_nonce_bits: self.serial_number_nonce_bits@,
            commitment_randomness_bits: self.commitment_randomness_bits@,
            birth_predicate_id_bits: self.birth_predicate_id_bits@,
            death_predicate_id_bits: self.death_predicate_id_bits@,
            payload_bits: self.payload_bits@,
            value_bits: self.value_bits@,
            fq_high_bits: self.fq_high_bits@,
        }
    }
}

/// The first `c` payload groups of packed elements, with their sentinel
/// bits dropped, in order.
pub open spec fn chunks_concat(elements: Seq<Seq<bool>>, pfb: nat, c: int) -> Seq<bool>
    decreases c,
{
    if c <= 0 {
        Seq::empty()
    } else {
        chunks_concat(elements, pfb, c - 1) + elements[5 + (c - 1)].take(pfb as int)
    }
}

/// The record fields read back from packed elements, given the widths of the
/// payload, value and selector bit strings.
pub open spec fn spec_unpack_record_elements(
    elements: Seq<Seq<bool>>,
    cfg: CircuitConfig,
    payload_len: nat,
    value_len: nat,
    fq_len: nat,
) -> RecordFieldBitsModel {
    let data = cfg.data_bits() as int;
    let rem = cfg.outer_field_bits as int - data;
    let pfb = cfg.payload_bits();
    let fc = (payload_len / pfb) as int;
    let leftover_len = (payload_len % pfb) as int;
    let overflow = value_overflows(payload_len, value_len, fq_len, pfb);
    let final_el = if overflow {
        elements[5 + fc + 1]
    } else {
        elements[5 + fc]
    };
    let leftover = if overflow {
        elements[5 + fc].take(leftover_len)
    } else {
        final_el.subrange(
            1 + fq_len as int + value_len as int,
            1 + fq_len as int + value_len as int + leftover_len,
        )
    };
    RecordFieldBitsModel {
        serial_number_nonce_bits: elements[0],
        commitment_randomness_bits: elements[1],
        birth_predicate_id_bits: elements[2] + elements[4].take(rem),
        death_predicate_id_bits: elements[3] + elements[4].subrange(rem, 2 * rem),
        payload_bits: chunks_concat(elements, pfb, fc) + leftover,
        value_bits: final_el.subrange(1 + fq_len as int, 1 + fq_len as int + value_len as int),
        fq_high_bits: final_el.subrange(1, 1 + fq_len as int),
    }
}

/// The packed groups of a packing cover the payload's full groups.
proof fn lemma_chunks_concat_of_packing(
    elements: Seq<Seq<bool>>,
    payload: Seq<bool>,
    pfb: nat,
    c: int,
)
    requires
        1 <= pfb,
        0 <= c <= payload.len() / pfb,
        forall|k: int| 0 <= k < c ==> elements[5 + k] == payload_chunk(payload, pfb, k),
    ensures
        chunks_concat(elements, pfb, c) == payload.take(c * (pfb as int)),
    decreases c,
{
    if c == 0 {
        assert(chunks_concat(elements, pfb, 0) =~= payload.take(0));
    } else {
        lemma_chunks_concat_of_packing(elements, payload, pfb, c - 1);
        assert(payload.len() / (pfb as nat) * (pfb as nat) <= payload.len()) by {
            lemma_fundamental_div_mod(payload.len() as int, pfb as int);
            vstd::arithmetic::div_mod::lemma_mod_bound(payload.len() as int, pfb as int);
            assert((payload.len() / (pfb as nat)) * (pfb as nat) == (pfb as int) * (
            payload.len() as int / pfb as int)) by (nonlinear_arith);
        }
        assert(c * (pfb as int) <= payload.len()) by (nonlinear_arith)
            requires
                1 <= pfb,
                c <= payload.len() / (pfb as nat),
                payload.len() / (pfb as nat) * (pfb as nat) <= payload.len(),
        ;
        assert((c - 1) * (pfb as int) + pfb as int == c * (pfb as int)) by (nonlinear_arith);
        let chunk = elements[5 + (c - 1)];
        assert(chunk == payload_chunk(payload, pfb, c - 1));
        assert(chunk.take(pfb as int) =~= payload.subrange(
            (c - 1) * (pfb as int),
            c * (pfb as int),
        ));
        assert(payload.take((c - 1) * (pfb as int)) + payload.subrange(
            (c - 1) * (pfb as int),
            c * (pfb as int),
        ) =~= payload.take(c * (pfb as int)));
    }
}

/// Round trip: packing a record's fields into elements and unpacking the
/// elements reproduces every field bit-identically, for predicate
/// identifiers of exactly the outer width.
pub proof fn lemma_pack_unpack_roundtrip(
    cfg: CircuitConfig,
    nonce_bits: Seq<bool>,
    rand_bits: Seq<bool>,
    birth_bits: Seq<bool>,
    death_bits: Seq<bool>,
    payload_bits: Seq<bool>,
    value_bits: Seq<bool>,
    fq_high_bits: Seq<bool>,
)
    requires
        crate::data::assumptions_ok(cfg),
        birth_bits.len() == cfg.outer_field_bits,
        death_bits.len() == cfg.outer_field_bits,
    ensures
        spec_unpack_record_elements(
            spec_record_elements(
                cfg,
                nonce_bits,
                rand_bits,
                birth_bits,
                death_bits,
                payload_bits,
                value_bits,
                fq_high_bits,
            ),
            cfg,
            payload_bits.len(),
            value_bits.len(),
            fq_high_bits.len(),
        ) == (RecordFieldBitsModel {
            serial_number_nonce_bits: nonce_bits,
            commitment_randomness_bits: rand_bits,
            birth_predicate_id_bits: birth_bits,
            death_predicate_id_bits: death_bits,
            payload_bits: payload_bits,
            value_bits: value_bits,
            fq_high_bits: fq_high_bits,
        }),
{
    let els = spec_record_elements(
        cfg,
        nonce_bits,
        rand_bits,
        birth_bits,
        death_bits,
        payload_bits,
        value_bits,
        fq_high_bits,
    );
    let data = cfg.data_bits() as int;
    let outer = cfg.outer_field_bits as int;
    let rem = outer - data;
    let pfb = cfg.payload_bits();
    let fc = (payload_bits.len() / pfb) as int;
    let leftover_len = (payload_bits.len() % pfb) as int;
    let overflow = value_overflows(payload_bits.len(), value_bits.len(), fq_high_bits.len(), pfb);
    let packed = spec_packed_payload_elements(payload_bits, value_bits, fq_high_bits, pfb);
    let got = spec_unpack_record_elements(
        els,
        cfg,
        payload_bits.len(),
        value_bits.len(),
        fq_high_bits.len(),
    );
    assert(forall|k: int| 0 <= k < packed.len() ==> els[5 + k] == packed[k]);
    // Predicate identifiers.
    assert(els[4].take(rem) =~= birth_bits.subrange(data, outer));
    assert(got.birth_predicate_id_bits =~= birth_bits);
    assert(els[4].subrange(rem, 2 * rem) =~= death_bits.subrange(data, outer));
    assert(got.death_predicate_id_bits =~= death_bits);
    // Payload groups.
    assert(forall|k: int| 0 <= k < fc ==> packed[k] == payload_chunk(payload_bits, pfb, k));
    lemma_chunks_concat_of_packing(els, payload_bits, pfb, fc);
    lemma_fundamental_div_mod(payload_bits.len() as int, pfb as int);
    vstd::arithmetic::div_mod::lemma_mod_bound(payload_bits.len() as int, pfb as int);
    assert(fc * (pfb as int) == (pfb as int) * fc) by (nonlinear_arith);
    let leftover = payload_leftover(payload_bits, pfb);
    assert(leftover.len() == leftover_len);
    let final_el = if overflow {
        els[5 + fc + 1]
    } else {
        els[5 + fc]
    };
    if overflow {
        assert(packed.len() == fc + 2);
        assert(els[5 + fc] == leftover + seq![true]);
        assert(final_el == seq![true] + fq_high_bits + value_bits);
        assert(els[5 + fc].take(leftover_len) =~= leftover);
    } else {
        assert(packed.len() == fc + 1);
        assert(final_el == seq![true] + fq_high_bits + value_bits + leftover);
        assert(final_el.subrange(
            1 + fq_high_bits.len() as int + value_bits.len() as int,
            1 + fq_high_bits.len() as int + value_bits.len() as int + leftover_len,
        ) =~= leftover);
    }
    assert(got.payload_bits =~= payload_bits) by {
        assert(payload_bits.take(fc * (pfb as int)) + payload_bits.skip(fc * (pfb as int))
            =~= payload_bits);
    }
    assert(got.value_bits =~= value_bits);
    assert(got.fq_high_bits =~= fq_high_bits);
}

/// One element of the deep view is the element's view.
pub proof fn lemma_deep_view_index(v: Vec<Vec<bool>>, k: int)
    requires
        0 <= k < v@.len(),
    ensures
        v.deep_view()[k] == v@[k]@,
{
    assert(v@[k].deep_view() =~= v@[k]@);
}

/// Reads the record fields back from packed elements, given the widths of
/// the payload, value and selector bit strings.
#[verifier::loop_isolation(false)]
pub fn unpack_record_elements(
    elements: &Vec<Vec<bool>>,
    cfg: &CircuitConfig,
    payload_len: usize,
    value_len: usize,
    fq_len: usize,
) -> (r: RecordFieldBits)
    requires
        crate::data::assumptions_ok(*cfg),
        fq_len + value_len + cfg.base_field_bits < usize::MAX,
        payload_len < usize::MAX - 8,
        ({
            let pfb = cfg.payload_bits();
            let fc = (payload_len as nat / pfb) as int;
            let leftover_len = (payload_len as nat % pfb) as int;
            let overflow = value_overflows(
                payload_len as nat,
                value_len as nat,
                fq_len as nat,
                pfb,
            );
            let rem = cfg.outer_field_bits - cfg.data_bits();
            &&& elements@.len() >= 5 + fc + (if overflow { 2int } else { 1int })
            &&& elements@[4]@.len() >= 2 * rem
            &&& (forall|k: int| 0 <= k < fc ==> (#[trigger] elements@[5 + k]@).len() >= pfb)
            &&& (overflow ==> elements@[5 + fc]@.len() >= leftover_len)
            &&& ({
                let final_el = if overflow {
                    elements@[5 + fc + 1]@
                } else {
                    elements@[5 + fc]@
                };
                final_el.len() >= 1 + fq_len + value_len + (if overflow {
                    0int
                } else {
                    leftover_len
                })
            })
        }),
    ensures
        r@ == spec_unpack_record_elements(
            elements.deep_view(),
            *cfg,
            payload_len as nat,
            value_len as nat,
            fq_len as nat,
        ),
{
    let data: usize = cfg.base_field_bits - 1;
    let outer: usize = cfg.outer_field_bits;
    let rem: usize = outer - data;
    let pfb: usize = cfg.base_field_bits - 2;
    let fc: usize = payload_len / pfb;
    let leftover_len: usize = payload_len % pfb;
    let overflow = leftover_len + fq_len + value_len > pfb;
    proof {
        lemma_fundamental_div_mod(payload_len as int, pfb as int);
        vstd::arithmetic::div_mod::lemma_mod_bound(payload_len as int, pfb as int);
        lemma_deep_view_index(*elements, 0);
        lemma_deep_view_index(*elements, 1);
        lemma_deep_view_index(*elements, 2);
        lemma_deep_view_index(*elements, 3);
        lemma_deep_view_index(*elements, 4);
    }
    let e0 = &elements[0];
    let nonce = bits_subrange(e0, 0, e0.len());
    let e1 = &elements[1];
    let rand = bits_subrange(e1, 0, e1.len());
    let e2 = &elements[2];
    let mut birth = bits_subrange(e2, 0, e2.len());
    let e4 = &elements[4];
    let birth_rem = bits_subrange(e4, 0, rem);
    extend_bits(&mut birth, &birth_rem);
    let e3 = &elements[3];
    let mut death = bits_subrange(e3, 0, e3.len());
    let death_rem = bits_subrange(e4, rem, 2 * rem);
    extend_bits(&mut death, &death_rem);
    let mut payload: Vec<bool> = Vec::new();
    let mut c: usize = 0;
    while c < fc
        invariant
            c <= fc,
            payload@ == chunks_concat(elements.deep_view(), pfb as nat, c as int),
        decreases fc - c,
    {
        proof {
            assert(5 + c < elements@.len());
            lemma_deep_view_index(*elements, 5 + c as int);
        }
        let ec = &elements[5 + c];
        let chunk = bits_subrange(ec, 0, pfb);
        extend_bits(&mut payload, &chunk);
        proof {
            assert(chunk@ =~= elements.deep_view()[5 + c as int].take(pfb as int));
        }
        c += 1;
    }
    proof {
        lemma_deep_view_index(*elements, 5 + fc as int);
        if overflow {
            lemma_deep_view_index(*elements, 5 + fc as int + 1);
        }
    }
    let final_el = if overflow {
        &elements[5 + fc + 1]
    } else {
        &elements[5 + fc]
    };
    let leftover = if overflow {
        let extra = &elements[5 + fc];
        bits_subrange(extra, 0, leftover_len)
    } else {
        bits_subrange(final_el, 1 + fq_len + value_len, 1 + fq_len + value_len + leftover_len)
    };
    extend_bits(&mut payload, &leftover);
    let value = bits_subrange(final_el, 1 + fq_len, 1 + fq_len + value_len);
    let fq_high = bits_subrange(final_el, 1, 1 + fq_len);
    let r = RecordFieldBits {
        serial_number_nonce_bits: nonce,
        commitment_randomness_bits: rand,
        birth_predicate_id_bits: birth,
        death_predicate_id_bits: death,
        payload_bits: payload,
        value_bits: value,
        fq_high_bits: fq_high,
    };
    proof {
        let spec_r = spec_unpack_record_elements(
            elements.deep_view(),
            *cfg,
            payload_len as nat,
            value_len as nat,
            fq_len as nat,
        );
        assert(r.serial_number_nonce_bits@ =~= spec_r.serial_number_nonce_bits);
        assert(r.commitment_randomness_bits@ =~= spec_r.commitment_randomness_bits);
        assert(r.birth_predicate_id_bits@ =~= spec_r.birth_predicate_id_bits);
        assert(r.death_predicate_id_bits@ =~= spec_r.death_predicate_id_bits);
        assert(r.payload_bits@ =~= spec_r.payload_bits);
        assert(r.value_bits@ =~= spec_r.value_bits);
        assert(r.fq_high_bits@ =~= spec_r.fq_high_bits);
    }
    r
}

} // verus!

