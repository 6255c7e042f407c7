//! Unit tests for the bit encodings, the field arithmetic and the record
//! packing.

use dpc_circuit::bits::{bits_to_bytes, bytes_to_bits, fe_to_le_bytes, u64_to_le_bytes};
use dpc_circuit::data::{check_assumptions, CircuitConfig};
use dpc_circuit::field::{field_add, field_inv, field_mul, field_neg, field_sub};
use dpc_circuit::packing::{pack_payload_elements, record_elements, unpack_record_elements};

fn small_config() -> CircuitConfig {
    CircuitConfig {
        modulus: (1u128 << 89) - 1,
        base_field_bits: 89,
        scalar_field_bits: 80,
        outer_field_bits: 96,
        mont_a: 6,
        mont_b: 2,
        te_d: 5,
    }
}

#[test]
fn u64_le_bytes_exact() {
    assert_eq!(u64_to_le_bytes(0x0102), vec![0x02, 0x01, 0, 0, 0, 0, 0, 0]);
    assert_eq!(u64_to_le_bytes(0), vec![0; 8]);
    assert_eq!(u64_to_le_bytes(u64::MAX), vec![0xFF; 8]);
}

#[test]
fn fe_le_bytes_exact() {
    assert_eq!(fe_to_le_bytes(0x0305, 3), vec![0x05, 0x03, 0x00]);
    assert_eq!(fe_to_le_bytes(1u128 << 88, 12).pop(), Some(0x01));
}

#[test]
fn bytes_bits_roundtrip_concrete() {
    let bytes = vec![0b1010_0001u8, 0x00, 0xFF, 0x5A];
    let bits = bytes_to_bits(&bytes);
    assert_eq!(bits.len(), 32);
    // Least significant bit of the first byte comes first.
    assert_eq!(bits[0], true);
    assert_eq!(bits[1], false);
    assert_eq!(bits[5], true);
    assert_eq!(bits_to_bytes(&bits), bytes);
}

#[test]
fn bits_to_bytes_pads_partial_byte() {
    let bits = vec![true, false, true];
    assert_eq!(bits_to_bytes(&bits), vec![0b101u8]);
}

#[test]
fn field_inverse_multiplies_to_one() {
    let m = small_config().modulus;
    for a in [2u128, 3, 65537, (1u128 << 88) + 17] {
        let inv = field_inv(m, a % m).unwrap();
        assert_eq!(field_mul(m, a % m, inv), 1);
    }
    assert_eq!(field_inv(7, 3), Some(5));
}

#[test]
fn field_inverse_of_zero_is_none() {
    let m = small_config().modulus;
    assert_eq!(field_inv(m, 0), None);
    // A composite modulus rejects residues that share a factor with it.
    assert_eq!(field_inv(12, 8), None);
    assert_eq!(field_inv(12, 5), Some(5));
}

#[test]
fn field_operations_match_reference_values() {
    assert_eq!(field_add(97, 60, 50), 13);
    assert_eq!(field_mul(97, 13, 15), 195 % 97);
    assert_eq!(field_neg(97, 1), 96);
    assert_eq!(field_sub(97, 3, 5), 95);
}

#[test]
fn config_assumptions_hold_for_test_configuration() {
    assert!(check_assumptions(&small_config()));
    let mut bad = small_config();
    bad.outer_field_bits = 200;
    assert!(!check_assumptions(&bad));
    let mut even = small_config();
    even.mont_b = 0;
    assert!(!check_assumptions(&even));
}

#[test]
fn payload_packing_layout_exact() {
    // Payload of 5 bits with a 4-bit group size: one full group with its
    // sentinel, and the leftover bit rides in the final element.
    let payload = vec![true, false, true, true, false];
    let value = vec![true, true];
    let fq_high = vec![false];
    let packed = pack_payload_elements(&payload, &value, &fq_high, 4);
    assert_eq!(packed.len(), 2);
    assert_eq!(packed[0], vec![true, false, true, true, true]);
    assert_eq!(packed[1], vec![true, false, true, true, false]);
}

#[test]
fn payload_packing_overflow_layout_exact() {
    // The leftover no longer fits beside the selector and value bits, so it
    // becomes a sentinel-terminated group of its own.
    let payload = vec![true, false, true, true, false, true, true];
    let value = vec![true, true, false];
    let fq_high = vec![false];
    let packed = pack_payload_elements(&payload, &value, &fq_high, 4);
    assert_eq!(packed.len(), 3);
    assert_eq!(packed[0], vec![true, false, true, true, true]);
    assert_eq!(packed[1], vec![false, true, true, true]);
    assert_eq!(packed[2], vec![true, false, true, true, false]);
}

#[test]
fn pack_unpack_roundtrip_fits() {
    let cfg = small_config();
    let nonce_bits = bytes_to_bits(&vec![1u8, 2, 3]);
    let rand_bits = bytes_to_bits(&vec![4u8, 5]);
    let birth_bits = bytes_to_bits(&vec![6u8; 12]);
    let death_bits = bytes_to_bits(&vec![7u8; 12]);
    let payload_bits = bytes_to_bits(&Vec::new());
    let value_bits = bytes_to_bits(&u64_to_le_bytes(77));
    let fq_high_bits = vec![true];
    let elements = record_elements(
        &cfg,
        &nonce_bits,
        &rand_bits,
        &birth_bits,
        &death_bits,
        &payload_bits,
        &value_bits,
        &fq_high_bits,
    );
    assert_eq!(elements.len(), 6);
    let back = unpack_record_elements(&elements, &cfg, payload_bits.len(), 64, 1);
    assert_eq!(back.serial_number_nonce_bits, nonce_bits);
    assert_eq!(back.commitment_randomness_bits, rand_bits);
    assert_eq!(back.birth_predicate_id_bits, birth_bits);
    assert_eq!(back.death_predicate_id_bits, death_bits);
    assert_eq!(back.payload_bits, payload_bits);
    assert_eq!(back.value_bits, value_bits);
    assert_eq!(back.fq_high_bits, fq_high_bits);
}

#[test]
fn pack_unpack_roundtrip_with_payload_overflow() {
    let cfg = small_config();
    let nonce_bits = bytes_to_bits(&vec![9u8; 8]);
    let rand_bits = bytes_to_bits(&vec![8u8; 4]);
    let birth_bits = bytes_to_bits(&vec![0xA5u8; 12]);
    let death_bits = bytes_to_bits(&vec![0x5Au8; 12]);
    // 16 bytes of payload: one full 87-bit group plus 41 leftover bits,
    // which overflow beside 64 value bits and 30 selector bits.
    let payload_bits = bytes_to_bits(&vec![0xC3u8; 16]);
    let value_bits = bytes_to_bits(&u64_to_le_bytes(u64::MAX));
    let fq_high_bits = vec![true; 30];
    let elements = record_elements(
        &cfg,
        &nonce_bits,
        &rand_bits,
        &birth_bits,
        &death_bits,
        &payload_bits,
        &value_bits,
        &fq_high_bits,
    );
    assert_eq!(elements.len(), 8);
    let back = unpack_record_elements(&elements, &cfg, payload_bits.len(), 64, 30);
    assert_eq!(back.serial_number_nonce_bits, nonce_bits);
    assert_eq!(back.commitment_randomness_bits, rand_bits);
    assert_eq!(back.birth_predicate_id_bits, birth_bits);
    assert_eq!(back.death_predicate_id_bits, death_bits);
    assert_eq!(back.payload_bits, payload_bits);
    assert_eq!(back.value_bits, value_bits);
    assert_eq!(back.fq_high_bits, fq_high_bits);
}
