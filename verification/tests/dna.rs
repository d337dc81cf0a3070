use pallets::kitty::{encode_dna_payload, mix_dna, random_value, Kitty};

#[test]
fn dna_payload_is_scale_layout() {
    let payload = encode_dna_payload(&[0xaa, 0xbb], 0x0102030405060708, Some(0x11223344));
    assert_eq!(
        payload,
        vec![0xaa, 0xbb, 8, 7, 6, 5, 4, 3, 2, 1, 1, 0x44, 0x33, 0x22, 0x11]
    );
    let payload = encode_dna_payload(&[], 1, None);
    assert_eq!(payload, vec![1, 0, 0, 0, 0, 0, 0, 0, 0]);
}

#[test]
fn dna_random_value_hashes_payload() {
    let seed = [5u8; 32];
    let mut payload = seed.to_vec();
    payload.extend_from_slice(&42u64.to_le_bytes());
    payload.push(1);
    payload.extend_from_slice(&9u32.to_le_bytes());
    let expected = sp_io::hashing::blake2_128(&payload);
    assert_eq!(random_value(&seed, 42, Some(9)), expected);
    assert_ne!(random_value(&seed, 42, Some(9)).to_vec(), payload[..16].to_vec());
    assert_ne!(random_value(&seed, 42, Some(9)), random_value(&seed, 43, Some(9)));
}

#[test]
fn dna_mixing_laws_on_examples() {
    let a = Kitty([0b1010_1010; 16]);
    let b = Kitty([0b0101_0101; 16]);
    assert_eq!(mix_dna(&a, &b, &[0xff; 16]), a);
    assert_eq!(mix_dna(&a, &b, &[0x00; 16]), b);
    assert_eq!(mix_dna(&a, &a, &[0x3c; 16]), a);
    assert_eq!(mix_dna(&a, &b, &[0x0f; 16]), Kitty([0b0101_1010; 16]));
}
