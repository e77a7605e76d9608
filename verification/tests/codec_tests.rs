//! Tests of the partner-coordinate codec and the integer hash.

use quantum_life::codec::decode_partner;
use quantum_life::codec::encode_partner;
use quantum_life::codec::NO_ENTANGLEMENT;
use quantum_life::rng::pcg_hash;
use quantum_life::rng::seed_for;

#[test]
fn test_encode_decode_roundtrip() {
    let coords = (500, 300);
    let encoded = encode_partner(Some(coords));
    let decoded = decode_partner(encoded);
    assert_eq!(decoded, Some(coords));
}

#[test]
fn test_no_entanglement() {
    let encoded = encode_partner(None);
    assert_eq!(encoded, NO_ENTANGLEMENT);
    assert_eq!(decode_partner(encoded), None);
}

#[test]
fn test_large_coords() {
    // (65535, 65535) encodes to the sentinel itself, so the largest
    // representable pairs stay just beside it.
    let coords = (65534, 65535);
    let encoded = encode_partner(Some(coords));
    let decoded = decode_partner(encoded);
    assert_eq!(decoded, Some(coords));

    let coords2 = (65535, 65534);
    let encoded2 = encode_partner(Some(coords2));
    let decoded2 = decode_partner(encoded2);
    assert_eq!(decoded2, Some(coords2));
}

#[test]
fn test_roundtrip_sample_of_plane() {
    for x in [0u32, 1, 255, 256, 4095, 30000, 65534] {
        for y in [0u32, 1, 255, 256, 4095, 30000, 65534] {
            let encoded = encode_partner(Some((x, y)));
            assert_eq!(decode_partner(encoded), Some((x, y)));
        }
    }
}

#[test]
fn test_encode_packs_high_and_low_halves() {
    assert_eq!(encode_partner(Some((1, 0))), 0x0001_0000);
    assert_eq!(encode_partner(Some((0, 1))), 0x0000_0001);
    assert_eq!(encode_partner(Some((0xABCD, 0x1234))), 0xABCD_1234);
}

#[test]
fn test_unrepresentable_corner_aliases_to_sentinel() {
    let encoded = encode_partner(Some((65535, 65535)));
    assert_eq!(encoded, NO_ENTANGLEMENT);
    assert_eq!(decode_partner(encoded), None);
}

#[test]
fn test_pcg_hash_expected_values() {
    assert_eq!(pcg_hash(0), 129708002);
    assert_eq!(pcg_hash(1), 2831084092);
    assert_eq!(pcg_hash(42), 1223963391);
}

#[test]
fn test_seed_for_mixes_both_coordinates() {
    assert_eq!(seed_for(3, 7), 925619080);
    assert_ne!(seed_for(3, 7), seed_for(7, 3));
    assert_eq!(seed_for(3, 7), seed_for(3, 7));
}
