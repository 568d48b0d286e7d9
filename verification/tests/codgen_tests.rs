use embedded_course::codgen::{codgen, codgen_values};
use embedded_course::decoder::{self, decode, INITIAL_SEED};

#[test]
fn codgen_sequence_from_known_seed() {
    // Seeding with 0x3e944b9f yields 891432f9, 4aa1dccc, c54270fa, 9885155f, ce83d1b8.
    let expected: [u32; 5] = [0x891432f9, 0x4aa1dccc, 0xc54270fa, 0x9885155f, 0xce83d1b8];
    let (mut next_seed, mut next_value) = codgen(0x3e944b9f);
    assert_eq!(next_value, expected[0]);
    for k in 1..5 {
        let (tmp_seed, tmp_value) = codgen(next_seed);
        next_seed = tmp_seed;
        next_value = tmp_value;
        assert_eq!(next_value, expected[k]);
    }
}

#[test]
fn codgen_value_is_seed_xor_constant() {
    for seed in [0u32, 1, 0x8000_0000, 0xffff_ffff, 0x1234_5678, INITIAL_SEED] {
        let (s, v) = codgen(seed);
        assert_eq!(v, s ^ 0x464b713e);
    }
}

#[test]
fn codgen_zero_and_all_ones() {
    // Seed 0: nothing to rotate or shift, 32 zero bits.
    assert_eq!(codgen(0).0, 32);
    // All ones: rotation and arithmetic shift keep all ones, no zero bits;
    // ones xor ones is zero.
    assert_eq!(codgen(0xffff_ffff).0, 0);
}

#[test]
fn codgen_matches_reference_formula() {
    let mut seed: u32 = 0x2468_ace1;
    for _ in 0..200 {
        let expected = seed.rotate_left(30) ^ ((seed as i32 >> 6) as u32) ^ seed.count_zeros();
        let (s, v) = codgen(seed);
        assert_eq!(s, expected);
        assert_eq!(v, expected ^ 0x464b713e);
        seed = s;
    }
}

#[test]
fn stateful_codgen_advances_seed() {
    let mut seed = 0x3e944b9f;
    let v = decoder::codgen(&mut seed);
    assert_eq!(v, 0x891432f9);
    assert_eq!(seed, codgen(0x3e944b9f).0);
    let v2 = decoder::codgen(&mut seed);
    assert_eq!(v2, 0x4aa1dccc);
}

#[test]
fn decode_course_message() {
    let wordarr: [u32; 4] = [0x9fdd9158, 0x85715808, 0xac73323a, 0];
    let mut bytearr: Vec<u8> = vec![0; 4];
    let mut seed = INITIAL_SEED;
    let r = decode(&mut seed, &wordarr, &mut bytearr, 0);
    assert_eq!(bytearr, b"abc\0".to_vec());
    assert_eq!(r, 0x0b4d_c4d1);
    assert_eq!(seed, 0x0ea5_dfe8);
}

#[test]
fn decode_zero_word_only() {
    let wordarr: [u32; 1] = [0];
    let mut bytearr: Vec<u8> = vec![7];
    let mut seed = INITIAL_SEED;
    let r = decode(&mut seed, &wordarr, &mut bytearr, 0);
    let (s1, v1) = codgen(INITIAL_SEED);
    assert_eq!(r, !v1);
    assert_eq!(seed, s1);
    assert_eq!(bytearr, vec![0]);
}

#[test]
fn decode_from_middle_leaves_earlier_bytes() {
    let wordarr: [u32; 4] = [0x9fdd9158, 0x85715808, 0xac73323a, 0];
    let mut bytearr: Vec<u8> = vec![9, 9, 9, 9];
    let mut seed = INITIAL_SEED;
    decode(&mut seed, &wordarr, &mut bytearr, 2);
    assert_eq!(bytearr[0], 9);
    assert_eq!(bytearr[1], 9);
    assert_eq!(bytearr[3], 0);
}

#[test]
fn decode_stops_at_first_zero_word() {
    let wordarr: [u32; 3] = [0x9fdd9158, 0, 0x1234_5678];
    let mut bytearr: Vec<u8> = vec![9, 9, 9];
    let mut seed = INITIAL_SEED;
    decode(&mut seed, &wordarr, &mut bytearr, 0);
    assert_eq!(bytearr[1], 0);
    assert_eq!(bytearr[2], 9);
    // Two values drawn at the first word, one at the zero word.
    let (s1, _) = codgen(INITIAL_SEED);
    let (s2, _) = codgen(s1);
    let (s3, _) = codgen(s2);
    assert_eq!(seed, s3);
}

#[test]
fn codgen_values_from_known_seed() {
    assert_eq!(
        codgen_values(0x3e944b9f, 5),
        vec![0x891432f9, 0x4aa1dccc, 0xc54270fa, 0x9885155f, 0xce83d1b8]
    );
    assert!(codgen_values(0x3e944b9f, 0).is_empty());
}
