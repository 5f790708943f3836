use encrypted_tao::ope::engine::{OpeError, OPE};
use encrypted_tao::ope::hgd::hypergeo_sample;
use encrypted_tao::ope::range::Range;
use encrypted_tao::ope::stats::uniform_sample;
use encrypted_tao::ope::tape::{
    aes_init, byte_to_bits, convert_bitstring, generate_bytes, generate_tape, Fraction, Keystream,
    PRNG,
};

pub const DEFAULT_INPUT_RANGE_END: u64 = u16::MAX as u64 - 1;
pub const DEFAULT_OUTPUT_RANGE_END: u64 = u32::MAX as u64 - 1;

fn fraction(coins: &mut PRNG) -> f64 {
    let u = coins.draw();
    u.numerator as f64 / u.denominator as f64
}

fn log_gamma(x: u64) -> f64 {
    let v = vec![
        8.333333333333333e-02,
        -2.777777777777778e-03,
        7.936507936507937e-04,
        -5.952380952380952e-04,
        8.417508417508418e-04,
        -1.917526917526918e-03,
        6.410256410256410e-03,
        -2.955065359477124e-02,
        1.796443723688307e-01,
        -1.39243221690590e+00,
    ];
    let x = x as f64 * 1.0;
    let mut x0 = x;
    let mut n: u64 = 0;
    if x0 == 1.0 || x0 == 2.0 {
        return 0.0;
    } else if x0 <= 7.0 {
        n = 7 - x as u64;
        x0 = x + n as f64;
    }
    let x2 = 1.0 / (x0 * x0);
    let xp: f64 = 2.0 * std::f64::consts::PI;
    let mut gl0 = v[9];
    for i in (0..9).rev() {
        gl0 *= x2;
        gl0 += v[i];
    }
    let mut gl = gl0 / x0 + 0.5 * xp.ln() + (x0 - 0.5) * x0.ln() - x0;
    if x <= 7.0 {
        for _i in 1..(n + 1) {
            gl -= (x0 - 1.0).ln();
            x0 -= 1.0;
        }
    }
    gl
}

fn variate(in_size: u64, out_size: u64, index: u64, coins: PRNG) -> u64 {
    let mut coins = coins;
    let mut out_size = out_size;
    let mut sample;
    if index > 10 {
        let d1: f64 = 1.7155277699214135;
        let d2: f64 = 0.8989161620588988;
        let min = std::cmp::min(in_size, out_size - in_size);
        let size = in_size + (out_size - in_size);
        let max = std::cmp::max(in_size, out_size - in_size);
        let min_sample = std::cmp::min(index, size - index);
        let d4 = min as f64 / size as f64;
        let d5 = 1.0 - d4;
        let d6: f64 = min_sample as f64 * d4 + 0.5;
        let d7: f64 =
            ((size - min) as f64 * index as f64 * d4 * d5 / (size - 1) as f64 + 0.5).sqrt();
        let d8: f64 = d1 * d7 + d2;
        let d9 = (min_sample + 1) * (min + 1) / (size + 2);
        let d10: f64 = log_gamma(d9 + 1)
            + log_gamma(min - d9 + 1)
            + log_gamma(min_sample - d9 + 1)
            + log_gamma(max - min_sample + d9 + 1);
        let d11 = std::cmp::min(
            std::cmp::min(min_sample, min) + 1,
            (d6 + 16.0 * d7).floor() as u64,
        );
        let mut z;
        loop {
            let x = fraction(&mut coins);
            let y = fraction(&mut coins);
            let w = d6 + d8 * (y - 0.5) / x;
            if w < 0.0 || w >= d11 as f64 {
                continue;
            }
            z = w.floor() as u64;
            let t = d10
                - (log_gamma(z + 1)
                    + log_gamma(min - z + 1)
                    + log_gamma(min_sample - z + 1)
                    + log_gamma(max - min_sample + z + 1));
            if (x * (4.0 - x) - 3.0) as u64 <= t as u64 {
                break;
            }
            if (x * (x - t)) as u64 >= 1 {
                continue;
            }
            if (2.0 * x.ln()) <= t {
                break;
            }
        }
        sample = z;
        if in_size > (out_size - in_size) {
            sample = min_sample - z;
        }
        if min_sample < index {
            sample = in_size - z;
        }
    } else {
        out_size = out_size - in_size;
        let d1 = in_size + (out_size - in_size) - index;
        let d2 = std::cmp::min(in_size, out_size - in_size);
        let mut y = d2;
        let mut k = index;
        while y > 0 {
            let u = fraction(&mut coins);
            y -= (u + y as f64 / (d1 + k) as f64).floor() as u64;
            k -= 1;
            if k == 0 {
                break;
            }
        }
        sample = d2 - y;
    }
    sample
}

fn mean(marked: u64, population: u64, draws: u64, _coins: PRNG) -> u64 {
    ((draws as u128 * marked as u128) / population as u128) as u64
}

type Variate = fn(u64, u64, u64, PRNG) -> u64;

fn cipher(key: &str, in_start: u64, in_end: u64, out_start: u64, out_end: u64, sampler: Variate) -> OPE<Variate> {
    OPE {
        key: key.to_string(),
        in_range: Range { start: in_start, end: in_end },
        out_range: Range { start: out_start, end: out_end },
        sampler,
    }
}

#[test]
fn test_encrypt() {
    let test = cipher("ope-testing-key", 1, DEFAULT_INPUT_RANGE_END, 1, DEFAULT_OUTPUT_RANGE_END, variate);
    let tests: [u64; 3] = [10, 100, 1000];
    let res: [u64; 3] = [524702, 9439840, 83053154];
    for i in 0..3 {
        let encrypt = test.encrypt(tests[i]).unwrap();
        assert_eq!(res[i], encrypt);
    }
}

#[test]
fn test_ordering() {
    let test = cipher("testing-key", 0, DEFAULT_INPUT_RANGE_END, 0, DEFAULT_OUTPUT_RANGE_END, variate);
    let a = test.encrypt(13).unwrap();
    let b = test.encrypt(14).unwrap();
    let c = test.encrypt(15).unwrap();
    println!("result of a: {}, b: {}, c: {}", a, b, c);
    assert!(a < b);
    assert!(b < c);
}

#[test]
fn test_decrypt() {
    let test = cipher("ope-testing-key", 0, DEFAULT_INPUT_RANGE_END, 0, DEFAULT_OUTPUT_RANGE_END, variate);
    let tests: [u64; 4] = [25, 50, 75, 750];
    for i in 0..4 {
        let encrypt = test.encrypt(tests[i]).unwrap();
        assert_eq!(tests[i], test.decrypt(encrypt).unwrap());
    }
}

#[test]
fn ordering_with_the_fixed_key() {
    let test = cipher("ope-testing-key", 1, DEFAULT_INPUT_RANGE_END, 1, DEFAULT_OUTPUT_RANGE_END, variate);
    let a = test.encrypt(13).unwrap();
    let b = test.encrypt(14).unwrap();
    let c = test.encrypt(15).unwrap();
    assert_eq!((a, b, c), (645199, 754993, 958377));
    assert!(a < b && b < c);
}

#[test]
fn decrypt_with_the_fixed_key() {
    let test = cipher("ope-testing-key", 1, DEFAULT_INPUT_RANGE_END, 1, DEFAULT_OUTPUT_RANGE_END, variate);
    let expected: [(u64, u64); 4] = [(25, 1578524), (50, 3975992), (75, 5182425), (750, 63892431)];
    for (p, c) in expected {
        assert_eq!(test.encrypt(p), Ok(c));
        assert_eq!(test.decrypt(c), Ok(p));
    }
}

#[test]
fn range_contains_size_copy() {
    let r = Range { start: 3, end: 7 };
    assert!(r.contains(3) && r.contains(5) && r.contains(7));
    assert!(!r.contains(2) && !r.contains(8));
    assert_eq!(r.size(), 5);
    assert_eq!(Range { start: 9, end: 9 }.size(), 1);
    assert_eq!(Range { start: 1, end: DEFAULT_OUTPUT_RANGE_END }.size(), 4294967294);
    assert_eq!(r.copy(), r);
}

#[test]
fn tape_is_seeded_by_the_keyed_hash_of_the_numeral() {
    let test = cipher("ope-testing-key", 1, 10, 1, 100, mean);
    let prng = test.tape_gen(10);
    let seed: [u8; 32] = [
        136, 20, 231, 198, 48, 231, 131, 241, 236, 170, 163, 135, 191, 237, 110, 247, 241, 81,
        127, 61, 82, 49, 49, 170, 222, 199, 238, 178, 209, 88, 181, 100,
    ];
    assert_eq!(prng.cipher.key, seed);
    assert_eq!(prng.cipher.counter, 0);
}

#[test]
fn keystream_blocks_follow_the_counter() {
    let test = cipher("ope-testing-key", 1, 10, 1, 100, mean);
    let mut cipher = test.tape_gen(10).cipher;
    assert_eq!(
        cipher.next_block(),
        [6, 116, 175, 87, 32, 45, 212, 174, 225, 50, 28, 32, 237, 204, 48, 135]
    );
    assert_eq!(cipher.counter, 1);
    assert_eq!(
        cipher.next_block(),
        [194, 11, 203, 55, 73, 149, 242, 54, 109, 32, 40, 110, 50, 113, 73, 20]
    );
    assert_eq!(cipher.counter, 2);
}

#[test]
fn keystream_block_is_the_cipher_of_the_big_endian_counter() {
    let mut key = [0u8; 32];
    for i in 0..32 {
        key[i] = i as u8;
    }
    let mut cipher = Keystream { key, counter: 88962710306127702866241727433142015 };
    assert_eq!(
        cipher.next_block(),
        [0x8e, 0xa2, 0xb7, 0xca, 0x51, 0x67, 0x45, 0xbf, 0xea, 0xfc, 0x49, 0x90, 0x4b, 0x49, 0x60, 0x89]
    );
}

#[test]
fn keystream_counter_wraps() {
    let mut cipher = Keystream { key: [7u8; 32], counter: u128::MAX };
    let _ = cipher.next_block();
    assert_eq!(cipher.counter, 0);
}

#[test]
fn aes_init_takes_the_key_and_starts_at_zero() {
    let mut key = [0u8; 32];
    for i in 0..32 {
        key[i] = (2 * i) as u8;
    }
    let cipher = aes_init(&key);
    assert_eq!(cipher.key, key);
    assert_eq!(cipher.counter, 0);
}

#[test]
fn generate_bytes_takes_the_bytes_one_by_one() {
    let mut data = [0u8; 16];
    data[0] = 0;
    data[1] = 7;
    data[2] = 45;
    data[3] = 200;
    data[4] = 255;
    let bin = generate_bytes(&data);
    assert_eq!(bin[0], vec![0]);
    assert_eq!(bin[1], vec![7]);
    assert_eq!(bin[2], vec![45]);
    assert_eq!(bin[3], vec![200]);
    assert_eq!(bin[4], vec![255]);
    assert_eq!(bin[15], vec![0]);
}

#[test]
fn byte_to_bits_gives_the_eight_bits_of_the_first_byte() {
    assert_eq!(byte_to_bits(&vec![50, 48, 48]), "00110010");
    assert_eq!(byte_to_bits(&vec![0]), "00000000");
    assert_eq!(byte_to_bits(&vec![1]), "00000001");
    assert_eq!(byte_to_bits(&vec![255, 3]), "11111111");
    assert_eq!(byte_to_bits(&vec![57]), "00111001");
    assert_eq!(byte_to_bits(&vec![0x80]), "10000000");
    assert_eq!(byte_to_bits(&vec![0xa5]), "10100101");
}

#[test]
fn convert_bitstring_reads_eight_bits_a_byte() {
    let block: [u8; 16] = [6, 116, 175, 87, 32, 45, 212, 174, 225, 50, 28, 32, 237, 204, 48, 135];
    let expected: [u32; 128] = [
        0, 0, 0, 0, 0, 1, 1, 0, 0, 1, 1, 1, 0, 1, 0, 0, 1, 0, 1, 0, 1, 1, 1, 1, 0, 1, 0, 1, 0, 1,
        1, 1, 0, 0, 1, 0, 0, 0, 0, 0, 0, 0, 1, 0, 1, 1, 0, 1, 1, 1, 0, 1, 0, 1, 0, 0, 1, 0, 1, 0,
        1, 1, 1, 0, 1, 1, 1, 0, 0, 0, 0, 1, 0, 0, 1, 1, 0, 0, 1, 0, 0, 0, 0, 1, 1, 1, 0, 0, 0, 0,
        1, 0, 0, 0, 0, 0, 1, 1, 1, 0, 1, 1, 0, 1, 1, 1, 0, 0, 1, 1, 0, 0, 0, 0, 1, 1, 0, 0, 0, 0,
        1, 0, 0, 0, 0, 1, 1, 1,
    ];
    assert_eq!(convert_bitstring(block), expected);
    assert_eq!(convert_bitstring([0u8; 16]), [0u32; 128]);
    assert_eq!(convert_bitstring([255u8; 16]), [1u32; 128]);
    let mut high = [0u8; 16];
    high[0] = 0x80;
    let coins = convert_bitstring(high);
    assert_eq!(coins[0], 1);
    for k in 1..128 {
        assert_eq!(coins[k], 0);
    }
    let mut low = [0u8; 16];
    low[15] = 1;
    let coins = convert_bitstring(low);
    assert_eq!(coins[127], 1);
    for k in 0..127 {
        assert_eq!(coins[k], 0);
    }
}

#[test]
fn generate_tape_advances_the_keystream() {
    let test = cipher("ope-testing-key", 1, 10, 1, 100, mean);
    let mut prng = test.tape_gen(10);
    let first = generate_tape(&mut prng);
    assert_eq!(first[0..12], [0, 0, 0, 0, 0, 1, 1, 0, 0, 1, 1, 1]);
    assert_eq!(prng.cipher.counter, 1);
    let second = generate_tape(&mut prng);
    assert_eq!(second[0..12], [1, 1, 0, 0, 0, 0, 1, 0, 0, 0, 0, 0]);
    assert_eq!(prng.cipher.counter, 2);
}

#[test]
fn draw_packs_the_first_coins_of_each_reading() {
    let test = cipher("ope-testing-key", 1, 10, 1, 100, mean);
    let mut prng = test.tape_gen(10);
    assert_eq!(prng.draw(), Fraction { numerator: 108310359, denominator: 4294967295 });
    assert_eq!(prng.draw(), Fraction { numerator: 3255552823, denominator: 4294967295 });
    assert_eq!(prng.cipher.counter, 2);
}

#[test]
fn uniform_sample_bisects_by_the_coins() {
    let test = cipher("ope-testing-key", 1, 10, 1, 100, mean);
    assert_eq!(uniform_sample(Range { start: 1, end: 100 }, test.tape_gen(10)), 4);
    assert_eq!(
        uniform_sample(Range { start: 0, end: DEFAULT_OUTPUT_RANGE_END }, test.tape_gen(7)),
        2664512076
    );
    assert_eq!(uniform_sample(Range { start: 42, end: 42 }, test.tape_gen(7)), 42);
    let whole = uniform_sample(Range { start: 0, end: u64::MAX }, test.tape_gen(7));
    assert_eq!(whole, 11443992229450072384);
}

#[test]
fn hypergeo_sample_of_equal_sizes_follows_the_seed() {
    let test = cipher("k", 1, 10, 1, 100, mean);
    let never: Variate = |_, _, _, _| panic!("not asked");
    assert_eq!(hypergeo_sample(5, 9, 20, 24, 22, test.tape_gen(22), &never), 7);
    assert_eq!(hypergeo_sample(5, 9, 20, 24, 20, test.tape_gen(20), &never), 5);
    assert_eq!(hypergeo_sample(5, 9, 20, 24, 24, test.tape_gen(24), &never), 9);
}

#[test]
fn hypergeo_sample_maps_the_count_into_the_interval() {
    let test = cipher("k", 1, 10, 1, 100, mean);
    let none: Variate = |_, _, _, _| 0;
    let one: Variate = |_, _, _, _| 1;
    let four: Variate = |_, _, _, _| 4;
    let many: Variate = |_, _, _, _| 1000;
    assert_eq!(hypergeo_sample(11, 20, 1, 100, 50, test.tape_gen(50), &none), 11);
    assert_eq!(hypergeo_sample(11, 20, 1, 100, 50, test.tape_gen(50), &one), 11);
    assert_eq!(hypergeo_sample(11, 20, 1, 100, 50, test.tape_gen(50), &four), 14);
    assert_eq!(hypergeo_sample(11, 20, 1, 100, 50, test.tape_gen(50), &many), 20);
}

#[test]
fn hypergeo_sample_asks_for_marked_population_and_draws() {
    let test = cipher("k", 1, 10, 1, 100, mean);
    let echo: Variate = |marked, population, draws, coins| {
        assert_eq!((marked, population, draws), (10, 100, 50));
        assert_eq!(coins.cipher.counter, 0);
        3
    };
    assert_eq!(hypergeo_sample(11, 20, 1, 100, 50, test.tape_gen(50), &echo), 13);
}

#[test]
fn the_first_split_of_the_default_intervals() {
    let test = cipher("ope-testing-key", 1, DEFAULT_INPUT_RANGE_END, 1, DEFAULT_OUTPUT_RANGE_END, variate);
    let mid = 2147483647;
    let count = variate(65534, 4294967294, mid, test.tape_gen(mid));
    assert_eq!(count, 24553);
    let v: Variate = variate;
    assert_eq!(
        hypergeo_sample(1, DEFAULT_INPUT_RANGE_END, 1, DEFAULT_OUTPUT_RANGE_END, mid, test.tape_gen(mid), &v),
        24553
    );
}

#[test]
fn encrypt_small_interval() {
    let test = cipher("ope-testing-key", 1, 10, 1, 100, mean);
    let expected: [u64; 10] = [13, 25, 32, 41, 47, 51, 71, 76, 92, 95];
    for p in 1..=10u64 {
        assert_eq!(test.encrypt(p), Ok(expected[(p - 1) as usize]));
    }
}

#[test]
fn encrypt_equal_sizes_is_a_shift() {
    let test = cipher("ope-testing-key", 5, 9, 20, 24, mean);
    for p in 5..=9u64 {
        assert_eq!(test.encrypt(p), Ok(p + 15));
        assert_eq!(test.decrypt(p + 15), Ok(p));
    }
}

#[test]
fn encrypt_outside_the_interval_is_out_of_range() {
    let test = cipher("ope-testing-key", 1, DEFAULT_INPUT_RANGE_END, 1, DEFAULT_OUTPUT_RANGE_END, variate);
    assert_eq!(test.encrypt(0), Err(OpeError::OutOfRange));
    assert_eq!(test.encrypt(65535), Err(OpeError::OutOfRange));
    assert_eq!(test.recursive_encrypt(11, 1, 10, 1, 100), Err(OpeError::OutOfRange));
}

#[test]
fn decrypt_outside_the_interval_is_out_of_range() {
    let test = cipher("ope-testing-key", 1, 10, 1, 100, mean);
    assert_eq!(test.decrypt(0), Err(OpeError::OutOfRange));
    assert_eq!(test.decrypt(101), Err(OpeError::OutOfRange));
    assert_eq!(test.recursive_decrypt(101, 1, 10, 1, 100), Err(OpeError::OutOfRange));
}

#[test]
fn decrypt_of_no_ciphertext_is_not_found() {
    let test = cipher("ope-testing-key", 1, 10, 1, 100, mean);
    let images: [u64; 10] = [13, 25, 32, 41, 47, 51, 71, 76, 92, 95];
    for c in 1..=100u64 {
        match images.iter().position(|i| *i == c) {
            Some(k) => assert_eq!(test.decrypt(c), Ok(k as u64 + 1)),
            None => assert_eq!(test.decrypt(c), Err(OpeError::NotFound)),
        }
    }
}

#[test]
fn larger_input_than_output_is_a_misfit() {
    let test = cipher("ope-testing-key", 1, 100, 1, 10, mean);
    assert_eq!(test.encrypt(5), Err(OpeError::Misfit));
    assert_eq!(test.decrypt(5), Err(OpeError::Misfit));
    let all_low: Variate = |marked, _, _, _| marked;
    let squeezed = cipher("ope-testing-key", 1, 10, 1, 12, all_low);
    assert_eq!(squeezed.encrypt(3), Err(OpeError::Misfit));
}

#[test]
fn round_trip_and_order_over_a_whole_interval() {
    let test = cipher("another key", 0, 300, 1000, 5000, mean);
    let mut last = None;
    for p in 0..=300u64 {
        let c = test.encrypt(p).unwrap();
        assert!(1000 <= c && c <= 5000);
        assert_eq!(test.decrypt(c), Ok(p));
        if let Some(before) = last {
            assert!(before < c);
        }
        last = Some(c);
    }
}

#[test]
fn same_key_and_intervals_same_ciphertexts() {
    let a = cipher("ope-testing-key", 1, DEFAULT_INPUT_RANGE_END, 1, DEFAULT_OUTPUT_RANGE_END, variate);
    let b = cipher("ope-testing-key", 1, DEFAULT_INPUT_RANGE_END, 1, DEFAULT_OUTPUT_RANGE_END, variate);
    let other = cipher("ope-testing-kez", 1, DEFAULT_INPUT_RANGE_END, 1, DEFAULT_OUTPUT_RANGE_END, variate);
    for p in [1u64, 2, 999, 40000, 65534] {
        assert_eq!(a.encrypt(p), b.encrypt(p));
        assert_eq!(a.encrypt(p), a.encrypt(p));
    }
    assert_ne!(a.encrypt(1000), other.encrypt(1000));
}

#[test]
fn recursive_encrypt_starts_from_any_pair_of_intervals() {
    let test = cipher("ope-testing-key", 1, 10, 1, 100, mean);
    let c = test.recursive_encrypt(3, 1, 5, 1, 50).unwrap();
    assert!(1 <= c && c <= 50);
    assert_eq!(test.recursive_decrypt(c, 1, 5, 1, 50), Ok(3));
    assert_eq!(test.recursive_encrypt(7, 7, 7, 60, 60), Ok(60));
    assert_eq!(test.recursive_decrypt(60, 7, 7, 60, 60), Ok(7));
}

#[test]
fn an_odd_interval_is_halved_with_the_larger_half_below() {
    let counts: Variate = |_, _, draws, _| if draws == 2 { 1 } else { 3 };
    let asked: Variate = |marked, population, draws, _| {
        assert_eq!((marked, population, draws), (4, 5, 3));
        3
    };
    let test = cipher("ope-testing-key", 0, 3, 0, 4, counts);
    assert_eq!(hypergeo_sample(0, 3, 0, 4, 2, test.tape_gen(2), &asked), 2);
    for p in 0..=3u64 {
        assert_eq!(test.encrypt(p), Ok(p));
        assert_eq!(test.decrypt(p), Ok(p));
    }
    assert_eq!(test.decrypt(4), Err(OpeError::NotFound));
    let pair = cipher("ope-testing-key", 7, 7, 1, 3, counts);
    let c = pair.encrypt(7).unwrap();
    assert!(1 <= c && c <= 3);
}

#[test]
fn keystream_follows_counter_mode_across_a_carry() {
    let key: [u8; 32] = [
        96, 61, 235, 16, 21, 202, 113, 190, 43, 115, 174, 240, 133, 125, 119, 129, 31, 53, 44, 7,
        59, 97, 8, 215, 45, 152, 16, 163, 9, 20, 223, 244,
    ];
    let mut cipher = Keystream { key, counter: 320270990202665973124521174155042619135 };
    let blocks: [[u8; 16]; 4] = [
        [0x0b, 0xdf, 0x7d, 0xf1, 0x59, 0x17, 0x16, 0x33, 0x5e, 0x9a, 0x8b, 0x15, 0xc8, 0x60, 0xc5, 0x02],
        [0x5a, 0x6e, 0x69, 0x9d, 0x53, 0x61, 0x19, 0x06, 0x54, 0x33, 0x86, 0x3c, 0x8f, 0x65, 0x7b, 0x94],
        [0x1b, 0xc1, 0x2c, 0x9c, 0x01, 0x61, 0x0d, 0x5d, 0x0d, 0x8b, 0xd6, 0xa3, 0x37, 0x8e, 0xca, 0x62],
        [0x29, 0x56, 0xe1, 0xc8, 0x69, 0x35, 0x36, 0xb1, 0xbe, 0xe9, 0x9c, 0x73, 0xa3, 0x15, 0x76, 0xb6],
    ];
    for block in blocks {
        assert_eq!(cipher.next_block(), block);
    }
    assert_eq!(cipher.counter, 320270990202665973124521174155042619139);
}
