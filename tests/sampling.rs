use rand::RngCore;
use rand::SeedableRng;
use ntru_poly::{Param, SignedPolyArith, SignedPolynomial, UnsignedPolyArith, UnsignedPolynomial};

#[test]
fn test_sample_t_signed() {
    let p: Param = Param::init();
    let domain = "test".to_string();
    for i in 0..100 {
        let seed = [i as u8; 32];
        let f = SignedPolynomial::sample_t(p.clone(), seed, domain.clone());
        assert!(f.is_trinary(), "f is not trinary");
        assert!(f.coefficient[f.degree - 1] == 0, "leading coefficient isn't 0");
        assert!(f.coefficient[f.degree - 2] == 0, "second leading coefficient isn't 0");
        assert!(
            f.hamming() < f.degree * 3 / 4 && f.hamming() > f.degree / 4,
            "hamming weight seems incorrect"
        );
        assert!(
            f.norm_one() < ((f.degree / 4) as i16) && f.norm_one() > -((f.degree / 4) as i16),
            "norm seems incorrect"
        );
    }
}

#[test]
fn test_sample_t_plus_signed() {
    let p: Param = Param::init();
    let domain = "test".to_string();
    for i in 0..100 {
        let seed = [i as u8; 32];
        let f = SignedPolynomial::sample_t_plus(p.clone(), seed, domain.clone());
        assert!(f.is_trinary(), "f is not trinary");
        assert!(f.coefficient[f.degree - 1] == 0, "leading coefficient isn't 0");
        assert!(f.coefficient[f.degree - 2] == 0, "second leading coefficient isn't 0");
        assert!(
            f.hamming() < f.degree * 3 / 4 && f.hamming() > f.degree / 4,
            "hamming weight seems incorrect"
        );
        assert!(
            f.norm_one() < ((f.degree / 4) as i16) && f.norm_one() > -((f.degree / 4) as i16),
            "norm seems incorrect"
        );
        assert!(f.get_t() >= 0, "invalid t value");
    }
}

#[test]
fn test_conversion_ipoly_upoly() {
    for _ in 0..100 {
        let a = SignedPolynomial::zero(50);
        let b = SignedPolynomial::from_unsigned(a.into_unsigned());
        assert_eq!(a, b, "conversion between upoly and ipoly failed");
    }
}

#[test]
fn test_conversion_upoly_ipoly() {
    for _ in 0..100 {
        let a = UnsignedPolynomial::zero(50);
        let b = UnsignedPolynomial::from_signed(a.into_signed());
        assert_eq!(a, b, "conversion between upoly and ipoly failed");
    }
}

#[test]
fn test_sample_t_unsigned() {
    let p: Param = Param::init();
    let domain = "test".to_string();
    for i in 0..100 {
        let seed = [i as u8; 32];
        let f = UnsignedPolynomial::sample_t(p.clone(), seed, domain.clone());
        assert!(f.is_trinary(), "f is not trinary");
        assert!(f.coefficient[f.degree - 1] == 0, "leading coefficient isn't 0");
        assert!(f.coefficient[f.degree - 2] == 0, "second leading coefficient isn't 0");
        assert!(
            f.hamming() < f.degree * 3 / 4 && f.hamming() > f.degree / 4,
            "hamming weight seems incorrect"
        );
        assert!(
            f.norm_one() < ((f.degree / 4) as i16) && f.norm_one() > -((f.degree / 4) as i16),
            "norm seems incorrect"
        );
    }
}

#[test]
fn test_sample_t_plus_unsigned() {
    let p: Param = Param::init();
    let domain = "test".to_string();
    for i in 0..100 {
        let seed = [i as u8; 32];
        let f = UnsignedPolynomial::sample_t_plus(p.clone(), seed, domain.clone());
        assert!(f.is_trinary(), "f is not trinary");
        assert!(f.coefficient[f.degree - 1] == 0, "leading coefficient isn't 0");
        assert!(f.coefficient[f.degree - 2] == 0, "second leading coefficient isn't 0");
        assert!(
            f.hamming() < f.degree * 3 / 4 && f.hamming() > f.degree / 4,
            "hamming weight seems incorrect"
        );
        assert!(
            f.norm_one() < ((f.degree / 4) as i16) && f.norm_one() > -((f.degree / 4) as i16),
            "norm seems incorrect"
        );
        assert!(f.into_signed().get_t() >= 0, "invalid t value");
    }
}

#[test]
fn sample_t_all_zero_seed() {
    let p = Param::init();
    let f = SignedPolynomial::sample_t(p, [0u8; 32], "test".to_string());
    assert_eq!(f.degree, 701);
    assert_eq!(f.modulus, 8192);
    assert!(f.is_trinary());
    assert_eq!(f.coefficient[699], 0);
    assert_eq!(f.coefficient[700], 0);
}

#[test]
fn sample_t_plus_seed_four_ignores_domain() {
    let p = Param::init();
    let a = SignedPolynomial::sample_t_plus(p, [4u8; 32], "fdom".to_string());
    let b = SignedPolynomial::sample_t_plus(p, [4u8; 32], "another label".to_string());
    assert!(a.get_t() >= 0);
    assert_eq!(a, b);
}

#[test]
fn sampling_is_deterministic() {
    let p = Param::init();
    for i in [0u8, 7, 200] {
        let a = SignedPolynomial::sample_t(p, [i; 32], "x".to_string());
        let b = SignedPolynomial::sample_t(p, [i; 32], "x".to_string());
        assert_eq!(a, b);
        let c = UnsignedPolynomial::sample_t_plus(p, [i; 32], "x".to_string());
        let d = UnsignedPolynomial::sample_t_plus(p, [i; 32], "x".to_string());
        assert_eq!(c, d);
    }
    let x = SignedPolynomial::sample_t(p, [1u8; 32], "x".to_string());
    let y = SignedPolynomial::sample_t(p, [2u8; 32], "x".to_string());
    assert_ne!(x, y);
}

#[test]
fn sample_t_reads_bit_pairs_of_the_keystream() {
    let seed = [9u8; 32];
    let mut rng = rand_chacha::ChaCha20Rng::from_seed(seed);
    let words: Vec<u64> = (0..22).map(|_| rng.next_u64()).collect();
    let f = SignedPolynomial::sample_t(Param::init(), seed, String::new());
    for i in 0..699 {
        let w = words[i / 32];
        let j = i % 32;
        let expected = ((w >> (2 * j + 1)) & 1) as i16 - ((w >> (2 * j)) & 1) as i16;
        assert_eq!(f.coefficient[i], expected);
    }
}

#[test]
fn sample_t_plus_negates_even_entries_of_t_sample() {
    let p = Param::init();
    let mut flipped = 0;
    for i in 0..40u8 {
        let t = SignedPolynomial::sample_t(p, [i; 32], String::new());
        let tp = SignedPolynomial::sample_t_plus(p, [i; 32], String::new());
        let negate = t.get_t() < 0;
        if negate {
            flipped += 1;
        }
        for k in 0..701 {
            let expected = if negate && k % 2 == 0 { -t.coefficient[k] } else { t.coefficient[k] };
            assert_eq!(tp.coefficient[k], expected);
        }
    }
    assert!(flipped > 0);
}

#[test]
fn unsigned_sample_maps_minus_one_to_q_minus_one() {
    let p = Param::init();
    let s = SignedPolynomial::sample_t(p, [3u8; 32], String::new());
    let u = UnsignedPolynomial::sample_t(p, [3u8; 32], String::new());
    assert!(s.coefficient.iter().any(|&c| c == -1));
    for k in 0..701 {
        let expected: u16 = match s.coefficient[k] {
            -1 => 8191,
            0 => 0,
            1 => 1,
            _ => panic!("not trinary"),
        };
        assert_eq!(u.coefficient[k], expected);
    }
    assert_eq!(u.into_signed(), s);
}
