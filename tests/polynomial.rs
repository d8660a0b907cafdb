use rand::RngCore;
use rand::SeedableRng;
use ntru_poly::{
    down, lift, Param, RingArith, RingElement, SignedPolyArith, SignedPolynomial, TernaryArith, TernaryPoly,
    UnsignedPolyArith, UnsignedPolynomial,
};

#[test]
fn test_psi_dist() {
    let seed: [u8; 32] = [84; 32];
    let mut t: RingElement = RingArith::zero(512);
    t.rand(seed, 1);
}

#[test]
fn lift_and_down_values() {
    assert_eq!(lift(0, 8192), 0);
    assert_eq!(lift(4096, 8192), 4096);
    assert_eq!(lift(4097, 8192), -4095);
    assert_eq!(lift(8191, 8192), -1);
    assert_eq!(down(0, 8192), 0);
    assert_eq!(down(-1, 8192), 8191);
    assert_eq!(down(-4095, 8192), 4097);
    assert_eq!(down(4096, 8192), 4096);
    assert_eq!(lift(0, 0), 0);
    assert_eq!(down(0, 0), 0);
}

#[test]
fn lift_down_round_trip() {
    for q in [2u16, 3, 16, 8192] {
        for x in 0..q {
            assert_eq!(down(lift(x, q), q), x);
        }
        let lo = -((q / 2) as i16) + 1;
        for y in lo..=((q / 2) as i16) {
            assert_eq!(lift(down(y, q), q), y);
        }
    }
}

#[test]
fn param_values() {
    let p = Param::init();
    assert_eq!(p.get_param_n(), 701);
    assert_eq!(p.get_param_k(), 2);
    assert_eq!(p.get_param_seed_bits(), 256);
    assert_eq!(p.get_param_coin_bits(), 256);
    assert_eq!(p.get_param_shared_key_bits(), 256);
    assert_eq!(p.get_log_q(), 13);
    assert_eq!(p.get_q(), 8192);
    assert_eq!(p.get_s3_packed_bits(), 1120);
    assert_eq!(p.get_owcpa_public_key_bits(), 9100);
    assert_eq!(p.get_owcpa_secret_key_bits(), 2240);
    assert_eq!(p.get_owcpa_ciphertext_bits(), 9100);
}

#[test]
fn init_and_zero() {
    let a = SignedPolynomial::init();
    assert_eq!(a.degree, 0);
    assert!(a.coefficient.is_empty());
    let b = UnsignedPolynomial::zero(7);
    assert_eq!(b.degree, 7);
    assert_eq!(b.modulus, 0);
    assert_eq!(b.coefficient, vec![0u16; 7]);
    assert_eq!(TernaryPoly::zero(9).hamming(), 0);
    assert_eq!(TernaryPoly::new(), TernaryPoly::zero(0));
    assert_eq!(RingElement::new(), RingElement::zero(0));
}

#[test]
fn statistics_of_small_polynomial() {
    let f = SignedPolynomial { coefficient: vec![1, -1, 0, 1, 0], degree: 5, modulus: 8192 };
    assert_eq!(f.hamming(), 3);
    assert_eq!(f.norm_one(), 1);
    assert_eq!(f.get_t(), -1);
    assert!(f.is_trinary());
    let g = SignedPolynomial { coefficient: vec![1, 2, 0], degree: 3, modulus: 8192 };
    assert!(!g.is_trinary());
    assert_eq!(g.norm_one(), 3);
    assert_eq!(g.get_t(), 2);
    let u = f.into_unsigned();
    assert_eq!(u.coefficient, vec![1, 8191, 0, 1, 0]);
    assert_eq!(u.hamming(), 3);
    assert_eq!(u.norm_one(), 1);
    assert!(u.is_trinary());
}

#[test]
fn mod_s3_hands_back_trinary_input() {
    let f = SignedPolynomial { coefficient: vec![1, -1, 0], degree: 3, modulus: 8192 };
    let g = SignedPolynomial::mod_s3(f.clone());
    assert_eq!(g, f);
    let h = SignedPolynomial::s3_to_zx(f.clone());
    assert_eq!(h, f);
}

#[test]
fn equality_compares_every_field() {
    let a = SignedPolynomial { coefficient: vec![1, 0], degree: 2, modulus: 8192 };
    let b = SignedPolynomial { coefficient: vec![1, 0], degree: 2, modulus: 16 };
    let c = SignedPolynomial { coefficient: vec![1, 1], degree: 2, modulus: 8192 };
    assert_eq!(a, a.clone());
    assert_ne!(a, b);
    assert_ne!(a, c);
}

#[test]
fn masked_rand_fills_residues() {
    let p = Param::init();
    let mut rng = rand_chacha::ChaChaRng::from_seed([5u8; 32]);
    let mut f = UnsignedPolynomial::init();
    f.rand(p, &mut rng);
    assert_eq!(f.degree, 701);
    assert_eq!(f.modulus, 8192);
    assert!(f.coefficient.iter().all(|&c| c < 8192));
    let mut check = rand_chacha::ChaChaRng::from_seed([5u8; 32]);
    let w0 = check.next_u64();
    assert_eq!(f.coefficient[0], (w0 as u16) & 8191);
    assert_eq!(f.coefficient[1], ((w0 >> 16) as u16) & 8191);
    assert_eq!(f.coefficient[3], ((w0 >> 48) as u16) & 8191);
    let w1 = check.next_u64();
    assert_eq!(f.coefficient[4], (w1 as u16) & 8191);
    for _ in 2..176 {
        check.next_u64();
    }
    assert_eq!(rng.next_u64(), check.next_u64());
}

#[test]
fn modular_rand_is_deterministic() {
    let mut a: RingElement = RingArith::zero(100);
    let mut b: RingElement = RingArith::zero(100);
    a.rand([1u8; 32], 7);
    b.rand([1u8; 32], 7);
    assert_eq!(a, b);
    let mut c: RingElement = RingArith::zero(100);
    c.rand([2u8; 32], 7);
    assert_ne!(a, c);
}

#[test]
fn ternary_hamming_counts_nonzero() {
    let t = TernaryPoly::zero(512);
    assert_eq!(t.clone().hamming(), 0);
    assert_eq!(t, TernaryPoly::zero(512));
}

#[test]
fn equality_ignores_entries_beyond_degree() {
    let a = SignedPolynomial { coefficient: vec![0, 1], degree: 1, modulus: 8192 };
    let b = SignedPolynomial { coefficient: vec![0, 2], degree: 1, modulus: 8192 };
    assert_eq!(a, b);
    let c = SignedPolynomial { coefficient: vec![0], degree: 1, modulus: 8192 };
    assert_ne!(a, c);
    let u = UnsignedPolynomial { coefficient: vec![3, 1], degree: 1, modulus: 8192 };
    let v = UnsignedPolynomial { coefficient: vec![3, 9], degree: 1, modulus: 8192 };
    assert_eq!(u, v);
    let w = UnsignedPolynomial { coefficient: vec![4, 1], degree: 1, modulus: 8192 };
    assert_ne!(u, w);
}

#[test]
fn seeded_generator_matches_fresh_chacha() {
    let p = Param::init();
    let mut g = ntru_poly::keystream::seeded_generator([5u8; 32]);
    let mut f = UnsignedPolynomial::init();
    f.rand(p, &mut g);
    let mut rng = rand_chacha::ChaChaRng::from_seed([5u8; 32]);
    let mut h = UnsignedPolynomial::init();
    h.rand(p, &mut rng);
    assert_eq!(f, h);
    assert_eq!(g.next_u64(), rng.next_u64());
}

#[test]
fn masked_rand_on_another_stream() {
    let p = Param::init();
    let mut rng = rand_chacha::ChaChaRng::from_seed([6u8; 32]);
    rng.set_stream(3);
    let mut check = rng.clone();
    let mut f = UnsignedPolynomial::init();
    f.rand(p, &mut rng);
    let words: Vec<u64> = (0..176).map(|_| check.next_u64()).collect();
    for i in 0..701 {
        let expected = ((words[i / 4] >> (16 * (i % 4))) as u16) & 8191;
        assert_eq!(f.coefficient[i], expected);
    }
    assert_eq!(rng.get_stream(), 3);
    assert_eq!(rng.next_u64(), check.next_u64());
    let mut fresh = UnsignedPolynomial::init();
    fresh.rand(p, &mut rand_chacha::ChaChaRng::from_seed([6u8; 32]));
    assert_ne!(f, fresh);
}

#[test]
fn param_fields_drive_supported_queries() {
    let mut p = Param::init();
    p.param_n = 701;
    assert_eq!(p.get_q(), 8192);
    assert_eq!(p.get_param_k(), p.param_k);
}
