//! Spending keys, and the keys that authorize and validate spends.

use group::ff::{Field, PrimeField};
use orchard_keys::keys::{
    first_spending_key, is_discarded, normalize_sign, FullViewingKey, SpendAuthorizingKey,
    SpendValidatingKey, SpendingKey,
};
use orchard_keys::pallas::{Base, NonZeroPallasBase, NonZeroPallasScalar, Scalar};
use orchard_keys::redpallas::{Signature, SigningKey};
use pasta_curves::pallas;
use rand::rngs::StdRng;
use rand::{RngCore, SeedableRng};

/// The spending key of 32 bytes with one value.
fn key(b: u8) -> SpendingKey {
    SpendingKey::from_bytes([b; 32]).unwrap()
}

/// The scalar with one nonzero byte, the lowest.
fn scalar(b: u8) -> Scalar {
    let mut repr = [0; 32];
    repr[0] = b;
    Scalar::from_bytes(repr).unwrap()
}

fn nonzero(b: u8) -> NonZeroPallasScalar {
    NonZeroPallasScalar::from_scalar(scalar(b)).unwrap()
}

#[test]
fn spending_key_keeps_its_bytes() {
    let sk = SpendingKey::from_bytes([0; 32]).unwrap();
    assert_eq!(sk.to_bytes(), [0; 32]);
    assert_eq!(key(7).to_bytes(), [7; 32]);
    assert_eq!(key(7).clone().to_bytes(), [7; 32]);
    assert_eq!(SpendingKey::from_bytes(key(7).to_bytes()).unwrap().to_bytes(), [7; 32]);
}

#[test]
fn spending_key_without_ask_or_ivk_is_discarded() {
    let mut repr = [0; 32];
    repr[0] = 1;
    let ivk = NonZeroPallasBase::from_base(Base::from_bytes(repr).unwrap());
    assert!(ivk.is_some());
    assert!(!is_discarded(&scalar(1), &ivk));
    assert!(is_discarded(&scalar(0), &ivk));
    assert!(is_discarded(&scalar(1), &None));
    assert!(is_discarded(&scalar(0), &None));
}

#[test]
fn random_spending_keys() {
    let mut rng = StdRng::seed_from_u64(1);
    assert!(SpendingKey::random(&mut rng, 0).is_none());
    let first = SpendingKey::random(&mut rng, 8).unwrap().to_bytes();
    let second = SpendingKey::random(&mut rng, 8).unwrap().to_bytes();
    assert_ne!(first, [0; 32]);
    assert_ne!(first, second);
    assert!(SpendingKey::from_bytes(first).is_some());
}

#[test]
fn random_spending_key_is_the_first_draw_that_is_one() {
    let mut rng = StdRng::seed_from_u64(4);
    let mut draws = [[0; 32]; 3];
    for draw in draws.iter_mut() {
        rng.fill_bytes(draw);
    }
    let expected = first_spending_key(&draws).unwrap().to_bytes();
    let mut rng = StdRng::seed_from_u64(4);
    assert_eq!(SpendingKey::random(&mut rng, 3).unwrap().to_bytes(), expected);
}

#[test]
fn first_spending_key_of_given_blocks() {
    assert!(first_spending_key(&[]).is_none());
    assert_eq!(first_spending_key(&[[5; 32], [6; 32]]).unwrap().to_bytes(), [5; 32]);
    assert_eq!(first_spending_key(&[[6; 32]]).unwrap().to_bytes(), [6; 32]);
}

#[test]
fn ask_is_the_reduced_hash_of_the_spending_key() {
    let sk = [3; 32];
    let hash = blake2b_simd::Params::new()
        .hash_length(64)
        .personal(b"Zcash_ExpandSeed")
        .to_state()
        .update(&sk)
        .update(&[0x06])
        .finalize();
    let expected =
        <pallas::Scalar as group::ff::FromUniformBytes<64>>::from_uniform_bytes(hash.as_array());
    assert_eq!(SpendAuthorizingKey::derive_inner(&sk).to_bytes(), expected.to_repr());
}

#[test]
fn sign_of_the_validating_key_is_always_clear() {
    let mut negated = 0;
    for b in 0..16u8 {
        let ask = SpendAuthorizingKey::derive_inner(&[b; 32]);
        let ask = NonZeroPallasScalar::from_scalar(ask).unwrap();
        let plain = SigningKey::from_scalar(ask).verification_key().to_bytes();
        let ak = SpendValidatingKey::from(&SpendAuthorizingKey::from(&key(b)));
        let ak = ak.verification_key().to_bytes();
        assert_eq!(ak[31] >> 7, 0);
        // The two agree in all but the sign.
        assert_eq!(ak[..31], plain[..31]);
        assert_eq!(ak[31], plain[31] & 0x7f);
        negated += plain[31] >> 7;
    }
    // Both cases occur.
    assert!(0 < negated && negated < 16);
}

#[test]
fn normalize_sign_on_known_values() {
    let minus_five = (-pallas::Scalar::from(5)).to_repr();
    let mut ak = [0; 32];
    assert_eq!(normalize_sign(nonzero(5), &ak).to_bytes(), nonzero(5).to_bytes());
    ak[31] = 0x7f;
    assert_eq!(normalize_sign(nonzero(5), &ak).to_bytes(), nonzero(5).to_bytes());
    ak[31] = 0x80;
    assert_eq!(normalize_sign(nonzero(5), &ak).to_bytes(), minus_five);
    ak[31] = 0xff;
    assert_eq!(normalize_sign(nonzero(5), &ak).to_bytes(), minus_five);
}

#[test]
fn authorizing_key_of_a_scalar_and_of_its_negative() {
    let a = SpendAuthorizingKey::from_scalar(nonzero(5)).validating_key();
    let b = SpendAuthorizingKey::from_scalar(nonzero(5).negate()).validating_key();
    assert!(a == b);
}

#[test]
fn authorizing_key_gives_its_scalar_back() {
    let five = nonzero(5).to_bytes();
    let minus_five = nonzero(5).negate().to_bytes();
    let plain = SigningKey::from_scalar(nonzero(5)).verification_key().to_bytes();
    let expected = if plain[31] >> 7 == 1 { minus_five } else { five };
    assert_eq!(SpendAuthorizingKey::from_scalar(nonzero(5)).to_bytes(), expected);
    assert_eq!(SigningKey::from_scalar(nonzero(5)).to_bytes(), five);
}

#[test]
fn validating_keys_are_equal_where_their_encodings_are() {
    let a = SpendValidatingKey::from(&SpendAuthorizingKey::from(&key(1)));
    let b = SpendValidatingKey::from(FullViewingKey::from(&key(1)));
    let c = SpendValidatingKey::from(&SpendAuthorizingKey::from(&key(2)));
    assert!(a == b);
    assert!(a == a.clone());
    assert!(a != c);
    assert_eq!(a.verification_key().to_bytes(), b.verification_key().to_bytes());
    assert_ne!(a.verification_key().to_bytes(), c.verification_key().to_bytes());
}

#[test]
fn signature_is_accepted_by_the_validating_key() {
    let mut rng = StdRng::seed_from_u64(2);
    let ask = SpendAuthorizingKey::from(&key(1));
    let ak = SpendValidatingKey::from(&ask);
    let other = SpendValidatingKey::from(&SpendAuthorizingKey::from(&key(2)));
    let sig = ask.sign(&mut rng, b"message");
    assert!(ak.verification_key().verify(b"message", &sig));
    assert!(!ak.verification_key().verify(b"massage", &sig));
    assert!(!other.verification_key().verify(b"message", &sig));
    assert!(ak.verification_key().verify(b"message", &Signature::from_bytes(sig.to_bytes())));
    let mut bytes = sig.to_bytes();
    bytes[40] ^= 1;
    assert!(!ak.verification_key().verify(b"message", &Signature::from_bytes(bytes)));
    // Not even the encodings need be valid.
    assert!(!ak.verification_key().verify(b"message", &Signature::from_bytes([0xff; 64])));
    let empty = ask.sign(&mut rng, b"");
    assert!(ak.verification_key().verify(b"", &empty));
}

#[test]
fn signatures_differ_and_are_all_accepted() {
    let mut rng = StdRng::seed_from_u64(3);
    let ask = SpendAuthorizingKey::from(&key(1));
    let ak = ask.validating_key();
    let a = ask.sign(&mut rng, b"m");
    let b = ask.sign(&mut rng, b"m");
    assert_ne!(a.to_bytes()[..], b.to_bytes()[..]);
    assert!(ak.verification_key().verify(b"m", &a));
    assert!(ak.verification_key().verify(b"m", &b));
}

#[test]
fn randomized_key_is_that_of_the_randomized_signing_key() {
    // The key of 5, or of -5, whichever has its sign clear.
    let ask = SpendAuthorizingKey::from_scalar(nonzero(5));
    let plain = SigningKey::from_scalar(nonzero(5)).verification_key().to_bytes();
    let five = if plain[31] >> 7 == 1 { -pallas::Scalar::from(5) } else { pallas::Scalar::from(5) };
    let sum = five + pallas::Scalar::from(9);
    let sum = Scalar::from_bytes(sum.to_repr()).unwrap();
    let sum = SigningKey::from_scalar(NonZeroPallasScalar::from_scalar(sum).unwrap());
    let rk = ask.validating_key().randomize(&scalar(9));
    assert_eq!(rk.to_bytes(), sum.verification_key().to_bytes());
    // The sum with the negative is zero, whose key is the identity.
    let negative = Scalar::from_bytes((-five).to_repr()).unwrap();
    assert_eq!(ask.validating_key().randomize(&negative).to_bytes(), [0; 32]);
}

#[test]
fn randomizing_with_zero_changes_nothing() {
    let ak = SpendAuthorizingKey::from(&key(1)).validating_key();
    assert_eq!(ak.randomize(&scalar(0)).to_bytes(), ak.verification_key().to_bytes());
    assert_ne!(ak.randomize(&scalar(1)).to_bytes(), ak.verification_key().to_bytes());
}

#[test]
fn randomizing_twice_is_randomizing_with_the_sum() {
    let ak = SpendAuthorizingKey::from(&key(1)).validating_key();
    assert_eq!(
        ak.randomize(&scalar(3)).randomize(&scalar(4)).to_bytes(),
        ak.randomize(&scalar(7)).to_bytes()
    );
}

#[test]
fn randomizing_with_the_negative_undoes_it() {
    let ak = SpendAuthorizingKey::from(&key(1)).validating_key();
    assert_eq!(
        ak.randomize(&scalar(3)).randomize(&scalar(3).negate()).to_bytes(),
        ak.verification_key().to_bytes()
    );
    assert_eq!(pallas::Scalar::ZERO.to_repr(), scalar(0).negate().to_bytes());
}
