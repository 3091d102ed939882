//! Field elements, points, and the functions that keys are derived with.

use group::ff::{Field, PrimeField};
use group::{Curve, Group, GroupEncoding};
use orchard_keys::pallas::{Base, NonZeroPallasBase, NonZeroPallasScalar, PallasPoint, Scalar};
use orchard_keys::protocol::{
    commit_ivk, commit_ivk_message, diversify_fallback, diversify_hash, ivk_from_commitment,
    ka_orchard, prf_expand, prf_expand_input, prf_expand_vec, prf_nf, replace_identity, to_base, to_scalar,
};
use pasta_curves::arithmetic::{CurveAffine, CurveExt};
use pasta_curves::pallas;

/// The encoding of the integer one less than the modulus, and of the modulus.
fn around<F: PrimeField<Repr = [u8; 32]>>() -> ([u8; 32], [u8; 32]) {
    let below = (-F::ONE).to_repr();
    let mut modulus = below;
    modulus[0] += 1;
    (below, modulus)
}

/// The encoding of a byte.
fn small(b: u8) -> [u8; 32] {
    let mut repr = [0; 32];
    repr[0] = b;
    repr
}

#[test]
fn base_field_encodings_are_canonical() {
    let (below, modulus) = around::<pallas::Base>();
    assert_eq!(Base::from_bytes(below).unwrap().to_bytes(), below);
    assert!(Base::from_bytes(modulus).is_none());
    assert!(Base::from_bytes([0xff; 32]).is_none());
    assert!(Base::from_bytes([0; 32]).unwrap().is_zero());
    assert!(!Base::from_bytes(below).unwrap().is_zero());
}

#[test]
fn scalar_field_encodings_are_canonical() {
    let (below, modulus) = around::<pallas::Scalar>();
    assert_eq!(Scalar::from_bytes(below).unwrap().to_bytes(), below);
    assert!(Scalar::from_bytes(modulus).is_none());
    assert!(Scalar::from_bytes([0xff; 32]).is_none());
    assert!(Scalar::from_bytes([0; 32]).unwrap().is_zero());
    assert!(!Scalar::from_bytes(below).unwrap().is_zero());
    assert_eq!(Scalar::from_bytes(small(1)).unwrap().negate().to_bytes(), below);
    assert_eq!(Scalar::from_bytes(below).unwrap().negate().to_bytes(), small(1));
    assert_eq!(Scalar::from_bytes([0; 32]).unwrap().negate().to_bytes(), [0; 32]);
}

#[test]
fn hashes_are_reduced_to_the_fields() {
    let mut wide = [0; 64];
    wide[..32].copy_from_slice(&around::<pallas::Base>().1);
    assert_eq!(to_base(wide).to_bytes(), [0; 32]);
    wide[0] += 5;
    assert_eq!(to_base(wide).to_bytes(), small(5));
    wide[..32].copy_from_slice(&around::<pallas::Scalar>().1);
    assert_eq!(to_scalar(wide).to_bytes(), [0; 32]);
    wide[0] += 6;
    assert_eq!(to_scalar(wide).to_bytes(), small(6));
    let mut high = [0; 64];
    high[32] = 1;
    let two_256 = pallas::Base::from(2).pow_vartime([256u64]);
    assert_eq!(to_base(high).to_bytes(), two_256.to_repr());
}

#[test]
fn nonzero_elements() {
    let zero = Base::from_bytes([0; 32]).unwrap();
    let three = Base::from_bytes(small(3)).unwrap();
    assert!(NonZeroPallasBase::from_base(zero).is_none());
    let base = NonZeroPallasBase::from_base(three).unwrap();
    assert_eq!(base.to_bytes(), small(3));
    let scalar = NonZeroPallasScalar::from_base(base);
    assert_eq!(scalar.to_bytes(), small(3));
    assert_eq!(scalar.as_scalar().to_bytes(), small(3));
    assert_eq!(scalar.negate().to_bytes(), (-pallas::Scalar::from(3)).to_repr());
    assert!(NonZeroPallasScalar::from_scalar(Scalar::from_bytes([0; 32]).unwrap()).is_none());
    let largest = around::<pallas::Base>().0;
    let largest = NonZeroPallasBase::from_base(Base::from_bytes(largest).unwrap()).unwrap();
    assert_eq!(NonZeroPallasScalar::from_base(largest).to_bytes(), largest.to_bytes());
}

#[test]
fn point_encodings() {
    let generator = pallas::Point::generator();
    let repr = generator.to_bytes();
    let point = PallasPoint::from_bytes(repr).unwrap();
    assert_eq!(point.to_bytes(), repr);
    assert!(!point.is_identity());
    let x = *generator.to_affine().coordinates().unwrap().x();
    assert_eq!(point.extract_p().to_bytes(), x.to_repr());

    // The negative differs in the highest bit alone.
    let mut negative = repr;
    negative[31] ^= 0x80;
    assert_eq!((-generator).to_bytes(), negative);
    let point = PallasPoint::from_bytes(negative).unwrap();
    assert_eq!(point.extract_p().to_bytes(), x.to_repr());

    let identity = PallasPoint::from_bytes([0; 32]).unwrap();
    assert!(identity.is_identity());
    assert!(identity.extract_p().is_zero());

    // No point has the `x` coordinate zero, or one that is not below the modulus.
    let mut sign = [0; 32];
    sign[31] = 0x80;
    assert!(PallasPoint::from_bytes(sign).is_none());
    assert!(PallasPoint::from_bytes(around::<pallas::Base>().1).is_none());
    assert!(PallasPoint::from_bytes([0xff; 32]).is_none());
}

#[test]
fn points_are_multiplied() {
    let generator = pallas::Point::generator();
    let point = PallasPoint::from_bytes(generator.to_bytes()).unwrap();
    let three = Scalar::from_bytes(small(3)).unwrap();
    let expected = generator + generator + generator;
    assert_eq!(point.multiply(&three).to_bytes(), expected.to_bytes());
    let zero = Scalar::from_bytes([0; 32]).unwrap();
    assert!(point.multiply(&zero).is_identity());
    let identity = PallasPoint::from_bytes([0; 32]).unwrap();
    assert!(identity.multiply(&three).is_identity());
    let three = NonZeroPallasScalar::from_scalar(three).unwrap();
    assert_eq!(ka_orchard(&three, &point).to_bytes(), expected.to_bytes());
}

#[test]
fn messages_are_hashed_to_the_curve() {
    let expected = pallas::Point::hash_to_curve("domain")(b"message");
    assert_eq!(
        PallasPoint::hash_to_curve("domain", b"message").to_bytes(),
        expected.to_bytes()
    );
    let long = "d".repeat(227);
    let expected = pallas::Point::hash_to_curve(&long)(b"message");
    assert_eq!(PallasPoint::hash_to_curve(&long, b"message").to_bytes(), expected.to_bytes());
    let expected = pallas::Point::hash_to_curve("z.cash:Orchard-gd")(&[1; 11]);
    assert_eq!(diversify_hash(&[1; 11]).to_bytes(), expected.to_bytes());
}

#[test]
fn identity_is_replaced() {
    let point = PallasPoint::hash_to_curve("domain", b"a");
    let fallback = PallasPoint::hash_to_curve("domain", b"b");
    let identity = PallasPoint::from_bytes([0; 32]).unwrap();
    assert_eq!(replace_identity(point, fallback).to_bytes(), point.to_bytes());
    assert_eq!(replace_identity(identity, fallback).to_bytes(), fallback.to_bytes());
    // What stands in for the identity is not the identity.
    let expected = pallas::Point::hash_to_curve("z.cash:Orchard-gd")(&[]);
    assert_eq!(diversify_fallback().to_bytes(), expected.to_bytes());
    assert!(!diversify_fallback().is_identity());
}

#[test]
fn prf_expand_hashes_the_key_and_the_pieces() {
    let pieces: [&[u8]; 3] = [&[1, 2], &[], &[3]];
    assert_eq!(prf_expand_input(&[9, 8], &pieces), vec![9, 8, 1, 2, 3]);
    assert_eq!(prf_expand_input(&[9, 8], &[]), vec![9, 8]);
    let expected = blake2b_simd::Params::new()
        .hash_length(64)
        .personal(b"Zcash_ExpandSeed")
        .hash(&[9, 8, 1, 2, 3]);
    assert_eq!(prf_expand_vec(&[9, 8], &pieces)[..], expected.as_bytes()[..]);
    assert_eq!(prf_expand(&[9, 8], &[1, 2, 3])[..], expected.as_bytes()[..]);
    // Another tag gives another hash.
    assert_ne!(prf_expand(&[9, 8], &[1])[..], prf_expand(&[9, 8], &[2])[..]);
}

#[test]
fn commit_ivk_message_is_the_low_bits_of_both_elements() {
    let (below, _) = around::<pallas::Base>();
    let ak = Base::from_bytes(small(5)).unwrap();
    let nk = Base::from_bytes(below).unwrap();
    let bits = commit_ivk_message(&ak, &nk);
    assert_eq!(bits.len(), 510);
    for i in 0..255 {
        assert_eq!(bits[i], i == 0 || i == 2);
        assert_eq!(bits[255 + i], (below[i / 8] >> (i % 8)) & 1 == 1);
    }
    assert_ne!(commit_ivk_message(&ak, &nk), commit_ivk_message(&nk, &ak));
}

#[test]
fn commit_ivk_is_the_short_commitment() {
    let ak = Base::from_bytes(small(5)).unwrap();
    let nk = Base::from_bytes(small(6)).unwrap();
    let rivk = Scalar::from_bytes(small(7)).unwrap();
    let expected = sinsemilla::CommitDomain::new("z.cash:Orchard-CommitIvk")
        .short_commit(
            commit_ivk_message(&ak, &nk).into_iter(),
            &pallas::Scalar::from(7),
        )
        .unwrap();
    assert_eq!(commit_ivk(&ak, &nk, &rivk).unwrap().to_bytes(), expected.to_repr());
}

#[test]
fn ivk_is_neither_zero_nor_a_failed_commitment() {
    assert!(ivk_from_commitment(None).is_none());
    assert!(ivk_from_commitment(Some(Base::from_bytes([0; 32]).unwrap())).is_none());
    let ivk = ivk_from_commitment(Some(Base::from_bytes(small(2)).unwrap()));
    assert_eq!(ivk.unwrap().to_bytes(), small(2));
}

#[test]
fn nullifier_prf_depends_on_both_arguments() {
    let a = Base::from_bytes(small(1)).unwrap();
    let b = Base::from_bytes(small(2)).unwrap();
    assert_ne!(prf_nf(a, b).to_bytes(), prf_nf(b, a).to_bytes());
    assert_ne!(prf_nf(a, b).to_bytes(), prf_nf(a, a).to_bytes());
}
