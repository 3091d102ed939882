//! Viewing keys, diversifiers and addresses.

use aes::Aes256;
use fpe::ff1::{BinaryNumeralString, FF1};
use group::ff::PrimeField;
use group::GroupEncoding;
use orchard_keys::address::Address;
use orchard_keys::keys::{
    split_dk_ovk, DiversifiedTransmissionKey, Diversifier, DiversifierIndex, DiversifierKey,
    FullViewingKey, IncomingViewingKey, KeyAgreementPrivateKey, NullifierDerivingKey,
    OutgoingViewingKey, SpendValidatingKey, SpendingKey,
};
use orchard_keys::pallas::Base;
use pasta_curves::arithmetic::CurveExt;
use pasta_curves::pallas;

fn full_viewing_key(b: u8) -> FullViewingKey {
    FullViewingKey::from(&SpendingKey::from_bytes([b; 32]).unwrap())
}

/// The bytes of an address: the diversifier, then the transmission key.
fn parts(address: &Address) -> ([u8; 11], [u8; 32]) {
    (*address.diversifier().as_array(), address.pk_d().to_bytes())
}

/// The diversifier at an index that is given by its bytes.
fn ff1(dk: &DiversifierKey, index: [u8; 11]) -> [u8; 11] {
    let ff = FF1::<Aes256>::new(&dk.to_bytes(), 2).unwrap();
    let enc = ff.encrypt(&[], &BinaryNumeralString::from_bytes_le(&index)).unwrap();
    enc.to_bytes_le().try_into().unwrap()
}

#[test]
fn default_diversifier_is_the_one_at_index_zero() {
    let dk = DiversifierKey::from(&full_viewing_key(1));
    assert_eq!(dk.default_diversifier().as_array(), dk.get(0u32).as_array());
    assert_eq!(dk.default_diversifier().as_array(), &ff1(&dk, [0; 11]));
    assert_ne!(dk.default_diversifier().as_array(), &[0; 11]);
}

#[test]
fn index_is_little_endian_and_padded_with_zeros() {
    let dk = DiversifierKey::from(&full_viewing_key(1));
    assert_eq!(
        dk.get(0x0403_0201u32).as_array(),
        &ff1(&dk, [1, 2, 3, 4, 0, 0, 0, 0, 0, 0, 0])
    );
    assert_eq!(
        dk.get(0x0807_0605_0403_0201u64).as_array(),
        &ff1(&dk, [1, 2, 3, 4, 5, 6, 7, 8, 0, 0, 0])
    );
    assert_eq!(
        dk.get(u64::MAX).as_array(),
        &ff1(&dk, [255, 255, 255, 255, 255, 255, 255, 255, 0, 0, 0])
    );
    assert_eq!(
        dk.get(0x0201usize).as_array(),
        &ff1(&dk, [1, 2, 0, 0, 0, 0, 0, 0, 0, 0, 0])
    );
}

#[test]
fn index_does_not_depend_on_the_width_of_the_integer() {
    let dk = DiversifierKey::from(&full_viewing_key(1));
    let expected = *dk.get(300u32).as_array();
    assert_eq!(dk.get(300u64).as_array(), &expected);
    assert_eq!(dk.get(300usize).as_array(), &expected);
    assert_eq!(dk.get(DiversifierIndex::from(300u64)).as_array(), &expected);
    assert_eq!(dk.at(DiversifierIndex::from(300u32)).as_array(), &expected);
}

#[test]
fn distinct_indices_give_distinct_diversifiers() {
    let dk = DiversifierKey::from(&full_viewing_key(1));
    let ds: Vec<[u8; 11]> = (0..50u32).map(|j| *dk.get(j).as_array()).collect();
    for i in 0..ds.len() {
        for j in 0..i {
            assert_ne!(ds[i], ds[j]);
        }
    }
}

#[test]
fn every_diversifier_has_one_index() {
    let dk = DiversifierKey::from(&full_viewing_key(1));
    for j in [0u64, 1, 300, u64::MAX] {
        let index = dk.index_of(&dk.get(j));
        assert_eq!(dk.at(index).as_array(), dk.get(j).as_array());
    }
    // Any 11 bytes are the diversifier at some index.
    let d = Diversifier::from_bytes([0xab; 11]);
    let index = dk.index_of(&d);
    assert_eq!(dk.at(index).as_array(), &[0xab; 11]);
    // Another key has it at another index.
    let other = DiversifierKey::from(&full_viewing_key(2));
    assert_ne!(other.at(index).as_array(), &[0xab; 11]);
}

#[test]
fn address_at_an_index_is_that_at_its_integer() {
    let fvk = full_viewing_key(1);
    let ivk = IncomingViewingKey::from(&fvk);
    let index = DiversifierIndex::from(5u32);
    let expected = parts(&ivk.address_at(5u64));
    assert_eq!(parts(&ivk.address_at_index(index)), expected);
    assert_eq!(parts(&fvk.address_at_index(index)), expected);
    assert_eq!(parts(&ivk.address_at(index)), expected);
    assert_eq!(parts(&fvk.address_at(index)), expected);
    assert_ne!(parts(&ivk.address_at_index(DiversifierIndex::from(6u32))), expected);
}

#[test]
fn transmission_keys_tell_private_keys_and_diversifiers_apart() {
    let ivk = KeyAgreementPrivateKey::from(&full_viewing_key(3));
    let other = KeyAgreementPrivateKey::from(&full_viewing_key(4));
    let d = Diversifier::from_bytes([1; 11]);
    let e = Diversifier::from_bytes([2; 11]);
    let pk_d = DiversifiedTransmissionKey::derive(&ivk, &d).to_bytes();
    assert_eq!(DiversifiedTransmissionKey::derive(&ivk, &d).to_bytes(), pk_d);
    assert_ne!(DiversifiedTransmissionKey::derive(&other, &d).to_bytes(), pk_d);
    assert_ne!(DiversifiedTransmissionKey::derive(&ivk, &e).to_bytes(), pk_d);
    assert_eq!(pallas::Point::from_bytes(&pk_d).unwrap().to_bytes(), pk_d);
}

#[test]
fn full_and_incoming_viewing_keys_agree_on_addresses() {
    let fvk = full_viewing_key(1);
    let ivk = IncomingViewingKey::from(&fvk);
    assert_eq!(parts(&fvk.default_address()), parts(&ivk.default_address()));
    assert_eq!(parts(&fvk.address_at(5u32)), parts(&ivk.address_at(5u64)));
    let d = Diversifier::from_bytes([9; 11]);
    assert_eq!(parts(&fvk.address(d)), parts(&ivk.address(d)));
    assert_eq!(fvk.address(d).diversifier().as_array(), &[9; 11]);
}

#[test]
fn default_address_is_the_address_at_index_zero() {
    let fvk = full_viewing_key(2);
    let ivk = IncomingViewingKey::from(&fvk);
    let d = DiversifierKey::from(&fvk).default_diversifier();
    assert_eq!(parts(&ivk.default_address()), parts(&ivk.address_at(0usize)));
    assert_eq!(parts(&fvk.default_address()), parts(&fvk.address_at(0u32)));
    assert_eq!(parts(&fvk.default_address()), parts(&fvk.address(d)));
    assert_ne!(parts(&fvk.default_address()), parts(&fvk.address_at(1u32)));
}

#[test]
fn transmission_key_is_the_multiple_of_the_hashed_diversifier() {
    let fvk = full_viewing_key(3);
    let ivk = KeyAgreementPrivateKey::from(&fvk);
    let d = Diversifier::from_bytes([1, 2, 3, 4, 5, 6, 7, 8, 9, 10, 11]);
    let g_d = pallas::Point::hash_to_curve("z.cash:Orchard-gd")(d.as_array());
    let s = pallas::Scalar::from_repr(ivk.to_bytes()).unwrap();
    let expected = (g_d * s).to_bytes();
    assert_eq!(DiversifiedTransmissionKey::derive(&ivk, &d).to_bytes(), expected);
    assert_eq!(ivk.address(d).pk_d().to_bytes(), expected);
    assert_ne!(expected, g_d.to_bytes());
    assert_ne!(expected, [0; 32]);
}

#[test]
fn address_gives_its_parts_back() {
    let ivk = KeyAgreementPrivateKey::from(&full_viewing_key(3));
    let d = Diversifier::from_bytes([4; 11]);
    let pk_d = DiversifiedTransmissionKey::derive(&ivk, &d);
    let address = Address::from_parts(d, pk_d);
    assert_eq!(parts(&address), ([4; 11], pk_d.to_bytes()));
}

#[test]
fn diversifier_key_and_outgoing_viewing_key_are_the_two_halves_of_one_hash() {
    let mut r = [0u8; 64];
    for (i, b) in r.iter_mut().enumerate() {
        *b = i as u8;
    }
    let (dk, ovk) = split_dk_ovk(&r);
    assert_eq!(dk.to_bytes()[..], r[..32]);
    assert_eq!(ovk.to_bytes()[..], r[32..]);
    assert_eq!(ovk.clone().to_bytes()[..], r[32..]);

    let fvk = full_viewing_key(4);
    let (dk, ovk) = fvk.derive_dk_ovk();
    assert_eq!(dk.to_bytes(), DiversifierKey::from(&fvk).to_bytes());
    assert_eq!(ovk.to_bytes(), OutgoingViewingKey::from(&fvk).to_bytes());
    assert_ne!(dk.to_bytes(), ovk.to_bytes());
}

#[test]
fn key_agreement_private_key_is_a_base_field_element() {
    for b in 0..8u8 {
        let repr = KeyAgreementPrivateKey::from(&full_viewing_key(b)).to_bytes();
        assert!(Base::from_bytes(repr).is_some());
        assert_ne!(repr, [0; 32]);
    }
}

#[test]
fn nullifier_key_hashes_with_poseidon() {
    let fvk = full_viewing_key(5);
    let rho = Base::from_bytes([1; 32]).unwrap();
    let nk = pallas::Base::from_repr(fvk.nk().to_bytes()).unwrap();
    let expected = halo2_poseidon::Hash::<
        _,
        halo2_poseidon::P128Pow5T3,
        halo2_poseidon::ConstantLength<2>,
        3,
        2,
    >::init()
    .hash([nk, pallas::Base::from_repr([1; 32]).unwrap()]);
    assert_eq!(fvk.nk().prf_nf(rho).to_bytes(), expected.to_repr());
    assert_ne!(fvk.nk().prf_nf(rho).to_bytes(), rho.to_bytes());
}

#[test]
fn clone_of_a_full_viewing_key_is_the_same_key() {
    let fvk = full_viewing_key(6);
    let copy = fvk.clone();
    assert_eq!(parts(&fvk.default_address()), parts(&copy.default_address()));
    assert_eq!(fvk.nk().to_bytes(), copy.nk().clone().to_bytes());
    assert!(SpendValidatingKey::from(fvk) == SpendValidatingKey::from(copy));
}

#[test]
fn distinct_spending_keys_have_distinct_viewing_keys() {
    let a = full_viewing_key(7);
    let b = full_viewing_key(8);
    assert_ne!(a.nk().to_bytes(), b.nk().to_bytes());
    assert_ne!(DiversifierKey::from(&a).to_bytes(), DiversifierKey::from(&b).to_bytes());
    assert_ne!(parts(&a.default_address()), parts(&b.default_address()));
    let sk = SpendingKey::from_bytes([7; 32]).unwrap();
    assert_eq!(NullifierDerivingKey::from(&sk).to_bytes(), a.nk().to_bytes());
}
