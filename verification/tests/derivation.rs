//! Derivation of every key from a spending key, on known values.

use orchard_keys::keys::{
    CommitIvkRandomness, DiversifierKey, FullViewingKey, IncomingViewingKey,
    KeyAgreementPrivateKey, NullifierDerivingKey, OutgoingViewingKey, SpendAuthorizingKey,
    SpendValidatingKey, SpendingKey,
};

/// The bytes that a string of hexadecimal digits stands for.
fn hex<const N: usize>(s: &str) -> [u8; N] {
    assert_eq!(s.len(), 2 * N);
    let mut out = [0u8; N];
    for (i, b) in out.iter_mut().enumerate() {
        *b = u8::from_str_radix(&s[2 * i..2 * i + 2], 16).unwrap();
    }
    out
}

fn spending_key() -> SpendingKey {
    SpendingKey::from_bytes(hex(
        "5d7a8f739a2d9e945b0ce152a8049e294c4d6e66b164939daffa2ef6ee692148",
    ))
    .unwrap()
}

#[test]
fn full_viewing_key_on_known_values() {
    let sk = spending_key();
    let fvk = FullViewingKey::from(&sk);
    assert_eq!(
        SpendValidatingKey::from(fvk.clone()).verification_key().to_bytes(),
        hex::<32>("740bbe5d0580b2cad430180d02cc128b9a140d5e07c151721dc16d25d4e20f15")
    );
    assert_eq!(
        fvk.nk().to_bytes(),
        hex::<32>("9f2f826738945ad01f47f70db0c367c246c20c61ff5583948c39dea968fefd1b")
    );
    assert_eq!(
        NullifierDerivingKey::from(&sk).to_bytes(),
        fvk.nk().to_bytes()
    );
    assert_eq!(
        CommitIvkRandomness::from(&sk).to_bytes(),
        hex::<32>("021ccf89604f5f7cc6e034b32d338908b819fbe325fee6458b56b4ca71a7e43d")
    );
}

#[test]
fn viewing_keys_on_known_values() {
    let fvk = FullViewingKey::from(&spending_key());
    assert_eq!(
        KeyAgreementPrivateKey::from(&fvk).to_bytes(),
        hex::<32>("85c8b5cd1ac3ec3ad7092132f97f0178b075c81a139fd460bbe0dfcd75514724")
    );
    assert_eq!(
        DiversifierKey::from(&fvk).to_bytes(),
        hex::<32>("31d6a685be570f9faf3ca8b052e887840b2c9f8d67224ca82aefb9e2ee5bedaf")
    );
    assert_eq!(
        OutgoingViewingKey::from(&fvk).to_bytes(),
        hex::<32>("bcc7065e59910b35993f59505be209b14bf02488750bbc8b1acdcf108c362004")
    );
}

#[test]
fn default_address_on_known_values() {
    let fvk = FullViewingKey::from(&spending_key());
    let address = IncomingViewingKey::from(&fvk).default_address();
    assert_eq!(
        address.diversifier().as_array(),
        &hex::<11>("8ff3386971cb64b8e77899")
    );
    assert_eq!(
        address.pk_d().to_bytes(),
        hex::<32>("08dd8ebd7de92a68e586a34db8fea999efd2016fae76750afae7ee941646bcb9")
    );
}

#[test]
fn validating_key_of_the_authorizing_key_is_that_of_the_full_viewing_key() {
    let sk = spending_key();
    let ask = SpendAuthorizingKey::from(&sk);
    assert!(SpendValidatingKey::from(&ask) == SpendValidatingKey::from(FullViewingKey::from(&sk)));
}
