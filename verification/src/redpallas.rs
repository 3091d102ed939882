//! RedPallas signatures, as used to authorize spends.
//!
//! The signature scheme itself is that of the `reddsa` crate.

use group::ff::PrimeField;
use rand::rngs::StdRng;
use vstd::prelude::*;

use crate::bytes::{le_bytes, le_value};
use crate::pallas::{
    base_modulus, identity_repr, is_affine_repr, is_point_repr, lemma_on_curve_neg,
    lemma_point_repr, lemma_point_repr_neg, neg_scalar, on_curve, point_repr, scalar_modulus,
    sign_bit, x_coordinate, NonZeroPallasScalar, PallasPoint, Scalar,
};

verus! {

/// The generator of random numbers that signing draws from.
#[verifier::external_type_specification]
#[verifier::external_body]
pub struct ExStdRng(StdRng);

/// The affine coordinates of the point that `reddsa` computes as the verification key of
/// the signing key `s`: the multiple by `s` of the base point for spend authorization.
pub uninterp spec fn spend_auth_point(s: nat) -> (nat, nat);

/// The encoding of the verification key of the signing key `s`.
pub open spec fn spend_auth_repr(s: nat) -> Seq<u8> {
    point_repr(spend_auth_point(s).0, spend_auth_point(s).1)
}

/// Whether `repr` is the verification key of `s`, and a point of the curve whose negative
/// is the verification key of `-s`.
pub open spec fn is_verification_key_of(s: nat, repr: Seq<u8>) -> bool {
    let (x, y) = spend_auth_point(s);
    &&& on_curve(x, y)
    &&& repr == spend_auth_repr(s)
    &&& spend_auth_point(neg_scalar(s)) == (x, (base_modulus() - y) as nat)
}

/// `From<&SigningKey>` for `VerificationKey` in `reddsa`: the encoding of the multiple of
/// the base point by the signing key. The base point generates the curve, so the multiple
/// by a nonzero scalar is not the identity, and the negative scalar gives the negative
/// point.
#[verifier::external_body]
fn verification_key(sk: &[u8; 32]) -> (res: [u8; 32])
    requires
        0 < le_value(sk@) < scalar_modulus(),
    ensures
        res@ == point_repr(
            spend_auth_point(le_value(sk@)).0,
            spend_auth_point(le_value(sk@)).1,
        ),
        is_verification_key_of(le_value(sk@), res@),
{
    let sk = reddsa::SigningKey::<reddsa::orchard::SpendAuth>::try_from(*sk).unwrap();
    reddsa::VerificationKey::from(&sk).into()
}

/// What `verify` of `VerificationKey` in `reddsa` says of a signature over a message.
pub uninterp spec fn signature_accepted(vk: Seq<u8>, msg: Seq<u8>, sig: Seq<u8>) -> bool;

/// `VerificationKey::verify` of `reddsa`: whether the signature over the message is one
/// that the key accepts.
#[verifier::external_body]
fn verify_signature(vk: &[u8; 32], msg: &[u8], sig: &[u8; 64]) -> (res: bool)
    requires
        is_point_repr(vk@),
    ensures
        res == signature_accepted(vk@, msg@, sig@),
{
    let vk = reddsa::VerificationKey::<reddsa::orchard::SpendAuth>::try_from(*vk).unwrap();
    vk.verify(msg, &reddsa::Signature::from(*sig)).is_ok()
}

/// `SigningKey::sign` of `reddsa`: a signature over the message. Which one depends on the
/// random numbers; the verification key of the signing key accepts every one of them.
#[verifier::external_body]
fn make_signature(sk: &[u8; 32], rng: &mut StdRng, msg: &[u8]) -> (res: [u8; 64])
    requires
        0 < le_value(sk@) < scalar_modulus(),
    ensures
        signature_accepted(spend_auth_repr(le_value(sk@)), msg@, res@),
{
    let sk = reddsa::SigningKey::<reddsa::orchard::SpendAuth>::try_from(*sk).unwrap();
    sk.sign(rng, msg).into()
}

/// What `randomize` of `VerificationKey` in `reddsa` makes of a key and a randomizer, as a
/// compressed point.
pub uninterp spec fn randomized_repr(vk: Seq<u8>, randomizer: nat) -> Seq<u8>;

/// The encoding of the multiple by `s` of the base point for spend authorization: the
/// verification key of `s`, and the identity for zero.
pub open spec fn multiple_repr(s: nat) -> Seq<u8> {
    if s == 0 {
        identity_repr()
    } else {
        spend_auth_repr(s)
    }
}

/// Whether `repr` is what becomes of `vk` when the randomizer is added to its signing key,
/// whichever that is.
pub open spec fn follows_signing_key(vk: Seq<u8>, randomizer: nat, repr: Seq<u8>) -> bool {
    forall|s: nat|
        s < scalar_modulus() && vk == #[trigger] multiple_repr(s) ==> repr == multiple_repr(
            (s + randomizer) % scalar_modulus(),
        )
}

/// `VerificationKey::randomize` of `reddsa`: adds the multiple of the base point by the
/// randomizer to the key. Where the key is the multiple by `s`, that is the multiple by `s`
/// plus the randomizer.
#[verifier::external_body]
fn randomize_key(vk: &[u8; 32], randomizer: &[u8; 32]) -> (res: [u8; 32])
    requires
        is_point_repr(vk@),
        le_value(randomizer@) < scalar_modulus(),
    ensures
        res@ == randomized_repr(vk@, le_value(randomizer@)),
        is_point_repr(res@),
        follows_signing_key(vk@, le_value(randomizer@), res@),
{
    let vk = reddsa::VerificationKey::<reddsa::orchard::SpendAuth>::try_from(*vk).unwrap();
    let randomizer = pasta_curves::pallas::Scalar::from_repr(*randomizer).unwrap();
    vk.randomize(&randomizer).into()
}

/// The verification keys of a signing key and of its negative differ in the highest bit
/// alone.
pub proof fn lemma_negative_key(s: nat, repr: Seq<u8>)
    requires
        is_verification_key_of(s, repr),
    ensures
        repr.len() == 32,
        is_affine_repr(repr),
        is_affine_repr(spend_auth_repr(neg_scalar(s))),
        sign_bit(spend_auth_repr(neg_scalar(s))) != sign_bit(repr),
        x_coordinate(spend_auth_repr(neg_scalar(s))) == x_coordinate(repr),
        x_coordinate(repr) == spend_auth_point(s).0,
        sign_bit(repr) <==> spend_auth_point(s).1 % 2 == 1,
        spend_auth_point(neg_scalar(s)).0 == spend_auth_point(s).0,
        spend_auth_point(neg_scalar(s)).1 % 2 != spend_auth_point(s).1 % 2,
{
    let (x, y) = spend_auth_point(s);
    lemma_on_curve_neg(x, y);
    lemma_point_repr(x, y);
    lemma_point_repr_neg(x, y);
}

/// A signature that authorizes a spend.
#[derive(Clone, Copy, Debug)]
pub struct Signature {
    bytes: [u8; 64],
}

impl View for Signature {
    type V = Seq<u8>;

    closed spec fn view(&self) -> Seq<u8> {
        self.bytes@
    }
}

impl Signature {
    /// The signature that the given bytes stand for.
    pub fn from_bytes(bytes: [u8; 64]) -> (res: Signature)
        ensures
            res@ == bytes@,
    {
        Signature { bytes }
    }

    /// The bytes of this signature.
    pub fn to_bytes(&self) -> (res: [u8; 64])
        ensures
            res@ == self@,
    {
        self.bytes
    }
}

/// A key that signs spend authorizations.
#[derive(Clone, Copy, Debug)]
pub struct SigningKey {
    scalar: NonZeroPallasScalar,
}

impl View for SigningKey {
    type V = nat;

    closed spec fn view(&self) -> nat {
        self.scalar@
    }
}

impl SigningKey {
    /// The signing key of the given scalar.
    pub fn from_scalar(scalar: NonZeroPallasScalar) -> (res: SigningKey)
        ensures
            res@ == scalar@,
    {
        SigningKey { scalar }
    }

    /// The encoding of this signing key.
    pub fn to_bytes(&self) -> (res: [u8; 32])
        ensures
            res@ == le_bytes(self@, 32),
            le_value(res@) == self@,
            0 < self@ < scalar_modulus(),
    {
        self.scalar.to_bytes()
    }

    /// The verification key of this signing key.
    pub fn verification_key(&self) -> (res: VerificationKey)
        ensures
            is_verification_key_of(self@, res@),
            on_curve(spend_auth_point(self@).0, spend_auth_point(self@).1),
            res@ == point_repr(spend_auth_point(self@).0, spend_auth_point(self@).1),
            is_affine_repr(res@),
            0 < self@ < scalar_modulus(),
    {
        let repr = self.scalar.to_bytes();
        let vk = verification_key(&repr);
        proof {
            lemma_negative_key(self@, vk@);
        }
        VerificationKey { repr: vk }
    }

    /// Creates a signature over the given message.
    pub fn sign(&self, rng: &mut StdRng, msg: &[u8]) -> (res: Signature)
        ensures
            signature_accepted(spend_auth_repr(self@), msg@, res@),
    {
        let repr = self.scalar.to_bytes();
        Signature { bytes: make_signature(&repr, rng, msg) }
    }
}

/// A key that validates spend authorizations.
#[derive(Clone, Copy, Debug)]
pub struct VerificationKey {
    repr: [u8; 32],
}

impl View for VerificationKey {
    type V = Seq<u8>;

    closed spec fn view(&self) -> Seq<u8> {
        self.repr@
    }
}

impl VerificationKey {
    #[verifier::type_invariant]
    spec fn valid(self) -> bool {
        is_point_repr(self.repr@)
    }

    /// The encoding of this key.
    pub fn to_bytes(&self) -> (res: [u8; 32])
        ensures
            res@ == self@,
            is_point_repr(self@),
    {
        proof {
            use_type_invariant(self);
        }
        self.repr
    }

    /// The point that this key is.
    pub fn point(&self) -> (res: PallasPoint)
        ensures
            res@ == self@,
            is_point_repr(self@),
    {
        proof {
            use_type_invariant(self);
        }
        PallasPoint::from_bytes(self.repr).unwrap()
    }

    /// Whether the signature over the given message is one that this key accepts.
    pub fn verify(&self, msg: &[u8], sig: &Signature) -> (res: bool)
        ensures
            res == signature_accepted(self@, msg@, sig@),
    {
        proof {
            use_type_invariant(self);
        }
        verify_signature(&self.repr, msg, &sig.bytes)
    }

    /// This key, randomized with the given scalar.
    pub fn randomize(&self, randomizer: &Scalar) -> (res: VerificationKey)
        ensures
            res@ == randomized_repr(self@, randomizer@),
            is_point_repr(res@),
            follows_signing_key(self@, randomizer@, res@),
    {
        proof {
            use_type_invariant(self);
        }
        let randomizer = randomizer.to_bytes();
        VerificationKey { repr: randomize_key(&self.repr, &randomizer) }
    }
}

} // verus!
