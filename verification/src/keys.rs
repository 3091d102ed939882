//! Key structures for Orchard.

use fpe::ff1::{BinaryNumeralString, FF1};
use rand::rngs::StdRng;
use rand::RngCore;
use vstd::prelude::*;
use vstd::std_specs::convert::IntoSpec;

use crate::address::Address;
use crate::bytes::{le_bits, le_bytes, le_value, lemma_le_bytes_len, zeros};
use crate::laws::{
    lemma_index_value, lemma_index_zero, lemma_validating_key_is_its_x_coordinate,
};
use crate::model::{
    all_refused, ask_of, ask_scalar, blocks, ff1_decrypt, ff1_encrypt, fvk_of, index_bytes,
    is_first_key, is_only_index, is_spending_key, nk_of, normalized_ask, rivk_of,
    transmission_key, IncomingComponents, ViewingComponents,
};
use crate::pallas::{
    base_modulus, curve_hash, curve_mul, identity_repr, is_affine_repr, is_only_point,
    is_only_scalar, is_point_repr, neg_scalar, scalar_modulus, sign_bit, x_coordinate, Base,
    NonZeroPallasBase, NonZeroPallasScalar, PallasPoint, Scalar,
};
use crate::protocol::{
    blake2b_512, commit_ivk, commit_ivk_value, concat, diversify_fallback_repr, diversify_hash,
    diversify_hash_repr, ka_orchard, optional_value, poseidon_hash, prf_expand, prf_expand_vec,
    prf_nf, sinsemilla_commit, to_base, to_scalar, PRF_EXPAND_PERSONALIZATION,
};
use crate::redpallas::{
    follows_signing_key, lemma_negative_key, randomized_repr, signature_accepted,
    spend_auth_point, spend_auth_repr, Signature, SigningKey, VerificationKey,
};

verus! {

/// `RngCore::fill_bytes` of `rand`, on 32 bytes. Nothing is known of what it draws.
#[verifier::external_body]
fn draw_bytes(rng: &mut StdRng) -> (res: [u8; 32]) {
    let mut bytes = [0; 32];
    rng.fill_bytes(&mut bytes);
    bytes
}

/// A spending key, from which all key material is derived.
#[derive(Debug)]
pub struct SpendingKey([u8; 32]);

impl View for SpendingKey {
    type V = Seq<u8>;

    closed spec fn view(&self) -> Seq<u8> {
        self.0@
    }
}

impl Clone for SpendingKey {
    fn clone(&self) -> (res: Self)
        ensures
            res == *self,
    {
        proof {
            use_type_invariant(self);
        }
        SpendingKey(self.0)
    }
}

impl SpendingKey {
    #[verifier::type_invariant]
    spec fn valid(self) -> bool {
        is_spending_key(self.0@)
    }

    /// Generates a random spending key, from the first of at most the given number of draws
    /// that is one.
    ///
    /// This is only used when generating dummy notes.
    pub fn random(rng: &mut StdRng, attempts: u64) -> (res: Option<SpendingKey>)
        ensures
            attempts == 0 ==> res is None,
            res is None ==> exists|draws: Seq<Seq<u8>>| #[trigger]
                all_refused(draws) && draws.len() == attempts,
            res is Some ==> is_spending_key(res->0@),
            res is Some ==> exists|draws: Seq<Seq<u8>>| #[trigger]
                is_first_key(draws, draws.len() - 1) && draws.len() <= attempts && res->0@
                    == draws.last(),
    {
        let ghost mut draws: Seq<Seq<u8>> = Seq::empty();
        for i in 0..attempts
            invariant
                draws.len() == i,
                all_refused(draws),
        {
            let draw = draw_bytes(rng);
            let sk = SpendingKey::from_bytes(draw);
            if sk.is_some() {
                proof {
                    assert(draws.push(draw@).take(i as int) == draws);
                    assert(is_first_key(draws.push(draw@), draws.push(draw@).len() - 1));
                }
                return sk;
            }
            proof {
                draws = draws.push(draw@);
            }
        }
        None
    }

    /// Constructs a spending key from uniformly random bytes.
    ///
    /// Returns `None` if the bytes do not correspond to a valid spending key.
    pub fn from_bytes(sk: [u8; 32]) -> (res: Option<SpendingKey>)
        ensures
            res is Some <==> is_spending_key(sk@),
            res is Some ==> res->0@ == sk@,
            ({
                let ask = le_value(blake2b_512(PRF_EXPAND_PERSONALIZATION@, sk@ + seq![0x06u8]))
                    % scalar_modulus();
                let nk = le_value(blake2b_512(PRF_EXPAND_PERSONALIZATION@, sk@ + seq![0x07u8]))
                    % base_modulus();
                let rivk = le_value(blake2b_512(PRF_EXPAND_PERSONALIZATION@, sk@ + seq![0x08u8]))
                    % scalar_modulus();
                let commit = sinsemilla_commit(
                    "z.cash:Orchard-CommitIvk"@,
                    le_bits(spend_auth_point(ask).0, 255) + le_bits(nk, 255),
                    rivk,
                );
                res is Some <==> ask != 0 && commit is Some && commit != Some(0nat)
            }),
    {
        // If ask = 0, discard this key: there is no spend validating key to go on with.
        let ask = SpendAuthorizingKey::derive_inner(&sk);
        let ivk = match NonZeroPallasScalar::from_scalar(ask) {
            Some(ask) => {
                let ak = SpendAuthorizingKey::from_scalar(ask).validating_key();
                let nk = NullifierDerivingKey::derive(&sk);
                let rivk = CommitIvkRandomness::derive(&sk);
                KeyAgreementPrivateKey::derive_inner(&ak, &nk, &rivk)
            },
            None => None,
        };
        // If there is no ivk, discard this key.
        if is_discarded(&ask, &ivk) {
            None
        } else {
            Some(SpendingKey(sk))
        }
    }

    /// The bytes of this spending key.
    pub fn to_bytes(&self) -> (res: [u8; 32])
        ensures
            res@ == self@,
            is_spending_key(self@),
    {
        proof {
            use_type_invariant(self);
        }
        self.0
    }
}

/// The first of the given blocks that is a spending key.
pub fn first_spending_key(draws: &[[u8; 32]]) -> (res: Option<SpendingKey>)
    ensures
        res is None <==> all_refused(blocks(draws@)),
        res is None <==> forall|i: int|
            0 <= i < draws@.len() ==> !is_spending_key(#[trigger] draws@[i]@),
        res is Some ==> exists|i: int|
            0 <= i < draws@.len() && res->0@ == #[trigger] draws@[i]@ && is_spending_key(
                draws@[i]@,
            ) && forall|k: int| 0 <= k < i ==> !is_spending_key(#[trigger] draws@[k]@),
        res is Some ==> exists|i: int| #[trigger]
            is_first_key(blocks(draws@), i) && res->0@ == blocks(draws@)[i],
{
    let ghost all = blocks(draws@);
    for i in 0..draws.len()
        invariant
            all == blocks(draws@),
            all_refused(all.take(i as int)),
            forall|k: int| 0 <= k < i ==> !is_spending_key(#[trigger] draws@[k]@),
    {
        let sk = SpendingKey::from_bytes(draws[i]);
        assert(all[i as int] == draws@[i as int]@);
        if sk.is_some() {
            assert(is_first_key(all, i as int));
            return sk;
        }
        assert forall|k: int| 0 <= k < all.take(i + 1).len() implies #[trigger] all.take(
            i + 1,
        )[k].len() == 32 && !is_spending_key(all.take(i + 1)[k]) by {
            if k < i {
                assert(all.take(i + 1)[k] == all.take(i as int)[k]);
            }
        }
    }
    assert(all.take(all.len() as int) == all);
    None
}

/// Whether a spending key is to be discarded, as one whose ask is zero or that has no ivk.
pub fn is_discarded(ask: &Scalar, ivk: &Option<NonZeroPallasBase>) -> (res: bool)
    ensures
        res == (ask@ == 0 || ivk is None),
{
    ask.is_zero() || ivk.is_none()
}

/// The scalar, or its negative where the highest bit of the given verification key is set.
pub fn normalize_sign(ask: NonZeroPallasScalar, ak: &[u8; 32]) -> (res: NonZeroPallasScalar)
    ensures
        res@ == if sign_bit(ak@) {
            neg_scalar(ask@)
        } else {
            ask@
        },
        ak@[31] < 128 ==> res@ == ask@,
        ak@[31] >= 128 ==> 0 < res@ < scalar_modulus() && res@ + ask@ == scalar_modulus(),
{
    let top: u8 = ak[31];
    assert((top >> 7 == 1) <==> top >= 128) by (bit_vector);
    if top >> 7 == 1 {
        ask.negate()
    } else {
        ask
    }
}

/// A spend authorizing key, used to create spend authorization signatures.
#[derive(Debug)]
pub struct SpendAuthorizingKey(SigningKey);

impl View for SpendAuthorizingKey {
    type V = nat;

    closed spec fn view(&self) -> nat {
        self.0@
    }
}

impl SpendAuthorizingKey {
    #[verifier::type_invariant]
    spec fn valid(self) -> bool {
        !sign_bit(spend_auth_repr(self.0@))
    }

    /// Derives ask from the bytes of a spending key, up to its sign. It may be zero.
    pub fn derive_inner(sk: &[u8; 32]) -> (res: Scalar)
        ensures
            res@ == ask_scalar(sk@),
            res@ == le_value(blake2b_512(PRF_EXPAND_PERSONALIZATION@, sk@ + seq![0x06u8]))
                % scalar_modulus(),
    {
        let t: [u8; 1] = [0x06];
        assert(t@ == seq![0x06u8]);
        to_scalar(prf_expand(sk, &t))
    }

    /// The key that the given scalar gives, negated where that is what it takes for the
    /// highest bit of the validating key to be clear.
    pub fn from_scalar(ask: NonZeroPallasScalar) -> (res: SpendAuthorizingKey)
        ensures
            res@ == normalized_ask(ask@),
            !sign_bit(spend_auth_repr(res@)),
            x_coordinate(spend_auth_repr(res@)) == x_coordinate(spend_auth_repr(ask@)),
            res@ == ask@ || res@ == scalar_modulus() - ask@,
            spend_auth_point(res@).0 == spend_auth_point(ask@).0,
            spend_auth_point(res@).1 % 2 == 0,
            x_coordinate(spend_auth_repr(res@)) == spend_auth_point(ask@).0,
    {
        let ak = SigningKey::from_scalar(ask).verification_key();
        proof {
            lemma_negative_key(ask@, ak@);
        }
        let ask = normalize_sign(ask, &ak.to_bytes());
        SpendAuthorizingKey(SigningKey::from_scalar(ask))
    }

    /// The encoding of this key.
    pub fn to_bytes(&self) -> (res: [u8; 32])
        ensures
            res@ == le_bytes(self@, 32),
            le_value(res@) == self@,
            0 < self@ < scalar_modulus(),
    {
        self.0.to_bytes()
    }

    /// The key that validates the signatures of this key.
    pub fn validating_key(&self) -> (res: SpendValidatingKey)
        ensures
            res@ == spend_auth_repr(self@),
            is_affine_repr(res@),
            !sign_bit(res@),
            0 < self@ < scalar_modulus(),
    {
        proof {
            use_type_invariant(self);
        }
        SpendValidatingKey(self.0.verification_key())
    }

    /// Creates a spend authorization signature over the given message.
    pub fn sign(&self, rng: &mut StdRng, msg: &[u8]) -> (res: Signature)
        ensures
            signature_accepted(spend_auth_repr(self@), msg@, res@),
    {
        self.0.sign(rng, msg)
    }
}

// A key is told by its view: what `from` gives is stated on `from` itself, here and below.
impl vstd::std_specs::convert::FromSpecImpl<&SpendingKey> for SpendAuthorizingKey {
    open spec fn obeys_from_spec() -> bool {
        false
    }

    open spec fn from_spec(sk: &SpendingKey) -> SpendAuthorizingKey {
        arbitrary()
    }
}

impl From<&SpendingKey> for SpendAuthorizingKey {
    fn from(sk: &SpendingKey) -> (res: Self)
        ensures
            res@ == ask_of(sk@),
            ({
                let ask = le_value(blake2b_512(PRF_EXPAND_PERSONALIZATION@, sk@ + seq![0x06u8]))
                    % scalar_modulus();
                &&& res@ == ask || res@ == scalar_modulus() - ask
                &&& spend_auth_point(res@).0 == spend_auth_point(ask).0
                &&& spend_auth_point(res@).1 % 2 == 0
                &&& x_coordinate(spend_auth_repr(res@)) == spend_auth_point(ask).0
            }),
            0 < res@ < scalar_modulus(),
            !sign_bit(spend_auth_repr(res@)),
    {
        proof {
            use_type_invariant(sk);
        }
        let ask = SpendAuthorizingKey::derive_inner(&sk.0);
        // A spending key has a nonzero ask.
        SpendAuthorizingKey::from_scalar(NonZeroPallasScalar::from_scalar(ask).unwrap())
    }
}

/// A key used to validate spend authorization signatures.
#[derive(Debug)]
pub struct SpendValidatingKey(VerificationKey);

impl View for SpendValidatingKey {
    type V = Seq<u8>;

    closed spec fn view(&self) -> Seq<u8> {
        self.0@
    }
}

impl Clone for SpendValidatingKey {
    fn clone(&self) -> (res: Self)
        ensures
            res == *self,
    {
        proof {
            use_type_invariant(self);
        }
        SpendValidatingKey(self.0)
    }
}

impl vstd::std_specs::convert::FromSpecImpl<&SpendAuthorizingKey> for SpendValidatingKey {
    open spec fn obeys_from_spec() -> bool {
        false
    }

    open spec fn from_spec(ask: &SpendAuthorizingKey) -> SpendValidatingKey {
        arbitrary()
    }
}

impl From<&SpendAuthorizingKey> for SpendValidatingKey {
    fn from(ask: &SpendAuthorizingKey) -> (res: Self)
        ensures
            res@ == spend_auth_repr(ask@),
            is_affine_repr(res@),
            !sign_bit(res@),
    {
        ask.validating_key()
    }
}

impl vstd::std_specs::cmp::PartialEqSpecImpl for SpendValidatingKey {
    open spec fn obeys_eq_spec() -> bool {
        true
    }

    open spec fn eq_spec(&self, other: &SpendValidatingKey) -> bool {
        self@ == other@
    }
}

impl PartialEq for SpendValidatingKey {
    fn eq(&self, other: &Self) -> (res: bool) {
        let a = self.0.to_bytes();
        let b = other.0.to_bytes();
        for i in 0..32usize
            invariant
                a@ == self@,
                b@ == other@,
                forall|j: int| 0 <= j < i ==> a@[j] == b@[j],
        {
            if a[i] != b[i] {
                return false;
            }
        }
        assert(a@ == b@);
        true
    }
}

impl SpendValidatingKey {
    #[verifier::type_invariant]
    spec fn valid(self) -> bool {
        is_affine_repr(self.0@) && !sign_bit(self.0@)
    }

    /// Randomizes this spend validating key with the given `randomizer`.
    pub fn randomize(&self, randomizer: &Scalar) -> (res: VerificationKey)
        ensures
            res@ == randomized_repr(self@, randomizer@),
            is_point_repr(res@),
            follows_signing_key(self@, randomizer@, res@),
    {
        self.0.randomize(randomizer)
    }

    /// The verification key that this key is stored as.
    pub fn verification_key(&self) -> (res: &VerificationKey)
        ensures
            res@ == self@,
            is_affine_repr(self@),
            !sign_bit(self@),
    {
        proof {
            use_type_invariant(self);
        }
        &self.0
    }
}

/// A key used to derive nullifiers from notes.
#[derive(Debug)]
pub struct NullifierDerivingKey(Base);

impl View for NullifierDerivingKey {
    type V = nat;

    closed spec fn view(&self) -> nat {
        self.0@
    }
}

impl Clone for NullifierDerivingKey {
    fn clone(&self) -> (res: Self)
        ensures
            res == *self,
    {
        NullifierDerivingKey(self.0)
    }
}

impl vstd::std_specs::convert::FromSpecImpl<&SpendingKey> for NullifierDerivingKey {
    open spec fn obeys_from_spec() -> bool {
        false
    }

    open spec fn from_spec(sk: &SpendingKey) -> NullifierDerivingKey {
        arbitrary()
    }
}

impl From<&SpendingKey> for NullifierDerivingKey {
    fn from(sk: &SpendingKey) -> (res: Self)
        ensures
            res@ == nk_of(sk@),
            res@ == le_value(blake2b_512(PRF_EXPAND_PERSONALIZATION@, sk@ + seq![0x07u8]))
                % base_modulus(),
    {
        NullifierDerivingKey::derive(&sk.0)
    }
}

impl NullifierDerivingKey {
    /// Derives nk from the bytes of a spending key.
    fn derive(sk: &[u8; 32]) -> (res: NullifierDerivingKey)
        ensures
            res@ == nk_of(sk@),
            res@ == le_value(blake2b_512(PRF_EXPAND_PERSONALIZATION@, sk@ + seq![0x07u8]))
                % base_modulus(),
    {
        let t: [u8; 1] = [0x07];
        assert(t@ == seq![0x07u8]);
        NullifierDerivingKey(to_base(prf_expand(sk, &t)))
    }

    /// The pseudo random function that nullifiers are derived with.
    pub fn prf_nf(&self, rho: Base) -> (res: Base)
        ensures
            res@ == poseidon_hash(self@, rho@),
    {
        prf_nf(self.0, rho)
    }

    /// The encoding of this key.
    pub fn to_bytes(&self) -> (res: [u8; 32])
        ensures
            res@ == le_bytes(self@, 32),
            le_value(res@) == self@,
            self@ < base_modulus(),
    {
        self.0.to_bytes()
    }
}

/// The randomness for `Commit^ivk`.
#[derive(Debug)]
pub struct CommitIvkRandomness(Scalar);

impl View for CommitIvkRandomness {
    type V = nat;

    closed spec fn view(&self) -> nat {
        self.0@
    }
}

impl Clone for CommitIvkRandomness {
    fn clone(&self) -> (res: Self)
        ensures
            res == *self,
    {
        CommitIvkRandomness(self.0)
    }
}

impl vstd::std_specs::convert::FromSpecImpl<&SpendingKey> for CommitIvkRandomness {
    open spec fn obeys_from_spec() -> bool {
        false
    }

    open spec fn from_spec(sk: &SpendingKey) -> CommitIvkRandomness {
        arbitrary()
    }
}

impl From<&SpendingKey> for CommitIvkRandomness {
    fn from(sk: &SpendingKey) -> (res: Self)
        ensures
            res@ == rivk_of(sk@),
            res@ == le_value(blake2b_512(PRF_EXPAND_PERSONALIZATION@, sk@ + seq![0x08u8]))
                % scalar_modulus(),
    {
        CommitIvkRandomness::derive(&sk.0)
    }
}

impl CommitIvkRandomness {
    /// Derives rivk from the bytes of a spending key.
    fn derive(sk: &[u8; 32]) -> (res: CommitIvkRandomness)
        ensures
            res@ == rivk_of(sk@),
            res@ == le_value(blake2b_512(PRF_EXPAND_PERSONALIZATION@, sk@ + seq![0x08u8]))
                % scalar_modulus(),
    {
        let t: [u8; 1] = [0x08];
        assert(t@ == seq![0x08u8]);
        CommitIvkRandomness(to_scalar(prf_expand(sk, &t)))
    }

    /// The encoding of this randomness.
    pub fn to_bytes(&self) -> (res: [u8; 32])
        ensures
            res@ == le_bytes(self@, 32),
            le_value(res@) == self@,
            self@ < scalar_modulus(),
    {
        self.0.to_bytes()
    }
}

/// A key that provides the capability to view incoming and outgoing transactions.
///
/// This key is useful anywhere you need to maintain accurate balance, but do not want the
/// ability to spend funds (such as a view-only wallet).
#[derive(Debug)]
pub struct FullViewingKey {
    ak: SpendValidatingKey,
    nk: NullifierDerivingKey,
    rivk: CommitIvkRandomness,
}

impl View for FullViewingKey {
    type V = ViewingComponents;

    closed spec fn view(&self) -> ViewingComponents {
        ViewingComponents { ak: self.ak@, nk: self.nk@, rivk: self.rivk@ }
    }
}

impl Clone for FullViewingKey {
    fn clone(&self) -> (res: Self)
        ensures
            res == *self,
    {
        proof {
            use_type_invariant(self);
        }
        FullViewingKey { ak: self.ak.clone(), nk: self.nk.clone(), rivk: self.rivk.clone() }
    }
}

impl vstd::std_specs::convert::FromSpecImpl<&SpendingKey> for FullViewingKey {
    open spec fn obeys_from_spec() -> bool {
        false
    }

    open spec fn from_spec(sk: &SpendingKey) -> FullViewingKey {
        arbitrary()
    }
}

impl From<&SpendingKey> for FullViewingKey {
    fn from(sk: &SpendingKey) -> (res: Self)
        ensures
            res@ == fvk_of(sk@),
            ({
                let ask = le_value(blake2b_512(PRF_EXPAND_PERSONALIZATION@, sk@ + seq![0x06u8]))
                    % scalar_modulus();
                res@.ak == le_bytes(spend_auth_point(ask).0, 32)
            }),
            res@.nk == le_value(blake2b_512(PRF_EXPAND_PERSONALIZATION@, sk@ + seq![0x07u8]))
                % base_modulus(),
            res@.rivk == le_value(blake2b_512(PRF_EXPAND_PERSONALIZATION@, sk@ + seq![0x08u8]))
                % scalar_modulus(),
            res@.ivk() is Some,
            is_affine_repr(res@.ak),
            !sign_bit(res@.ak),
    {
        proof {
            use_type_invariant(sk);
        }
        let ask = SpendAuthorizingKey::from(sk);
        let ak = SpendValidatingKey::from(&ask);
        proof {
            lemma_validating_key_is_its_x_coordinate(ak@);
        }
        FullViewingKey {
            ak,
            nk: NullifierDerivingKey::from(sk),
            rivk: CommitIvkRandomness::from(sk),
        }
    }
}

impl vstd::std_specs::convert::FromSpecImpl<FullViewingKey> for SpendValidatingKey {
    open spec fn obeys_from_spec() -> bool {
        false
    }

    open spec fn from_spec(fvk: FullViewingKey) -> SpendValidatingKey {
        arbitrary()
    }
}

impl From<FullViewingKey> for SpendValidatingKey {
    fn from(fvk: FullViewingKey) -> (res: Self)
        ensures
            res@ == fvk@.ak,
            is_affine_repr(res@),
            !sign_bit(res@),
    {
        proof {
            use_type_invariant(&fvk.ak);
        }
        fvk.ak
    }
}

impl FullViewingKey {
    #[verifier::type_invariant]
    spec fn valid(self) -> bool {
        commit_ivk_value(x_coordinate(self.ak@), self.nk@, self.rivk@) is Some
    }

    /// The nullifier deriving key.
    pub fn nk(&self) -> (res: &NullifierDerivingKey)
        ensures
            res@ == self@.nk,
    {
        &self.nk
    }

    /// Derives the diversifier key and the outgoing viewing key.
    pub fn derive_dk_ovk(&self) -> (res: (DiversifierKey, OutgoingViewingKey))
        ensures
            res.0@ == self@.dk(),
            res.1@ == self@.ovk(),
            res.0@ + res.1@ == self@.dk_ovk(),
            res.0@ + res.1@ == blake2b_512(
                PRF_EXPAND_PERSONALIZATION@,
                le_bytes(self@.rivk, 32) + (seq![0x82u8] + self@.ak + le_bytes(self@.nk, 32)),
            ),
            res.0@.len() == 32,
            res.1@.len() == 32,
    {
        let k = self.rivk.0.to_bytes();
        let tag: [u8; 1] = [0x82];
        let ak = self.ak.0.to_bytes();
        let nk = self.nk.0.to_bytes();
        let ts: [&[u8]; 3] = [&tag, &ak, &nk];
        proof {
            assert(ts@.drop_last().drop_last().drop_last() == Seq::<&[u8]>::empty());
            assert(concat(ts@.drop_last().drop_last().drop_last()) == Seq::<u8>::empty());
            assert(tag@ == seq![0x82u8]);
            assert(ts@.drop_last().drop_last().last()@ == tag@);
            assert(concat(ts@.drop_last().drop_last()) == seq![0x82u8]);
            assert(ts@.drop_last().last()@ == ak@);
            assert(concat(ts@.drop_last()) == seq![0x82u8] + ak@);
            assert(ts@.last()@ == nk@);
            assert(concat(ts@) == seq![0x82u8] + ak@ + nk@);
        }
        split_dk_ovk(&prf_expand_vec(&k, ts.as_slice()))
    }

    /// Returns the default payment address for this key, which is the one at index 0.
    pub fn default_address(&self) -> (res: Address)
        ensures
            res@ == self@.incoming().address_at(index_bytes(0)),
            res@.0 == ff1_cipher(self@.dk(), 2, Seq::empty(), zeros(11)),
            curve_hash("z.cash:Orchard-gd"@, res@.0) != identity_repr() ==> res@.1 == curve_mul(
                self@.ivk()->0,
                curve_hash("z.cash:Orchard-gd"@, res@.0),
            ),
            curve_hash("z.cash:Orchard-gd"@, res@.0) == identity_repr() ==> res@.1 == curve_mul(
                self@.ivk()->0,
                curve_hash("z.cash:Orchard-gd"@, Seq::empty()),
            ),
            is_only_index(self@.dk(), res@.0, index_bytes(0)),
    {
        IncomingViewingKey::from(self).default_address()
    }

    /// Returns the payment address for this key at the given index.
    pub fn address_at<J: Into<DiversifierIndex>>(&self, j: J) -> (res: Address)
        ensures
            J::obeys_into_spec() ==> res@ == self@.incoming().address_at(j.into_spec()@),
            J::obeys_into_spec() ==> is_only_index(self@.dk(), res@.0, j.into_spec()@),
            exists|index: DiversifierIndex| #[trigger]
                call_ensures(J::into, (j,), index) && res@ == self@.incoming().address_at(index@)
                    && is_only_index(self@.dk(), res@.0, index@),
    {
        IncomingViewingKey::from(self).address_at(j)
    }

    /// Returns the payment address for this key at the given index.
    pub fn address_at_index(&self, index: DiversifierIndex) -> (res: Address)
        ensures
            res@ == self@.incoming().address_at(index@),
            res@.0 == ff1_cipher(self@.dk(), 2, Seq::empty(), index@),
            curve_hash("z.cash:Orchard-gd"@, res@.0) != identity_repr() ==> res@.1 == curve_mul(
                self@.ivk()->0,
                curve_hash("z.cash:Orchard-gd"@, res@.0),
            ),
            curve_hash("z.cash:Orchard-gd"@, res@.0) == identity_repr() ==> res@.1 == curve_mul(
                self@.ivk()->0,
                curve_hash("z.cash:Orchard-gd"@, Seq::empty()),
            ),
            is_only_index(self@.dk(), res@.0, index@),
    {
        self.address_at(index)
    }

    /// Returns the payment address for this key corresponding to the given diversifier.
    pub fn address(&self, d: Diversifier) -> (res: Address)
        ensures
            res@ == self@.address(d@),
            res@.0 == d@,
            curve_hash("z.cash:Orchard-gd"@, d@) != identity_repr() ==> res@.1 == curve_mul(
                self@.ivk()->0,
                curve_hash("z.cash:Orchard-gd"@, d@),
            ),
            curve_hash("z.cash:Orchard-gd"@, d@) == identity_repr() ==> res@.1 == curve_mul(
                self@.ivk()->0,
                curve_hash("z.cash:Orchard-gd"@, Seq::empty()),
            ),
    {
        // Shortcut: there is no need to derive the diversifier key.
        KeyAgreementPrivateKey::from(self).address(d)
    }
}

/// Cuts the diversifier key and the outgoing viewing key from one output of `PRF^expand`.
pub fn split_dk_ovk(r: &[u8; 64]) -> (res: (DiversifierKey, OutgoingViewingKey))
    ensures
        res.0@ == r@.take(32),
        res.1@ == r@.skip(32),
        res.0@ + res.1@ == r@,
{
    let mut dk: [u8; 32] = [0; 32];
    let mut ovk: [u8; 32] = [0; 32];
    for i in 0..32usize
        invariant
            forall|k: int| 0 <= k < i ==> dk@[k] == r@[k],
            forall|k: int| 0 <= k < i ==> ovk@[k] == r@[k + 32],
    {
        dk[i] = r[i];
        ovk[i] = r[i + 32];
    }
    assert(dk@ == r@.take(32));
    assert(ovk@ == r@.skip(32));
    assert(dk@ + ovk@ == r@);
    (DiversifierKey(dk), OutgoingViewingKey(ovk))
}

/// What FF1 of the `fpe` crate with AES-256 encrypts the bits of an input of 11 bytes to,
/// under a key, a radix and a tweak.
pub uninterp spec fn ff1_cipher(
    key: Seq<u8>,
    radix: u32,
    tweak: Seq<u8>,
    input: Seq<u8>,
) -> Seq<u8>;

/// `FF1::encrypt` of `fpe`, of a `BinaryNumeralString`, which is in radix 2 alone. It is a
/// permutation of the strings of one length: no other input of 11 bytes gives this result,
/// and `FF1::decrypt` gives the input back. A tweak is short enough for its length to be
/// counted in 32 bits with a sign.
#[verifier::external_body]
fn ff1(key: &[u8; 32], radix: u32, tweak: &[u8], input: &[u8; 11]) -> (res: [u8; 11])
    requires
        radix == 2,
        tweak@.len() <= 0xffff,
    ensures
        res@ == ff1_cipher(key@, radix, tweak@, input@),
        ff1_decipher(key@, radix, tweak@, res@) == input@,
        forall|k: Seq<u8>|
            k.len() == 11 && res@ == #[trigger] ff1_cipher(key@, radix, tweak@, k) ==> k == input@,
{
    let ff = FF1::<aes::Aes256>::new(key, radix).expect("valid radix");
    let enc = ff.encrypt(tweak, &BinaryNumeralString::from_bytes_le(input)).unwrap();
    enc.to_bytes_le().try_into().unwrap()
}

/// What FF1 of the `fpe` crate with AES-256 decrypts the bits of an input of 11 bytes to,
/// under a key, a radix and a tweak.
pub uninterp spec fn ff1_decipher(
    key: Seq<u8>,
    radix: u32,
    tweak: Seq<u8>,
    input: Seq<u8>,
) -> Seq<u8>;

/// `FF1::decrypt` of `fpe`, of a `BinaryNumeralString`. It is the inverse of `FF1::encrypt`:
/// the result, and no other string of 11 bytes, is encrypted to the input.
#[verifier::external_body]
fn ff1_inverse(key: &[u8; 32], radix: u32, tweak: &[u8], input: &[u8; 11]) -> (res: [u8; 11])
    requires
        radix == 2,
        tweak@.len() <= 0xffff,
    ensures
        res@ == ff1_decipher(key@, radix, tweak@, input@),
        ff1_cipher(key@, radix, tweak@, res@) == input@,
        forall|k: Seq<u8>|
            k.len() == 11 && input@ == #[trigger] ff1_cipher(key@, radix, tweak@, k) ==> k == res@,
{
    let ff = FF1::<aes::Aes256>::new(key, radix).expect("valid radix");
    let dec = ff.decrypt(tweak, &BinaryNumeralString::from_bytes_le(input)).unwrap();
    dec.to_bytes_le().try_into().unwrap()
}

/// A key that provides the capability to derive a sequence of diversifiers.
#[derive(Debug)]
pub struct DiversifierKey([u8; 32]);

impl View for DiversifierKey {
    type V = Seq<u8>;

    closed spec fn view(&self) -> Seq<u8> {
        self.0@
    }
}

impl vstd::std_specs::convert::FromSpecImpl<&FullViewingKey> for DiversifierKey {
    open spec fn obeys_from_spec() -> bool {
        false
    }

    open spec fn from_spec(fvk: &FullViewingKey) -> DiversifierKey {
        arbitrary()
    }
}

impl From<&FullViewingKey> for DiversifierKey {
    fn from(fvk: &FullViewingKey) -> (res: Self)
        ensures
            res@ == fvk@.dk(),
            res@.len() == 32,
            res@ == blake2b_512(
                PRF_EXPAND_PERSONALIZATION@,
                le_bytes(fvk@.rivk, 32) + (seq![0x82u8] + fvk@.ak + le_bytes(fvk@.nk, 32)),
            ).subrange(0, 32),
    {
        let keys = fvk.derive_dk_ovk();
        assert(keys.0@ == (keys.0@ + keys.1@).subrange(0, 32));
        keys.0
    }
}

/// `From` of a type for itself in `std`: gives the argument back unchanged.
pub assume_specification<T>[ <T as From<T>>::from ](t: T) -> (res: T)
    ensures
        res == t,
;

/// The index for a particular diversifier.
#[derive(Clone, Copy, Debug)]
pub struct DiversifierIndex([u8; 11]);

impl View for DiversifierIndex {
    type V = Seq<u8>;

    closed spec fn view(&self) -> Seq<u8> {
        self.0@
    }
}

impl DiversifierIndex {
    /// The index that is the integer `j`.
    pub closed spec fn of(j: nat) -> DiversifierIndex {
        let b = index_bytes(j);
        DiversifierIndex([b[0], b[1], b[2], b[3], b[4], b[5], b[6], b[7], b[8], b[9], b[10]])
    }

    /// The bytes of the index that is the integer `j`.
    pub proof fn lemma_of(j: nat)
        ensures
            DiversifierIndex::of(j)@ == index_bytes(j),
            j < 0x10000000000000000000000nat ==> le_value(DiversifierIndex::of(j)@) == j,
    {
        lemma_le_bytes_len(j, 11);
        assert(DiversifierIndex::of(j)@ =~= index_bytes(j));
        if j < 0x10000000000000000000000nat {
            lemma_index_value(j);
        }
    }

    /// An index has 11 bytes, and is told by them.
    pub proof fn lemma_bytes(i: DiversifierIndex, j: DiversifierIndex)
        ensures
            i@.len() == 11,
            i@ == j@ <==> i == j,
    {
        assert(i@ == j@ ==> i.0 =~= j.0);
    }

    /// The index that is the given integer.
    fn from_u64(j: u64) -> (res: DiversifierIndex)
        ensures
            res == DiversifierIndex::of(j as nat),
    {
        let mut bytes: [u8; 11] = [0; 11];
        let mut rest: u64 = j;
        proof {
            lemma_le_bytes_len(j as nat, 11);
        }
        for i in 0..11usize
            invariant
                index_bytes(j as nat).len() == 11,
                index_bytes(j as nat) == bytes@.take(i as int) + le_bytes(
                    rest as nat,
                    (11 - i) as nat,
                ),
        {
            bytes[i] = (rest % 256) as u8;
            rest = rest / 256;
            assert(index_bytes(j as nat) == bytes@.take(i + 1) + le_bytes(
                rest as nat,
                (10 - i) as nat,
            ));
        }
        assert(bytes@ == index_bytes(j as nat));
        let index = DiversifierIndex(bytes);
        proof {
            DiversifierIndex::lemma_of(j as nat);
            assert(index.0 =~= DiversifierIndex::of(j as nat).0);
        }
        index
    }
}

impl vstd::std_specs::convert::FromSpecImpl<u32> for DiversifierIndex {
    open spec fn obeys_from_spec() -> bool {
        true
    }

    open spec fn from_spec(j: u32) -> DiversifierIndex {
        DiversifierIndex::of(j as nat)
    }
}

impl From<u32> for DiversifierIndex {
    fn from(j: u32) -> (res: Self)
        ensures
            res@ == index_bytes(j as nat),
            res@.len() == 11,
            le_value(res@) == j,
    {
        proof {
            DiversifierIndex::lemma_of(j as nat);
            lemma_index_value(j as nat);
        }
        DiversifierIndex::from_u64(j as u64)
    }
}

impl vstd::std_specs::convert::FromSpecImpl<u64> for DiversifierIndex {
    open spec fn obeys_from_spec() -> bool {
        true
    }

    open spec fn from_spec(j: u64) -> DiversifierIndex {
        DiversifierIndex::of(j as nat)
    }
}

impl From<u64> for DiversifierIndex {
    fn from(j: u64) -> (res: Self)
        ensures
            res@ == index_bytes(j as nat),
            res@.len() == 11,
            le_value(res@) == j,
    {
        proof {
            DiversifierIndex::lemma_of(j as nat);
            lemma_index_value(j as nat);
        }
        DiversifierIndex::from_u64(j)
    }
}

impl vstd::std_specs::convert::FromSpecImpl<usize> for DiversifierIndex {
    open spec fn obeys_from_spec() -> bool {
        true
    }

    open spec fn from_spec(j: usize) -> DiversifierIndex {
        DiversifierIndex::of(j as nat)
    }
}

impl From<usize> for DiversifierIndex {
    fn from(j: usize) -> (res: Self)
        ensures
            res@ == index_bytes(j as nat),
            res@.len() == 11,
            le_value(res@) == j,
    {
        proof {
            DiversifierIndex::lemma_of(j as nat);
            lemma_index_value(j as nat);
        }
        DiversifierIndex::from_u64(j as u64)
    }
}

impl DiversifierKey {
    /// Returns the diversifier at index 0. No other index gives the same one.
    pub fn default_diversifier(&self) -> (res: Diversifier)
        ensures
            res@ == ff1_encrypt(self@, index_bytes(0)),
            res@ == ff1_cipher(self@, 2, Seq::empty(), zeros(11)),
            is_only_index(self@, res@, index_bytes(0)),
    {
        proof {
            DiversifierIndex::lemma_of(0);
            lemma_index_zero();
        }
        self.get(0u32)
    }

    /// Returns the diversifier at the given index. No other index gives the same one.
    pub fn get<J: Into<DiversifierIndex>>(&self, j: J) -> (res: Diversifier)
        ensures
            J::obeys_into_spec() ==> res@ == ff1_encrypt(self@, j.into_spec()@),
            J::obeys_into_spec() ==> is_only_index(self@, res@, j.into_spec()@),
            exists|index: DiversifierIndex| #[trigger]
                call_ensures(J::into, (j,), index) && res@ == ff1_encrypt(self@, index@)
                    && is_only_index(self@, res@, index@),
    {
        let index: DiversifierIndex = j.into();
        assert(call_ensures(J::into, (j,), index));
        self.at(index)
    }

    /// Returns the diversifier at the given index. No other index gives the same one.
    pub fn at(&self, index: DiversifierIndex) -> (res: Diversifier)
        ensures
            res@ == ff1_encrypt(self@, index@),
            res@ == ff1_cipher(self@, 2, Seq::empty(), index@),
            is_only_index(self@, res@, index@),
            ff1_decrypt(self@, res@) == index@,
            index@.len() == 11,
    {
        let tweak: [u8; 0] = [];
        assert(tweak@ == Seq::<u8>::empty());
        Diversifier(ff1(&self.0, 2, &tweak, &index.0))
    }

    /// Returns the index of the given diversifier: every diversifier has one, and only one.
    pub fn index_of(&self, d: &Diversifier) -> (res: DiversifierIndex)
        ensures
            res@ == ff1_decrypt(self@, d@),
            res@ == ff1_decipher(self@, 2, Seq::empty(), d@),
            ff1_cipher(self@, 2, Seq::empty(), res@) == d@,
            ff1_encrypt(self@, res@) == d@,
            is_only_index(self@, d@, res@),
            res@.len() == 11,
    {
        let tweak: [u8; 0] = [];
        assert(tweak@ == Seq::<u8>::empty());
        DiversifierIndex(ff1_inverse(&self.0, 2, &tweak, &d.0))
    }

    /// The bytes of this key.
    pub fn to_bytes(&self) -> (res: [u8; 32])
        ensures
            res@ == self@,
    {
        self.0
    }
}

/// A diversifier that can be used to derive a specific [`Address`] from a [`FullViewingKey`]
/// or [`IncomingViewingKey`].
#[derive(Clone, Copy, Debug)]
pub struct Diversifier([u8; 11]);

impl View for Diversifier {
    type V = Seq<u8>;

    closed spec fn view(&self) -> Seq<u8> {
        self.0@
    }
}

impl Diversifier {
    /// The diversifier that consists of the given bytes.
    pub fn from_bytes(d: [u8; 11]) -> (res: Diversifier)
        ensures
            res@ == d@,
    {
        Diversifier(d)
    }

    /// Returns the byte array corresponding to this diversifier.
    pub fn as_array(&self) -> (res: &[u8; 11])
        ensures
            res@ == self@,
    {
        &self.0
    }
}

/// The private key used in `KA^Orchard`, for decrypting incoming notes.
///
/// It is held as a scalar, but is always an integer of the base field.
#[derive(Debug)]
pub struct KeyAgreementPrivateKey(NonZeroPallasScalar);

impl View for KeyAgreementPrivateKey {
    type V = nat;

    closed spec fn view(&self) -> nat {
        self.0@
    }
}

impl KeyAgreementPrivateKey {
    #[verifier::type_invariant]
    spec fn valid(self) -> bool {
        self.0@ < base_modulus()
    }

    /// Derives ivk from what a full viewing key consists of, where there is one.
    pub fn derive_inner(
        ak: &SpendValidatingKey,
        nk: &NullifierDerivingKey,
        rivk: &CommitIvkRandomness,
    ) -> (res: Option<NonZeroPallasBase>)
        ensures
            optional_value(res) == commit_ivk_value(x_coordinate(ak@), nk@, rivk@),
            ({
                let commit = sinsemilla_commit(
                    "z.cash:Orchard-CommitIvk"@,
                    le_bits(x_coordinate(ak@), 255) + le_bits(nk@, 255),
                    rivk@,
                );
                &&& res is Some <==> commit is Some && commit != Some(0nat)
                &&& res is Some ==> commit == Some(res->0@)
            }),
    {
        let ak = ak.0.point().extract_p();
        commit_ivk(&ak, &nk.0, &rivk.0)
    }

    /// Returns the payment address for this key corresponding to the given diversifier.
    pub fn address(&self, d: Diversifier) -> (res: Address)
        ensures
            res@ == (d@, transmission_key(self@, d@)),
            res@.0 == d@,
            curve_hash("z.cash:Orchard-gd"@, d@) != identity_repr() ==> res@.1 == curve_mul(
                self@,
                curve_hash("z.cash:Orchard-gd"@, d@),
            ),
            curve_hash("z.cash:Orchard-gd"@, d@) == identity_repr() ==> res@.1 == curve_mul(
                self@,
                curve_hash("z.cash:Orchard-gd"@, Seq::empty()),
            ),
    {
        let pk_d = DiversifiedTransmissionKey::derive(self, &d);
        Address::from_parts(d, pk_d)
    }

    /// The encoding of this key, which is always that of a nonzero base field element.
    pub fn to_bytes(&self) -> (res: [u8; 32])
        ensures
            res@ == le_bytes(self@, 32),
            le_value(res@) == self@,
            0 < self@ < base_modulus(),
    {
        proof {
            use_type_invariant(self);
        }
        self.0.to_bytes()
    }
}

impl vstd::std_specs::convert::FromSpecImpl<&FullViewingKey> for KeyAgreementPrivateKey {
    open spec fn obeys_from_spec() -> bool {
        false
    }

    open spec fn from_spec(fvk: &FullViewingKey) -> KeyAgreementPrivateKey {
        arbitrary()
    }
}

impl From<&FullViewingKey> for KeyAgreementPrivateKey {
    fn from(fvk: &FullViewingKey) -> (res: Self)
        ensures
            fvk@.ivk() == Some(res@),
            sinsemilla_commit(
                "z.cash:Orchard-CommitIvk"@,
                le_bits(x_coordinate(fvk@.ak), 255) + le_bits(fvk@.nk, 255),
                fvk@.rivk,
            ) == Some(res@),
            0 < res@ < base_modulus(),
    {
        proof {
            use_type_invariant(fvk);
        }
        // A full viewing key has an ivk.
        let ivk = KeyAgreementPrivateKey::derive_inner(&fvk.ak, &fvk.nk, &fvk.rivk).unwrap();
        KeyAgreementPrivateKey(NonZeroPallasScalar::from_base(ivk))
    }
}

/// A key that provides the capability to detect and decrypt incoming notes from the block
/// chain, without being able to spend the notes or detect when they are spent.
///
/// This key is useful in situations where you only need the capability to detect inbound
/// payments, such as merchant terminals.
///
/// This key is not suitable for use on its own in a wallet, as it cannot maintain accurate
/// balance. You should use a [`FullViewingKey`] instead.
#[derive(Debug)]
pub struct IncomingViewingKey {
    dk: DiversifierKey,
    ivk: KeyAgreementPrivateKey,
}

impl View for IncomingViewingKey {
    type V = IncomingComponents;

    closed spec fn view(&self) -> IncomingComponents {
        IncomingComponents { dk: self.dk@, ivk: self.ivk@ }
    }
}

impl vstd::std_specs::convert::FromSpecImpl<&FullViewingKey> for IncomingViewingKey {
    open spec fn obeys_from_spec() -> bool {
        false
    }

    open spec fn from_spec(fvk: &FullViewingKey) -> IncomingViewingKey {
        arbitrary()
    }
}

impl From<&FullViewingKey> for IncomingViewingKey {
    fn from(fvk: &FullViewingKey) -> (res: Self)
        ensures
            res@ == fvk@.incoming(),
            fvk@.ivk() == Some(res@.ivk),
            sinsemilla_commit(
                "z.cash:Orchard-CommitIvk"@,
                le_bits(x_coordinate(fvk@.ak), 255) + le_bits(fvk@.nk, 255),
                fvk@.rivk,
            ) == Some(res@.ivk),
            res@.dk == blake2b_512(
                PRF_EXPAND_PERSONALIZATION@,
                le_bytes(fvk@.rivk, 32) + (seq![0x82u8] + fvk@.ak + le_bytes(fvk@.nk, 32)),
            ).subrange(0, 32),
    {
        IncomingViewingKey {
            dk: DiversifierKey::from(fvk),
            ivk: KeyAgreementPrivateKey::from(fvk),
        }
    }
}

impl IncomingViewingKey {
    /// Returns the default payment address for this key, which is the one at index 0.
    pub fn default_address(&self) -> (res: Address)
        ensures
            res@ == self@.address_at(index_bytes(0)),
            res@.0 == ff1_cipher(self@.dk, 2, Seq::empty(), zeros(11)),
            curve_hash("z.cash:Orchard-gd"@, res@.0) != identity_repr() ==> res@.1 == curve_mul(
                self@.ivk,
                curve_hash("z.cash:Orchard-gd"@, res@.0),
            ),
            curve_hash("z.cash:Orchard-gd"@, res@.0) == identity_repr() ==> res@.1 == curve_mul(
                self@.ivk,
                curve_hash("z.cash:Orchard-gd"@, Seq::empty()),
            ),
            is_only_index(self@.dk, res@.0, index_bytes(0)),
    {
        self.address(self.dk.default_diversifier())
    }

    /// Returns the payment address for this key at the given index.
    pub fn address_at<J: Into<DiversifierIndex>>(&self, j: J) -> (res: Address)
        ensures
            J::obeys_into_spec() ==> res@ == self@.address_at(j.into_spec()@),
            J::obeys_into_spec() ==> is_only_index(self@.dk, res@.0, j.into_spec()@),
            exists|index: DiversifierIndex| #[trigger]
                call_ensures(J::into, (j,), index) && res@ == self@.address_at(index@)
                    && is_only_index(self@.dk, res@.0, index@),
    {
        let index: DiversifierIndex = j.into();
        assert(call_ensures(J::into, (j,), index));
        self.address_at_index(index)
    }

    /// Returns the payment address for this key at the given index.
    pub fn address_at_index(&self, index: DiversifierIndex) -> (res: Address)
        ensures
            res@ == self@.address_at(index@),
            res@.0 == ff1_cipher(self@.dk, 2, Seq::empty(), index@),
            curve_hash("z.cash:Orchard-gd"@, res@.0) != identity_repr() ==> res@.1 == curve_mul(
                self@.ivk,
                curve_hash("z.cash:Orchard-gd"@, res@.0),
            ),
            curve_hash("z.cash:Orchard-gd"@, res@.0) == identity_repr() ==> res@.1 == curve_mul(
                self@.ivk,
                curve_hash("z.cash:Orchard-gd"@, Seq::empty()),
            ),
            is_only_index(self@.dk, res@.0, index@),
    {
        self.address(self.dk.at(index))
    }

    /// Returns the payment address for this key corresponding to the given diversifier.
    pub fn address(&self, d: Diversifier) -> (res: Address)
        ensures
            res@ == self@.address(d@),
            res@.0 == d@,
            curve_hash("z.cash:Orchard-gd"@, d@) != identity_repr() ==> res@.1 == curve_mul(
                self@.ivk,
                curve_hash("z.cash:Orchard-gd"@, d@),
            ),
            curve_hash("z.cash:Orchard-gd"@, d@) == identity_repr() ==> res@.1 == curve_mul(
                self@.ivk,
                curve_hash("z.cash:Orchard-gd"@, Seq::empty()),
            ),
    {
        self.ivk.address(d)
    }
}

/// A key that provides the capability to recover outgoing transaction information from the
/// block chain.
///
/// This key is not suitable for use on its own in a wallet, as it cannot maintain accurate
/// balance. You should use a [`FullViewingKey`] instead.
#[derive(Debug)]
pub struct OutgoingViewingKey([u8; 32]);

impl View for OutgoingViewingKey {
    type V = Seq<u8>;

    closed spec fn view(&self) -> Seq<u8> {
        self.0@
    }
}

impl Clone for OutgoingViewingKey {
    fn clone(&self) -> (res: Self)
        ensures
            res == *self,
    {
        OutgoingViewingKey(self.0)
    }
}

impl vstd::std_specs::convert::FromSpecImpl<&FullViewingKey> for OutgoingViewingKey {
    open spec fn obeys_from_spec() -> bool {
        false
    }

    open spec fn from_spec(fvk: &FullViewingKey) -> OutgoingViewingKey {
        arbitrary()
    }
}

impl From<&FullViewingKey> for OutgoingViewingKey {
    fn from(fvk: &FullViewingKey) -> (res: Self)
        ensures
            res@ == fvk@.ovk(),
            res@.len() == 32,
            res@ == blake2b_512(
                PRF_EXPAND_PERSONALIZATION@,
                le_bytes(fvk@.rivk, 32) + (seq![0x82u8] + fvk@.ak + le_bytes(fvk@.nk, 32)),
            ).subrange(32, 64),
    {
        let keys = fvk.derive_dk_ovk();
        assert(keys.1@ == (keys.0@ + keys.1@).subrange(32, 64));
        keys.1
    }
}

impl OutgoingViewingKey {
    /// The bytes of this key.
    pub fn to_bytes(&self) -> (res: [u8; 32])
        ensures
            res@ == self@,
    {
        self.0
    }
}

/// The diversified transmission key for a given payment address.
#[derive(Clone, Copy, Debug)]
pub struct DiversifiedTransmissionKey(PallasPoint);

impl View for DiversifiedTransmissionKey {
    type V = Seq<u8>;

    closed spec fn view(&self) -> Seq<u8> {
        self.0@
    }
}

impl DiversifiedTransmissionKey {
    #[verifier::type_invariant]
    spec fn valid(self) -> bool {
        self.0@ == identity_repr() ==> diversify_fallback_repr() == identity_repr()
    }

    /// Derives the transmission key from the key agreement private key and a diversifier.
    /// It is the identity only where the diversifier is hashed to the identity.
    pub fn derive(ivk: &KeyAgreementPrivateKey, d: &Diversifier) -> (res: Self)
        ensures
            res@ == transmission_key(ivk@, d@),
            curve_hash("z.cash:Orchard-gd"@, d@) != identity_repr() ==> res@ == curve_mul(
                ivk@,
                curve_hash("z.cash:Orchard-gd"@, d@),
            ),
            curve_hash("z.cash:Orchard-gd"@, d@) == identity_repr() ==> res@ == curve_mul(
                ivk@,
                curve_hash("z.cash:Orchard-gd"@, Seq::empty()),
            ),
            res@ == identity_repr() <==> diversify_hash_repr(d@) == identity_repr(),
            is_point_repr(diversify_hash_repr(d@)),
            diversify_hash_repr(d@) != identity_repr() ==> is_only_scalar(
                ivk@,
                diversify_hash_repr(d@),
                res@,
            ),
            is_only_point(ivk@, diversify_hash_repr(d@), res@),
    {
        let g_d = diversify_hash(d.as_array());
        DiversifiedTransmissionKey(ka_orchard(&ivk.0, &g_d))
    }

    /// The encoding of this key. It is that of the identity only if the empty string is
    /// hashed to the identity.
    pub fn to_bytes(&self) -> (res: [u8; 32])
        ensures
            res@ == self@,
            is_point_repr(self@),
            res@ == identity_repr() ==> diversify_fallback_repr() == identity_repr(),
    {
        proof {
            use_type_invariant(self);
        }
        self.0.to_bytes()
    }
}

} // verus!
