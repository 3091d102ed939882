//! Helper functions of the Orchard protocol: the pseudo random functions, the commitment
//! and the hash to the curve that keys are derived with.

use group::ff::PrimeField;
use halo2_poseidon::{ConstantLength, P128Pow5T3};
use vstd::arithmetic::power2::lemma2_to64;
use vstd::prelude::*;
use vstd::utf8::{encode_utf8, is_ascii_chars_encode_utf8};

use crate::bytes::{le_bits, le_value, lemma_le_bits_prefix, lemma_le_bits_split};
use crate::pallas::{
    base_modulus, curve_hash, curve_mul, identity_repr, is_only_point, is_only_scalar,
    is_point_repr, scalar_modulus, Base, NonZeroPallasBase, NonZeroPallasScalar, PallasPoint,
    Scalar,
};

verus! {

/// The personalization of the hash behind `PRF^expand`, "Zcash_ExpandSeed".
pub const PRF_EXPAND_PERSONALIZATION: [u8; 16] = [
    0x5a, 0x63, 0x61, 0x73, 0x68, 0x5f, 0x45, 0x78, 0x70, 0x61, 0x6e, 0x64, 0x53, 0x65, 0x65, 0x64,
];

/// What BLAKE2b-512 of the `blake2b_simd` crate makes of a personalization and an input.
pub uninterp spec fn blake2b_512(personal: Seq<u8>, input: Seq<u8>) -> Seq<u8>;

/// `Params::hash` of `blake2b_simd`, with a hash length of 64 bytes and the given
/// personalization.
#[verifier::external_body]
fn blake2b_hash(personal: &[u8; 16], input: &[u8]) -> (res: [u8; 64])
    ensures
        res@ == blake2b_512(personal@, input@),
{
    *blake2b_simd::Params::new().hash_length(64).personal(personal).hash(input).as_array()
}

/// `PRF^expand`: the hash of the key, followed by the input.
pub open spec fn prf(sk: Seq<u8>, t: Seq<u8>) -> Seq<u8> {
    blake2b_512(PRF_EXPAND_PERSONALIZATION@, sk + t)
}

/// The concatenation of the given byte strings.
pub open spec fn concat(ts: Seq<&[u8]>) -> Seq<u8>
    decreases ts.len(),
{
    if ts.len() == 0 {
        Seq::empty()
    } else {
        concat(ts.drop_last()) + ts.last()@
    }
}

/// The input of the hash behind `PRF^expand`: the key, followed by the pieces in turn.
pub fn prf_expand_input(sk: &[u8], ts: &[&[u8]]) -> (res: Vec<u8>)
    ensures
        res@ == sk@ + concat(ts@),
{
    let mut input: Vec<u8> = Vec::new();
    input.extend_from_slice(sk);
    assert(input@ == sk@ + concat(ts@.take(0)));
    for i in 0..ts.len()
        invariant
            input@ == sk@ + concat(ts@.take(i as int)),
    {
        let ghost before = input@;
        input.extend_from_slice(ts[i]);
        proof {
            assert(ts@.take(i + 1).drop_last() == ts@.take(i as int));
            assert(input@ == before + ts@[i as int]@);
            assert(input@ == sk@ + concat(ts@.take(i + 1)));
        }
    }
    assert(ts@.take(ts@.len() as int) == ts@);
    input
}

/// `PRF^expand` of an input that is given in pieces.
pub fn prf_expand_vec(sk: &[u8], ts: &[&[u8]]) -> (res: [u8; 64])
    ensures
        res@ == prf(sk@, concat(ts@)),
        res@ == blake2b_512(PRF_EXPAND_PERSONALIZATION@, sk@ + concat(ts@)),
{
    let input = prf_expand_input(sk, ts);
    blake2b_hash(&PRF_EXPAND_PERSONALIZATION, input.as_slice())
}

/// `PRF^expand`.
pub fn prf_expand(sk: &[u8], t: &[u8]) -> (res: [u8; 64])
    ensures
        res@ == prf(sk@, t@),
        res@ == blake2b_512(PRF_EXPAND_PERSONALIZATION@, sk@ + t@),
{
    let ts: [&[u8]; 1] = [t];
    proof {
        assert(ts@.drop_last() == Seq::<&[u8]>::empty());
        assert(concat(ts@.drop_last()) == Seq::<u8>::empty());
        assert(ts@.last()@ == t@);
        assert(concat(ts@) == t@);
    }
    prf_expand_vec(sk, ts.as_slice())
}

/// `ToBase`: the hash as a little-endian integer, reduced to the base field.
pub fn to_base(hash: [u8; 64]) -> (res: Base)
    ensures
        res@ == le_value(hash@) % base_modulus(),
{
    Base::from_bytes_wide(&hash)
}

/// `ToScalar`: the hash as a little-endian integer, reduced to the scalar field.
pub fn to_scalar(hash: [u8; 64]) -> (res: Scalar)
    ensures
        res@ == le_value(hash@) % scalar_modulus(),
{
    Scalar::from_bytes_wide(&hash)
}

/// What the Poseidon hash of two base field elements is, as the `halo2_poseidon` crate
/// computes it with the parameters `P128Pow5T3`.
pub uninterp spec fn poseidon_hash(left: nat, right: nat) -> nat;

/// `Hash::hash` of `halo2_poseidon`, of two elements of the base field.
#[verifier::external_body]
fn poseidon(left: &[u8; 32], right: &[u8; 32]) -> (res: [u8; 32])
    requires
        le_value(left@) < base_modulus(),
        le_value(right@) < base_modulus(),
    ensures
        le_value(res@) == poseidon_hash(le_value(left@), le_value(right@)),
        le_value(res@) < base_modulus(),
{
    let left = pasta_curves::pallas::Base::from_repr(*left).unwrap();
    let right = pasta_curves::pallas::Base::from_repr(*right).unwrap();
    let hash = halo2_poseidon::Hash::<_, P128Pow5T3, ConstantLength<2>, 3, 2>::init();
    hash.hash([left, right]).to_repr()
}

/// `PRF^nfOrchard`: the Poseidon hash of the key and the input.
pub fn prf_nf(nk: Base, rho: Base) -> (res: Base)
    ensures
        res@ == poseidon_hash(nk@, rho@),
{
    Base::from_bytes(poseidon(&nk.to_bytes(), &rho.to_bytes())).unwrap()
}

/// The message that `Commit^ivk` commits to: the 255 bits of `ak`, then those of `nk`.
pub open spec fn commit_ivk_bits(ak: nat, nk: nat) -> Seq<bool> {
    le_bits(ak, 255) + le_bits(nk, 255)
}

/// Appends the 255 bits of a base field element, least significant first.
fn push_base_bits(bits: &mut Vec<bool>, x: &Base)
    ensures
        final(bits)@ == old(bits)@ + le_bits(x@, 255),
{
    let repr = x.to_bytes();
    let ghost before = bits@;
    assert(repr@.skip(0) == repr@);
    for k in 0..32usize
        invariant
            repr@.len() == 32,
            x@ == le_value(repr@),
            before + le_bits(x@, 256) == bits@ + le_bits(
                le_value(repr@.skip(k as int)),
                (256 - 8 * k) as nat,
            ),
    {
        let ghost so_far = bits@;
        let mut b: u8 = repr[k];
        for j in 0..8usize
            invariant
                so_far + le_bits(repr@[k as int] as nat, 8) == bits@ + le_bits(
                    b as nat,
                    (8 - j) as nat,
                ),
        {
            reveal(le_bits);
            let ghost bits_j = bits@;
            let ghost b_j = b as nat;
            bits.push(b % 2 == 1);
            b = b / 2;
            let ghost rest = le_bits(b as nat, (7 - j) as nat);
            assert(bits_j + (seq![b_j % 2 == 1] + rest) == bits@ + rest);
        }
        proof {
            let first = repr@[k as int] as nat;
            let rest = repr@.skip(k as int + 1);
            assert(repr@.skip(k as int).skip(1) == rest);
            assert(le_bits(b as nat, 0) == Seq::<bool>::empty()) by {
                reveal(le_bits);
            }
            lemma2_to64();
            lemma_le_bits_split(first, le_value(rest), 8, (248 - 8 * k) as nat);
            let rest_bits = le_bits(le_value(rest), (248 - 8 * k) as nat);
            assert(so_far + (le_bits(first, 8) + rest_bits) == bits@ + rest_bits);
        }
    }
    proof {
        reveal(le_bits);
        assert(le_bits(le_value(repr@.skip(32)), 0) == Seq::<bool>::empty());
        assert(bits@ == before + le_bits(x@, 256));
        lemma_le_bits_prefix(x@, 255);
    }
    bits.pop();
    assert(bits@ == before + le_bits(x@, 255));
}

/// The message that `Commit^ivk` commits to.
pub fn commit_ivk_message(ak: &Base, nk: &Base) -> (res: Vec<bool>)
    ensures
        res@ == commit_ivk_bits(ak@, nk@),
        res@ == le_bits(ak@, 255) + le_bits(nk@, 255),
{
    let mut bits: Vec<bool> = Vec::new();
    push_base_bits(&mut bits, ak);
    push_base_bits(&mut bits, nk);
    bits
}

/// What `SinsemillaShortCommit` of the `sinsemilla` crate gives for a domain, a message and
/// a blinding factor. It fails on the messages that its incomplete addition fails on.
pub uninterp spec fn sinsemilla_commit(domain: Seq<char>, msg: Seq<bool>, r: nat) -> Option<nat>;

/// `CommitDomain::short_commit` of `sinsemilla`. A message is at most 2530 bits long, and a
/// domain at most 225 bytes: the hash to the curve behind it takes at most 227 bytes, of
/// which 2 are not the domain's.
#[verifier::external_body]
fn short_commit(domain: &str, msg: Vec<bool>, r: &[u8; 32]) -> (res: Option<[u8; 32]>)
    requires
        encode_utf8(domain@).len() <= 225,
        msg@.len() <= 2530,
        le_value(r@) < scalar_modulus(),
    ensures
        res is Some <==> sinsemilla_commit(domain@, msg@, le_value(r@)) is Some,
        res is Some ==> sinsemilla_commit(domain@, msg@, le_value(r@)) == Some(le_value(res->0@)),
        res is Some ==> le_value(res->0@) < base_modulus(),
{
    let r = pasta_curves::pallas::Scalar::from_repr(*r).unwrap();
    let commit = sinsemilla::CommitDomain::new(domain).short_commit(msg.into_iter(), &r);
    Option::from(commit).map(|x: pasta_curves::pallas::Base| x.to_repr())
}

/// The outcome of a commitment, without zero.
pub open spec fn nonzero(commit: Option<nat>) -> Option<nat> {
    if commit == Some(0nat) {
        None
    } else {
        commit
    }
}

/// The integer that an optional field element stands for.
pub open spec fn optional_value(x: Option<NonZeroPallasBase>) -> Option<nat> {
    match x {
        Some(x) => Some(x@),
        None => None,
    }
}

/// `Commit^ivk`: the Sinsemilla commitment to `ak` and `nk`, or nothing where that fails or
/// is zero.
pub open spec fn commit_ivk_value(ak: nat, nk: nat, rivk: nat) -> Option<nat> {
    nonzero(sinsemilla_commit("z.cash:Orchard-CommitIvk"@, commit_ivk_bits(ak, nk), rivk))
}

/// What `Commit^ivk` makes of the outcome of the Sinsemilla commitment.
pub fn ivk_from_commitment(commit: Option<Base>) -> (res: Option<NonZeroPallasBase>)
    ensures
        commit is None ==> res is None,
        commit is Some ==> optional_value(res) == nonzero(Some(commit->0@)),
        res is Some <==> commit is Some && commit->0@ != 0,
        res is Some ==> res->0@ == commit->0@,
{
    match commit {
        Some(base) => NonZeroPallasBase::from_base(base),
        None => None,
    }
}

/// `Commit^ivk`.
pub fn commit_ivk(ak: &Base, nk: &Base, rivk: &Scalar) -> (res: Option<NonZeroPallasBase>)
    ensures
        optional_value(res) == commit_ivk_value(ak@, nk@, rivk@),
        ({
            let commit = sinsemilla_commit(
                "z.cash:Orchard-CommitIvk"@,
                le_bits(ak@, 255) + le_bits(nk@, 255),
                rivk@,
            );
            &&& res is Some <==> commit is Some && commit != Some(0nat)
            &&& res is Some ==> commit == Some(res->0@)
        }),
{
    let msg = commit_ivk_message(ak, nk);
    proof {
        reveal_strlit("z.cash:Orchard-CommitIvk");
        is_ascii_chars_encode_utf8("z.cash:Orchard-CommitIvk"@);
        lemma_le_bits_prefix(ak@, 255);
        lemma_le_bits_prefix(nk@, 255);
    }
    let commit = match short_commit("z.cash:Orchard-CommitIvk", msg, &rivk.to_bytes()) {
        Some(repr) => Base::from_bytes(repr),
        None => None,
    };
    ivk_from_commitment(commit)
}

/// The hash of the empty string to the curve, which stands in for the identity.
pub open spec fn diversify_fallback_repr() -> Seq<u8> {
    curve_hash("z.cash:Orchard-gd"@, Seq::empty())
}

/// `DiversifyHash`: the hash of the diversifier to the curve, or that of the empty string
/// where the hash of the diversifier is the identity.
pub open spec fn diversify_hash_repr(d: Seq<u8>) -> Seq<u8> {
    let point = curve_hash("z.cash:Orchard-gd"@, d);
    if point == identity_repr() {
        diversify_fallback_repr()
    } else {
        point
    }
}

/// The given point, or the fallback where the point is the identity.
pub fn replace_identity(point: PallasPoint, fallback: PallasPoint) -> (res: PallasPoint)
    ensures
        res == if point@ == identity_repr() {
            fallback
        } else {
            point
        },
{
    if point.is_identity() {
        fallback
    } else {
        point
    }
}

/// The point that stands in for the identity: the hash of the empty string to the curve.
/// Where this is not the identity, no diversifier is hashed to the identity.
pub fn diversify_fallback() -> (res: PallasPoint)
    ensures
        res@ == diversify_fallback_repr(),
        res@ == curve_hash("z.cash:Orchard-gd"@, Seq::empty()),
        is_point_repr(res@),
        res@ != identity_repr() ==> forall|d: Seq<u8>| #[trigger]
            diversify_hash_repr(d) != identity_repr(),
{
    proof {
        reveal_strlit("z.cash:Orchard-gd");
        is_ascii_chars_encode_utf8("z.cash:Orchard-gd"@);
    }
    let empty: [u8; 0] = [];
    assert(empty@ == Seq::<u8>::empty());
    PallasPoint::hash_to_curve("z.cash:Orchard-gd", &empty)
}

/// `DiversifyHash`.
pub fn diversify_hash(d: &[u8; 11]) -> (res: PallasPoint)
    ensures
        res@ == diversify_hash_repr(d@),
        curve_hash("z.cash:Orchard-gd"@, d@) != identity_repr() ==> res@ == curve_hash(
            "z.cash:Orchard-gd"@,
            d@,
        ),
        curve_hash("z.cash:Orchard-gd"@, d@) == identity_repr() ==> res@ == curve_hash(
            "z.cash:Orchard-gd"@,
            Seq::empty(),
        ),
        is_point_repr(res@),
{
    proof {
        reveal_strlit("z.cash:Orchard-gd");
        is_ascii_chars_encode_utf8("z.cash:Orchard-gd"@);
    }
    let point = PallasPoint::hash_to_curve("z.cash:Orchard-gd", d);
    replace_identity(point, diversify_fallback())
}

/// `KA^Orchard`: the base point, multiplied by the private key.
pub fn ka_orchard(sk: &NonZeroPallasScalar, base: &PallasPoint) -> (res: PallasPoint)
    ensures
        res@ == curve_mul(sk@, base@),
        is_point_repr(res@),
        res@ == identity_repr() <==> base@ == identity_repr(),
        base@ != identity_repr() ==> is_only_scalar(sk@, base@, res@),
        is_only_point(sk@, base@, res@),
{
    base.multiply(sk.as_scalar())
}

} // verus!
