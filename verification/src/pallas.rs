//! The Pallas curve: its two fields, its points, and how they are encoded.
//!
//! A field element is held as its canonical encoding of 32 little-endian bytes, a point
//! as its compressed encoding of 32 bytes. The arithmetic itself is that of the
//! `pasta_curves` crate.

use group::ff::{Field, FromUniformBytes, PrimeField};
use group::{Curve, GroupEncoding};
use pasta_curves::arithmetic::{CurveAffine, CurveExt};
use vstd::prelude::*;
use vstd::utf8::encode_utf8;

use crate::bytes::{
    le_bytes, le_value, lemma_le_bytes_of_value, lemma_le_value_bound, lemma_le_value_last,
    lemma_le_value_of_bytes, lemma_le_value_zero, lemma_pow256_31, pow256, zeros,
};

verus! {

/// The order of the base field of Pallas, `p`.
pub open spec fn base_modulus() -> nat {
    0x40000000000000000000000000000000224698fc094cf91b992d30ed00000001nat
}

/// The order of the scalar field of Pallas, which is the order of the curve, `r`.
pub open spec fn scalar_modulus() -> nat {
    0x40000000000000000000000000000000224698fc0994a8dd8c46eb2100000001nat
}

/// 2^255, the weight of the highest bit of a compressed point.
pub open spec fn sign_weight() -> nat {
    0x8000000000000000000000000000000000000000000000000000000000000000nat
}

/// `pallas::Base::from_repr`: decodes a field element, and refuses an integer that is not
/// below the modulus.
#[verifier::external_body]
fn base_from_repr(repr: &[u8; 32]) -> (res: Option<[u8; 32]>)
    ensures
        res is Some <==> le_value(repr@) < base_modulus(),
        res is Some ==> res->0@ == repr@,
{
    let base = Option::from(pasta_curves::pallas::Base::from_repr(*repr));
    base.map(|x: pasta_curves::pallas::Base| x.to_repr())
}

/// An element of the base field of Pallas.
#[derive(Clone, Copy, Debug)]
pub struct Base {
    repr: [u8; 32],
}

impl View for Base {
    type V = nat;

    closed spec fn view(&self) -> nat {
        le_value(self.repr@)
    }
}

impl Base {
    #[verifier::type_invariant]
    spec fn canonical(self) -> bool {
        le_value(self.repr@) < base_modulus()
    }

    /// Decodes a field element from its canonical encoding.
    pub fn from_bytes(repr: [u8; 32]) -> (res: Option<Base>)
        ensures
            res is Some <==> le_value(repr@) < base_modulus(),
            res is Some ==> res->0@ == le_value(repr@),
    {
        match base_from_repr(&repr) {
            Some(repr) => Some(Base { repr }),
            None => None,
        }
    }

    /// The canonical encoding of this field element.
    pub fn to_bytes(&self) -> (res: [u8; 32])
        ensures
            res@ == le_bytes(self@, 32),
            le_value(res@) == self@,
            self@ < base_modulus(),
    {
        proof {
            use_type_invariant(self);
            lemma_le_bytes_of_value(self.repr@);
        }
        self.repr
    }
}

/// `pallas::Base::from_uniform_bytes`: reads 64 bytes as a little-endian integer and
/// reduces it by the modulus.
#[verifier::external_body]
fn base_from_uniform_bytes(wide: &[u8; 64]) -> (res: [u8; 32])
    ensures
        le_value(res@) == le_value(wide@) % base_modulus(),
{
    pasta_curves::pallas::Base::from_uniform_bytes(wide).to_repr()
}

/// `pallas::Base::is_zero`: whether a field element, given by its canonical encoding, is
/// zero.
#[verifier::external_body]
fn base_is_zero(repr: &[u8; 32]) -> (res: bool)
    requires
        le_value(repr@) < base_modulus(),
    ensures
        res == (le_value(repr@) == 0),
{
    pasta_curves::pallas::Base::from_repr(*repr).unwrap().is_zero().into()
}

impl Base {
    /// The field element that a 64-byte little-endian integer is congruent to.
    pub fn from_bytes_wide(wide: &[u8; 64]) -> (res: Base)
        ensures
            res@ == le_value(wide@) % base_modulus(),
    {
        Base { repr: base_from_uniform_bytes(wide) }
    }

    /// Whether this is the zero of the field.
    pub fn is_zero(&self) -> (res: bool)
        ensures
            res == (self@ == 0),
    {
        proof {
            use_type_invariant(self);
        }
        base_is_zero(&self.repr)
    }
}

/// `pallas::Scalar::from_repr`: decodes a field element, and refuses an integer that is not
/// below the modulus.
#[verifier::external_body]
fn scalar_from_repr(repr: &[u8; 32]) -> (res: Option<[u8; 32]>)
    ensures
        res is Some <==> le_value(repr@) < scalar_modulus(),
        res is Some ==> res->0@ == repr@,
{
    let scalar = Option::from(pasta_curves::pallas::Scalar::from_repr(*repr));
    scalar.map(|x: pasta_curves::pallas::Scalar| x.to_repr())
}

/// `pallas::Scalar::from_uniform_bytes`: reads 64 bytes as a little-endian integer and
/// reduces it by the modulus.
#[verifier::external_body]
fn scalar_from_uniform_bytes(wide: &[u8; 64]) -> (res: [u8; 32])
    ensures
        le_value(res@) == le_value(wide@) % scalar_modulus(),
{
    pasta_curves::pallas::Scalar::from_uniform_bytes(wide).to_repr()
}

/// `pallas::Scalar::is_zero`: whether a field element, given by its canonical encoding, is
/// zero.
#[verifier::external_body]
fn scalar_is_zero(repr: &[u8; 32]) -> (res: bool)
    requires
        le_value(repr@) < scalar_modulus(),
    ensures
        res == (le_value(repr@) == 0),
{
    pasta_curves::pallas::Scalar::from_repr(*repr).unwrap().is_zero().into()
}

/// `Neg` of `pallas::Scalar`: the modulus less the element, and zero for zero.
#[verifier::external_body]
fn scalar_neg(repr: &[u8; 32]) -> (res: [u8; 32])
    requires
        le_value(repr@) < scalar_modulus(),
    ensures
        le_value(res@) == neg_scalar(le_value(repr@)),
{
    (-pasta_curves::pallas::Scalar::from_repr(*repr).unwrap()).to_repr()
}

/// The negative of `s` in the scalar field.
pub open spec fn neg_scalar(s: nat) -> nat {
    if s == 0 {
        0
    } else {
        (scalar_modulus() - s) as nat
    }
}

/// An element of the scalar field of Pallas.
#[derive(Clone, Copy, Debug)]
pub struct Scalar {
    repr: [u8; 32],
}

impl View for Scalar {
    type V = nat;

    closed spec fn view(&self) -> nat {
        le_value(self.repr@)
    }
}

impl Scalar {
    #[verifier::type_invariant]
    spec fn canonical(self) -> bool {
        le_value(self.repr@) < scalar_modulus()
    }

    /// Decodes a field element from its canonical encoding.
    pub fn from_bytes(repr: [u8; 32]) -> (res: Option<Scalar>)
        ensures
            res is Some <==> le_value(repr@) < scalar_modulus(),
            res is Some ==> res->0@ == le_value(repr@),
    {
        match scalar_from_repr(&repr) {
            Some(repr) => Some(Scalar { repr }),
            None => None,
        }
    }

    /// The canonical encoding of this field element.
    pub fn to_bytes(&self) -> (res: [u8; 32])
        ensures
            res@ == le_bytes(self@, 32),
            le_value(res@) == self@,
            self@ < scalar_modulus(),
    {
        proof {
            use_type_invariant(self);
            lemma_le_bytes_of_value(self.repr@);
        }
        self.repr
    }

    /// The field element that a 64-byte little-endian integer is congruent to.
    pub fn from_bytes_wide(wide: &[u8; 64]) -> (res: Scalar)
        ensures
            res@ == le_value(wide@) % scalar_modulus(),
    {
        Scalar { repr: scalar_from_uniform_bytes(wide) }
    }

    /// Whether this is the zero of the field.
    pub fn is_zero(&self) -> (res: bool)
        ensures
            res == (self@ == 0),
    {
        proof {
            use_type_invariant(self);
        }
        scalar_is_zero(&self.repr)
    }

    /// The negative of this field element.
    pub fn negate(&self) -> (res: Scalar)
        ensures
            res@ == neg_scalar(self@),
    {
        proof {
            use_type_invariant(self);
        }
        Scalar { repr: scalar_neg(&self.repr) }
    }
}

/// Whether `(x, y)` are the affine coordinates of a point of Pallas other than the
/// identity: a solution of `y^2 = x^3 + 5`. Neither coordinate of a point is ever zero,
/// since 5 is not a square in the base field and the curve has no point of order 2.
pub open spec fn on_curve(x: nat, y: nat) -> bool {
    &&& 0 < x < base_modulus()
    &&& 0 < y < base_modulus()
    &&& (y * y) % base_modulus() == (x * x * x + 5) % base_modulus()
}

/// The compressed encoding of the point `(x, y)`: the 255 bits of `x`, and the parity of
/// `y` on top.
pub open spec fn point_repr(x: nat, y: nat) -> Seq<u8> {
    le_bytes(x + (y % 2) * sign_weight(), 32)
}

/// The compressed encoding of the identity.
pub open spec fn identity_repr() -> Seq<u8> {
    zeros(32)
}

/// Whether `repr` encodes a point of Pallas other than the identity.
pub open spec fn is_affine_repr(repr: Seq<u8>) -> bool {
    exists|x: nat, y: nat| #[trigger] on_curve(x, y) && repr == point_repr(x, y)
}

/// Whether `repr` encodes a point of Pallas.
pub open spec fn is_point_repr(repr: Seq<u8>) -> bool {
    repr == identity_repr() || is_affine_repr(repr)
}

/// The highest bit of a compressed point: the parity of its `y` coordinate.
pub open spec fn sign_bit(repr: Seq<u8>) -> bool {
    repr[31] >= 128
}

/// The low 255 bits of a compressed point: its `x` coordinate, or zero for the identity.
pub open spec fn x_coordinate(repr: Seq<u8>) -> nat {
    le_value(repr) % sign_weight()
}

/// The encoding of a point is 32 bytes long, shows the parity of `y` in its highest bit
/// and `x` in the bits below, and is not that of the identity.
pub proof fn lemma_point_repr(x: nat, y: nat)
    requires
        on_curve(x, y),
    ensures
        point_repr(x, y).len() == 32,
        sign_bit(point_repr(x, y)) == (y % 2 == 1),
        x_coordinate(point_repr(x, y)) == x,
        point_repr(x, y) != identity_repr(),
{
    let v = x + (y % 2) * sign_weight();
    let s = point_repr(x, y);
    lemma_pow256_31();
    assert(v < pow256(32)) by {
        assert(y % 2 == 0 || y % 2 == 1);
    }
    lemma_le_value_of_bytes(v, 32);
    assert(le_value(s) == v);
    lemma_le_value_last(s);
    lemma_le_value_bound(s.drop_last());
    let low = le_value(s.drop_last());
    let top = s.last() as nat;
    let w = pow256(31);
    assert(v == low + top * w);
    if top >= 128 {
        assert(top * w >= 128 * w) by (nonlinear_arith)
            requires
                top >= 128,
        ;
    } else {
        assert(top * w <= 127 * w) by (nonlinear_arith)
            requires
                top <= 127,
        ;
    }
    assert(y % 2 == 0 || y % 2 == 1);
    lemma_le_value_zero(s);
}

/// A compressed point and its negative differ in the highest bit alone.
pub proof fn lemma_point_repr_neg(x: nat, y: nat)
    requires
        on_curve(x, y),
        on_curve(x, (base_modulus() - y) as nat),
    ensures
        sign_bit(point_repr(x, (base_modulus() - y) as nat)) != sign_bit(point_repr(x, y)),
        x_coordinate(point_repr(x, (base_modulus() - y) as nat)) == x_coordinate(point_repr(x, y)),
{
    lemma_point_repr(x, y);
    lemma_point_repr(x, (base_modulus() - y) as nat);
}

/// The negative of a point is a point: `(x, -y)` solves the curve equation too.
pub proof fn lemma_on_curve_neg(x: nat, y: nat)
    requires
        on_curve(x, y),
    ensures
        on_curve(x, (base_modulus() - y) as nat),
{
    let p = base_modulus() as int;
    let b = y as int;
    assert((p - b) * (p - b) == p * (p - 2 * b) + b * b) by (nonlinear_arith);
    vstd::arithmetic::div_mod::lemma_mod_multiples_vanish(p - 2 * b, b * b, p);
}

/// What `hash_to_curve` of `pallas::Point` makes of a domain and a message, as a
/// compressed point.
pub uninterp spec fn curve_hash(domain: Seq<char>, msg: Seq<u8>) -> Seq<u8>;

/// `pallas::Point::hash_to_curve`: hashes a message to a point, in a domain of at most 227
/// bytes.
#[verifier::external_body]
fn point_hash(domain: &str, msg: &[u8]) -> (res: [u8; 32])
    requires
        encode_utf8(domain@).len() <= 227,
    ensures
        res@ == curve_hash(domain@, msg@),
        is_point_repr(res@),
{
    pasta_curves::pallas::Point::hash_to_curve(domain)(msg).to_bytes()
}

/// What the multiplication of a `pallas::Point` by a scalar gives, as a compressed point.
pub uninterp spec fn curve_mul(s: nat, point: Seq<u8>) -> Seq<u8>;

/// Whether `s` is the only scalar that `point` is multiplied to `res` by.
pub open spec fn is_only_scalar(s: nat, point: Seq<u8>, res: Seq<u8>) -> bool {
    forall|t: nat| t < scalar_modulus() && res == #[trigger] curve_mul(t, point) ==> t == s
}

/// Whether `point` is the only point that `s` multiplies to `res`.
pub open spec fn is_only_point(s: nat, point: Seq<u8>, res: Seq<u8>) -> bool {
    forall|q: Seq<u8>| is_point_repr(q) && res == #[trigger] curve_mul(s, q) ==> q == point
}

/// `Mul` of `pallas::Point` by `pallas::Scalar`. The curve has prime order, so a multiple of
/// a point is the identity only if the scalar is zero or the point is the identity, distinct
/// scalars give distinct multiples of a point other than the identity, and a nonzero scalar
/// gives distinct multiples of distinct points.
#[verifier::external_body]
fn point_mul(s: &[u8; 32], point: &[u8; 32]) -> (res: [u8; 32])
    requires
        le_value(s@) < scalar_modulus(),
        is_point_repr(point@),
    ensures
        res@ == curve_mul(le_value(s@), point@),
        is_point_repr(res@),
        res@ == identity_repr() <==> le_value(s@) == 0 || point@ == identity_repr(),
        point@ != identity_repr() ==> is_only_scalar(le_value(s@), point@, res@),
        le_value(s@) != 0 ==> is_only_point(le_value(s@), point@, res@),
{
    let s = pasta_curves::pallas::Scalar::from_repr(*s).unwrap();
    (pasta_curves::pallas::Point::from_bytes(point).unwrap() * s).to_bytes()
}

/// `pallas::Affine::coordinates`: the `x` coordinate of a point that is given compressed.
/// The identity has no coordinates.
#[verifier::external_body]
fn point_x(point: &[u8; 32]) -> (res: Option<[u8; 32]>)
    requires
        is_point_repr(point@),
    ensures
        res is None <==> point@ == identity_repr(),
        res is Some ==> le_value(res->0@) == x_coordinate(point@),
{
    let point = pasta_curves::pallas::Point::from_bytes(point).unwrap().to_affine();
    let x = Option::from(point.coordinates().map(|c| *c.x()));
    x.map(|x: pasta_curves::pallas::Base| x.to_repr())
}

/// `pallas::Point::from_bytes`: decodes a compressed point, and refuses bytes that are not
/// the encoding of one.
#[verifier::external_body]
fn point_from_bytes(repr: &[u8; 32]) -> (res: Option<[u8; 32]>)
    ensures
        res is Some <==> is_point_repr(repr@),
        res is Some ==> res->0@ == repr@,
{
    let point = Option::from(pasta_curves::pallas::Point::from_bytes(repr));
    point.map(|p: pasta_curves::pallas::Point| p.to_bytes())
}

/// The `x` coordinate that a compressed point shows is an element of the base field.
pub proof fn lemma_x_coordinate(repr: Seq<u8>)
    requires
        is_point_repr(repr),
    ensures
        x_coordinate(repr) < base_modulus(),
        x_coordinate(repr) == 0 <==> repr == identity_repr(),
{
    if repr == identity_repr() {
        lemma_le_value_zero(repr);
    } else {
        let (x, y) = choose|x: nat, y: nat| #[trigger] on_curve(x, y) && repr == point_repr(x, y);
        lemma_point_repr(x, y);
    }
}

/// A point of Pallas.
#[derive(Clone, Copy, Debug)]
pub struct PallasPoint {
    repr: [u8; 32],
}

impl View for PallasPoint {
    type V = Seq<u8>;

    closed spec fn view(&self) -> Seq<u8> {
        self.repr@
    }
}

impl PallasPoint {
    #[verifier::type_invariant]
    spec fn valid(self) -> bool {
        is_point_repr(self.repr@)
    }

    /// Decodes a point from its compressed encoding.
    pub fn from_bytes(repr: [u8; 32]) -> (res: Option<PallasPoint>)
        ensures
            res is Some <==> is_point_repr(repr@),
            res is Some ==> res->0@ == repr@,
    {
        match point_from_bytes(&repr) {
            Some(repr) => Some(PallasPoint { repr }),
            None => None,
        }
    }

    /// Hashes a message to a point, in the given domain.
    pub fn hash_to_curve(domain: &str, msg: &[u8]) -> (res: PallasPoint)
        requires
            encode_utf8(domain@).len() <= 227,
        ensures
            res@ == curve_hash(domain@, msg@),
            is_point_repr(res@),
    {
        PallasPoint { repr: point_hash(domain, msg) }
    }

    /// This point, multiplied by the given scalar.
    pub fn multiply(&self, s: &Scalar) -> (res: PallasPoint)
        ensures
            res@ == curve_mul(s@, self@),
            is_point_repr(res@),
            res@ == identity_repr() <==> s@ == 0 || self@ == identity_repr(),
            self@ != identity_repr() ==> is_only_scalar(s@, self@, res@),
            s@ != 0 ==> is_only_point(s@, self@, res@),
    {
        proof {
            use_type_invariant(self);
            use_type_invariant(s);
        }
        PallasPoint { repr: point_mul(&s.repr, &self.repr) }
    }

    /// Whether this is the identity.
    pub fn is_identity(&self) -> (res: bool)
        ensures
            res == (self@ == identity_repr()),
    {
        proof {
            use_type_invariant(self);
            lemma_x_coordinate(self.repr@);
        }
        self.extract_p().is_zero()
    }

    /// The coordinate extractor: the `x` coordinate of this point, and zero for the
    /// identity.
    pub fn extract_p(&self) -> (res: Base)
        ensures
            res@ == x_coordinate(self@),
    {
        proof {
            use_type_invariant(self);
            lemma_x_coordinate(self.repr@);
        }
        match point_x(&self.repr) {
            Some(repr) => Base { repr },
            None => {
                let repr: [u8; 32] = [0; 32];
                proof {
                    assert(repr@ == zeros(32));
                    lemma_le_value_zero(repr@);
                }
                Base { repr }
            },
        }
    }

    /// The compressed encoding of this point.
    pub fn to_bytes(&self) -> (res: [u8; 32])
        ensures
            res@ == self@,
            is_point_repr(self@),
    {
        proof {
            use_type_invariant(self);
        }
        self.repr
    }
}

/// An element of the base field of Pallas that is not zero.
#[derive(Clone, Copy, Debug)]
pub struct NonZeroPallasBase {
    base: Base,
}

impl View for NonZeroPallasBase {
    type V = nat;

    closed spec fn view(&self) -> nat {
        self.base@
    }
}

impl NonZeroPallasBase {
    #[verifier::type_invariant]
    spec fn nonzero(self) -> bool {
        self.base@ != 0
    }

    /// The given field element, unless it is zero.
    pub fn from_base(base: Base) -> (res: Option<NonZeroPallasBase>)
        ensures
            res is Some <==> base@ != 0,
            res is Some ==> res->0@ == base@,
    {
        if base.is_zero() {
            None
        } else {
            Some(NonZeroPallasBase { base })
        }
    }

    /// The canonical encoding of this field element.
    pub fn to_bytes(&self) -> (res: [u8; 32])
        ensures
            res@ == le_bytes(self@, 32),
            le_value(res@) == self@,
            0 < self@ < base_modulus(),
    {
        proof {
            use_type_invariant(self);
        }
        self.base.to_bytes()
    }
}

/// An element of the scalar field of Pallas that is not zero.
#[derive(Clone, Copy, Debug)]
pub struct NonZeroPallasScalar {
    scalar: Scalar,
}

impl View for NonZeroPallasScalar {
    type V = nat;

    closed spec fn view(&self) -> nat {
        self.scalar@
    }
}

impl NonZeroPallasScalar {
    #[verifier::type_invariant]
    spec fn nonzero(self) -> bool {
        self.scalar@ != 0
    }

    /// The scalar that is the same integer as the given base field element. It exists
    /// because the base field is the smaller of the two.
    pub fn from_base(base: NonZeroPallasBase) -> (res: NonZeroPallasScalar)
        ensures
            res@ == base@,
            0 < res@ < base_modulus(),
    {
        let repr = base.to_bytes();
        NonZeroPallasScalar { scalar: Scalar::from_bytes(repr).unwrap() }
    }

    /// The given scalar, unless it is zero.
    pub fn from_scalar(scalar: Scalar) -> (res: Option<NonZeroPallasScalar>)
        ensures
            res is Some <==> scalar@ != 0,
            res is Some ==> res->0@ == scalar@,
    {
        if scalar.is_zero() {
            None
        } else {
            Some(NonZeroPallasScalar { scalar })
        }
    }

    /// The negative of this scalar.
    pub fn negate(&self) -> (res: NonZeroPallasScalar)
        ensures
            res@ == neg_scalar(self@),
            0 < res@ < scalar_modulus(),
            res@ + self@ == scalar_modulus(),
    {
        proof {
            use_type_invariant(self);
            use_type_invariant(&self.scalar);
        }
        NonZeroPallasScalar { scalar: self.scalar.negate() }
    }

    /// The scalar itself.
    pub fn as_scalar(&self) -> (res: &Scalar)
        ensures
            res@ == self@,
            0 < self@,
    {
        proof {
            use_type_invariant(self);
        }
        &self.scalar
    }

    /// The canonical encoding of this scalar.
    pub fn to_bytes(&self) -> (res: [u8; 32])
        ensures
            res@ == le_bytes(self@, 32),
            le_value(res@) == self@,
            0 < self@ < scalar_modulus(),
    {
        proof {
            use_type_invariant(self);
        }
        self.scalar.to_bytes()
    }
}

} // verus!
