//! What holds of the keys as a whole.

use vstd::arithmetic::div_mod::{
    lemma_add_mod_noop, lemma_div_denominator, lemma_mod_self_0, lemma_small_mod,
};
use vstd::arithmetic::power2::{
    lemma2_to64, lemma_pow2_adds, lemma_pow2_pos, lemma_pow2_unfold, pow2,
};
use vstd::prelude::*;
use vstd::std_specs::cmp::PartialEqSpec;

use crate::bytes::{
    le_bits, le_bytes, le_value, lemma_le_bits_prefix, lemma_le_value_of_bytes,
    lemma_le_value_zero, pow256, zeros,
};
use crate::keys::{ff1_cipher, ff1_decipher, DiversifierIndex, SpendValidatingKey};
use crate::model::{
    all_refused, ask_of, ask_scalar, blocks, ff1_decrypt, ff1_encrypt, fvk_of, index_bytes,
    is_first_key, is_only_index, is_spending_key, nk_of, normalized_ask, rivk_of,
    transmission_key, IncomingComponents, ViewingComponents,
};
use crate::pallas::{
    base_modulus, curve_hash, curve_mul, identity_repr, is_affine_repr, is_only_point,
    is_only_scalar, is_point_repr, lemma_point_repr, neg_scalar, on_curve, point_repr,
    scalar_modulus, sign_bit, sign_weight, x_coordinate,
};
use crate::protocol::{
    blake2b_512, commit_ivk_bits, commit_ivk_value, concat, diversify_fallback_repr,
    diversify_hash_repr, prf, sinsemilla_commit, PRF_EXPAND_PERSONALIZATION,
};
use crate::redpallas::{
    follows_signing_key, is_verification_key_of, lemma_negative_key, multiple_repr,
    spend_auth_point, spend_auth_repr,
};

verus! {

/// A spend validating key is its `x` coordinate: the sign of a key is always the same, so
/// that the coordinate alone tells which key it is.
pub proof fn lemma_validating_key_is_its_x_coordinate(ak: Seq<u8>)
    requires
        is_affine_repr(ak),
        !sign_bit(ak),
    ensures
        ak == le_bytes(x_coordinate(ak), 32),
{
    let (x, y) = choose|x: nat, y: nat| #[trigger] on_curve(x, y) && ak == point_repr(x, y);
    lemma_point_repr(x, y);
    assert((y % 2) * sign_weight() == 0);
}

/// The spend authorizing key and the full viewing key of a spending key have the same spend
/// validating key.
pub proof fn lemma_validating_keys_agree(sk: Seq<u8>)
    ensures
        fvk_of(sk).ak == spend_auth_repr(ask_of(sk)),
{
}

/// Normalizing a nonzero scalar gives it back or its negative, and never zero.
pub proof fn lemma_normalized_ask(ask: nat)
    requires
        0 < ask < scalar_modulus(),
    ensures
        normalized_ask(ask) == ask || normalized_ask(ask) == scalar_modulus() - ask,
        0 < normalized_ask(ask) < scalar_modulus(),
{
}

/// A full viewing key and its incoming viewing key have the same addresses.
pub proof fn lemma_addresses_agree(fvk: ViewingComponents, d: Seq<u8>)
    ensures
        fvk.address(d) == fvk.incoming().address(d),
{
}

/// An index is the integer that it was made from, in 11 bytes, least significant byte first.
/// Every integer that fits has one.
pub proof fn lemma_index_value(j: nat)
    requires
        j < 0x10000000000000000000000nat,
    ensures
        le_value(index_bytes(j)) == j,
        index_bytes(j).len() == 11,
{
    reveal_with_fuel(pow256, 12);
    lemma_le_value_of_bytes(j, 11);
}

/// Every byte of index 0 is zero.
pub proof fn lemma_index_zero()
    ensures
        index_bytes(0) == zeros(11),
{
    lemma_index_value(0);
    lemma_le_value_zero(index_bytes(0));
}

/// The default address is the address at index 0, for the diversifier at index 0, and every
/// byte of that index is zero.
pub proof fn lemma_default_address(ivk: IncomingComponents)
    ensures
        ivk.address_at(index_bytes(0)) == ivk.address(ff1_encrypt(ivk.dk, index_bytes(0))),
        index_bytes(0) == zeros(11),
{
    reveal_with_fuel(pow256, 12);
    lemma_le_value_of_bytes(0, 11);
    lemma_le_value_zero(index_bytes(0));
}

/// Equal integers are equal indices, whatever their width, and distinct integers are
/// distinct indices.
pub proof fn lemma_indices_distinct(a: u64, b: u64)
    ensures
        index_bytes(a as nat) == index_bytes(b as nat) <==> a == b,
        index_bytes(a as nat).len() == 11,
{
    reveal_with_fuel(pow256, 12);
    lemma_le_value_of_bytes(a as nat, 11);
    lemma_le_value_of_bytes(b as nat, 11);
}

/// Two indices of one key have the same diversifier only if they are the same index. That an
/// index is the only one of its diversifier is what `at` and `get` say of their result.
pub proof fn lemma_diversifiers_distinct(dk: Seq<u8>, i: DiversifierIndex, j: DiversifierIndex)
    ensures
        is_only_index(dk, ff1_encrypt(dk, i@), i@) ==> (ff1_encrypt(dk, i@) == ff1_encrypt(dk, j@)
            <==> i == j),
{
    DiversifierIndex::lemma_bytes(i, j);
    DiversifierIndex::lemma_bytes(j, i);
}

/// Two addresses of one key at distinct indices are distinct, and so are their diversifiers.
/// That an index is the only one of its diversifier is what `address_at` and
/// `address_at_index` say of their result.
pub proof fn lemma_index_addresses_distinct(
    ivk: IncomingComponents,
    i: DiversifierIndex,
    j: DiversifierIndex,
)
    requires
        i != j,
    ensures
        is_only_index(ivk.dk, ivk.address_at(i@).0, i@) ==> ivk.address_at(i@).0
            != ivk.address_at(j@).0 && ivk.address_at(i@) != ivk.address_at(j@),
{
    lemma_diversifiers_distinct(ivk.dk, i, j);
}

/// Two addresses of one key at distinct integers are distinct, and so are their diversifiers.
pub proof fn lemma_addresses_distinct(ivk: IncomingComponents, a: u64, b: u64)
    requires
        a != b,
    ensures
        is_only_index(ivk.dk, ivk.address_at(index_bytes(a as nat)).0, index_bytes(a as nat))
            ==> ivk.address_at(index_bytes(a as nat)).0 != ivk.address_at(index_bytes(b as nat)).0
            && ivk.address_at(index_bytes(a as nat)) != ivk.address_at(index_bytes(b as nat)),
{
    let i = DiversifierIndex::of(a as nat);
    let j = DiversifierIndex::of(b as nat);
    DiversifierIndex::lemma_of(a as nat);
    DiversifierIndex::lemma_of(b as nat);
    lemma_indices_distinct(a, b);
    lemma_index_addresses_distinct(ivk, i, j);
}

/// The transmission keys of one diversifier are the same only for the same key agreement
/// private key. That the key is the only one is what `derive` says of its result, where the
/// diversifier is not hashed to the identity.
pub proof fn lemma_transmission_key_tells_ivk(ivk: nat, other: nat, d: Seq<u8>)
    requires
        other < scalar_modulus(),
    ensures
        is_only_scalar(ivk, diversify_hash_repr(d), transmission_key(ivk, d)) ==> (
        transmission_key(ivk, d) == transmission_key(other, d) <==> ivk == other),
{
}

/// The transmission keys of one key agreement private key are the same only for diversifiers
/// that are hashed to the same point. That the point is the only one, and that every
/// diversifier is hashed to a point, is what `derive` says.
pub proof fn lemma_transmission_key_tells_base(ivk: nat, d: Seq<u8>, e: Seq<u8>)
    ensures
        is_only_point(ivk, diversify_hash_repr(d), transmission_key(ivk, d)) && is_point_repr(
            diversify_hash_repr(e),
        ) ==> (transmission_key(ivk, d) == transmission_key(ivk, e) <==> diversify_hash_repr(d)
            == diversify_hash_repr(e)),
{
}

/// Draws that have a first spending key are not all refused, and have no other first one.
pub proof fn lemma_first_key(draws: Seq<Seq<u8>>, i: int, k: int)
    ensures
        is_first_key(draws, i) ==> !all_refused(draws),
        is_first_key(draws, i) && is_first_key(draws, k) ==> i == k,
{
    if is_first_key(draws, i) && is_first_key(draws, k) && i != k {
        if k < i {
            assert(draws.take(i)[k] == draws[k]);
        } else {
            assert(draws.take(k)[i] == draws[i]);
        }
    }
}

/// A randomizer of zero leaves a key unchanged. That a randomized key follows its signing
/// key is what `randomize` says of its result, here and below.
pub proof fn lemma_randomize_zero(s: nat, repr: Seq<u8>)
    requires
        s < scalar_modulus(),
    ensures
        follows_signing_key(multiple_repr(s), 0, repr) ==> repr == multiple_repr(s),
{
    lemma_small_mod(s, scalar_modulus());
}

/// To randomize a key twice is to randomize it once, with the sum of the randomizers.
pub proof fn lemma_randomize_twice(
    s: nat,
    a: nat,
    b: nat,
    first: Seq<u8>,
    second: Seq<u8>,
    once: Seq<u8>,
)
    requires
        s < scalar_modulus(),
    ensures
        follows_signing_key(multiple_repr(s), a, first) && follows_signing_key(first, b, second)
            && follows_signing_key(multiple_repr(s), (a + b) % scalar_modulus(), once)
            ==> second == once,
{
    let r = scalar_modulus();
    assert(((s + a) % r + b) % r == (s + (a + b) % r) % r) by {
        lemma_add_mod_noop((s + a) as int, b as int, r as int);
        lemma_add_mod_noop(s as int, (a + b) as int, r as int);
        vstd::arithmetic::div_mod::lemma_mod_twice((s + a) as int, r as int);
        vstd::arithmetic::div_mod::lemma_mod_twice((a + b) as int, r as int);
        lemma_add_mod_noop((s + a) as int % r as int, b as int, r as int);
        lemma_add_mod_noop(s as int, (a + b) as int % r as int, r as int);
    }
}

/// To randomize a key with the negative of a randomizer undoes that randomizer.
pub proof fn lemma_randomize_undo(s: nat, a: nat, first: Seq<u8>, second: Seq<u8>)
    requires
        s < scalar_modulus(),
        a < scalar_modulus(),
    ensures
        follows_signing_key(multiple_repr(s), a, first) && follows_signing_key(
            first,
            neg_scalar(a),
            second,
        ) ==> second == multiple_repr(s),
{
    let r = scalar_modulus();
    lemma_small_mod(s, r);
    lemma_mod_self_0(r as int);
    assert((a + neg_scalar(a)) % r == 0);
    lemma_randomize_twice(s, a, neg_scalar(a), first, second, multiple_repr(s));
    assert forall|t: nat|
        t < r && multiple_repr(s) == #[trigger] multiple_repr(t) implies multiple_repr(s)
        == multiple_repr((t + 0) % r) by {
        lemma_small_mod(t, r);
    }
}

/// Keys or inputs that differ are hashed from inputs that differ: no two uses of `PRF^expand`
/// run into one another.
pub proof fn lemma_prf_inputs_distinct(sk: Seq<u8>, t: Seq<u8>, other_sk: Seq<u8>, other_t: Seq<u8>)
    requires
        sk.len() == other_sk.len(),
    ensures
        sk + t == other_sk + other_t <==> sk == other_sk && t == other_t,
{
    if sk + t == other_sk + other_t {
        assert((sk + t).take(sk.len() as int) == sk);
        assert((other_sk + other_t).take(sk.len() as int) == other_sk);
        assert((sk + t).skip(sk.len() as int) == t);
        assert((other_sk + other_t).skip(sk.len() as int) == other_t);
    }
}

/// The bits of a number tell the number, where they are enough.
proof fn lemma_le_bits_injective(a: nat, b: nat, n: nat)
    requires
        a < pow2(n),
        b < pow2(n),
        le_bits(a, n) == le_bits(b, n),
    ensures
        a == b,
    decreases n,
{
    if n == 0 {
        lemma2_to64();
    } else {
        let m = (n - 1) as nat;
        reveal(le_bits);
        lemma_pow2_unfold(n);
        assert(le_bits(a, n).skip(1) == le_bits(a / 2, m));
        assert(le_bits(b, n).skip(1) == le_bits(b / 2, m));
        assert(le_bits(a, n)[0] == (a % 2 == 1));
        assert(le_bits(b, n)[0] == (b % 2 == 1));
        lemma_le_bits_injective(a / 2, b / 2, m);
    }
}

/// A base field element has no more than 255 bits.
proof fn lemma_base_modulus_bits()
    ensures
        base_modulus() < pow2(255),
{
    lemma2_to64();
    lemma_pow2_adds(64, 64);
    lemma_pow2_adds(128, 64);
    lemma_pow2_adds(192, 32);
    lemma_pow2_adds(224, 31);
}

/// Distinct pairs of `ak` and `nk` are committed to by distinct messages.
pub proof fn lemma_commit_ivk_messages_distinct(ak: nat, nk: nat, other_ak: nat, other_nk: nat)
    requires
        ak < base_modulus(),
        nk < base_modulus(),
        other_ak < base_modulus(),
        other_nk < base_modulus(),
    ensures
        commit_ivk_bits(ak, nk) == commit_ivk_bits(other_ak, other_nk) <==> ak == other_ak && nk
            == other_nk,
{
    if commit_ivk_bits(ak, nk) == commit_ivk_bits(other_ak, other_nk) {
        lemma_base_modulus_bits();
        lemma_le_bits_prefix(ak, 255);
        lemma_le_bits_prefix(other_ak, 255);
        assert(commit_ivk_bits(ak, nk).take(255) == le_bits(ak, 255));
        assert(commit_ivk_bits(other_ak, other_nk).take(255) == le_bits(other_ak, 255));
        assert(commit_ivk_bits(ak, nk).skip(255) == le_bits(nk, 255));
        assert(commit_ivk_bits(other_ak, other_nk).skip(255) == le_bits(other_nk, 255));
        lemma_le_bits_injective(ak, other_ak, 255);
        lemma_le_bits_injective(nk, other_nk, 255);
    }
}

/// A byte string is the sum of its bytes, each 256 times the one before: one byte is itself,
/// and what follows `n` bytes counts `256^n`-fold.
pub proof fn lemma_le_value_positional(a: Seq<u8>, b: Seq<u8>, byte: u8)
    ensures
        le_value(seq![byte]) == byte,
        le_value(a + b) == le_value(a) + pow2(8 * a.len()) * le_value(b),
    decreases a.len(),
{
    assert(seq![byte].skip(1) == Seq::<u8>::empty());
    assert(le_value(seq![byte].skip(1)) == 0);
    if a.len() == 0 {
        assert(a + b == b);
        lemma2_to64();
        assert(pow2(0) * le_value(b) == le_value(b)) by (nonlinear_arith)
            requires
                pow2(0) == 1,
        ;
    } else {
        let rest = a.skip(1);
        lemma_le_value_positional(rest, b, byte);
        assert((a + b).skip(1) == rest + b);
        lemma2_to64();
        lemma_pow2_adds(8, 8 * rest.len());
        let w = pow2(8 * rest.len());
        let v = le_value(b);
        assert(256 * (w * v) == (256 * w) * v) by (nonlinear_arith);
    }
}

/// The bits of a number are its binary digits, least significant first.
pub proof fn lemma_le_bits_digit(v: nat, n: nat, i: nat)
    requires
        i < n,
    ensures
        le_bits(v, n).len() == n,
        le_bits(v, n)[i as int] == ((v / pow2(i)) % 2 == 1),
    decreases n,
{
    reveal(le_bits);
    lemma_le_bits_prefix(v, n);
    lemma_pow2_pos(i);
    if i == 0 {
        lemma2_to64();
        assert(v / pow2(0) == v) by (nonlinear_arith)
            requires
                pow2(0) == 1,
        ;
    } else {
        let k = (i - 1) as nat;
        lemma_le_bits_digit(v / 2, (n - 1) as nat, k);
        lemma_pow2_unfold(i);
        lemma_pow2_pos(k);
        lemma_div_denominator(v as int, 2, pow2(k) as int);
        assert((v / 2) / pow2(k) == v / pow2(i));
        assert(le_bits(v, n)[i as int] == le_bits(v / 2, (n - 1) as nat)[k as int]);
    }
}

/// Pieces are joined one after the other, none of them changed.
pub proof fn lemma_concat(ts: Seq<&[u8]>, t: &[u8])
    ensures
        concat(Seq::<&[u8]>::empty()) == Seq::<u8>::empty(),
        concat(seq![t]) == t@,
        concat(ts.push(t)) == concat(ts) + t@,
{
    assert(ts.push(t).drop_last() == ts);
    assert(seq![t].drop_last() == Seq::<&[u8]>::empty());
    assert(concat(seq![t].drop_last()) == Seq::<u8>::empty());
}

/// `PRF^expand` is BLAKE2b-512 with the personalization "Zcash_ExpandSeed", of the key
/// followed by the input.
pub proof fn lemma_prf_expand(sk: Seq<u8>, t: Seq<u8>)
    ensures
        prf(sk, t) == blake2b_512(
            seq![
                0x5au8, 0x63u8, 0x61u8, 0x73u8, 0x68u8, 0x5fu8, 0x45u8, 0x78u8,
                0x70u8, 0x61u8, 0x6eu8, 0x64u8, 0x53u8, 0x65u8, 0x65u8, 0x64u8,
            ],
            sk + t,
        ),
{
    assert(PRF_EXPAND_PERSONALIZATION@ == seq![
        0x5au8, 0x63u8, 0x61u8, 0x73u8, 0x68u8, 0x5fu8, 0x45u8, 0x78u8,
        0x70u8, 0x61u8, 0x6eu8, 0x64u8, 0x53u8, 0x65u8, 0x65u8, 0x64u8,
    ]);
}

/// The spend authorizing key, up to its sign, the nullifier deriving key and the commitment
/// randomness are the hashes of the whole spending key, each under a tag of its own, reduced
/// to their fields.
pub proof fn lemma_derived_from_spending_key(sk: Seq<u8>)
    requires
        sk.len() == 32,
    ensures
        ask_scalar(sk) == le_value(
            blake2b_512(PRF_EXPAND_PERSONALIZATION@, sk + seq![0x06u8]),
        ) % scalar_modulus(),
        nk_of(sk) == le_value(
            blake2b_512(PRF_EXPAND_PERSONALIZATION@, sk + seq![0x07u8]),
        ) % base_modulus(),
        rivk_of(sk) == le_value(
            blake2b_512(PRF_EXPAND_PERSONALIZATION@, sk + seq![0x08u8]),
        ) % scalar_modulus(),
{
}

/// Of a scalar and its negative, the normalized one is the one whose verification key has an
/// even `y` coordinate. That the key of a scalar is on the curve, and what the key of its
/// negative is, is what `verification_key` says of its result.
pub proof fn lemma_normalized_ask_is_even(ask: nat)
    requires
        0 < ask < scalar_modulus(),
    ensures
        is_verification_key_of(ask, spend_auth_repr(ask)) ==> {
            let (x, y) = spend_auth_point(ask);
            &&& spend_auth_point(normalized_ask(ask)).0 == x
            &&& spend_auth_point(normalized_ask(ask)).1 % 2 == 0
            &&& y % 2 == 0 ==> normalized_ask(ask) == ask
            &&& y % 2 == 1 ==> normalized_ask(ask) == scalar_modulus() - ask
        },
{
    if is_verification_key_of(ask, spend_auth_repr(ask)) {
        lemma_negative_key(ask, spend_auth_repr(ask));
    }
}

/// A scalar and its negative add up to zero.
pub proof fn lemma_neg_scalar(s: nat)
    requires
        s < scalar_modulus(),
    ensures
        neg_scalar(s) < scalar_modulus(),
        (s + neg_scalar(s)) % scalar_modulus() == 0,
{
    lemma_mod_self_0(scalar_modulus() as int);
}

/// The full viewing key of a spending key holds the `x` coordinate of the verification key of
/// `ask`, whichever sign `ask` had, and the two other keys.
pub proof fn lemma_full_viewing_key(sk: Seq<u8>)
    requires
        sk.len() == 32,
    ensures
        ({
            let ask = le_value(
                blake2b_512(PRF_EXPAND_PERSONALIZATION@, sk + seq![0x06u8]),
            ) % scalar_modulus();
            ask != 0 && is_verification_key_of(ask, spend_auth_repr(ask)) ==> fvk_of(sk).ak
                == le_bytes(spend_auth_point(ask).0, 32)
        }),
        fvk_of(sk).nk == le_value(
            blake2b_512(PRF_EXPAND_PERSONALIZATION@, sk + seq![0x07u8]),
        ) % base_modulus(),
        fvk_of(sk).rivk == le_value(
            blake2b_512(PRF_EXPAND_PERSONALIZATION@, sk + seq![0x08u8]),
        ) % scalar_modulus(),
{
    lemma_derived_from_spending_key(sk);
    let ask = ask_scalar(sk);
    if ask != 0 && is_verification_key_of(ask, spend_auth_repr(ask)) {
        lemma_negative_key(ask, spend_auth_repr(ask));
        lemma_normalized_ask_is_even(ask);
        lemma_validating_key_is_its_x_coordinate(fvk_of(sk).ak);
    }
}

/// `Commit^ivk` is the Sinsemilla commitment to the 255 bits of `ak` and the 255 bits of
/// `nk`. It fails where the commitment fails or is zero, and nowhere else.
pub proof fn lemma_commit_ivk(ak: nat, nk: nat, rivk: nat, msg: Seq<bool>)
    requires
        msg.len() == 510,
        forall|i: nat| i < 255 ==> #[trigger] msg[i as int] == ((ak / pow2(i)) % 2 == 1),
        forall|i: nat|
            i < 255 ==> msg[255 + i as int] == ((nk / #[trigger] pow2(i)) % 2 == 1),
    ensures
        commit_ivk_value(ak, nk, rivk) is None <==> {
            ||| sinsemilla_commit("z.cash:Orchard-CommitIvk"@, msg, rivk) is None
            ||| sinsemilla_commit("z.cash:Orchard-CommitIvk"@, msg, rivk) == Some(0nat)
        },
        commit_ivk_value(ak, nk, rivk) is Some ==> commit_ivk_value(ak, nk, rivk)
            == sinsemilla_commit("z.cash:Orchard-CommitIvk"@, msg, rivk),
{
    lemma_le_bits_prefix(ak, 255);
    lemma_le_bits_prefix(nk, 255);
    assert forall|k: int| 0 <= k < 510 implies msg[k] == commit_ivk_bits(ak, nk)[k] by {
        if k < 255 {
            lemma_le_bits_digit(ak, 255, k as nat);
            assert(msg[(k as nat) as int] == ((ak / pow2(k as nat)) % 2 == 1));
        } else {
            let i = (k - 255) as nat;
            lemma_le_bits_digit(nk, 255, i);
            assert(msg[255 + i as int] == ((nk / pow2(i)) % 2 == 1));
        }
    }
    assert(msg == commit_ivk_bits(ak, nk));
}

/// The private key of a full viewing key is the commitment to the `x` coordinate of its spend
/// validating key and to its nullifier deriving key.
pub proof fn lemma_ivk(fvk: ViewingComponents, x: nat, y: nat)
    requires
        on_curve(x, y),
        fvk.ak == point_repr(x, y),
    ensures
        ({
            let commit = sinsemilla_commit(
                "z.cash:Orchard-CommitIvk"@,
                le_bits(x, 255) + le_bits(fvk.nk, 255),
                fvk.rivk,
            );
            &&& fvk.ivk() is Some <==> commit is Some && commit != Some(0nat)
            &&& fvk.ivk() is Some ==> fvk.ivk() == commit
        }),
{
    lemma_point_repr(x, y);
}

/// Bytes are a spending key if and only if their `ask` is not zero and they have an `ivk`:
/// nothing else is asked of them.
pub proof fn lemma_is_spending_key(sk: Seq<u8>)
    requires
        sk.len() == 32,
    ensures
        is_spending_key(sk) <==> ask_scalar(sk) != 0 && commit_ivk_value(
            x_coordinate(spend_auth_repr(ask_of(sk))),
            nk_of(sk),
            rivk_of(sk),
        ) is Some,
        ({
            let ask = le_value(
                blake2b_512(PRF_EXPAND_PERSONALIZATION@, sk + seq![0x06u8]),
            ) % scalar_modulus();
            let nk = le_value(
                blake2b_512(PRF_EXPAND_PERSONALIZATION@, sk + seq![0x07u8]),
            ) % base_modulus();
            let rivk = le_value(
                blake2b_512(PRF_EXPAND_PERSONALIZATION@, sk + seq![0x08u8]),
            ) % scalar_modulus();
            let commit = sinsemilla_commit(
                "z.cash:Orchard-CommitIvk"@,
                le_bits(spend_auth_point(ask).0, 255) + le_bits(nk, 255),
                rivk,
            );
            &&& ask == 0 ==> !is_spending_key(sk)
            &&& ask != 0 && is_verification_key_of(ask, spend_auth_repr(ask)) ==> (
            is_spending_key(sk) <==> commit is Some && commit != Some(0nat))
        }),
{
    lemma_derived_from_spending_key(sk);
    let ask = ask_scalar(sk);
    if ask != 0 && is_verification_key_of(ask, spend_auth_repr(ask)) {
        lemma_negative_key(ask, spend_auth_repr(ask));
        lemma_normalized_ask_is_even(ask);
        lemma_le_bits_prefix(spend_auth_point(ask).0, 255);
    }
}

/// The diversifier key and the outgoing viewing key are the first and the second half of the
/// hash of `ak` and `nk` under `rivk`, with a tag of its own.
pub proof fn lemma_dk_ovk(fvk: ViewingComponents)
    ensures
        ({
            let hash = blake2b_512(
                PRF_EXPAND_PERSONALIZATION@,
                le_bytes(fvk.rivk, 32) + (seq![0x82u8] + fvk.ak + le_bytes(fvk.nk, 32)),
            );
            hash.len() == 64 ==> fvk.dk() == hash.subrange(0, 32) && fvk.ovk() == hash.subrange(
                32,
                64,
            ) && fvk.dk() + fvk.ovk() == hash
        }),
{
    let hash = fvk.dk_ovk();
    if hash.len() == 64 {
        assert(hash.take(32) == hash.subrange(0, 32));
        assert(hash.skip(32) == hash.subrange(32, 64));
        assert(hash.subrange(0, 32) + hash.subrange(32, 64) == hash);
    }
}

/// The incoming viewing key of a full viewing key is its diversifier key and its private key.
pub proof fn lemma_incoming(fvk: ViewingComponents)
    ensures
        fvk.incoming().dk == fvk.dk(),
        fvk.ivk() is Some ==> fvk.ivk() == Some(fvk.incoming().ivk),
{
}

/// A diversifier is FF1 over the bits of the index bytes, with no tweak.
pub proof fn lemma_diversifier(dk: Seq<u8>, j: Seq<u8>, d: Seq<u8>)
    ensures
        ff1_encrypt(dk, j) == ff1_cipher(dk, 2, Seq::empty(), j),
        ff1_decrypt(dk, d) == ff1_decipher(dk, 2, Seq::empty(), d),
{
}

/// Where an index is the only one of its diversifier, no other index gives that diversifier.
pub proof fn lemma_only_index(dk: Seq<u8>, d: Seq<u8>, j: Seq<u8>, k: Seq<u8>)
    ensures
        is_only_index(dk, d, j) && k.len() == 11 && ff1_cipher(dk, 2, Seq::empty(), k) == d
            ==> k == j,
{
    assert(ff1_encrypt(dk, k) == ff1_cipher(dk, 2, Seq::empty(), k));
}

/// The diversifier itself is hashed to the curve, and only where that gives the identity the
/// empty string is hashed in its place.
pub proof fn lemma_diversify_hash(d: Seq<u8>)
    ensures
        curve_hash("z.cash:Orchard-gd"@, d) != identity_repr() ==> diversify_hash_repr(d)
            == curve_hash("z.cash:Orchard-gd"@, d),
        curve_hash("z.cash:Orchard-gd"@, d) == identity_repr() ==> diversify_hash_repr(d)
            == curve_hash("z.cash:Orchard-gd"@, Seq::empty()),
        diversify_fallback_repr() == curve_hash("z.cash:Orchard-gd"@, Seq::empty()),
{
}

/// An address holds the diversifier that it is for, and the hash of that diversifier to the
/// curve, multiplied by the private key.
pub proof fn lemma_address(fvk: ViewingComponents, ivk: IncomingComponents, d: Seq<u8>)
    ensures
        curve_hash("z.cash:Orchard-gd"@, d) != identity_repr() ==> {
            &&& transmission_key(ivk.ivk, d) == curve_mul(
                ivk.ivk,
                curve_hash("z.cash:Orchard-gd"@, d),
            )
            &&& ivk.address(d) == (d, curve_mul(ivk.ivk, curve_hash("z.cash:Orchard-gd"@, d)))
            &&& fvk.ivk() is Some ==> fvk.address(d) == (
                d,
                curve_mul(fvk.ivk()->0, curve_hash("z.cash:Orchard-gd"@, d)),
            )
        },
        curve_hash("z.cash:Orchard-gd"@, d) == identity_repr() ==> ivk.address(d) == (
            d,
            curve_mul(ivk.ivk, curve_hash("z.cash:Orchard-gd"@, Seq::empty())),
        ),
        ivk.address(d).0 == d,
        fvk.address(d).0 == d,
{
}

/// The address at an index is the address for the diversifier at that index.
pub proof fn lemma_address_at(ivk: IncomingComponents, j: Seq<u8>)
    ensures
        ivk.address_at(j) == ivk.address(ff1_cipher(ivk.dk, 2, Seq::empty(), j)),
        ivk.address_at(j).0 == ff1_cipher(ivk.dk, 2, Seq::empty(), j),
{
}

/// Two spend validating keys compare equal if and only if all bytes of their encodings are.
pub proof fn lemma_validating_keys_equal(a: SpendValidatingKey, b: SpendValidatingKey)
    ensures
        a.eq_spec(&b) <==> a@ == b@,
{
}

/// Draws are all refused if and only if none of them is a spending key, and the first key of
/// given draws is a key with none before it.
pub proof fn lemma_draws(draws: Seq<[u8; 32]>, i: int)
    ensures
        all_refused(blocks(draws)) <==> forall|k: int|
            0 <= k < draws.len() ==> !is_spending_key(#[trigger] draws[k]@),
        is_first_key(blocks(draws), i) <==> {
            &&& 0 <= i < draws.len()
            &&& is_spending_key(draws[i]@)
            &&& forall|k: int| 0 <= k < i ==> !is_spending_key(#[trigger] draws[k]@)
        },
{
    let all = blocks(draws);
    assert forall|k: int| 0 <= k < draws.len() implies #[trigger] draws[k]@ == all[k]
        && all[k].len() == 32 by {}
    if all_refused(all) {
        assert forall|k: int| 0 <= k < draws.len() implies !is_spending_key(
            #[trigger] draws[k]@,
        ) by {
            assert(all[k].len() == 32 && !is_spending_key(all[k]));
        }
    }
    if 0 <= i < draws.len() {
        assert forall|k: int| 0 <= k < i implies all.take(i)[k] == #[trigger] draws[k]@ by {}
        if is_first_key(all, i) {
            assert forall|k: int| 0 <= k < i implies !is_spending_key(#[trigger] draws[k]@) by {
                assert(all.take(i)[k].len() == 32 && !is_spending_key(all.take(i)[k]));
            }
        }
    }
}

} // verus!
