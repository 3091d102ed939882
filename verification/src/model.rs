//! What every key is, as a function of the spending key.
//!
//! A scalar or a base field element stands here as the integer that it is, a point and a
//! byte string as its bytes.

use vstd::prelude::*;

use crate::bytes::{le_bytes, le_value};
use crate::keys::{ff1_cipher, ff1_decipher};
use crate::pallas::{base_modulus, curve_mul, neg_scalar, scalar_modulus, sign_bit, x_coordinate};
use crate::protocol::{commit_ivk_value, diversify_hash_repr, prf};
use crate::redpallas::spend_auth_repr;

verus! {

/// The scalar that the spend authorizing key is made of, up to its sign.
pub open spec fn ask_scalar(sk: Seq<u8>) -> nat {
    le_value(prf(sk, seq![0x06u8])) % scalar_modulus()
}

/// The one of `ask` and `-ask` whose verification key has its highest bit clear.
pub open spec fn normalized_ask(ask: nat) -> nat {
    if sign_bit(spend_auth_repr(ask)) {
        neg_scalar(ask)
    } else {
        ask
    }
}

/// The spend authorizing key of a spending key.
pub open spec fn ask_of(sk: Seq<u8>) -> nat {
    normalized_ask(ask_scalar(sk))
}

/// The nullifier deriving key of a spending key.
pub open spec fn nk_of(sk: Seq<u8>) -> nat {
    le_value(prf(sk, seq![0x07u8])) % base_modulus()
}

/// The commitment randomness of a spending key.
pub open spec fn rivk_of(sk: Seq<u8>) -> nat {
    le_value(prf(sk, seq![0x08u8])) % scalar_modulus()
}

/// What a full viewing key consists of.
pub struct ViewingComponents {
    /// The encoding of the spend validating key.
    pub ak: Seq<u8>,
    /// The nullifier deriving key.
    pub nk: nat,
    /// The commitment randomness.
    pub rivk: nat,
}

impl ViewingComponents {
    /// The key agreement private key, where there is one.
    pub open spec fn ivk(self) -> Option<nat> {
        commit_ivk_value(x_coordinate(self.ak), self.nk, self.rivk)
    }

    /// The bytes that the diversifier key and the outgoing viewing key are cut from.
    pub open spec fn dk_ovk(self) -> Seq<u8> {
        prf(le_bytes(self.rivk, 32), seq![0x82u8] + self.ak + le_bytes(self.nk, 32))
    }

    /// The diversifier key.
    pub open spec fn dk(self) -> Seq<u8> {
        self.dk_ovk().take(32)
    }

    /// The outgoing viewing key.
    pub open spec fn ovk(self) -> Seq<u8> {
        self.dk_ovk().skip(32)
    }

    /// The incoming viewing key.
    pub open spec fn incoming(self) -> IncomingComponents {
        IncomingComponents { dk: self.dk(), ivk: self.ivk()->0 }
    }

    /// The address for the diversifier `d`.
    pub open spec fn address(self, d: Seq<u8>) -> (Seq<u8>, Seq<u8>) {
        (d, transmission_key(self.ivk()->0, d))
    }
}

/// What an incoming viewing key consists of.
pub struct IncomingComponents {
    /// The diversifier key.
    pub dk: Seq<u8>,
    /// The key agreement private key.
    pub ivk: nat,
}

impl IncomingComponents {
    /// The address for the diversifier `d`.
    pub open spec fn address(self, d: Seq<u8>) -> (Seq<u8>, Seq<u8>) {
        (d, transmission_key(self.ivk, d))
    }

    /// The address at the index with the bytes `j`.
    pub open spec fn address_at(self, j: Seq<u8>) -> (Seq<u8>, Seq<u8>) {
        self.address(ff1_encrypt(self.dk, j))
    }
}

/// The encoding of the diversified transmission key: the hash of the diversifier to the
/// curve, multiplied by the key agreement private key.
pub open spec fn transmission_key(ivk: nat, d: Seq<u8>) -> Seq<u8> {
    curve_mul(ivk, diversify_hash_repr(d))
}

/// The diversifier that the diversifier key `dk` gives at the index with the bytes `j`: FF1
/// over bits, with the empty tweak.
pub open spec fn ff1_encrypt(dk: Seq<u8>, j: Seq<u8>) -> Seq<u8> {
    ff1_cipher(dk, 2, Seq::empty(), j)
}

/// The bytes of the index at which the diversifier key `dk` gives the diversifier `d`.
pub open spec fn ff1_decrypt(dk: Seq<u8>, d: Seq<u8>) -> Seq<u8> {
    ff1_decipher(dk, 2, Seq::empty(), d)
}

/// Whether `j` is the only index at which the diversifier key `dk` gives the diversifier `d`.
pub open spec fn is_only_index(dk: Seq<u8>, d: Seq<u8>, j: Seq<u8>) -> bool {
    forall|k: Seq<u8>| k.len() == 11 && d == #[trigger] ff1_encrypt(dk, k) ==> k == j
}

/// The bytes of the diversifier index `j`.
pub open spec fn index_bytes(j: nat) -> Seq<u8> {
    le_bytes(j, 11)
}

/// The full viewing key of a spending key.
pub open spec fn fvk_of(sk: Seq<u8>) -> ViewingComponents {
    ViewingComponents { ak: spend_auth_repr(ask_of(sk)), nk: nk_of(sk), rivk: rivk_of(sk) }
}

/// Whether the bytes are a spending key: they give a nonzero `ask` and some `ivk`.
pub open spec fn is_spending_key(sk: Seq<u8>) -> bool {
    ask_scalar(sk) != 0 && fvk_of(sk).ivk() is Some
}

/// The bytes of the given blocks.
pub open spec fn blocks(draws: Seq<[u8; 32]>) -> Seq<Seq<u8>> {
    Seq::new(draws.len(), |i: int| draws[i]@)
}

/// Whether all of the given draws are blocks of 32 bytes that are no spending key.
pub open spec fn all_refused(draws: Seq<Seq<u8>>) -> bool {
    forall|i: int|
        0 <= i < draws.len() ==> #[trigger] draws[i].len() == 32 && !is_spending_key(draws[i])
}

/// Whether the draw at `i` is the first of the given draws that is a spending key.
pub open spec fn is_first_key(draws: Seq<Seq<u8>>, i: int) -> bool {
    &&& 0 <= i < draws.len()
    &&& draws[i].len() == 32
    &&& is_spending_key(draws[i])
    &&& all_refused(draws.take(i))
}

} // verus!
