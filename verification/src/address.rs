//! Payment addresses.

use vstd::prelude::*;

use crate::keys::{Diversifier, DiversifiedTransmissionKey};

verus! {

/// A payment address: a diversifier, and the transmission key that was derived with it.
#[derive(Clone, Copy, Debug)]
pub struct Address {
    d: Diversifier,
    pk_d: DiversifiedTransmissionKey,
}

impl View for Address {
    type V = (Seq<u8>, Seq<u8>);

    closed spec fn view(&self) -> (Seq<u8>, Seq<u8>) {
        (self.d@, self.pk_d@)
    }
}

impl Address {
    /// The address that consists of the given parts.
    pub fn from_parts(d: Diversifier, pk_d: DiversifiedTransmissionKey) -> (res: Address)
        ensures
            res@ == (d@, pk_d@),
    {
        Address { d, pk_d }
    }

    /// The diversifier of this address.
    pub fn diversifier(&self) -> (res: &Diversifier)
        ensures
            res@ == self@.0,
    {
        &self.d
    }

    /// The transmission key of this address.
    pub fn pk_d(&self) -> (res: &DiversifiedTransmissionKey)
        ensures
            res@ == self@.1,
    {
        &self.pk_d
    }
}

} // verus!
