//! The record of an offer.

use vstd::prelude::*;
use crate::address::Address;
use crate::authority::{DerivedAuthority, Discriminator, SeedTag, Seeds};

verus! {

/// One pending swap: the maker has put `token_a_offered_amount` of
/// `token_mint_a` in the offer's holding account and wants
/// `token_b_wanted_amount` of `token_mint_b` for it.
#[derive(Clone, Copy, Debug, PartialEq, Eq)]
pub struct Offer {
    /// Chosen by the maker; unique among the maker's offers.
    pub id: u64,
    pub maker: Address,
    pub token_mint_a: Address,
    pub token_mint_b: Address,
    pub token_a_offered_amount: u64,
    pub token_b_wanted_amount: u64,
    /// The bump seed of the offer's derived address.
    pub bump: u8,
}

/// The seeds from which the address of the offer `id` of `maker` is derived.
pub open spec fn offer_seeds(maker: Address, id: u64) -> Seeds {
    Seeds { tag: SeedTag::Offer, owner: maker, discriminator: Discriminator::Id(id) }
}

impl Offer {
    /// The seeds of the offer's derived address.
    pub fn seeds(maker: &Address, id: u64) -> (r: Seeds)
        ensures
            r == offer_seeds(*maker, id),
    {
        Seeds { tag: SeedTag::Offer, owner: *maker, discriminator: Discriminator::Id(id) }
    }

    /// The derived authority that owns the offer's holding account.
    pub open spec fn spec_authority(&self) -> DerivedAuthority {
        DerivedAuthority { seeds: offer_seeds(self.maker, self.id), bump: self.bump }
    }

    /// Whether the seeds and bump seed that the offer records stand for
    /// `vault` under `program_id`.
    pub open spec fn authorizes(self, vault: Address, program_id: Address) -> bool {
        self.spec_authority().address(program_id) == Some(vault)
    }

    /// The derived authority that owns the offer's holding account.
    #[verifier::when_used_as_spec(spec_authority)]
    pub fn authority(&self) -> (r: DerivedAuthority)
        ensures
            r == self.spec_authority(),
    {
        DerivedAuthority { seeds: Offer::seeds(&self.maker, self.id), bump: self.bump }
    }
}

} // verus!
