//! Derived authorities: addresses without a private key, computed from a seed
//! tuple, whose spending rights are shown by presenting the same seeds again.

use vstd::prelude::*;
use vstd::bytes::{spec_u64_to_le_bytes, u64_to_le_bytes};
use solana_program::pubkey::Pubkey;
use crate::address::Address;

verus! {

/// What `Pubkey::try_find_program_address` returns for these seeds and this
/// program: the derived address with the bump seed that the search settled on.
pub uninterp spec fn found_program_address(seeds: Seq<Seq<u8>>, program_id: Seq<u8>) -> Option<
    (Seq<u8>, u8),
>;

/// The address that `Pubkey::create_program_address` returns for these seeds
/// and this program, where it returns one.
pub uninterp spec fn created_program_address(seeds: Seq<Seq<u8>>, program_id: Seq<u8>) -> Option<
    Seq<u8>,
>;

/// The error of `Pubkey::create_program_address`, carried through unread.
#[verifier::external_type_specification]
#[verifier::external_body]
pub struct ExPubkeyError(solana_program::pubkey::PubkeyError);

/// The seeds of a vector of byte strings, each taken by its view.
pub open spec fn seed_views(seeds: Seq<Vec<u8>>) -> Seq<Seq<u8>> {
    Seq::new(seeds.len(), |i: int| seeds[i]@)
}

/// `Pubkey::try_find_program_address`: searches the bump seeds from 255 down
/// for the first one with which `Pubkey::create_program_address` succeeds on
/// the seeds followed by that bump, and returns that address and bump. So the
/// address that comes back is the one created from the seeds with the bump
/// appended.
#[verifier::external_body]
fn try_find_program_address(seeds: &Vec<Vec<u8>>, program_id: &Address) -> (r: Option<
    (Address, u8),
>)
    ensures
        match r {
            Some((address, bump)) => {
                &&& found_program_address(seed_views(seeds@), program_id@) == Some(
                    (address@, bump),
                )
                &&& created_program_address(seed_views(seeds@).push(seq![bump]), program_id@)
                    == Some(address@)
            },
            None => found_program_address(seed_views(seeds@), program_id@) is None,
        },
{
    let parts: Vec<&[u8]> = seeds.iter().map(|seed| seed.as_slice()).collect();
    match Pubkey::try_find_program_address(&parts, &Pubkey::new_from_array(program_id.bytes)) {
        Some((key, bump)) => Some((Address { bytes: key.to_bytes() }, bump)),
        None => None,
    }
}

/// `Pubkey::create_program_address`: hashes the seeds with the program's
/// address and returns the hash as an address, or an error where the seeds
/// are too many or too long or the hash lies on the curve.
#[verifier::external_body]
fn create_program_address(seeds: &Vec<Vec<u8>>, program_id: &Address) -> (r: Result<
    Address,
    solana_program::pubkey::PubkeyError,
>)
    ensures
        match r {
            Ok(address) => created_program_address(seed_views(seeds@), program_id@) == Some(
                address@,
            ),
            Err(_) => created_program_address(seed_views(seeds@), program_id@) is None,
        },
{
    let parts: Vec<&[u8]> = seeds.iter().map(|seed| seed.as_slice()).collect();
    match Pubkey::create_program_address(&parts, &Pubkey::new_from_array(program_id.bytes)) {
        Ok(key) => Ok(Address { bytes: key.to_bytes() }),
        Err(e) => Err(e),
    }
}

/// The purpose that a derived address serves; the first seed of its tuple.
#[derive(Clone, Copy, Debug, PartialEq, Eq, Structural)]
pub enum SeedTag {
    /// An escrow offer: `offer`.
    Offer,
    /// The vault's long-lived authority: `vault_state`.
    VaultState,
    /// A depositor's balance record: `user_state`.
    UserState,
}

impl SeedTag {
    /// The tag as the ASCII bytes of its name.
    pub open spec fn bytes(self) -> Seq<u8> {
        match self {
            SeedTag::Offer => seq![111u8, 102u8, 102u8, 101u8, 114u8],
            SeedTag::VaultState => seq![
                118u8, 97u8, 117u8, 108u8, 116u8, 95u8, 115u8, 116u8, 97u8, 116u8, 101u8,
            ],
            SeedTag::UserState => seq![
                117u8, 115u8, 101u8, 114u8, 95u8, 115u8, 116u8, 97u8, 116u8, 101u8,
            ],
        }
    }

    /// The bytes of the tag.
    pub fn to_bytes(&self) -> (r: Vec<u8>)
        ensures
            r@ == self.bytes(),
    {
        let r = match self {
            SeedTag::Offer => vec![111u8, 102u8, 102u8, 101u8, 114u8],
            SeedTag::VaultState => vec![
                118u8, 97u8, 117u8, 108u8, 116u8, 95u8, 115u8, 116u8, 97u8, 116u8, 101u8,
            ],
            SeedTag::UserState => vec![
                117u8, 115u8, 101u8, 114u8, 95u8, 115u8, 116u8, 97u8, 116u8, 101u8,
            ],
        };
        assert(r@ =~= self.bytes());
        r
    }
}

/// What tells apart the records that one owner has under one tag.
#[derive(Clone, Copy, Debug)]
pub enum Discriminator {
    /// The owner has one such record.
    Nothing,
    /// A number chosen by the owner, as eight little-endian bytes.
    Id(u64),
    /// A second address, such as an asset kind.
    Key(Address),
}

/// A seed tuple: the tag, the address of the owning record or identity, and
/// the discriminator.
#[derive(Clone, Copy, Debug)]
pub struct Seeds {
    pub tag: SeedTag,
    pub owner: Address,
    pub discriminator: Discriminator,
}

/// A seed tuple together with the bump seed that completes it: all that is
/// needed to compute the derived address again and so to act for it.
#[derive(Clone, Copy, Debug)]
pub struct DerivedAuthority {
    pub seeds: Seeds,
    pub bump: u8,
}

/// Evidence that the holder of a seed tuple acts for the address derived from it.
#[derive(Clone, Copy, Debug)]
pub struct AuthorityProof {
    address: Address,
}

/// Why a derived address could not be had or was not the one expected.
#[derive(Clone, Copy, Debug, PartialEq, Eq, Structural)]
pub enum AuthorityError {
    /// No bump seed completes the seed tuple.
    NoViableBump,
    /// The seed tuple with its bump seed gives no address.
    InvalidSeeds,
    /// The derived address is not the address that was supplied.
    AddressMismatch,
}

impl Seeds {
    /// The seeds as byte strings, in order.
    pub open spec fn parts(self) -> Seq<Seq<u8>> {
        match self.discriminator {
            Discriminator::Nothing => seq![self.tag.bytes(), self.owner@],
            Discriminator::Id(id) => seq![self.tag.bytes(), self.owner@, spec_u64_to_le_bytes(id)],
            Discriminator::Key(key) => seq![self.tag.bytes(), self.owner@, key@],
        }
    }

    /// The address derived from the seeds for `program_id`, with its bump seed.
    pub open spec fn derived(self, program_id: Address) -> Option<(Address, u8)> {
        match found_program_address(self.parts(), program_id@) {
            Some((bytes, bump)) => Some((Address::from_view(bytes), bump)),
            None => None,
        }
    }

    /// The seeds as byte strings, in order.
    pub fn to_parts(&self) -> (r: Vec<Vec<u8>>)
        ensures
            seed_views(r@) == self.parts(),
    {
        let mut parts: Vec<Vec<u8>> = Vec::new();
        parts.push(self.tag.to_bytes());
        parts.push(self.owner.to_vec());
        match self.discriminator {
            Discriminator::Nothing => {},
            Discriminator::Id(id) => {
                parts.push(u64_to_le_bytes(id));
            },
            Discriminator::Key(key) => {
                parts.push(key.to_vec());
            },
        }
        assert(seed_views(parts@) =~= self.parts());
        parts
    }

    /// Computes the derived address and the bump seed that goes with it. The
    /// same seeds and program always give the same address, and the address
    /// found is the one that the seeds with that bump seed authorize.
    pub fn derive(&self, program_id: &Address) -> (r: Option<(Address, u8)>)
        ensures
            r == self.derived(*program_id),
            r matches Some((address, bump)) ==> (DerivedAuthority { seeds: *self, bump }).address(
                *program_id,
            ) == Some(address),
    {
        let parts = self.to_parts();
        let found = try_find_program_address(&parts, program_id);
        proof {
            if let Some((address, bump)) = found {
                Address::lemma_from_view(address);
            }
        }
        found
    }

    /// Derives the address and holds it against the one supplied: a mismatch
    /// is a failure of authorization. On success the result carries the bump
    /// seed, ready to authorize.
    pub fn verify(&self, program_id: &Address, expected: &Address) -> (r: Result<
        DerivedAuthority,
        AuthorityError,
    >)
        ensures
            r == match self.derived(*program_id) {
                None => Err::<DerivedAuthority, AuthorityError>(AuthorityError::NoViableBump),
                Some((address, bump)) => if address == *expected {
                    Ok(DerivedAuthority { seeds: *self, bump })
                } else {
                    Err(AuthorityError::AddressMismatch)
                },
            },
            r matches Ok(authority) ==> authority.address(*program_id) == Some(*expected),
    {
        match self.derive(program_id) {
            None => Err(AuthorityError::NoViableBump),
            Some((address, bump)) => {
                if address == *expected {
                    Ok(DerivedAuthority { seeds: *self, bump })
                } else {
                    Err(AuthorityError::AddressMismatch)
                }
            },
        }
    }
}

impl DerivedAuthority {
    /// The seeds as byte strings, the bump seed last.
    pub open spec fn parts(self) -> Seq<Seq<u8>> {
        self.seeds.parts().push(seq![self.bump])
    }

    /// The address that these seeds and bump seed stand for under `program_id`.
    pub open spec fn address(self, program_id: Address) -> Option<Address> {
        match created_program_address(self.parts(), program_id@) {
            Some(bytes) => Some(Address::from_view(bytes)),
            None => None,
        }
    }

    /// Computes the address again from the seeds and the bump seed and, where
    /// there is one, returns the proof that the caller acts for it.
    pub fn authorize(&self, program_id: &Address) -> (r: Result<AuthorityProof, AuthorityError>)
        ensures
            match r {
                Ok(proof) => self.address(*program_id) == Some(proof@),
                Err(e) => self.address(*program_id) is None && e == AuthorityError::InvalidSeeds,
            },
    {
        let mut parts = self.seeds.to_parts();
        let mut last: Vec<u8> = Vec::new();
        last.push(self.bump);
        parts.push(last);
        assert(seed_views(parts@) =~= self.parts());
        match create_program_address(&parts, program_id) {
            Ok(address) => {
                proof {
                    Address::lemma_from_view(address);
                }
                Ok(AuthorityProof { address })
            },
            Err(_) => Err(AuthorityError::InvalidSeeds),
        }
    }
}

impl View for AuthorityProof {
    type V = Address;

    closed spec fn view(&self) -> Address {
        self.address
    }
}

impl AuthorityProof {
    /// The address that the proof speaks for.
    pub fn address(&self) -> (r: Address)
        ensures
            r == self@,
    {
        self.address
    }
}

} // verus!
