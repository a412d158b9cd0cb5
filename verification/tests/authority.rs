use solana_program::pubkey::Pubkey;
use token_custody::address::Address;
use token_custody::authority::{AuthorityError, DerivedAuthority, Discriminator, SeedTag, Seeds};
use token_custody::escrow::state::Offer;
use token_custody::vault::state::{UserState, VaultState};

fn program() -> Address {
    Address::new_from_array([7u8; 32])
}

#[test]
fn address_keeps_its_bytes() {
    let mut bytes = [0u8; 32];
    bytes[0] = 1;
    bytes[31] = 2;
    let address = Address::new_from_array(bytes);
    assert_eq!(address.to_bytes(), bytes);
    assert_eq!(address.to_vec(), bytes.to_vec());
    assert_eq!(address, Address::new_from_array(bytes));
    bytes[31] = 3;
    assert_ne!(address, Address::new_from_array(bytes));
}

#[test]
fn seed_tags_are_their_names() {
    assert_eq!(SeedTag::Offer.to_bytes(), b"offer".to_vec());
    assert_eq!(SeedTag::VaultState.to_bytes(), b"vault_state".to_vec());
    assert_eq!(SeedTag::UserState.to_bytes(), b"user_state".to_vec());
}

#[test]
fn seeds_list_tag_owner_and_discriminator() {
    let owner = Address::new_from_array([1u8; 32]);
    let mint = Address::new_from_array([2u8; 32]);
    let plain = Seeds { tag: SeedTag::VaultState, owner, discriminator: Discriminator::Nothing };
    assert_eq!(plain.to_parts(), vec![b"vault_state".to_vec(), vec![1u8; 32]]);
    let numbered = Seeds { tag: SeedTag::Offer, owner, discriminator: Discriminator::Id(258) };
    assert_eq!(
        numbered.to_parts(),
        vec![b"offer".to_vec(), vec![1u8; 32], vec![2u8, 1, 0, 0, 0, 0, 0, 0]]
    );
    let keyed = Seeds { tag: SeedTag::UserState, owner, discriminator: Discriminator::Key(mint) };
    assert_eq!(keyed.to_parts(), vec![b"user_state".to_vec(), vec![1u8; 32], vec![2u8; 32]]);
}

#[test]
fn the_seeds_of_the_records() {
    let owner = Address::new_from_array([1u8; 32]);
    let mint = Address::new_from_array([2u8; 32]);
    assert_eq!(Offer::seeds(&owner, 9).to_parts(), vec![
        b"offer".to_vec(),
        vec![1u8; 32],
        9u64.to_le_bytes().to_vec()
    ]);
    assert_eq!(VaultState::seeds(&owner).to_parts(), vec![b"vault_state".to_vec(), vec![1u8; 32]]);
    assert_eq!(UserState::seeds(&owner, &mint).to_parts(), vec![
        b"user_state".to_vec(),
        vec![1u8; 32],
        vec![2u8; 32]
    ]);
}

#[test]
fn derive_agrees_with_find_program_address() {
    let maker = [1u8; 32];
    let id: u64 = 1;
    let (expected, expected_bump) = Pubkey::find_program_address(
        &[b"offer", &maker, &id.to_le_bytes()],
        &Pubkey::new_from_array([7u8; 32]),
    );
    let seeds = Offer::seeds(&Address::new_from_array(maker), id);
    let (address, bump) = seeds.derive(&program()).unwrap();
    assert_eq!(address.to_bytes(), expected.to_bytes());
    assert_eq!(bump, expected_bump);
    assert_ne!(address.to_bytes(), maker);
    assert_ne!(address.to_bytes(), [7u8; 32]);
}

#[test]
fn derive_is_a_function_of_its_seeds() {
    let maker = Address::new_from_array([1u8; 32]);
    let first = Offer::seeds(&maker, 1).derive(&program()).unwrap();
    let again = Offer::seeds(&maker, 1).derive(&program()).unwrap();
    let other_id = Offer::seeds(&maker, 2).derive(&program()).unwrap();
    let other_program =
        Offer::seeds(&maker, 1).derive(&Address::new_from_array([8u8; 32])).unwrap();
    assert_eq!(first, again);
    assert_ne!(first.0, other_id.0);
    assert_ne!(first.0, other_program.0);
}

#[test]
fn authorize_agrees_with_create_program_address() {
    let owner = [3u8; 32];
    let seeds = VaultState::seeds(&Address::new_from_array(owner));
    let (address, bump) = seeds.derive(&program()).unwrap();
    let expected = Pubkey::create_program_address(
        &[b"vault_state", &owner, &[bump]],
        &Pubkey::new_from_array([7u8; 32]),
    )
    .unwrap();
    let proof = DerivedAuthority { seeds, bump }.authorize(&program()).unwrap();
    assert_eq!(proof.address().to_bytes(), expected.to_bytes());
    assert_eq!(proof.address(), address);
}

#[test]
fn authorize_with_another_bump_gives_another_address_or_none() {
    let seeds = VaultState::seeds(&Address::new_from_array([3u8; 32]));
    let (address, bump) = seeds.derive(&program()).unwrap();
    let mut rejected = 0;
    for other in 0u8..=255 {
        if other == bump {
            continue;
        }
        match (DerivedAuthority { seeds, bump: other }).authorize(&program()) {
            Ok(proof) => assert_ne!(proof.address(), address),
            Err(e) => {
                assert_eq!(e, AuthorityError::InvalidSeeds);
                rejected += 1;
            }
        }
    }
    assert!(rejected > 0);
}

#[test]
fn verify_accepts_the_derived_address() {
    let maker = Address::new_from_array([1u8; 32]);
    let seeds = Offer::seeds(&maker, 1);
    let (address, bump) = seeds.derive(&program()).unwrap();
    let authority = seeds.verify(&program(), &address).unwrap();
    assert_eq!(authority.bump, bump);
    assert_eq!(authority.seeds.owner, maker);
    assert_eq!(authority.authorize(&program()).unwrap().address(), address);
}

#[test]
fn verify_rejects_another_address() {
    let maker = Address::new_from_array([1u8; 32]);
    let seeds = Offer::seeds(&maker, 1);
    assert_eq!(seeds.verify(&program(), &maker).unwrap_err(), AuthorityError::AddressMismatch);
}
