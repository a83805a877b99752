use anchor_lang::prelude::Pubkey;
use favorite_color_program::{
    address_matches, is_authorized, namespace_tag, record_address, same_identity,
};

fn identity(fill: u8) -> [u8; 32] {
    [fill; 32]
}

#[test]
fn namespace_tag_is_user_color() {
    assert_eq!(&namespace_tag(), b"user-color");
}

#[test]
fn same_identity_compares_every_byte() {
    let left = identity(9);
    let mut right = identity(9);
    assert!(same_identity(&left, &right));
    right[31] = 8;
    assert!(!same_identity(&left, &right));
    right[31] = 9;
    right[0] = 8;
    assert!(!same_identity(&left, &right));
}

#[test]
fn record_address_is_the_program_derived_address() {
    let owner = identity(1);
    let program = identity(200);
    let (expected, expected_bump) = Pubkey::find_program_address(
        &[b"user-color", &owner[..]],
        &Pubkey::new_from_array(program),
    );
    let (address, bump) = record_address(&owner, &program).unwrap();
    assert_eq!(address, expected.to_bytes());
    assert_eq!(bump, expected_bump);
    assert_ne!(address, owner);
    assert_ne!(address, program);
}

#[test]
fn record_address_recreates_from_its_bump() {
    let owner = identity(5);
    let program = identity(77);
    let (address, bump) = record_address(&owner, &program).unwrap();
    let again = Pubkey::create_program_address(
        &[b"user-color", &owner[..], &[bump]],
        &Pubkey::new_from_array(program),
    )
    .unwrap();
    assert_eq!(again.to_bytes(), address);
    assert!(!Pubkey::new_from_array(address).is_on_curve());
}

#[test]
fn record_address_is_repeatable() {
    let owner = identity(1);
    let program = identity(2);
    assert_eq!(record_address(&owner, &program), record_address(&owner, &program));
}

#[test]
fn record_address_depends_on_owner_and_program() {
    let first = record_address(&identity(1), &identity(9)).unwrap();
    let second = record_address(&identity(2), &identity(9)).unwrap();
    let third = record_address(&identity(1), &identity(8)).unwrap();
    assert_ne!(first.0, second.0);
    assert_ne!(first.0, third.0);
}

#[test]
fn address_matches_needs_a_found_address() {
    let account = identity(4);
    assert!(!address_matches(None, &account));
    assert!(address_matches(Some((account, 255)), &account));
    assert!(address_matches(Some((account, 0)), &account));
    assert!(!address_matches(Some((identity(5), 255)), &account));
}

#[test]
fn is_authorized_only_at_the_derived_address() {
    let owner = identity(1);
    let program = identity(9);
    let (address, _) = record_address(&owner, &program).unwrap();
    assert!(is_authorized(&address, &owner, &program));
    assert!(!is_authorized(&owner, &owner, &program));
    assert!(!is_authorized(&address, &identity(2), &program));
    assert!(!is_authorized(&address, &owner, &identity(8)));
}
