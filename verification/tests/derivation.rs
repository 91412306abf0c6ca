//! The address derivations against the execution environment's own
//! computation.

use anchor_lang::prelude::Pubkey;
use attendance::authority::{
    derive_collection_authority, derive_credential_address, derive_event_address,
    derive_registration_address,
};

fn ident(n: u8) -> [u8; 32] {
    [n; 32]
}

const PROGRAM_ID: [u8; 32] = [11u8; 32];

#[test]
fn collection_authority_matches_the_environment() {
    let name = b"launch".to_vec();
    let (addr, bump) = derive_collection_authority(&name, &PROGRAM_ID).unwrap();
    let (expected, expected_bump) = Pubkey::find_program_address(
        &[b"collection_mint", b"launch"],
        &Pubkey::new_from_array(PROGRAM_ID),
    );
    assert_eq!(addr, expected.to_bytes());
    assert_eq!(bump, expected_bump);
}

#[test]
fn event_address_matches_the_environment() {
    let creator = ident(1);
    let name = b"launch".to_vec();
    let (addr, bump) = derive_event_address(&creator, &name, &PROGRAM_ID).unwrap();
    let (expected, expected_bump) = Pubkey::find_program_address(
        &[b"event", &creator, b"launch"],
        &Pubkey::new_from_array(PROGRAM_ID),
    );
    assert_eq!(addr, expected.to_bytes());
    assert_eq!(bump, expected_bump);
}

#[test]
fn registration_address_matches_the_environment() {
    let creator = ident(1);
    let name = b"launch".to_vec();
    let (event_addr, _) = derive_event_address(&creator, &name, &PROGRAM_ID).unwrap();
    let attendee = ident(2);
    let (addr, bump) =
        derive_registration_address(&event_addr, &attendee, &PROGRAM_ID).unwrap();
    let (expected, expected_bump) = Pubkey::find_program_address(
        &[b"attendee", &event_addr, &attendee],
        &Pubkey::new_from_array(PROGRAM_ID),
    );
    assert_eq!(addr, expected.to_bytes());
    assert_eq!(bump, expected_bump);
}

#[test]
fn credential_address_matches_the_environment() {
    let event_addr = ident(3);
    let attendee = ident(2);
    let (addr, bump) = derive_credential_address(&event_addr, &attendee, &PROGRAM_ID).unwrap();
    let (expected, expected_bump) = Pubkey::find_program_address(
        &[b"nft_mint", &event_addr, &attendee],
        &Pubkey::new_from_array(PROGRAM_ID),
    );
    assert_eq!(addr, expected.to_bytes());
    assert_eq!(bump, expected_bump);
}

#[test]
fn derivation_is_deterministic_and_separates_names() {
    let first = derive_collection_authority(&b"alpha".to_vec(), &PROGRAM_ID).unwrap();
    let again = derive_collection_authority(&b"alpha".to_vec(), &PROGRAM_ID).unwrap();
    assert_eq!(first, again);
    let other = derive_collection_authority(&b"beta".to_vec(), &PROGRAM_ID).unwrap();
    assert_ne!(first.0, other.0);
}
