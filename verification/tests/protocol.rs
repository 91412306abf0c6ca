//! Scenario tests for the event-registration and issuance protocol.

use attendance::errors::{ErrorCode, TxError};
use attendance::ledger::Ledger;
use attendance::records::{
    credential_display_name, validate_attendance_claim, Event, EventId, EventRegistration,
};

fn ident(n: u8) -> [u8; 32] {
    [n; 32]
}

fn name_of(s: &str) -> Vec<u8> {
    s.as_bytes().to_vec()
}

fn make_event(l: &mut Ledger, creator: [u8; 32], name: &str, total: u32) -> Result<(), TxError> {
    l.initialize_event(
        creator,
        name_of(name),
        name_of("a gathering"),
        name_of("https://example.invalid/meta"),
        [7u8; 32],
        100,
        200,
        total,
        ident(9),
    )
}

#[test]
fn capacity_two_fills_frees_and_refills() {
    let mut l = Ledger::new();
    let creator = ident(1);
    let a = ident(2);
    let b = ident(3);
    let c = ident(4);
    let name = name_of("launch");
    assert_eq!(make_event(&mut l, creator, "launch", 2), Ok(()));
    assert_eq!(l.registered_attendees(&creator, &name), Some(0));

    assert_eq!(l.register_event(a, creator, &name), Ok(()));
    assert_eq!(l.registered_attendees(&creator, &name), Some(1));

    assert_eq!(l.register_event(b, creator, &name), Ok(()));
    assert_eq!(l.registered_attendees(&creator, &name), Some(2));

    assert_eq!(
        l.register_event(c, creator, &name),
        Err(TxError::Program(ErrorCode::RegistrationCompleted))
    );
    assert_eq!(l.registered_attendees(&creator, &name), Some(2));

    assert_eq!(l.cancel_registration(a, creator, &name), Ok(()));
    assert_eq!(l.registered_attendees(&creator, &name), Some(1));

    assert_eq!(l.register_event(c, creator, &name), Ok(()));
    assert_eq!(l.registered_attendees(&creator, &name), Some(2));
}

#[test]
fn wrong_code_then_right_code_then_already_minted() {
    let mut l = Ledger::new();
    let creator = ident(1);
    let a = ident(2);
    let name = name_of("gala");
    assert_eq!(make_event(&mut l, creator, "gala", 10), Ok(()));
    assert_eq!(l.register_event(a, creator, &name), Ok(()));

    let mut wrong = [7u8; 32];
    wrong[13] = 8;
    assert!(matches!(
        l.mint_nft(a, creator, &name, wrong, 150),
        Err(TxError::Program(ErrorCode::InvalidAttendanceCode))
    ));
    assert_eq!(
        l.registration_status(&creator, &name, &a),
        Some((true, false, false))
    );

    let issued = l.mint_nft(a, creator, &name, [7u8; 32], 150).unwrap();
    assert_eq!(issued.nft_name, b"gala1".to_vec());
    assert_eq!(issued.nft_uri, name_of("https://example.invalid/meta"));
    assert_eq!(issued.attendee, a);
    assert_eq!(issued.collection_mint, ident(9));
    assert_eq!(
        l.registration_status(&creator, &name, &a),
        Some((true, true, true))
    );

    assert!(matches!(
        l.mint_nft(a, creator, &name, [7u8; 32], 150),
        Err(TxError::Program(ErrorCode::NftAlreadyMinted))
    ));
    assert_eq!(
        l.registration_status(&creator, &name, &a),
        Some((true, true, true))
    );
}

#[test]
fn window_is_inclusive_at_both_ends() {
    let creator = ident(1);
    let a = ident(2);
    for (now, expect_ok) in [(99, false), (100, true), (150, true), (200, true), (201, false)] {
        let mut l = Ledger::new();
        let name = name_of("expo");
        assert_eq!(make_event(&mut l, creator, "expo", 5), Ok(()));
        assert_eq!(l.register_event(a, creator, &name), Ok(()));
        let r = l.mint_nft(a, creator, &name, [7u8; 32], now);
        if expect_ok {
            assert!(r.is_ok());
        } else {
            assert!(matches!(r, Err(TxError::Program(ErrorCode::NotMintingTime))));
            assert_eq!(
                l.registration_status(&creator, &name, &a),
                Some((true, false, false))
            );
        }
    }
}

#[test]
fn second_registration_fails() {
    let mut l = Ledger::new();
    let creator = ident(1);
    let a = ident(2);
    let name = name_of("meetup");
    assert_eq!(make_event(&mut l, creator, "meetup", 5), Ok(()));
    assert_eq!(l.register_event(a, creator, &name), Ok(()));
    assert_eq!(
        l.register_event(a, creator, &name),
        Err(TxError::AccountAlreadyExists)
    );
    assert_eq!(l.registered_attendees(&creator, &name), Some(1));
}

#[test]
fn cancel_without_registration_fails_and_cancel_twice_fails() {
    let mut l = Ledger::new();
    let creator = ident(1);
    let a = ident(2);
    let name = name_of("picnic");
    assert_eq!(make_event(&mut l, creator, "picnic", 5), Ok(()));
    assert_eq!(
        l.cancel_registration(a, creator, &name),
        Err(TxError::AccountNotFound)
    );
    assert_eq!(l.register_event(a, creator, &name), Ok(()));
    assert_eq!(l.cancel_registration(a, creator, &name), Ok(()));
    assert_eq!(
        l.cancel_registration(a, creator, &name),
        Err(TxError::AccountNotFound)
    );
    assert_eq!(l.registered_attendees(&creator, &name), Some(0));
}

#[test]
fn duplicate_event_name_collides() {
    let mut l = Ledger::new();
    let creator = ident(1);
    assert_eq!(make_event(&mut l, creator, "salon", 5), Ok(()));
    assert_eq!(
        make_event(&mut l, creator, "salon", 9),
        Err(TxError::AccountAlreadyExists)
    );
    // Another creator may reuse the name: the key tuple differs.
    assert_eq!(make_event(&mut l, ident(8), "salon", 5), Ok(()));
}

#[test]
fn oversized_fields_are_rejected() {
    let mut l = Ledger::new();
    let creator = ident(1);
    let long_name: Vec<u8> = vec![b'x'; 33];
    let r = l.initialize_event(
        creator,
        long_name,
        name_of("d"),
        name_of("u"),
        [0u8; 32],
        0,
        1,
        5,
        ident(9),
    );
    assert_eq!(r, Err(TxError::DataTooLarge));
    let long_uri: Vec<u8> = vec![b'u'; 65];
    let r = l.initialize_event(
        creator,
        name_of("fits"),
        name_of("d"),
        long_uri,
        [0u8; 32],
        0,
        1,
        5,
        ident(9),
    );
    assert_eq!(r, Err(TxError::DataTooLarge));
}

#[test]
fn edit_overwrites_the_mutable_fields() {
    let mut l = Ledger::new();
    let creator = ident(1);
    let a = ident(2);
    let name = name_of("forum");
    assert_eq!(make_event(&mut l, creator, "forum", 5), Ok(()));
    assert_eq!(l.register_event(a, creator, &name), Ok(()));

    // A new code and a shifted window take effect; the count is untouched.
    assert_eq!(
        l.edit_event(creator, &name, [42u8; 32], 300, 400, 1),
        Ok(())
    );
    assert_eq!(l.registered_attendees(&creator, &name), Some(1));
    assert!(matches!(
        l.mint_nft(a, creator, &name, [7u8; 32], 350),
        Err(TxError::Program(ErrorCode::InvalidAttendanceCode))
    ));
    assert!(matches!(
        l.mint_nft(a, creator, &name, [42u8; 32], 150),
        Err(TxError::Program(ErrorCode::NotMintingTime))
    ));
    assert!(l.mint_nft(a, creator, &name, [42u8; 32], 300).is_ok());

    // Editing somebody else's event does not resolve.
    assert_eq!(
        l.edit_event(ident(5), &name, [1u8; 32], 0, 1, 2),
        Err(TxError::AccountNotFound)
    );
}

#[test]
fn close_requires_the_creator_and_destroys_the_record() {
    let mut l = Ledger::new();
    let creator = ident(1);
    let name = name_of("recital");
    assert_eq!(make_event(&mut l, creator, "recital", 5), Ok(()));
    assert_eq!(
        l.close_event(ident(5), creator, &name),
        Err(TxError::AuthorityMismatch)
    );
    assert!(l.event_exists(&creator, &name));
    assert_eq!(l.close_event(creator, creator, &name), Ok(()));
    assert!(!l.event_exists(&creator, &name));
    assert_eq!(
        l.close_event(creator, creator, &name),
        Err(TxError::AccountNotFound)
    );
}

#[test]
fn stale_registration_after_reinit_trips_the_counter_guard() {
    let mut l = Ledger::new();
    let creator = ident(1);
    let a = ident(2);
    let name = name_of("revival");
    assert_eq!(make_event(&mut l, creator, "revival", 5), Ok(()));
    assert_eq!(l.register_event(a, creator, &name), Ok(()));
    assert_eq!(l.close_event(creator, creator, &name), Ok(()));
    // The registration is orphaned; re-creating the event leaves a count of
    // zero, so the underflow guard aborts the cancellation.
    assert_eq!(make_event(&mut l, creator, "revival", 5), Ok(()));
    assert_eq!(
        l.cancel_registration(a, creator, &name),
        Err(TxError::ArithmeticGuard)
    );
    // The stale record also still blocks a fresh registration.
    assert_eq!(
        l.register_event(a, creator, &name),
        Err(TxError::AccountAlreadyExists)
    );
}

#[test]
fn mint_against_missing_records_fails() {
    let mut l = Ledger::new();
    let creator = ident(1);
    let a = ident(2);
    let name = name_of("ghost");
    assert_eq!(
        l.mint_nft(a, creator, &name, [7u8; 32], 150),
        Err(TxError::AccountNotFound)
    );
    assert_eq!(make_event(&mut l, creator, "ghost", 5), Ok(()));
    assert_eq!(
        l.mint_nft(a, creator, &name, [7u8; 32], 150),
        Err(TxError::AccountNotFound)
    );
}

#[test]
fn credential_names_render_the_count_in_decimal() {
    let mut e = Event::new(
        ident(1),
        name_of("expo"),
        name_of("d"),
        name_of("u"),
        [0u8; 32],
        0,
        1,
        5000,
        ident(9),
    );
    assert_eq!(credential_display_name(&e), b"expo0".to_vec());
    e.registered_attendees = 7;
    assert_eq!(credential_display_name(&e), b"expo7".to_vec());
    e.registered_attendees = 4070;
    assert_eq!(credential_display_name(&e), b"expo4070".to_vec());
    e.registered_attendees = u32::MAX;
    assert_eq!(credential_display_name(&e), b"expo4294967295".to_vec());
}

#[test]
fn claim_checks_run_in_order() {
    let e = Event::new(
        ident(1),
        name_of("expo"),
        name_of("d"),
        name_of("u"),
        [7u8; 32],
        100,
        200,
        5,
        ident(9),
    );
    let mut reg = EventRegistration::new(
        EventId { creator: ident(1), name: name_of("expo") },
        ident(2),
    );
    // Wrong code wins over everything, even outside the window.
    assert_eq!(
        validate_attendance_claim(&e, &reg, &[8u8; 32], 999),
        Err(ErrorCode::InvalidAttendanceCode)
    );
    // The idempotency guard wins over the window.
    reg.credential_minted = true;
    assert_eq!(
        validate_attendance_claim(&e, &reg, &[7u8; 32], 999),
        Err(ErrorCode::NftAlreadyMinted)
    );
    reg.credential_minted = false;
    assert_eq!(
        validate_attendance_claim(&e, &reg, &[7u8; 32], 999),
        Err(ErrorCode::NotMintingTime)
    );
    assert_eq!(validate_attendance_claim(&e, &reg, &[7u8; 32], 100), Ok(()));
}

#[test]
fn error_messages_are_short_and_stable() {
    assert_eq!(
        ErrorCode::RegistrationNotOpenYet.message(),
        "registration not open yet"
    );
    assert_eq!(ErrorCode::RegistrationCompleted.message(), "registration completed");
    assert_eq!(
        ErrorCode::InvalidAttendanceCode.message(),
        "invalid attendance code"
    );
    assert_eq!(ErrorCode::NotMintingTime.message(), "minting not reached");
    assert_eq!(ErrorCode::NftAlreadyMinted.message(), "already minted");
}
