//! The two persisted record kinds — events and registrations — and the
//! record-level steps of each operation. The ambient clock and the caller
//! identity are explicit inputs, so every step is a function of its
//! arguments.

use vstd::prelude::*;
use crate::bytesutil::{bytes32_eq, clone_bytes, append_decimal, dec_digits};
use crate::errors::{ErrorCode, TxError};

verus! {

/// The ticker symbol written on every credential's metadata record.
pub const SYMBOL: &'static str = "TLT";

/// Upper bound on the byte length of an event name.
pub const MAX_NAME_LEN: usize = 32;

/// Upper bound on the byte length of an event description.
pub const MAX_DESCRIPTION_LEN: usize = 64;

/// Upper bound on the byte length of an event metadata URI.
pub const MAX_URI_LEN: usize = 64;

/// The key tuple from which an event record's storage location is derived:
/// the creator identity and the event name. At most one event exists per
/// key; a second creation attempt collides and fails.
pub struct EventId {
    pub creator: [u8; 32],
    pub name: Vec<u8>,
}

/// Mathematical image of an `EventId`.
#[verifier::ext_equal]
pub struct EventIdV {
    pub creator: Seq<u8>,
    pub name: Seq<u8>,
}

impl View for EventId {
    type V = EventIdV;

    open spec fn view(&self) -> EventIdV {
        EventIdV { creator: self.creator@, name: self.name@ }
    }
}

/// One event: its creator, display metadata, the shared secret attendance
/// code, the redemption window, and the capacity accounting.
pub struct Event {
    /// Identity of the account that created the event; immutable.
    pub creator: [u8; 32],
    /// Short identifier, unique per creator; immutable.
    pub name: Vec<u8>,
    /// Display metadata.
    pub description: Vec<u8>,
    /// Metadata URI, reused as each credential's URI.
    pub uri: Vec<u8>,
    /// 32-byte secret shared with attendees; compared byte for byte.
    pub attendance_code: [u8; 32],
    /// Start of the redemption window (Unix epoch seconds), inclusive.
    pub start_time: i64,
    /// End of the redemption window (Unix epoch seconds), inclusive.
    pub end_time: i64,
    /// Capacity ceiling.
    pub total_attendees: u32,
    /// Running count, mutated only by register and cancel.
    pub registered_attendees: u32,
    /// Identity of the credential collection of this event.
    pub collection_mint: [u8; 32],
}

/// Mathematical image of an `Event`.
#[verifier::ext_equal]
pub struct EventV {
    pub creator: Seq<u8>,
    pub name: Seq<u8>,
    pub description: Seq<u8>,
    pub uri: Seq<u8>,
    pub attendance_code: Seq<u8>,
    pub start_time: i64,
    pub end_time: i64,
    pub total_attendees: u32,
    pub registered_attendees: u32,
    pub collection_mint: Seq<u8>,
}

impl View for Event {
    type V = EventV;

    open spec fn view(&self) -> EventV {
        EventV {
            creator: self.creator@,
            name: self.name@,
            description: self.description@,
            uri: self.uri@,
            attendance_code: self.attendance_code@,
            start_time: self.start_time,
            end_time: self.end_time,
            total_attendees: self.total_attendees,
            registered_attendees: self.registered_attendees,
            collection_mint: self.collection_mint@,
        }
    }
}

impl EventV {
    /// The key tuple the event record is stored under.
    pub open spec fn id(self) -> EventIdV {
        EventIdV { creator: self.creator, name: self.name }
    }
}

/// One attendee's claim against one event.
pub struct EventRegistration {
    /// Back-reference to the event (relation, not ownership).
    pub event: EventId,
    /// Identity of the registrant.
    pub attendee: [u8; 32],
    /// True once created.
    pub registered: bool,
    /// Set true only on successful credential issuance.
    pub attended: bool,
    /// Set true exactly once on successful issuance; the idempotency guard.
    pub credential_minted: bool,
}

/// Mathematical image of an `EventRegistration`.
#[verifier::ext_equal]
pub struct RegistrationV {
    pub event: EventIdV,
    pub attendee: Seq<u8>,
    pub registered: bool,
    pub attended: bool,
    pub credential_minted: bool,
}

impl View for EventRegistration {
    type V = RegistrationV;

    open spec fn view(&self) -> RegistrationV {
        RegistrationV {
            event: self.event@,
            attendee: self.attendee@,
            registered: self.registered,
            attended: self.attended,
            credential_minted: self.credential_minted,
        }
    }
}

/// What a successful attendance claim authorizes the external issuance
/// service to do: mint one unit of a fresh credential to the attendee,
/// under the event's collection, with this display name and URI.
#[derive(Debug, PartialEq, Eq)]
pub struct CredentialIssuance {
    /// Display name: the event name followed by the current attendee count.
    pub nft_name: Vec<u8>,
    /// Metadata URI, reused from the event.
    pub nft_uri: Vec<u8>,
    /// Identity the credential is minted to.
    pub attendee: [u8; 32],
    /// The collection the credential is verified into.
    pub collection_mint: [u8; 32],
}

/// Mathematical image of a `CredentialIssuance`.
#[verifier::ext_equal]
pub struct CredentialIssuanceV {
    pub nft_name: Seq<u8>,
    pub nft_uri: Seq<u8>,
    pub attendee: Seq<u8>,
    pub collection_mint: Seq<u8>,
}

impl View for CredentialIssuance {
    type V = CredentialIssuanceV;

    open spec fn view(&self) -> CredentialIssuanceV {
        CredentialIssuanceV {
            nft_name: self.nft_name@,
            nft_uri: self.nft_uri@,
            attendee: self.attendee@,
            collection_mint: self.collection_mint@,
        }
    }
}

/// The event value after the creator's edit: the four mutable fields are
/// overwritten unconditionally, everything else is kept. The capacity is
/// not re-validated against the running count.
pub open spec fn edited(
    e: EventV,
    attendance_code: Seq<u8>,
    start_time: i64,
    end_time: i64,
    total_attendees: u32,
) -> EventV {
    EventV { attendance_code, start_time, end_time, total_attendees, ..e }
}

/// The event after accepting one more registration: fails when the
/// capacity ceiling is reached exactly, or when the counter would
/// overflow; otherwise the count rises by one.
pub open spec fn accept_result(e: EventV) -> Result<EventV, TxError> {
    if e.registered_attendees == e.total_attendees {
        Err(TxError::Program(ErrorCode::RegistrationCompleted))
    } else if e.registered_attendees == u32::MAX {
        Err(TxError::ArithmeticGuard)
    } else {
        Ok(EventV { registered_attendees: (e.registered_attendees + 1) as u32, ..e })
    }
}

/// The event after releasing one registration: fails when the counter
/// would underflow; otherwise the count falls by one.
pub open spec fn release_result(e: EventV) -> Result<EventV, TxError> {
    if e.registered_attendees == 0 {
        Err(TxError::ArithmeticGuard)
    } else {
        Ok(EventV { registered_attendees: (e.registered_attendees - 1) as u32, ..e })
    }
}

/// The attendance-claim checks, in order: the code byte for byte, then the
/// idempotency guard, then the redemption window (inclusive at both ends).
pub open spec fn claim_check(
    e: EventV,
    reg: RegistrationV,
    code: Seq<u8>,
    now: i64,
) -> Result<(), ErrorCode> {
    if code != e.attendance_code {
        Err(ErrorCode::InvalidAttendanceCode)
    } else if reg.credential_minted {
        Err(ErrorCode::NftAlreadyMinted)
    } else if now < e.start_time || now > e.end_time {
        Err(ErrorCode::NotMintingTime)
    } else {
        Ok(())
    }
}

/// The registration after a successful issuance: `attended` and
/// `credential_minted` become true, everything else is kept.
pub open spec fn issued(r: RegistrationV) -> RegistrationV {
    RegistrationV { attended: true, credential_minted: true, ..r }
}

impl Event {
    /// Creates an event record with a running count of zero.
    pub fn new(
        creator: [u8; 32],
        name: Vec<u8>,
        description: Vec<u8>,
        uri: Vec<u8>,
        attendance_code: [u8; 32],
        start_time: i64,
        end_time: i64,
        total_attendees: u32,
        collection_mint: [u8; 32],
    ) -> (e: Event)
        ensures
            e@ == (EventV {
                creator: creator@,
                name: name@,
                description: description@,
                uri: uri@,
                attendance_code: attendance_code@,
                start_time,
                end_time,
                total_attendees,
                registered_attendees: 0u32,
                collection_mint: collection_mint@,
            }),
    {
        Event {
            creator,
            name,
            description,
            uri,
            attendance_code,
            start_time,
            end_time,
            total_attendees,
            registered_attendees: 0,
            collection_mint,
        }
    }

    /// Overwrites the four creator-editable fields unconditionally.
    pub fn apply_edit(
        &mut self,
        attendance_code: [u8; 32],
        start_time: i64,
        end_time: i64,
        total_attendees: u32,
    )
        ensures
            final(self)@ == edited(
                old(self)@,
                attendance_code@,
                start_time,
                end_time,
                total_attendees,
            ),
    {
        self.attendance_code = attendance_code;
        self.start_time = start_time;
        self.end_time = end_time;
        self.total_attendees = total_attendees;
    }

    /// Counts one more registration, guarding the capacity ceiling and the
    /// counter; on failure the event is unchanged.
    pub fn accept_registration(&mut self) -> (r: Result<(), TxError>)
        ensures
            match accept_result(old(self)@) {
                Ok(e2) => r is Ok && final(self)@ == e2,
                Err(err) => r == Err::<(), TxError>(err) && final(self)@ == old(self)@,
            },
    {
        if self.registered_attendees == self.total_attendees {
            return Err(TxError::Program(ErrorCode::RegistrationCompleted));
        }
        match self.registered_attendees.checked_add(1) {
            Some(n) => {
                self.registered_attendees = n;
                Ok(())
            },
            None => Err(TxError::ArithmeticGuard),
        }
    }

    /// Releases one registration, guarding the counter against underflow;
    /// on failure the event is unchanged.
    pub fn release_registration(&mut self) -> (r: Result<(), TxError>)
        ensures
            match release_result(old(self)@) {
                Ok(e2) => r is Ok && final(self)@ == e2,
                Err(err) => r == Err::<(), TxError>(err) && final(self)@ == old(self)@,
            },
    {
        match self.registered_attendees.checked_sub(1) {
            Some(n) => {
                self.registered_attendees = n;
                Ok(())
            },
            None => Err(TxError::ArithmeticGuard),
        }
    }
}

impl EventRegistration {
    /// Creates the registration of one attendee against one event.
    pub fn new(event: EventId, attendee: [u8; 32]) -> (r: EventRegistration)
        ensures
            r@ == (RegistrationV {
                event: event@,
                attendee: attendee@,
                registered: true,
                attended: false,
                credential_minted: false,
            }),
    {
        EventRegistration { event, attendee, registered: true, attended: false, credential_minted: false }
    }

    /// Records a successful issuance: sets `attended` and
    /// `credential_minted`.
    pub fn record_issuance(&mut self)
        ensures
            final(self)@ == issued(old(self)@),
    {
        self.attended = true;
        self.credential_minted = true;
    }
}

/// Validates an attendance claim: the secret code, the idempotency guard,
/// and the time window, in that order. No side effects.
pub fn validate_attendance_claim(
    event: &Event,
    registration: &EventRegistration,
    code: &[u8; 32],
    now: i64,
) -> (r: Result<(), ErrorCode>)
    ensures
        r == claim_check(event@, registration@, code@, now),
{
    if !bytes32_eq(code, &event.attendance_code) {
        return Err(ErrorCode::InvalidAttendanceCode);
    }
    if registration.credential_minted {
        return Err(ErrorCode::NftAlreadyMinted);
    }
    if now < event.start_time || now > event.end_time {
        return Err(ErrorCode::NotMintingTime);
    }
    Ok(())
}

/// The credential's display name: the event name followed by the current
/// registered-attendee count, a human-readable ordinal.
pub fn credential_display_name(event: &Event) -> (r: Vec<u8>)
    ensures
        r@ == event@.name + dec_digits(event@.registered_attendees as nat),
{
    let mut r = clone_bytes(&event.name);
    append_decimal(&mut r, event.registered_attendees);
    r
}

} // verus!
