//! The ledger that holds the event and registration records, keyed by the
//! tuples their storage locations are derived from. Each operation is one
//! atomic transaction: it either applies completely or fails with no state
//! change. The caller identity and, for redemption, the current time are
//! explicit arguments.

use vstd::prelude::*;
use crate::bytesutil::{bytes32_eq, bytes_eq, clone_bytes, dec_digits};
use crate::errors::TxError;
use crate::kv::{
    kv_map, kv_unique, lemma_kv_contains, lemma_kv_get, lemma_kv_push, lemma_kv_push_unique,
    lemma_kv_remove, lemma_kv_update,
};
use crate::records::{
    accept_result, claim_check, credential_display_name, edited, issued, release_result,
    validate_attendance_claim, CredentialIssuance, CredentialIssuanceV, Event, EventId, EventIdV,
    EventRegistration, EventV, RegistrationV, MAX_DESCRIPTION_LEN, MAX_NAME_LEN, MAX_URI_LEN,
};

verus! {

/// The key a registration record is stored under: the event's key tuple
/// plus the attendee identity.
pub type RegKeyV = (EventIdV, Seq<u8>);

/// The key of the registration of `attendee` against `reg.event`.
pub open spec fn reg_key(reg: RegistrationV) -> RegKeyV {
    (reg.event, reg.attendee)
}

/// The mathematical state of the ledger: each record under its key.
#[verifier::ext_equal]
pub struct LedgerView {
    pub events: Map<EventIdV, EventV>,
    pub registrations: Map<RegKeyV, RegistrationV>,
}

/// The event records as key-value entries.
pub open spec fn event_entries(s: Seq<Event>) -> Seq<(EventIdV, EventV)> {
    s.map_values(|e: Event| (e@.id(), e@))
}

/// The registration records as key-value entries.
pub open spec fn registration_entries(s: Seq<EventRegistration>) -> Seq<(RegKeyV, RegistrationV)> {
    s.map_values(|r: EventRegistration| (reg_key(r@), r@))
}

/// Creating an event: fails on a key collision (duplicate name for this
/// creator), or when a field exceeds its fixed allocation; otherwise the
/// record appears with a running count of zero.
pub open spec fn initialize_transition(
    l: LedgerView,
    creator: Seq<u8>,
    name: Seq<u8>,
    description: Seq<u8>,
    uri: Seq<u8>,
    attendance_code: Seq<u8>,
    start_time: i64,
    end_time: i64,
    total_attendees: u32,
    collection_mint: Seq<u8>,
) -> (LedgerView, Result<(), TxError>) {
    let id = EventIdV { creator, name };
    if l.events.contains_key(id) {
        (l, Err(TxError::AccountAlreadyExists))
    } else if name.len() > MAX_NAME_LEN || description.len() > MAX_DESCRIPTION_LEN || uri.len()
        > MAX_URI_LEN {
        (l, Err(TxError::DataTooLarge))
    } else {
        let e = EventV {
            creator,
            name,
            description,
            uri,
            attendance_code,
            start_time,
            end_time,
            total_attendees,
            registered_attendees: 0u32,
            collection_mint,
        };
        (LedgerView { events: l.events.insert(id, e), ..l }, Ok(()))
    }
}

/// Editing an event: only the caller's own event resolves, and the four
/// mutable fields are overwritten unconditionally.
pub open spec fn edit_transition(
    l: LedgerView,
    caller: Seq<u8>,
    name: Seq<u8>,
    attendance_code: Seq<u8>,
    start_time: i64,
    end_time: i64,
    total_attendees: u32,
) -> (LedgerView, Result<(), TxError>) {
    let id = EventIdV { creator: caller, name };
    if !l.events.contains_key(id) {
        (l, Err(TxError::AccountNotFound))
    } else {
        let e2 = edited(l.events[id], attendance_code, start_time, end_time, total_attendees);
        (LedgerView { events: l.events.insert(id, e2), ..l }, Ok(()))
    }
}

/// Closing an event: the caller must match the stored creator; the record
/// is destroyed. Outstanding registrations are not checked and stay behind.
pub open spec fn close_transition(
    l: LedgerView,
    caller: Seq<u8>,
    creator: Seq<u8>,
    name: Seq<u8>,
) -> (LedgerView, Result<(), TxError>) {
    let id = EventIdV { creator, name };
    if !l.events.contains_key(id) {
        (l, Err(TxError::AccountNotFound))
    } else if caller != creator {
        (l, Err(TxError::AuthorityMismatch))
    } else {
        (LedgerView { events: l.events.remove(id), ..l }, Ok(()))
    }
}

/// Registering: the event must exist, the attendee must not already hold a
/// registration (its key collides), and the capacity ceiling must not be
/// reached; then the count rises by one and the registration appears.
pub open spec fn register_transition(
    l: LedgerView,
    attendee: Seq<u8>,
    creator: Seq<u8>,
    name: Seq<u8>,
) -> (LedgerView, Result<(), TxError>) {
    let id = EventIdV { creator, name };
    let rk = (id, attendee);
    if !l.events.contains_key(id) {
        (l, Err(TxError::AccountNotFound))
    } else if l.registrations.contains_key(rk) {
        (l, Err(TxError::AccountAlreadyExists))
    } else {
        match accept_result(l.events[id]) {
            Err(err) => (l, Err(err)),
            Ok(e2) => (
                LedgerView {
                    events: l.events.insert(id, e2),
                    registrations: l.registrations.insert(
                        rk,
                        RegistrationV {
                            event: id,
                            attendee,
                            registered: true,
                            attended: false,
                            credential_minted: false,
                        },
                    ),
                },
                Ok(()),
            ),
        }
    }
}

/// Cancelling: the event and the registration must exist; then the count
/// falls by one and the registration is destroyed.
pub open spec fn cancel_transition(
    l: LedgerView,
    attendee: Seq<u8>,
    creator: Seq<u8>,
    name: Seq<u8>,
) -> (LedgerView, Result<(), TxError>) {
    let id = EventIdV { creator, name };
    let rk = (id, attendee);
    if !l.events.contains_key(id) {
        (l, Err(TxError::AccountNotFound))
    } else if !l.registrations.contains_key(rk) {
        (l, Err(TxError::AccountNotFound))
    } else {
        match release_result(l.events[id]) {
            Err(err) => (l, Err(err)),
            Ok(e2) => (
                LedgerView {
                    events: l.events.insert(id, e2),
                    registrations: l.registrations.remove(rk),
                },
                Ok(()),
            ),
        }
    }
}

/// Redeeming an attendance claim: the event and the registration must
/// exist; the code, the idempotency guard and the time window are checked
/// in that order; on success the registration is terminally marked and one
/// credential issuance is authorized, named after the event and the
/// current count.
pub open spec fn mint_transition(
    l: LedgerView,
    attendee: Seq<u8>,
    creator: Seq<u8>,
    name: Seq<u8>,
    code: Seq<u8>,
    now: i64,
) -> (LedgerView, Result<CredentialIssuanceV, TxError>) {
    let id = EventIdV { creator, name };
    let rk = (id, attendee);
    if !l.events.contains_key(id) {
        (l, Err(TxError::AccountNotFound))
    } else if !l.registrations.contains_key(rk) {
        (l, Err(TxError::AccountNotFound))
    } else {
        let e = l.events[id];
        let reg = l.registrations[rk];
        match claim_check(e, reg, code, now) {
            Err(ec) => (l, Err(TxError::Program(ec))),
            Ok(()) => (
                LedgerView { registrations: l.registrations.insert(rk, issued(reg)), ..l },
                Ok(
                    CredentialIssuanceV {
                        nft_name: e.name + dec_digits(e.registered_attendees as nat),
                        nft_uri: e.uri,
                        attendee,
                        collection_mint: e.collection_mint,
                    },
                ),
            ),
        }
    }
}

/// The ledger itself. The record vectors never hold two records with one
/// key, so they denote the two maps of the view.
pub struct Ledger {
    events: Vec<Event>,
    registrations: Vec<EventRegistration>,
}

impl View for Ledger {
    type V = LedgerView;

    closed spec fn view(&self) -> LedgerView {
        LedgerView {
            events: kv_map(event_entries(self.events@)),
            registrations: kv_map(registration_entries(self.registrations@)),
        }
    }
}

proof fn lemma_event_entries_push(s: Seq<Event>, e: Event)
    requires
        kv_unique(event_entries(s)),
        !kv_map(event_entries(s)).contains_key(e@.id()),
    ensures
        kv_unique(event_entries(s.push(e))),
        kv_map(event_entries(s.push(e))) == kv_map(event_entries(s)).insert(e@.id(), e@),
{
    assert(event_entries(s.push(e)) =~= event_entries(s).push((e@.id(), e@)));
    lemma_kv_push(event_entries(s), (e@.id(), e@));
    lemma_kv_push_unique(event_entries(s), (e@.id(), e@));
}

proof fn lemma_event_entries_update(s: Seq<Event>, i: int, e2: Event)
    requires
        kv_unique(event_entries(s)),
        0 <= i < s.len(),
        e2@.id() == s[i]@.id(),
    ensures
        kv_unique(event_entries(s.update(i, e2))),
        kv_map(event_entries(s.update(i, e2))) == kv_map(event_entries(s)).insert(
            s[i]@.id(),
            e2@,
        ),
{
    assert(event_entries(s.update(i, e2)) =~= event_entries(s).update(i, (s[i]@.id(), e2@)));
    lemma_kv_update(event_entries(s), i, e2@);
}

proof fn lemma_event_entries_remove(s: Seq<Event>, i: int)
    requires
        kv_unique(event_entries(s)),
        0 <= i < s.len(),
    ensures
        kv_unique(event_entries(s.remove(i))),
        kv_map(event_entries(s.remove(i))) == kv_map(event_entries(s)).remove(s[i]@.id()),
{
    assert(event_entries(s.remove(i)) =~= event_entries(s).remove(i));
    lemma_kv_remove(event_entries(s), i);
}

proof fn lemma_registration_entries_push(s: Seq<EventRegistration>, r: EventRegistration)
    requires
        kv_unique(registration_entries(s)),
        !kv_map(registration_entries(s)).contains_key(reg_key(r@)),
    ensures
        kv_unique(registration_entries(s.push(r))),
        kv_map(registration_entries(s.push(r))) == kv_map(registration_entries(s)).insert(
            reg_key(r@),
            r@,
        ),
{
    assert(registration_entries(s.push(r)) =~= registration_entries(s).push((reg_key(r@), r@)));
    lemma_kv_push(registration_entries(s), (reg_key(r@), r@));
    lemma_kv_push_unique(registration_entries(s), (reg_key(r@), r@));
}

proof fn lemma_registration_entries_update(s: Seq<EventRegistration>, i: int, r2: EventRegistration)
    requires
        kv_unique(registration_entries(s)),
        0 <= i < s.len(),
        reg_key(r2@) == reg_key(s[i]@),
    ensures
        kv_unique(registration_entries(s.update(i, r2))),
        kv_map(registration_entries(s.update(i, r2))) == kv_map(registration_entries(s)).insert(
            reg_key(s[i]@),
            r2@,
        ),
{
    assert(registration_entries(s.update(i, r2)) =~= registration_entries(s).update(
        i,
        (reg_key(s[i]@), r2@),
    ));
    lemma_kv_update(registration_entries(s), i, r2@);
}

proof fn lemma_registration_entries_remove(s: Seq<EventRegistration>, i: int)
    requires
        kv_unique(registration_entries(s)),
        0 <= i < s.len(),
    ensures
        kv_unique(registration_entries(s.remove(i))),
        kv_map(registration_entries(s.remove(i))) == kv_map(registration_entries(s)).remove(
            reg_key(s[i]@),
        ),
{
    assert(registration_entries(s.remove(i)) =~= registration_entries(s).remove(i));
    lemma_kv_remove(registration_entries(s), i);
}

impl Ledger {
    /// The representation invariant: no two records share a key.
    pub closed spec fn wf(&self) -> bool {
        kv_unique(event_entries(self.events@)) && kv_unique(
            registration_entries(self.registrations@),
        )
    }

    /// An empty ledger.
    pub fn new() -> (l: Ledger)
        ensures
            l.wf(),
            l@.events == Map::<EventIdV, EventV>::empty(),
            l@.registrations == Map::<RegKeyV, RegistrationV>::empty(),
    {
        let l = Ledger { events: Vec::new(), registrations: Vec::new() };
        proof {
            assert(event_entries(l.events@).len() == 0);
            assert(registration_entries(l.registrations@).len() == 0);
        }
        l
    }

    /// Finds the index of the event stored under `(creator, name)`.
    fn find_event(&self, creator: &[u8; 32], name: &Vec<u8>) -> (r: Option<usize>)
        requires
            self.wf(),
        ensures
            match r {
                Some(i) => {
                    &&& i < self.events@.len()
                    &&& self.events@[i as int]@.id() == (EventIdV {
                        creator: creator@,
                        name: name@,
                    })
                    &&& self@.events.contains_key(EventIdV { creator: creator@, name: name@ })
                    &&& self@.events[EventIdV { creator: creator@, name: name@ }]
                        == self.events@[i as int]@
                },
                None => !self@.events.contains_key(EventIdV { creator: creator@, name: name@ }),
            },
    {
        let ghost k = EventIdV { creator: creator@, name: name@ };
        let mut i: usize = 0;
        while i < self.events.len()
            invariant
                self.wf(),
                k == (EventIdV { creator: creator@, name: name@ }),
                i <= self.events@.len(),
                forall|j: int|
                    0 <= j < i ==> !(self.events@[j]@.creator == creator@ && self.events@[j]@.name
                        == name@),
            decreases self.events@.len() - i,
        {
            let e = &self.events[i];
            proof {
                assert(event_entries(self.events@)[i as int] == (
                    self.events@[i as int]@.id(),
                    self.events@[i as int]@,
                ));
            }
            if bytes32_eq(&e.creator, creator) && bytes_eq(&e.name, name) {
                proof {
                    assert(self.events@[i as int]@.id() =~= k);
                    assert(event_entries(self.events@)[i as int].0 == k);
                    lemma_kv_get(event_entries(self.events@), i as int);
                }
                return Some(i);
            }
            i += 1;
        }
        proof {
            let entries = event_entries(self.events@);
            lemma_kv_contains(entries, k);
            if self@.events.contains_key(k) {
                let j = choose|j: int| 0 <= j < entries.len() && entries[j].0 == k;
                assert(entries[j] == (self.events@[j]@.id(), self.events@[j]@));
                assert(self.events@[j]@.id().creator == creator@);
                assert(self.events@[j]@.id().name == name@);
                assert(false);
            }
        }
        None
    }

    /// Finds the index of the registration stored under
    /// `((creator, name), attendee)`.
    fn find_registration(
        &self,
        creator: &[u8; 32],
        name: &Vec<u8>,
        attendee: &[u8; 32],
    ) -> (r: Option<usize>)
        requires
            self.wf(),
        ensures
            match r {
                Some(i) => {
                    &&& i < self.registrations@.len()
                    &&& reg_key(self.registrations@[i as int]@) == ((
                        EventIdV { creator: creator@, name: name@ },
                        attendee@,
                    ))
                    &&& self@.registrations.contains_key(
                        (EventIdV { creator: creator@, name: name@ }, attendee@),
                    )
                    &&& self@.registrations[(EventIdV { creator: creator@, name: name@ }, attendee@)]
                        == self.registrations@[i as int]@
                },
                None => !self@.registrations.contains_key(
                    (EventIdV { creator: creator@, name: name@ }, attendee@),
                ),
            },
    {
        let ghost k: RegKeyV = (EventIdV { creator: creator@, name: name@ }, attendee@);
        let mut i: usize = 0;
        while i < self.registrations.len()
            invariant
                self.wf(),
                k == ((EventIdV { creator: creator@, name: name@ }, attendee@)),
                i <= self.registrations@.len(),
                forall|j: int|
                    0 <= j < i ==> !(self.registrations@[j]@.event.creator == creator@
                        && self.registrations@[j]@.event.name == name@
                        && self.registrations@[j]@.attendee == attendee@),
            decreases self.registrations@.len() - i,
        {
            let reg = &self.registrations[i];
            proof {
                assert(registration_entries(self.registrations@)[i as int] == (
                    reg_key(self.registrations@[i as int]@),
                    self.registrations@[i as int]@,
                ));
            }
            if bytes32_eq(&reg.event.creator, creator) && bytes_eq(&reg.event.name, name)
                && bytes32_eq(&reg.attendee, attendee) {
                proof {
                    assert(self.registrations@[i as int]@.event =~= (EventIdV {
                        creator: creator@,
                        name: name@,
                    }));
                    assert(registration_entries(self.registrations@)[i as int].0 =~= k);
                    lemma_kv_get(registration_entries(self.registrations@), i as int);
                }
                return Some(i);
            }
            i += 1;
        }
        proof {
            let entries = registration_entries(self.registrations@);
            lemma_kv_contains(entries, k);
            if self@.registrations.contains_key(k) {
                let j = choose|j: int| 0 <= j < entries.len() && entries[j].0 == k;
                assert(entries[j] == (reg_key(self.registrations@[j]@), self.registrations@[j]@));
                assert(reg_key(self.registrations@[j]@).0.creator == creator@);
                assert(reg_key(self.registrations@[j]@).0.name == name@);
                assert(reg_key(self.registrations@[j]@).1 == attendee@);
                assert(false);
            }
        }
        None
    }

    /// Creates an event at the location derived from `(creator, name)` and
    /// sets its running count to zero. Fails if a record already exists
    /// there, or if a field exceeds its fixed allocation.
    pub fn initialize_event(
        &mut self,
        creator: [u8; 32],
        name: Vec<u8>,
        description: Vec<u8>,
        uri: Vec<u8>,
        attendance_code: [u8; 32],
        start_time: i64,
        end_time: i64,
        total_attendees: u32,
        collection_mint: [u8; 32],
    ) -> (r: Result<(), TxError>)
        requires
            old(self).wf(),
        ensures
            final(self).wf(),
            final(self)@ == initialize_transition(
                old(self)@,
                creator@,
                name@,
                description@,
                uri@,
                attendance_code@,
                start_time,
                end_time,
                total_attendees,
                collection_mint@,
            ).0,
            r == initialize_transition(
                old(self)@,
                creator@,
                name@,
                description@,
                uri@,
                attendance_code@,
                start_time,
                end_time,
                total_attendees,
                collection_mint@,
            ).1,
    {
        if self.find_event(&creator, &name).is_some() {
            return Err(TxError::AccountAlreadyExists);
        }
        if name.len() > MAX_NAME_LEN || description.len() > MAX_DESCRIPTION_LEN || uri.len()
            > MAX_URI_LEN {
            return Err(TxError::DataTooLarge);
        }
        let e = Event::new(
            creator,
            name,
            description,
            uri,
            attendance_code,
            start_time,
            end_time,
            total_attendees,
            collection_mint,
        );
        proof {
            lemma_event_entries_push(self.events@, e);
        }
        self.events.push(e);
        Ok(())
    }

    /// Overwrites the four mutable fields of the caller's event named
    /// `name`. Fails if the caller has no such event.
    pub fn edit_event(
        &mut self,
        caller: [u8; 32],
        name: &Vec<u8>,
        attendance_code: [u8; 32],
        start_time: i64,
        end_time: i64,
        total_attendees: u32,
    ) -> (r: Result<(), TxError>)
        requires
            old(self).wf(),
        ensures
            final(self).wf(),
            final(self)@ == edit_transition(
                old(self)@,
                caller@,
                name@,
                attendance_code@,
                start_time,
                end_time,
                total_attendees,
            ).0,
            r == edit_transition(
                old(self)@,
                caller@,
                name@,
                attendance_code@,
                start_time,
                end_time,
                total_attendees,
            ).1,
    {
        let ei = match self.find_event(&caller, name) {
            None => {
                return Err(TxError::AccountNotFound);
            },
            Some(i) => i,
        };
        let evt = &mut self.events[ei];
        evt.apply_edit(attendance_code, start_time, end_time, total_attendees);
        proof {
            lemma_event_entries_update(
                old(self).events@,
                ei as int,
                self.events@[ei as int],
            );
        }
        Ok(())
    }

    /// Destroys the event stored under `(creator, name)`. Fails if no such
    /// event exists or if the caller is not its creator. Outstanding
    /// registrations are not checked and stay behind.
    pub fn close_event(
        &mut self,
        caller: [u8; 32],
        creator: [u8; 32],
        name: &Vec<u8>,
    ) -> (r: Result<(), TxError>)
        requires
            old(self).wf(),
        ensures
            final(self).wf(),
            final(self)@ == close_transition(old(self)@, caller@, creator@, name@).0,
            r == close_transition(old(self)@, caller@, creator@, name@).1,
    {
        let ei = match self.find_event(&creator, name) {
            None => {
                return Err(TxError::AccountNotFound);
            },
            Some(i) => i,
        };
        if !bytes32_eq(&caller, &creator) {
            return Err(TxError::AuthorityMismatch);
        }
        proof {
            lemma_event_entries_remove(self.events@, ei as int);
        }
        let _ = self.events.remove(ei);
        Ok(())
    }

    /// Registers `attendee` for the event stored under `(creator, name)`.
    /// Fails if the event does not exist, if this attendee already holds a
    /// registration there, or if the capacity ceiling is reached; on
    /// success the running count rises by exactly one.
    pub fn register_event(
        &mut self,
        attendee: [u8; 32],
        creator: [u8; 32],
        name: &Vec<u8>,
    ) -> (r: Result<(), TxError>)
        requires
            old(self).wf(),
        ensures
            final(self).wf(),
            final(self)@ == register_transition(old(self)@, attendee@, creator@, name@).0,
            r == register_transition(old(self)@, attendee@, creator@, name@).1,
    {
        let ei = match self.find_event(&creator, name) {
            None => {
                return Err(TxError::AccountNotFound);
            },
            Some(i) => i,
        };
        if self.find_registration(&creator, name, &attendee).is_some() {
            return Err(TxError::AccountAlreadyExists);
        }
        let evt = &mut self.events[ei];
        let accepted = evt.accept_registration();
        match accepted {
            Err(err) => {
                proof {
                    assert(event_entries(self.events@) =~= event_entries(old(self).events@));
                }
                Err(err)
            },
            Ok(()) => {
                proof {
                    lemma_event_entries_update(
                        old(self).events@,
                        ei as int,
                        self.events@[ei as int],
                    );
                }
                let id = EventId { creator, name: clone_bytes(name) };
                let reg = EventRegistration::new(id, attendee);
                proof {
                    lemma_registration_entries_push(self.registrations@, reg);
                }
                self.registrations.push(reg);
                Ok(())
            },
        }
    }

    /// Cancels the registration of `attendee` against the event stored
    /// under `(creator, name)`, destroying the record. Fails if the event
    /// or the registration does not exist; on success the running count
    /// falls by exactly one.
    pub fn cancel_registration(
        &mut self,
        attendee: [u8; 32],
        creator: [u8; 32],
        name: &Vec<u8>,
    ) -> (r: Result<(), TxError>)
        requires
            old(self).wf(),
        ensures
            final(self).wf(),
            final(self)@ == cancel_transition(old(self)@, attendee@, creator@, name@).0,
            r == cancel_transition(old(self)@, attendee@, creator@, name@).1,
    {
        let ei = match self.find_event(&creator, name) {
            None => {
                return Err(TxError::AccountNotFound);
            },
            Some(i) => i,
        };
        let ri = match self.find_registration(&creator, name, &attendee) {
            None => {
                return Err(TxError::AccountNotFound);
            },
            Some(i) => i,
        };
        let evt = &mut self.events[ei];
        let released = evt.release_registration();
        match released {
            Err(err) => {
                proof {
                    assert(event_entries(self.events@) =~= event_entries(old(self).events@));
                }
                Err(err)
            },
            Ok(()) => {
                proof {
                    lemma_event_entries_update(
                        old(self).events@,
                        ei as int,
                        self.events@[ei as int],
                    );
                    lemma_registration_entries_remove(self.registrations@, ri as int);
                }
                let _ = self.registrations.remove(ri);
                Ok(())
            },
        }
    }

    /// Redeems an attendance claim: checks the code, the idempotency guard
    /// and the time window, and on success terminally marks the
    /// registration and returns the one authorized credential issuance.
    /// Every failure leaves the ledger untouched.
    pub fn mint_nft(
        &mut self,
        attendee: [u8; 32],
        creator: [u8; 32],
        name: &Vec<u8>,
        attendance_code: [u8; 32],
        now: i64,
    ) -> (r: Result<CredentialIssuance, TxError>)
        requires
            old(self).wf(),
        ensures
            final(self).wf(),
            final(self)@ == mint_transition(
                old(self)@,
                attendee@,
                creator@,
                name@,
                attendance_code@,
                now,
            ).0,
            match r {
                Ok(c) => mint_transition(
                    old(self)@,
                    attendee@,
                    creator@,
                    name@,
                    attendance_code@,
                    now,
                ).1 == Ok::<CredentialIssuanceV, TxError>(c@),
                Err(err) => mint_transition(
                    old(self)@,
                    attendee@,
                    creator@,
                    name@,
                    attendance_code@,
                    now,
                ).1 == Err::<CredentialIssuanceV, TxError>(err),
            },
    {
        let ei = match self.find_event(&creator, name) {
            None => {
                return Err(TxError::AccountNotFound);
            },
            Some(i) => i,
        };
        let ri = match self.find_registration(&creator, name, &attendee) {
            None => {
                return Err(TxError::AccountNotFound);
            },
            Some(i) => i,
        };
        match validate_attendance_claim(
            &self.events[ei],
            &self.registrations[ri],
            &attendance_code,
            now,
        ) {
            Err(ec) => {
                return Err(TxError::Program(ec));
            },
            Ok(()) => {},
        }
        let nft_name = credential_display_name(&self.events[ei]);
        let nft_uri = clone_bytes(&self.events[ei].uri);
        let collection_mint = self.events[ei].collection_mint;
        let reg = &mut self.registrations[ri];
        reg.record_issuance();
        proof {
            lemma_registration_entries_update(
                old(self).registrations@,
                ri as int,
                self.registrations@[ri as int],
            );
        }
        Ok(CredentialIssuance { nft_name, nft_uri, attendee, collection_mint })
    }

    /// Whether an event is stored under `(creator, name)`.
    pub fn event_exists(&self, creator: &[u8; 32], name: &Vec<u8>) -> (r: bool)
        requires
            self.wf(),
        ensures
            r == self@.events.contains_key(EventIdV { creator: creator@, name: name@ }),
    {
        self.find_event(creator, name).is_some()
    }

    /// The running attendee count of the event stored under
    /// `(creator, name)`, if it exists.
    pub fn registered_attendees(&self, creator: &[u8; 32], name: &Vec<u8>) -> (r: Option<u32>)
        requires
            self.wf(),
        ensures
            match r {
                Some(n) => self@.events.contains_key(EventIdV { creator: creator@, name: name@ })
                    && n == self@.events[EventIdV {
                    creator: creator@,
                    name: name@,
                }].registered_attendees,
                None => !self@.events.contains_key(EventIdV { creator: creator@, name: name@ }),
            },
    {
        match self.find_event(creator, name) {
            Some(i) => Some(self.events[i].registered_attendees),
            None => None,
        }
    }

    /// The flags `(registered, attended, credential_minted)` of the
    /// registration of `attendee` against `(creator, name)`, if it exists.
    pub fn registration_status(
        &self,
        creator: &[u8; 32],
        name: &Vec<u8>,
        attendee: &[u8; 32],
    ) -> (r: Option<(bool, bool, bool)>)
        requires
            self.wf(),
        ensures
            match r {
                Some(flags) => {
                    &&& self@.registrations.contains_key(
                        (EventIdV { creator: creator@, name: name@ }, attendee@),
                    )
                    &&& ({
                        let reg = self@.registrations[(
                            EventIdV { creator: creator@, name: name@ },
                            attendee@,
                        )];
                        flags == ((reg.registered, reg.attended, reg.credential_minted))
                    })
                },
                None => !self@.registrations.contains_key(
                    (EventIdV { creator: creator@, name: name@ }, attendee@),
                ),
            },
    {
        match self.find_registration(creator, name, attendee) {
            Some(i) => {
                let reg = &self.registrations[i];
                Some((reg.registered, reg.attended, reg.credential_minted))
            },
            None => None,
        }
    }
}

} // verus!
