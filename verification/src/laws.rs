//! The protocol's global guarantees, stated over the ledger transitions
//! and proved for every state and every interleaving of operations.

use vstd::prelude::*;
use crate::errors::{ErrorCode, TxError};
use crate::ledger::{
    cancel_transition, close_transition, edit_transition, initialize_transition, mint_transition,
    register_transition, LedgerView, RegKeyV,
};
use crate::records::{claim_check, CredentialIssuanceV, EventIdV, EventV, RegistrationV};

verus! {

/// One ledger operation, with the caller identity and, for redemption, the
/// clock reading as explicit inputs.
pub enum LedgerOp {
    Initialize {
        creator: Seq<u8>,
        name: Seq<u8>,
        description: Seq<u8>,
        uri: Seq<u8>,
        attendance_code: Seq<u8>,
        start_time: i64,
        end_time: i64,
        total_attendees: u32,
        collection_mint: Seq<u8>,
    },
    Edit {
        caller: Seq<u8>,
        name: Seq<u8>,
        attendance_code: Seq<u8>,
        start_time: i64,
        end_time: i64,
        total_attendees: u32,
    },
    Close { caller: Seq<u8>, creator: Seq<u8>, name: Seq<u8> },
    Register { attendee: Seq<u8>, creator: Seq<u8>, name: Seq<u8> },
    Cancel { attendee: Seq<u8>, creator: Seq<u8>, name: Seq<u8> },
    Mint { attendee: Seq<u8>, creator: Seq<u8>, name: Seq<u8>, code: Seq<u8>, now: i64 },
}

/// The state after one operation; a failed operation leaves the state as
/// it was.
pub open spec fn ledger_step(l: LedgerView, op: LedgerOp) -> LedgerView {
    match op {
        LedgerOp::Initialize {
            creator,
            name,
            description,
            uri,
            attendance_code,
            start_time,
            end_time,
            total_attendees,
            collection_mint,
        } => initialize_transition(
            l,
            creator,
            name,
            description,
            uri,
            attendance_code,
            start_time,
            end_time,
            total_attendees,
            collection_mint,
        ).0,
        LedgerOp::Edit { caller, name, attendance_code, start_time, end_time, total_attendees } => {
            edit_transition(l, caller, name, attendance_code, start_time, end_time, total_attendees).0
        },
        LedgerOp::Close { caller, creator, name } => close_transition(l, caller, creator, name).0,
        LedgerOp::Register { attendee, creator, name } => register_transition(
            l,
            attendee,
            creator,
            name,
        ).0,
        LedgerOp::Cancel { attendee, creator, name } => cancel_transition(
            l,
            attendee,
            creator,
            name,
        ).0,
        LedgerOp::Mint { attendee, creator, name, code, now } => mint_transition(
            l,
            attendee,
            creator,
            name,
            code,
            now,
        ).0,
    }
}

/// The state after a sequence of operations, applied left to right.
pub open spec fn ledger_steps(l: LedgerView, ops: Seq<LedgerOp>) -> LedgerView
    decreases ops.len(),
{
    if ops.len() == 0 {
        l
    } else {
        ledger_steps(ledger_step(l, ops[0]), ops.drop_first())
    }
}

/// Every event respects its capacity ceiling.
pub open spec fn capacity_ok(l: LedgerView) -> bool {
    forall|k: EventIdV|
        l.events.contains_key(k) ==> #[trigger] l.events[k].registered_attendees
            <= l.events[k].total_attendees
}

/// Register and cancel are the operations that move the running count.
pub open spec fn is_register_or_cancel(op: LedgerOp) -> bool {
    op is Register || op is Cancel
}

proof fn lemma_step_preserves_capacity(l: LedgerView, op: LedgerOp)
    requires
        capacity_ok(l),
        is_register_or_cancel(op),
    ensures
        capacity_ok(ledger_step(l, op)),
{
    let l2 = ledger_step(l, op);
    match op {
        LedgerOp::Register { attendee, creator, name } => {
            let id = EventIdV { creator, name };
            assert forall|k: EventIdV| l2.events.contains_key(k) implies #[trigger] l2.events[
                k
            ].registered_attendees <= l2.events[k].total_attendees by {
                if l2.events[k] != l.events[k] || !l.events.contains_key(k) {
                    assert(k == id);
                    assert(l.events[id].registered_attendees < l.events[id].total_attendees);
                }
            }
        },
        LedgerOp::Cancel { attendee, creator, name } => {
            let id = EventIdV { creator, name };
            assert forall|k: EventIdV| l2.events.contains_key(k) implies #[trigger] l2.events[
                k
            ].registered_attendees <= l2.events[k].total_attendees by {
                if l2.events[k] != l.events[k] || !l.events.contains_key(k) {
                    assert(k == id);
                }
            }
        },
        _ => {},
    }
}

/// For all events, after any sequence of register and cancel operations,
/// the running count stays between zero and the capacity ceiling.
pub proof fn lemma_capacity_invariant(l: LedgerView, ops: Seq<LedgerOp>)
    requires
        capacity_ok(l),
        forall|i: int| 0 <= i < ops.len() ==> is_register_or_cancel(#[trigger] ops[i]),
    ensures
        capacity_ok(ledger_steps(l, ops)),
    decreases ops.len(),
{
    if ops.len() > 0 {
        lemma_step_preserves_capacity(l, ops[0]);
        assert(forall|i: int|
            0 <= i < ops.drop_first().len() ==> is_register_or_cancel(
                #[trigger] ops.drop_first()[i],
            ));
        lemma_capacity_invariant(ledger_step(l, ops[0]), ops.drop_first());
    }
}

/// An existing registration survives every operation except a cancellation
/// under its own key.
proof fn lemma_step_keeps_registration(l: LedgerView, op: LedgerOp, k: RegKeyV)
    requires
        l.registrations.contains_key(k),
        op != (LedgerOp::Cancel { attendee: k.1, creator: k.0.creator, name: k.0.name }),
    ensures
        ledger_step(l, op).registrations.contains_key(k),
{
    match op {
        LedgerOp::Cancel { attendee, creator, name } => {
            let id = EventIdV { creator, name };
            if (id, attendee) == k {
                assert(id.creator == k.0.creator);
                assert(id.name == k.0.name);
                assert(id =~= k.0);
                assert(false);
            }
        },
        _ => {},
    }
}

/// An absent registration stays absent under every operation except a
/// registration under its own key.
proof fn lemma_step_keeps_unregistered(l: LedgerView, op: LedgerOp, k: RegKeyV)
    requires
        !l.registrations.contains_key(k),
        op != (LedgerOp::Register { attendee: k.1, creator: k.0.creator, name: k.0.name }),
    ensures
        !ledger_step(l, op).registrations.contains_key(k),
{
    match op {
        LedgerOp::Register { attendee, creator, name } => {
            let id = EventIdV { creator, name };
            if (id, attendee) == k {
                assert(id =~= k.0);
                assert(false);
            }
        },
        LedgerOp::Mint { attendee, creator, name, code, now } => {
            let id = EventIdV { creator, name };
            if (id, attendee) == k {
                assert(!l.registrations.contains_key((id, attendee)));
            }
        },
        _ => {},
    }
}

/// A registration that is marked issued keeps its mark under every
/// operation except a cancellation under its own key.
proof fn lemma_step_keeps_minted(l: LedgerView, op: LedgerOp, k: RegKeyV)
    requires
        l.registrations.contains_key(k),
        l.registrations[k].credential_minted,
        op != (LedgerOp::Cancel { attendee: k.1, creator: k.0.creator, name: k.0.name }),
    ensures
        ledger_step(l, op).registrations.contains_key(k),
        ledger_step(l, op).registrations[k].credential_minted,
{
    lemma_step_keeps_registration(l, op, k);
    match op {
        LedgerOp::Mint { attendee, creator, name, code, now } => {},
        _ => {},
    }
}

/// Registering twice for the same (event, attendee) pair always fails on
/// the second attempt, whatever operations come between — registration,
/// cancellation, issuance by other attendees, edits, closures, even a
/// re-creation of the event — as long as that same attendee does not
/// cancel; and the failed attempt changes nothing.
pub proof fn lemma_second_registration_fails(
    l0: LedgerView,
    creator: Seq<u8>,
    name: Seq<u8>,
    attendee: Seq<u8>,
    ops: Seq<LedgerOp>,
)
    requires
        register_transition(l0, attendee, creator, name).1 is Ok,
        forall|i: int|
            0 <= i < ops.len() ==> #[trigger] ops[i] != (LedgerOp::Cancel {
                attendee,
                creator,
                name,
            }),
    ensures
        ({
            let l1 = register_transition(l0, attendee, creator, name).0;
            let l2 = ledger_steps(l1, ops);
            register_transition(l2, attendee, creator, name).1 is Err && register_transition(
                l2,
                attendee,
                creator,
                name,
            ).0 == l2
        }),
{
    let id = EventIdV { creator, name };
    let rk: RegKeyV = (id, attendee);
    let l1 = register_transition(l0, attendee, creator, name).0;
    assert(l1.registrations.contains_key(rk));
    lemma_registration_persists(l1, ops, rk);
}

/// Helper induction: a registration under `k` survives a sequence of
/// operations none of which cancels `k`.
proof fn lemma_registration_persists(l: LedgerView, ops: Seq<LedgerOp>, k: RegKeyV)
    requires
        l.registrations.contains_key(k),
        forall|i: int|
            0 <= i < ops.len() ==> #[trigger] ops[i] != (LedgerOp::Cancel {
                attendee: k.1,
                creator: k.0.creator,
                name: k.0.name,
            }),
    ensures
        ledger_steps(l, ops).registrations.contains_key(k),
    decreases ops.len(),
{
    if ops.len() > 0 {
        lemma_step_keeps_registration(l, ops[0], k);
        assert(forall|i: int|
            0 <= i < ops.drop_first().len() ==> #[trigger] ops.drop_first()[i]
                != (LedgerOp::Cancel { attendee: k.1, creator: k.0.creator, name: k.0.name }));
        lemma_registration_persists(ledger_step(l, ops[0]), ops.drop_first(), k);
    }
}

/// Canceling a registration that was never created fails, and changes
/// nothing.
pub proof fn lemma_cancel_unregistered_fails(
    l: LedgerView,
    creator: Seq<u8>,
    name: Seq<u8>,
    attendee: Seq<u8>,
)
    requires
        !l.registrations.contains_key((EventIdV { creator, name }, attendee)),
    ensures
        cancel_transition(l, attendee, creator, name).1 is Err,
        cancel_transition(l, attendee, creator, name).0 == l,
{
}

/// Canceling twice fails on the second attempt, whatever operations come
/// between, as long as that same attendee does not register again; and the
/// failed attempt changes nothing.
pub proof fn lemma_second_cancel_fails(
    l0: LedgerView,
    creator: Seq<u8>,
    name: Seq<u8>,
    attendee: Seq<u8>,
    ops: Seq<LedgerOp>,
)
    requires
        cancel_transition(l0, attendee, creator, name).1 is Ok,
        forall|i: int|
            0 <= i < ops.len() ==> #[trigger] ops[i] != (LedgerOp::Register {
                attendee,
                creator,
                name,
            }),
    ensures
        ({
            let l1 = cancel_transition(l0, attendee, creator, name).0;
            let l2 = ledger_steps(l1, ops);
            cancel_transition(l2, attendee, creator, name).1 is Err && cancel_transition(
                l2,
                attendee,
                creator,
                name,
            ).0 == l2
        }),
{
    let id = EventIdV { creator, name };
    let rk: RegKeyV = (id, attendee);
    let l1 = cancel_transition(l0, attendee, creator, name).0;
    assert(!l1.registrations.contains_key(rk));
    lemma_unregistered_persists(l1, ops, rk);
}

/// Helper induction: an absent registration under `k` stays absent through
/// a sequence of operations none of which registers `k`.
proof fn lemma_unregistered_persists(l: LedgerView, ops: Seq<LedgerOp>, k: RegKeyV)
    requires
        !l.registrations.contains_key(k),
        forall|i: int|
            0 <= i < ops.len() ==> #[trigger] ops[i] != (LedgerOp::Register {
                attendee: k.1,
                creator: k.0.creator,
                name: k.0.name,
            }),
    ensures
        !ledger_steps(l, ops).registrations.contains_key(k),
    decreases ops.len(),
{
    if ops.len() > 0 {
        lemma_step_keeps_unregistered(l, ops[0], k);
        assert(forall|i: int|
            0 <= i < ops.drop_first().len() ==> #[trigger] ops.drop_first()[i]
                != (LedgerOp::Register { attendee: k.1, creator: k.0.creator, name: k.0.name }));
        lemma_unregistered_persists(ledger_step(l, ops[0]), ops.drop_first(), k);
    }
}

/// A claim whose code is not bit-for-bit equal to the stored code fails
/// with `InvalidAttendanceCode`, whatever the time and whatever the
/// registration's state, and changes nothing.
pub proof fn lemma_wrong_code_rejected(
    l: LedgerView,
    creator: Seq<u8>,
    name: Seq<u8>,
    attendee: Seq<u8>,
    code: Seq<u8>,
    now: i64,
)
    requires
        l.events.contains_key(EventIdV { creator, name }),
        l.registrations.contains_key((EventIdV { creator, name }, attendee)),
        code != l.events[EventIdV { creator, name }].attendance_code,
    ensures
        mint_transition(l, attendee, creator, name, code, now).1 == Err::<CredentialIssuanceV, TxError>(
            TxError::Program(ErrorCode::InvalidAttendanceCode),
        ),
        mint_transition(l, attendee, creator, name, code, now).0 == l,
{
}

/// A claim against a registration that is already marked issued fails with
/// `NftAlreadyMinted` — even with the right code, at any time — and
/// changes nothing, so no second issuance is ever authorized.
pub proof fn lemma_mint_idempotency_guard(
    l: LedgerView,
    creator: Seq<u8>,
    name: Seq<u8>,
    attendee: Seq<u8>,
    code: Seq<u8>,
    now: i64,
)
    requires
        l.events.contains_key(EventIdV { creator, name }),
        l.registrations.contains_key((EventIdV { creator, name }, attendee)),
        l.registrations[(EventIdV { creator, name }, attendee)].credential_minted,
        code == l.events[EventIdV { creator, name }].attendance_code,
    ensures
        mint_transition(l, attendee, creator, name, code, now).1 == Err::<CredentialIssuanceV, TxError>(
            TxError::Program(ErrorCode::NftAlreadyMinted),
        ),
        mint_transition(l, attendee, creator, name, code, now).0 == l,
{
}

/// After a successful issuance the `credential_minted` mark persists
/// through any operations that do not cancel that registration, so a later
/// claim runs into the idempotency guard.
pub proof fn lemma_minted_mark_persists(
    l0: LedgerView,
    creator: Seq<u8>,
    name: Seq<u8>,
    attendee: Seq<u8>,
    code: Seq<u8>,
    now: i64,
    ops: Seq<LedgerOp>,
)
    requires
        mint_transition(l0, attendee, creator, name, code, now).1 is Ok,
        forall|i: int|
            0 <= i < ops.len() ==> #[trigger] ops[i] != (LedgerOp::Cancel {
                attendee,
                creator,
                name,
            }),
    ensures
        ({
            let l2 = ledger_steps(mint_transition(l0, attendee, creator, name, code, now).0, ops);
            l2.registrations.contains_key((EventIdV { creator, name }, attendee))
                && l2.registrations[(EventIdV { creator, name }, attendee)].credential_minted
        }),
{
    let id = EventIdV { creator, name };
    let rk: RegKeyV = (id, attendee);
    let l1 = mint_transition(l0, attendee, creator, name, code, now).0;
    assert(l1.registrations.contains_key(rk));
    assert(l1.registrations[rk].credential_minted);
    lemma_minted_persists_steps(l1, ops, rk);
}

/// Helper induction: an issued mark under `k` persists through a sequence
/// of operations none of which cancels `k`.
proof fn lemma_minted_persists_steps(l: LedgerView, ops: Seq<LedgerOp>, k: RegKeyV)
    requires
        l.registrations.contains_key(k),
        l.registrations[k].credential_minted,
        forall|i: int|
            0 <= i < ops.len() ==> #[trigger] ops[i] != (LedgerOp::Cancel {
                attendee: k.1,
                creator: k.0.creator,
                name: k.0.name,
            }),
    ensures
        ledger_steps(l, ops).registrations.contains_key(k),
        ledger_steps(l, ops).registrations[k].credential_minted,
    decreases ops.len(),
{
    if ops.len() > 0 {
        lemma_step_keeps_minted(l, ops[0], k);
        assert(forall|i: int|
            0 <= i < ops.drop_first().len() ==> #[trigger] ops.drop_first()[i]
                != (LedgerOp::Cancel { attendee: k.1, creator: k.0.creator, name: k.0.name }));
        lemma_minted_persists_steps(ledger_step(l, ops[0]), ops.drop_first(), k);
    }
}

/// The redemption window is inclusive at both ends: with the right code,
/// an unissued registration and a well-ordered window, a claim at exactly
/// the start or exactly the end succeeds.
pub proof fn lemma_window_boundaries(e: EventV, reg: RegistrationV, code: Seq<u8>)
    requires
        code == e.attendance_code,
        !reg.credential_minted,
        e.start_time <= e.end_time,
    ensures
        claim_check(e, reg, code, e.start_time) is Ok,
        claim_check(e, reg, code, e.end_time) is Ok,
{
}

/// A claim strictly before the start or strictly after the end of the
/// window fails with `NotMintingTime`, with the right code and an unissued
/// registration.
pub proof fn lemma_window_excludes_outside(e: EventV, reg: RegistrationV, code: Seq<u8>, now: i64)
    requires
        code == e.attendance_code,
        !reg.credential_minted,
        now < e.start_time || now > e.end_time,
    ensures
        claim_check(e, reg, code, now) == Err::<(), ErrorCode>(ErrorCode::NotMintingTime),
{
}

} // verus!
