//! Event-registration and proof-of-attendance issuance protocol.
//!
//! An organizer publishes an event with a capacity limit and a time window;
//! attendees register in advance; at the event they redeem a secret
//! attendance code within the active window to receive exactly one
//! collection-linked credential. The ledger that holds the records, the
//! ambient clock and the authenticated caller identity are modeled as
//! explicit values, so every operation is a function of (state, inputs).

pub mod authority;
pub mod bytesutil;
pub mod errors;
pub mod kv;
pub mod laws;
pub mod ledger;
pub mod records;
