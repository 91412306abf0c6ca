//! Deterministic derivation of storage locations and of the collection
//! authority. Every record and the event's collection live at an address
//! derived from a fixed namespace tag plus the key fields, so addressing
//! doubles as a uniqueness check, and the protocol can sign as the
//! collection authority without holding a long-lived secret: the identity
//! and its bump seed are re-derived from the event name on every call.

use vstd::prelude::*;
use anchor_lang::prelude::Pubkey;
use crate::bytesutil::{bytes32_to_vec, clone_bytes};

verus! {

/// The program-derived address and bump seed that the execution
/// environment assigns to a list of seed byte strings under a program
/// identity, when one exists. The derivation is a pure function of the
/// seeds and the program identity.
pub uninterp spec fn pda_of(seeds: Seq<Seq<u8>>, program_id: Seq<u8>) -> Option<(Seq<u8>, u8)>;

/// The views of a list of seed byte strings.
pub open spec fn seed_views(seeds: Seq<Vec<u8>>) -> Seq<Seq<u8>> {
    seeds.map_values(|s: Vec<u8>| s@)
}

/// Relies on Pubkey::try_find_program_address: off the chain it computes
/// the derivation inline, so the result depends on the seeds and the
/// program identity alone; it returns None when the seed list or a seed is
/// over the environment's length limits, or in the statistically
/// improbable event that no bump seed yields a valid address.
#[verifier::external_body]
fn find_derived_address(seeds: &Vec<Vec<u8>>, program_id: &[u8; 32]) -> (r: Option<([u8; 32], u8)>)
    ensures
        match r {
            Some(pair) => pda_of(seed_views(seeds@), program_id@) == Some((pair.0@, pair.1)),
            None => pda_of(seed_views(seeds@), program_id@) is None,
        },
{
    let seed_refs: Vec<&[u8]> = seeds.iter().map(|s| s.as_slice()).collect();
    Pubkey::try_find_program_address(&seed_refs, &Pubkey::new_from_array(*program_id))
        .map(|(address, bump)| (address.to_bytes(), bump))
}

/// The namespace tag of event records: the bytes of "event".
pub open spec fn event_tag() -> Seq<u8> {
    seq![101u8, 118u8, 101u8, 110u8, 116u8]
}

/// The namespace tag of registration records: the bytes of "attendee".
pub open spec fn attendee_tag() -> Seq<u8> {
    seq![97u8, 116u8, 116u8, 101u8, 110u8, 100u8, 101u8, 101u8]
}

/// The namespace tag of the collection authority: the bytes of
/// "collection_mint".
pub open spec fn collection_mint_tag() -> Seq<u8> {
    seq![
        99u8,
        111u8,
        108u8,
        108u8,
        101u8,
        99u8,
        116u8,
        105u8,
        111u8,
        110u8,
        95u8,
        109u8,
        105u8,
        110u8,
        116u8,
    ]
}

/// The namespace tag of per-attendee credential identities: the bytes of
/// "nft_mint".
pub open spec fn nft_mint_tag() -> Seq<u8> {
    seq![110u8, 102u8, 116u8, 95u8, 109u8, 105u8, 110u8, 116u8]
}

fn event_tag_bytes() -> (r: Vec<u8>)
    ensures
        r@ == event_tag(),
{
    let mut v: Vec<u8> = Vec::new();
    v.push(101);
    v.push(118);
    v.push(101);
    v.push(110);
    v.push(116);
    proof {
        assert(v@ =~= event_tag());
    }
    v
}

fn attendee_tag_bytes() -> (r: Vec<u8>)
    ensures
        r@ == attendee_tag(),
{
    let mut v: Vec<u8> = Vec::new();
    v.push(97);
    v.push(116);
    v.push(116);
    v.push(101);
    v.push(110);
    v.push(100);
    v.push(101);
    v.push(101);
    proof {
        assert(v@ =~= attendee_tag());
    }
    v
}

fn collection_mint_tag_bytes() -> (r: Vec<u8>)
    ensures
        r@ == collection_mint_tag(),
{
    let mut v: Vec<u8> = Vec::new();
    v.push(99);
    v.push(111);
    v.push(108);
    v.push(108);
    v.push(101);
    v.push(99);
    v.push(116);
    v.push(105);
    v.push(111);
    v.push(110);
    v.push(95);
    v.push(109);
    v.push(105);
    v.push(110);
    v.push(116);
    proof {
        assert(v@ =~= collection_mint_tag());
    }
    v
}

fn nft_mint_tag_bytes() -> (r: Vec<u8>)
    ensures
        r@ == nft_mint_tag(),
{
    let mut v: Vec<u8> = Vec::new();
    v.push(110);
    v.push(102);
    v.push(116);
    v.push(95);
    v.push(109);
    v.push(105);
    v.push(110);
    v.push(116);
    proof {
        assert(v@ =~= nft_mint_tag());
    }
    v
}

/// The seeds the collection authority of an event derives from: the tag
/// plus the event name alone.
pub open spec fn collection_authority_seeds(name: Seq<u8>) -> Seq<Seq<u8>> {
    seq![collection_mint_tag(), name]
}

/// The seeds an event record's location derives from.
pub open spec fn event_address_seeds(creator: Seq<u8>, name: Seq<u8>) -> Seq<Seq<u8>> {
    seq![event_tag(), creator, name]
}

/// The seeds a registration record's location derives from.
pub open spec fn registration_address_seeds(event: Seq<u8>, attendee: Seq<u8>) -> Seq<Seq<u8>> {
    seq![attendee_tag(), event, attendee]
}

/// The seeds a per-attendee credential identity derives from.
pub open spec fn credential_address_seeds(event: Seq<u8>, attendee: Seq<u8>) -> Seq<Seq<u8>> {
    seq![nft_mint_tag(), event, attendee]
}

/// Derives the identity of an event's credential collection and the bump
/// seed of its signing capability, from the event name alone. Two distinct
/// names derive distinct identities except by deliberate hash collision.
pub fn derive_collection_authority(name: &Vec<u8>, program_id: &[u8; 32]) -> (r: Option<
    ([u8; 32], u8),
>)
    ensures
        match r {
            Some(pair) => pda_of(collection_authority_seeds(name@), program_id@) == Some(
                (pair.0@, pair.1),
            ),
            None => pda_of(collection_authority_seeds(name@), program_id@) is None,
        },
{
    let mut seeds: Vec<Vec<u8>> = Vec::new();
    seeds.push(collection_mint_tag_bytes());
    seeds.push(clone_bytes(name));
    proof {
        assert(seed_views(seeds@) =~= collection_authority_seeds(name@));
    }
    find_derived_address(&seeds, program_id)
}

/// Derives the storage location of the event record of `(creator, name)`.
pub fn derive_event_address(
    creator: &[u8; 32],
    name: &Vec<u8>,
    program_id: &[u8; 32],
) -> (r: Option<([u8; 32], u8)>)
    ensures
        match r {
            Some(pair) => pda_of(event_address_seeds(creator@, name@), program_id@) == Some(
                (pair.0@, pair.1),
            ),
            None => pda_of(event_address_seeds(creator@, name@), program_id@) is None,
        },
{
    let mut seeds: Vec<Vec<u8>> = Vec::new();
    seeds.push(event_tag_bytes());
    seeds.push(bytes32_to_vec(creator));
    seeds.push(clone_bytes(name));
    proof {
        assert(seed_views(seeds@) =~= event_address_seeds(creator@, name@));
    }
    find_derived_address(&seeds, program_id)
}

/// Derives the storage location of the registration of `attendee` against
/// the event record at `event`.
pub fn derive_registration_address(
    event: &[u8; 32],
    attendee: &[u8; 32],
    program_id: &[u8; 32],
) -> (r: Option<([u8; 32], u8)>)
    ensures
        match r {
            Some(pair) => pda_of(registration_address_seeds(event@, attendee@), program_id@)
                == Some((pair.0@, pair.1)),
            None => pda_of(registration_address_seeds(event@, attendee@), program_id@) is None,
        },
{
    let mut seeds: Vec<Vec<u8>> = Vec::new();
    seeds.push(attendee_tag_bytes());
    seeds.push(bytes32_to_vec(event));
    seeds.push(bytes32_to_vec(attendee));
    proof {
        assert(seed_views(seeds@) =~= registration_address_seeds(event@, attendee@));
    }
    find_derived_address(&seeds, program_id)
}

/// Derives the identity of the credential minted to `attendee` for the
/// event record at `event`.
pub fn derive_credential_address(
    event: &[u8; 32],
    attendee: &[u8; 32],
    program_id: &[u8; 32],
) -> (r: Option<([u8; 32], u8)>)
    ensures
        match r {
            Some(pair) => pda_of(credential_address_seeds(event@, attendee@), program_id@) == Some(
                (pair.0@, pair.1),
            ),
            None => pda_of(credential_address_seeds(event@, attendee@), program_id@) is None,
        },
{
    let mut seeds: Vec<Vec<u8>> = Vec::new();
    seeds.push(nft_mint_tag_bytes());
    seeds.push(bytes32_to_vec(event));
    seeds.push(bytes32_to_vec(attendee));
    proof {
        assert(seed_views(seeds@) =~= credential_address_seeds(event@, attendee@));
    }
    find_derived_address(&seeds, program_id)
}

} // verus!
