//! Creator volume tiers: the fee tier an admin assigned to a creator, and the
//! maintenance index that keeps those assignments alive.
//!
//! Storage layout:
//! - persistent `("CreatorTier", creator)`: the tier's code;
//! - persistent `("CreatorTierIndexed", creator)`: `true` once the creator
//!   has a slot of the index, which it keeps for good;
//! - persistent `("CreatorTierIndex", n)`: the `n`-th creator ever assigned a tier;
//! - instance `("CreatorTierIndexCount",)`: how many slots are used.
use vstd::prelude::*;
use soroban_sdk::{Address, Env};
use crate::auth::{admin_role_key, is_admin, require_admin};
use crate::error::PurchaseError;
use crate::index::{
    append_to_index, count_well_typed, entry_key, extend_indexed_ttl, index_consistent_in,
    index_count, index_well_typed, takes_slot, index_covers_in, lemma_entry_then_slot, lemma_record_keeps_index_covering,
    lemma_record_keeps_index_consistent, marker_key, recorded, recorded_instance, recorded_keys,
    slot_key, sweep_end, swept_keys,
};
use crate::storage::{
    contract_events,
    address_strkey, instance_entries, instance_live_until, ledger_sequence, max_live_until,
    persistent_entries, persistent_get_u32_by_address, persistent_has_by_address,
    persistent_live_until, persistent_set_u32_by_address, valid_symbol, StoreKey, StoreValue,
    authorized_addresses, required_auths,
};
use crate::ttl::{
    contents_and_ledger_unchanged, storage_unchanged, extend_persistent_ttl_by_address, lemma_renew_all_empty,
    lemma_write_then_renew, renew_all, renewed, written_and_renewed,
};

verus! {

/// A creator's fee tier.
#[derive(Clone, Copy, Debug, PartialEq, Eq, Structural)]
pub enum CreatorTier {
    /// The platform fee applies.
    Default,
    Tier1,
    Tier2,
}

/// The code under which a tier is stored.
pub open spec fn tier_code(t: CreatorTier) -> u32 {
    match t {
        CreatorTier::Default => 0,
        CreatorTier::Tier1 => 1,
        CreatorTier::Tier2 => 2,
    }
}

/// The tier stored under a code; an unknown code reads as the default tier.
pub open spec fn tier_of_code(n: u32) -> CreatorTier {
    if n == 1 {
        CreatorTier::Tier1
    } else if n == 2 {
        CreatorTier::Tier2
    } else {
        CreatorTier::Default
    }
}

fn code_of_tier(t: CreatorTier) -> (n: u32)
    ensures
        n == tier_code(t),
{
    match t {
        CreatorTier::Default => 0,
        CreatorTier::Tier1 => 1,
        CreatorTier::Tier2 => 2,
    }
}

fn tier_from_code(n: u32) -> (t: CreatorTier)
    ensures
        t == tier_of_code(n),
{
    if n == 1 {
        CreatorTier::Tier1
    } else if n == 2 {
        CreatorTier::Tier2
    } else {
        CreatorTier::Default
    }
}

/// The tag of the tier entries.
pub open spec fn tier_tag_spec() -> Seq<char> {
    "CreatorTier"@
}

/// The tag of the markers of the creators that have a tier index slot.
pub open spec fn tier_marker_tag_spec() -> Seq<char> {
    "CreatorTierIndexed"@
}

/// The tag of the tier index slots.
pub open spec fn tier_slot_tag_spec() -> Seq<char> {
    "CreatorTierIndex"@
}

/// The tag of the tier index counter.
pub open spec fn tier_count_tag_spec() -> Seq<char> {
    "CreatorTierIndexCount"@
}

/// The key of the tier of the creator with strkey `id`.
pub open spec fn tier_key(id: Seq<u8>) -> StoreKey {
    entry_key(tier_tag_spec(), id)
}

/// The tier of the creator with strkey `id`: the stored one, or the default.
pub open spec fn stored_tier(env: Env, id: Seq<u8>) -> CreatorTier {
    match persistent_entries(env).get(tier_key(id)) {
        Some(StoreValue::U32(n)) => tier_of_code(n),
        _ => CreatorTier::Default,
    }
}

/// The entry of the creator, when there is one, holds a tier code.
pub open spec fn tier_entry_well_typed(env: Env, id: Seq<u8>) -> bool {
    persistent_entries(env).contains_key(tier_key(id)) ==> persistent_entries(env)[tier_key(id)] is U32
}

/// Whether writing the tier of the creator with strkey `id` gives it a slot of
/// the tier index: it has none and was never recorded.
pub open spec fn tier_takes_slot(env: Env, id: Seq<u8>) -> bool {
    takes_slot(persistent_entries(env), tier_tag_spec(), tier_marker_tag_spec(), id)
}

/// The number of used tier index slots.
pub open spec fn tier_count(env: Env) -> u64 {
    index_count(env, tier_count_tag_spec())
}

/// Every creator with an entry, or ever recorded, sits in a slot below the
/// counter, so a sweep from 0 reaches it.
pub open spec fn tier_index_covers(env: Env) -> bool {
    index_covers_in(env, tier_tag_spec(), tier_marker_tag_spec(), tier_slot_tag_spec(), tier_count_tag_spec())
}

/// The tier index records exactly the creators with a tier and the marked addresses, each once.
pub open spec fn tier_index_consistent(env: Env) -> bool {
    index_consistent_in(env, tier_tag_spec(), tier_marker_tag_spec(), tier_slot_tag_spec(), tier_count_tag_spec())
}

/// The tier entries and their markers have different tags.
proof fn lemma_tier_tags_distinct()
    ensures
        tier_tag_spec() != tier_marker_tag_spec(),
{
    reveal_strlit("CreatorTier");
    reveal_strlit("CreatorTierIndexed");
    assert(tier_tag_spec().len() != tier_marker_tag_spec().len());
}

fn tier_marker_tag() -> (t: &'static str)
    ensures
        t@ == tier_marker_tag_spec(),
        valid_symbol(t@),
{
    proof {
        reveal_strlit("CreatorTierIndexed");
    }
    "CreatorTierIndexed"
}

fn tier_tag() -> (t: &'static str)
    ensures
        t@ == tier_tag_spec(),
        valid_symbol(t@),
{
    proof {
        reveal_strlit("CreatorTier");
    }
    "CreatorTier"
}

fn tier_slot_tag() -> (t: &'static str)
    ensures
        t@ == tier_slot_tag_spec(),
        valid_symbol(t@),
{
    proof {
        reveal_strlit("CreatorTierIndex");
    }
    "CreatorTierIndex"
}

fn tier_count_tag() -> (t: &'static str)
    ensures
        t@ == tier_count_tag_spec(),
        valid_symbol(t@),
{
    proof {
        reveal_strlit("CreatorTierIndexCount");
    }
    "CreatorTierIndexCount"
}

/// Assigns `tier` to `creator`.  Only an admin may do so, and it must have
/// authorized the call; `NotAuthorized` otherwise.  The first assignment to a
/// creator also marks it and records it in the tier index.
pub fn set_creator_tier(
    env: &mut Env,
    admin: &Address,
    creator: &Address,
    tier: CreatorTier,
) -> (r: Result<(), PurchaseError>)
    requires
        authorized_addresses(*old(env)).contains(address_strkey(*admin)),
        count_well_typed(*old(env), tier_count_tag_spec()),
        !tier_takes_slot(*old(env), address_strkey(*creator)) || tier_count(*old(env)) < u64::MAX,
    ensures
        r is Ok <==> is_admin(*old(env), address_strkey(*admin)),
        r is Err ==> r == Err::<(), PurchaseError>(PurchaseError::NotAuthorized),
        required_auths(*final(env)) == required_auths(*old(env)).insert(address_strkey(*admin)),
        r is Err ==> storage_unchanged(*old(env), *final(env)),
        r is Err ==> persistent_live_until(*final(env)) == persistent_live_until(*old(env)),
        r is Err ==> instance_live_until(*final(env)) == instance_live_until(*old(env)),
        r is Ok ==> persistent_entries(*final(env)) == recorded(
            persistent_entries(*old(env)),
            tier_tag_spec(),
            tier_marker_tag_spec(),
            tier_slot_tag_spec(),
            address_strkey(*creator),
            tier_count(*old(env)),
            StoreValue::U32(tier_code(tier)),
        ),
        r is Ok ==> instance_entries(*final(env)) == recorded_instance(
            instance_entries(*old(env)),
            persistent_entries(*old(env)),
            tier_tag_spec(),
            tier_marker_tag_spec(),
            tier_count_tag_spec(),
            address_strkey(*creator),
            tier_count(*old(env)),
        ),
        r is Ok ==> written_and_renewed(
            renew_all(
                persistent_live_until(*old(env)),
                set![admin_role_key(address_strkey(*admin))],
                max_live_until(*old(env)),
            ),
            persistent_live_until(*final(env)),
            recorded_keys(
                persistent_entries(*old(env)),
                tier_tag_spec(),
                tier_marker_tag_spec(),
                tier_slot_tag_spec(),
                address_strkey(*creator),
                tier_count(*old(env)),
            ),
            max_live_until(*old(env)),
        ),
        r is Ok ==> instance_live_until(*final(env)) == if !tier_takes_slot(*old(env), address_strkey(*creator)) {
            instance_live_until(*old(env))
        } else {
            renewed(instance_live_until(*old(env)), max_live_until(*old(env)))
        },
        ledger_sequence(*final(env)) == ledger_sequence(*old(env)),
        contract_events(*final(env)) == contract_events(*old(env)),
        max_live_until(*final(env)) == max_live_until(*old(env)),
        r is Ok ==> stored_tier(*final(env), address_strkey(*creator)) == tier,
        tier_index_covers(*old(env)) ==> tier_index_covers(*final(env)),
        tier_index_consistent(*old(env)) ==> tier_index_consistent(*final(env)),
{
    match require_admin(env, admin) {
        Err(e) => {
            proof {
                lemma_renew_all_empty(persistent_live_until(*old(env)), max_live_until(*old(env)));
            }
            return Err(e);
        },
        Ok(()) => {},
    }
    let ghost lu_mid = persistent_live_until(*env);
    let ghost max = max_live_until(*old(env));
    let ghost id = address_strkey(*creator);
    let ghost c = tier_count(*old(env));
    let tag = tier_tag();
    let has_entry = persistent_has_by_address(env, tag, creator);
    let is_new = !has_entry && !persistent_has_by_address(env, tier_marker_tag(), creator);
    persistent_set_u32_by_address(env, tag, creator, code_of_tier(tier));
    let ghost lu1 = persistent_live_until(*env);
    extend_persistent_ttl_by_address(env, tag, creator);
    proof {
        lemma_write_then_renew(lu_mid, lu1, tier_key(id), max);
        lemma_tier_tags_distinct();
    }
    let ghost lu2 = persistent_live_until(*env);
    if is_new {
        append_to_index(env, tier_marker_tag(), tier_slot_tag(), tier_count_tag(), creator);
    }
    proof {
        lemma_assigned_tier_reads_back(*old(env), *env, id, c, tier, id);
        lemma_entry_then_slot(
            lu_mid,
            lu2,
            persistent_live_until(*env),
            tier_key(id),
            marker_key(tier_marker_tag_spec(), id),
            slot_key(tier_slot_tag_spec(), c),
            is_new,
            max,
        );
        if tier_index_covers(*old(env)) {
            lemma_record_keeps_index_covering(
                persistent_entries(*old(env)),
                tier_tag_spec(),
                tier_marker_tag_spec(),
                tier_slot_tag_spec(),
                id,
                c,
                StoreValue::U32(tier_code(tier)),
            );
        }
        if tier_index_consistent(*old(env)) {
            lemma_record_keeps_index_consistent(
                persistent_entries(*old(env)),
                tier_tag_spec(),
                tier_marker_tag_spec(),
                tier_slot_tag_spec(),
                id,
                c,
                StoreValue::U32(tier_code(tier)),
            );
        }
    }
    Ok(())
}

/// The tier of `creator`: the one assigned, or `Default` when none was.  An
/// assignment that is found has its TTL renewed.
pub fn get_creator_tier(env: &mut Env, creator: &Address) -> (t: CreatorTier)
    requires
        tier_entry_well_typed(*old(env), address_strkey(*creator)),
    ensures
        t == stored_tier(*old(env), address_strkey(*creator)),
        contents_and_ledger_unchanged(*old(env), *final(env)),
        instance_live_until(*final(env)) == instance_live_until(*old(env)),
        persistent_live_until(*final(env)) == renew_all(
            persistent_live_until(*old(env)),
            if persistent_entries(*old(env)).contains_key(tier_key(address_strkey(*creator))) {
                set![tier_key(address_strkey(*creator))]
            } else {
                Set::empty()
            },
            max_live_until(*old(env)),
        ),
{
    let tag = tier_tag();
    match persistent_get_u32_by_address(env, tag, creator) {
        Some(code) => {
            extend_persistent_ttl_by_address(env, tag, creator);
            tier_from_code(code)
        },
        None => {
            proof {
                lemma_renew_all_empty(persistent_live_until(*old(env)), max_live_until(*old(env)));
            }
            CreatorTier::Default
        },
    }
}

/// Renews the TTL of up to `limit` (at most `MAX_MAINTENANCE_BATCH`) slots of
/// the tier index starting at `cursor`, and of the markers and tiers of the
/// creators they record; also renews the contract instance.  Returns the cursor at which
/// the next call should start.
pub fn extend_creator_tier_ttl(env: &mut Env, cursor: u64, limit: u32) -> (end: u64)
    requires
        index_well_typed(*old(env), tier_slot_tag_spec(), tier_count_tag_spec()),
    ensures
        end == sweep_end(cursor, limit, tier_count(*old(env))),
        end <= cursor + limit,
        end <= tier_count(*old(env)),
        cursor < tier_count(*old(env)) && limit > 0 ==> cursor < end,
        contents_and_ledger_unchanged(*old(env), *final(env)),
        instance_live_until(*final(env)) == renewed(instance_live_until(*old(env)), max_live_until(*old(env))),
        persistent_live_until(*final(env)) == renew_all(
            persistent_live_until(*old(env)),
            swept_keys(
                persistent_entries(*old(env)),
                tier_tag_spec(),
                tier_marker_tag_spec(),
                tier_slot_tag_spec(),
                cursor,
                end,
            ),
            max_live_until(*old(env)),
        ),
{
    extend_indexed_ttl(env, tier_tag(), tier_marker_tag(), tier_slot_tag(), tier_count_tag(), cursor, limit)
}

/// Read after write: once `tier` is assigned to the creator `id`, the tier
/// read for it is `tier`, whatever it was before, and every other creator
/// reads the tier it had.
pub proof fn lemma_assigned_tier_reads_back(e0: Env, e1: Env, id: Seq<u8>, count: u64, tier: CreatorTier, other: Seq<u8>)
    requires
        persistent_entries(e1) == recorded(
            persistent_entries(e0),
            tier_tag_spec(),
            tier_marker_tag_spec(),
            tier_slot_tag_spec(),
            id,
            count,
            StoreValue::U32(tier_code(tier)),
        ),
    ensures
        stored_tier(e1, id) == tier,
        other != id ==> stored_tier(e1, other) == stored_tier(e0, other),
{
    lemma_tier_tags_distinct();
    assert(tier_key(id) != slot_key(tier_slot_tag_spec(), count));
    assert(tier_key(id) != marker_key(tier_marker_tag_spec(), id));
    assert(tier_key(other) != slot_key(tier_slot_tag_spec(), count));
    assert(tier_key(other) != marker_key(tier_marker_tag_spec(), id));
}

/// After a tier is assigned, reading it gives it back; assigning `Default`
/// reads back as `Default`.
pub proof fn lemma_tier_read_after_write(pe: Map<StoreKey, StoreValue>, id: Seq<u8>, count: u64, tier: CreatorTier)
    ensures
        recorded(
            pe,
            tier_tag_spec(),
            tier_marker_tag_spec(),
            tier_slot_tag_spec(),
            id,
            count,
            StoreValue::U32(tier_code(tier)),
        ).get(tier_key(id)) == Some(StoreValue::U32(tier_code(tier))),
        tier_of_code(tier_code(tier)) == tier,
{
    lemma_tier_tags_distinct();
    assert(tier_key(id) != slot_key(tier_slot_tag_spec(), count));
    assert(tier_key(id) != marker_key(tier_marker_tag_spec(), id));
}

} // verus!
