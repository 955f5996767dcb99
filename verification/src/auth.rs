//! Admin roles: who holds the admin role, the index of every admin ever
//! granted the role (so that their entries can be kept alive page by page),
//! and the checks that admin-only requests make.
//!
//! Storage layout (the keys that `#[contracttype]` would give):
//! - persistent `("AdminRole", address)`: `true` while the address is an admin;
//! - persistent `("AdminRoleIndexed", address)`: `true` once the address has
//!   a slot of the index, which it keeps for good;
//! - persistent `("AdminRoleIndex", n)`: the `n`-th address granted the role;
//! - instance `("AdminRoleIndexCount",)`: how many slots of the index are used.
use vstd::prelude::*;
use soroban_sdk::{Address, Env};
use crate::error::PurchaseError;
use crate::index::{
    append_to_index, count_well_typed, entry_key, extend_indexed_ttl, index_consistent_in,
    index_count, index_well_typed, takes_slot, index_covers_in, lemma_entry_then_slot, lemma_record_keeps_index_covering,
    lemma_record_keeps_index_consistent, marker_key, recorded, recorded_instance, recorded_keys,
    slot_key, count_key, sweep_end, swept_keys, full_sweep_calls, lemma_full_sweep_renews_every_entry,
    live_until_after_sweep,
};
use crate::storage::{
    contract_events, instance_get_address, instance_remove, instance_set_address, address_eq,
    publish_one_address, publish_two_addresses, EventField, EventRecord,
    address_strkey, instance_entries, instance_live_until, ledger_sequence, max_live_until,
    persistent_entries, persistent_has_by_address, persistent_live_until,
    persistent_set_bool_by_address, require_auth, valid_symbol, StoreKey, StoreValue,
    auths_unchanged, authorized_addresses, required_auths,
};
use crate::ttl::{
    contents_and_ledger_unchanged, extend_persistent_ttl_by_address, lemma_renew_all_empty,
    lemma_write_then_renew, renew_all, renewed, storage_unchanged, written_and_renewed,
};

pub use crate::index::MAX_MAINTENANCE_BATCH;

verus! {

/// The tag of the admin-role entries.
pub open spec fn admin_role_tag_spec() -> Seq<char> {
    "AdminRole"@
}

/// The tag of the markers of the addresses that have an admin index slot.
pub open spec fn admin_marker_tag_spec() -> Seq<char> {
    "AdminRoleIndexed"@
}

/// The tag of the admin index slots.
pub open spec fn admin_slot_tag_spec() -> Seq<char> {
    "AdminRoleIndex"@
}

/// The tag of the admin index counter.
pub open spec fn admin_count_tag_spec() -> Seq<char> {
    "AdminRoleIndexCount"@
}

/// The key of the admin-role flag of the address with strkey `id`.
pub open spec fn admin_role_key(id: Seq<u8>) -> StoreKey {
    entry_key(admin_role_tag_spec(), id)
}

/// Whether the address with strkey `id` holds the admin role.
pub open spec fn is_admin(env: Env, id: Seq<u8>) -> bool {
    persistent_entries(env).contains_key(admin_role_key(id))
}

/// Whether granting the role to the address with strkey `id` gives it a slot
/// of the admin index: it neither holds the role nor was ever recorded.
pub open spec fn admin_takes_slot(env: Env, id: Seq<u8>) -> bool {
    takes_slot(persistent_entries(env), admin_role_tag_spec(), admin_marker_tag_spec(), id)
}

/// The number of used admin index slots (0 before the first grant).
pub open spec fn admin_count(env: Env) -> u64 {
    index_count(env, admin_count_tag_spec())
}

/// The stored admin counter, when there is one, is a `u64`.
pub open spec fn admin_count_well_typed(env: Env) -> bool {
    count_well_typed(env, admin_count_tag_spec())
}

/// The admin counter is well typed and every admin slot holds an address.
pub open spec fn admin_index_well_typed(env: Env) -> bool {
    index_well_typed(env, admin_slot_tag_spec(), admin_count_tag_spec())
}

/// Every address that holds the admin role, or ever took a slot, is recorded
/// in a slot below the counter, so a sweep from 0 reaches it.
pub open spec fn admin_index_covers(env: Env) -> bool {
    index_covers_in(
        env,
        admin_role_tag_spec(),
        admin_marker_tag_spec(),
        admin_slot_tag_spec(),
        admin_count_tag_spec(),
    )
}

/// The admin index records exactly the admins and the marked addresses, each
/// once.
pub open spec fn admin_index_consistent(env: Env) -> bool {
    index_consistent_in(
        env,
        admin_role_tag_spec(),
        admin_marker_tag_spec(),
        admin_slot_tag_spec(),
        admin_count_tag_spec(),
    )
}

/// The admin role's entries and markers have different tags.
proof fn lemma_admin_tags_distinct()
    ensures
        admin_role_tag_spec() != admin_marker_tag_spec(),
{
    reveal_strlit("AdminRole");
    reveal_strlit("AdminRoleIndexed");
    assert(admin_role_tag_spec().len() != admin_marker_tag_spec().len());
}

fn admin_role_tag() -> (t: &'static str)
    ensures
        t@ == admin_role_tag_spec(),
        valid_symbol(t@),
{
    proof {
        reveal_strlit("AdminRole");
    }
    "AdminRole"
}

fn admin_marker_tag() -> (t: &'static str)
    ensures
        t@ == admin_marker_tag_spec(),
        valid_symbol(t@),
{
    proof {
        reveal_strlit("AdminRoleIndexed");
    }
    "AdminRoleIndexed"
}

fn admin_slot_tag() -> (t: &'static str)
    ensures
        t@ == admin_slot_tag_spec(),
        valid_symbol(t@),
{
    proof {
        reveal_strlit("AdminRoleIndex");
    }
    "AdminRoleIndex"
}

fn admin_count_tag() -> (t: &'static str)
    ensures
        t@ == admin_count_tag_spec(),
        valid_symbol(t@),
{
    proof {
        reveal_strlit("AdminRoleIndexCount");
    }
    "AdminRoleIndexCount"
}

/// Whether `admin` holds the admin role.  A role that is found has its TTL
/// renewed, so that admins who keep acting keep their role alive.
pub fn has_admin_role(env: &mut Env, admin: &Address) -> (has: bool)
    ensures
        has == is_admin(*old(env), address_strkey(*admin)),
        contents_and_ledger_unchanged(*old(env), *final(env)),
        instance_live_until(*final(env)) == instance_live_until(*old(env)),
        persistent_live_until(*final(env)) == renew_all(
            persistent_live_until(*old(env)),
            if has { set![admin_role_key(address_strkey(*admin))] } else { Set::empty() },
            max_live_until(*old(env)),
        ),
{
    let tag = admin_role_tag();
    let has = persistent_has_by_address(env, tag, admin);
    if has {
        extend_persistent_ttl_by_address(env, tag, admin);
    } else {
        proof {
            lemma_renew_all_empty(persistent_live_until(*old(env)), max_live_until(*old(env)));
        }
    }
    has
}

/// Checks that `caller` authorized the invocation and holds the admin role;
/// `NotAuthorized` when it does not hold the role.  The authorization is
/// required in either case.
pub fn require_admin(env: &mut Env, caller: &Address) -> (r: Result<(), PurchaseError>)
    requires
        authorized_addresses(*old(env)).contains(address_strkey(*caller)),
    ensures
        r == if is_admin(*old(env), address_strkey(*caller)) {
            Ok::<(), PurchaseError>(())
        } else {
            Err(PurchaseError::NotAuthorized)
        },
        required_auths(*final(env)) == required_auths(*old(env)).insert(address_strkey(*caller)),
        storage_unchanged(*old(env), *final(env)),
        instance_live_until(*final(env)) == instance_live_until(*old(env)),
        persistent_live_until(*final(env)) == renew_all(
            persistent_live_until(*old(env)),
            if r is Ok { set![admin_role_key(address_strkey(*caller))] } else { Set::empty() },
            max_live_until(*old(env)),
        ),
{
    require_auth(env, caller);
    if !has_admin_role(env, caller) {
        return Err(PurchaseError::NotAuthorized);
    }
    Ok(())
}

/// Marks `admin` as indexed, records it in the next free slot of the admin
/// index and moves the counter on.  The marker
/// `("AdminRoleIndexed", admin)` is what keeps the index filled only the
/// first time an address is granted the role: without it, an address whose
/// role entry is gone would take a second slot when granted the role again.
fn index_admin_role(env: &mut Env, admin: &Address)
    requires
        admin_count_well_typed(*old(env)),
        admin_count(*old(env)) < u64::MAX,
    ensures
        persistent_entries(*final(env)) == persistent_entries(*old(env)).insert(
            marker_key(admin_marker_tag_spec(), address_strkey(*admin)),
            StoreValue::Bool(true),
        ).insert(
            slot_key(admin_slot_tag_spec(), admin_count(*old(env))),
            StoreValue::Address(address_strkey(*admin)),
        ),
        instance_entries(*final(env)) == instance_entries(*old(env)).insert(
            count_key(admin_count_tag_spec()),
            StoreValue::U64((admin_count(*old(env)) + 1) as u64),
        ),
        written_and_renewed(
            persistent_live_until(*old(env)),
            persistent_live_until(*final(env)),
            set![
                marker_key(admin_marker_tag_spec(), address_strkey(*admin)),
                slot_key(admin_slot_tag_spec(), admin_count(*old(env)))
            ],
            max_live_until(*old(env)),
        ),
        instance_live_until(*final(env)) == renewed(instance_live_until(*old(env)), max_live_until(*old(env))),
        ledger_sequence(*final(env)) == ledger_sequence(*old(env)),
        contract_events(*final(env)) == contract_events(*old(env)),
        max_live_until(*final(env)) == max_live_until(*old(env)),
        auths_unchanged(*old(env), *final(env)),
{
    append_to_index(env, admin_marker_tag(), admin_slot_tag(), admin_count_tag(), admin);
}

/// Grants `admin` the admin role.  The first grant to an address also marks
/// it and records it in the admin index, so that maintenance can page through
/// every admin.  A grant to an address that holds the role only writes the
/// role entry again; one to an address that lost its role but was marked
/// does not record it again either.
pub fn set_admin_role(env: &mut Env, admin: &Address)
    requires
        admin_count_well_typed(*old(env)),
        !admin_takes_slot(*old(env), address_strkey(*admin)) || admin_count(*old(env)) < u64::MAX,
    ensures
        persistent_entries(*final(env)) == recorded(
            persistent_entries(*old(env)),
            admin_role_tag_spec(),
            admin_marker_tag_spec(),
            admin_slot_tag_spec(),
            address_strkey(*admin),
            admin_count(*old(env)),
            StoreValue::Bool(true),
        ),
        instance_entries(*final(env)) == recorded_instance(
            instance_entries(*old(env)),
            persistent_entries(*old(env)),
            admin_role_tag_spec(),
            admin_marker_tag_spec(),
            admin_count_tag_spec(),
            address_strkey(*admin),
            admin_count(*old(env)),
        ),
        written_and_renewed(
            persistent_live_until(*old(env)),
            persistent_live_until(*final(env)),
            recorded_keys(
                persistent_entries(*old(env)),
                admin_role_tag_spec(),
                admin_marker_tag_spec(),
                admin_slot_tag_spec(),
                address_strkey(*admin),
                admin_count(*old(env)),
            ),
            max_live_until(*old(env)),
        ),
        instance_live_until(*final(env)) == if !admin_takes_slot(*old(env), address_strkey(*admin)) {
            instance_live_until(*old(env))
        } else {
            renewed(instance_live_until(*old(env)), max_live_until(*old(env)))
        },
        !admin_takes_slot(*old(env), address_strkey(*admin)) ==> admin_count(*final(env)) == admin_count(*old(env)),
        is_admin(*old(env), address_strkey(*admin)) ==> persistent_entries(*final(env)) == persistent_entries(
            *old(env),
        ).insert(admin_role_key(address_strkey(*admin)), StoreValue::Bool(true)),
        is_admin(*old(env), address_strkey(*admin)) ==> instance_entries(*final(env)) == instance_entries(*old(env)),
        ledger_sequence(*final(env)) == ledger_sequence(*old(env)),
        contract_events(*final(env)) == contract_events(*old(env)),
        max_live_until(*final(env)) == max_live_until(*old(env)),
        auths_unchanged(*old(env), *final(env)),
        admin_count_well_typed(*final(env)),
        admin_index_covers(*old(env)) ==> admin_index_covers(*final(env)),
        admin_index_consistent(*old(env)) ==> admin_index_consistent(*final(env)),
{
    let tag = admin_role_tag();
    let has_role = persistent_has_by_address(env, tag, admin);
    let is_new_admin = !has_role && !persistent_has_by_address(env, admin_marker_tag(), admin);
    persistent_set_bool_by_address(env, tag, admin, true);
    let ghost lu1 = persistent_live_until(*env);
    extend_persistent_ttl_by_address(env, tag, admin);
    let ghost id = address_strkey(*admin);
    let ghost max = max_live_until(*old(env));
    let ghost c = admin_count(*old(env));
    proof {
        lemma_write_then_renew(persistent_live_until(*old(env)), lu1, admin_role_key(id), max);
        lemma_admin_tags_distinct();
    }
    let ghost lu2 = persistent_live_until(*env);
    if is_new_admin {
        index_admin_role(env, admin);
    }
    proof {
        lemma_entry_then_slot(
            persistent_live_until(*old(env)),
            lu2,
            persistent_live_until(*env),
            admin_role_key(id),
            marker_key(admin_marker_tag_spec(), id),
            slot_key(admin_slot_tag_spec(), c),
            is_new_admin,
            max,
        );
        if admin_index_covers(*old(env)) {
            lemma_record_keeps_index_covering(
                persistent_entries(*old(env)),
                admin_role_tag_spec(),
                admin_marker_tag_spec(),
                admin_slot_tag_spec(),
                id,
                c,
                StoreValue::Bool(true),
            );
        }
        if admin_index_consistent(*old(env)) {
            lemma_record_keeps_index_consistent(
                persistent_entries(*old(env)),
                admin_role_tag_spec(),
                admin_marker_tag_spec(),
                admin_slot_tag_spec(),
                id,
                c,
                StoreValue::Bool(true),
            );
        }
    }
}

/// Renews the TTL of up to `limit` (at most `MAX_MAINTENANCE_BATCH`) slots of
/// the admin index, starting at `cursor`, and of the markers and role flags
/// of the admins they record; also renews the contract instance.  Returns the cursor at
/// which the next call should start.  Anyone may call it.
pub fn extend_admin_role_ttl(env: &mut Env, cursor: u64, limit: u32) -> (end: u64)
    requires
        admin_index_well_typed(*old(env)),
    ensures
        end == sweep_end(cursor, limit, admin_count(*old(env))),
        end <= cursor + limit,
        end <= admin_count(*old(env)),
        cursor < admin_count(*old(env)) && limit > 0 ==> cursor < end,
        contents_and_ledger_unchanged(*old(env), *final(env)),
        instance_live_until(*final(env)) == renewed(instance_live_until(*old(env)), max_live_until(*old(env))),
        persistent_live_until(*final(env)) == renew_all(
            persistent_live_until(*old(env)),
            swept_keys(
                persistent_entries(*old(env)),
                admin_role_tag_spec(),
                admin_marker_tag_spec(),
                admin_slot_tag_spec(),
                cursor,
                end,
            ),
            max_live_until(*old(env)),
        ),
{
    extend_indexed_ttl(env, admin_role_tag(), admin_marker_tag(), admin_slot_tag(), admin_count_tag(), cursor, limit)
}

/// Maintenance keeps every admin alive: when the admin index covers the
/// admins, the calls of `extend_admin_role_ttl` that page from 0 with a
/// positive limit, each starting where the previous one ended, renew the role
/// of every admin by the time they reach the end of the index.  (Every stored
/// entry has a live-until ledger.)
pub proof fn lemma_sweep_renews_every_admin(env: Env, limit: u32, id: Seq<u8>)
    requires
        admin_index_covers(env),
        limit > 0,
        forall|key: StoreKey| #[trigger] persistent_entries(env).contains_key(key) ==> persistent_live_until(
            env,
        ).contains_key(key),
        is_admin(env, id),
    ensures
        live_until_after_sweep(
            persistent_live_until(env),
            persistent_entries(env),
            admin_role_tag_spec(),
            admin_marker_tag_spec(),
            admin_slot_tag_spec(),
            limit,
            admin_count(env),
            max_live_until(env),
            full_sweep_calls(limit, admin_count(env)),
        )[admin_role_key(id)] >= max_live_until(env),
{
    lemma_full_sweep_renews_every_entry(
        persistent_live_until(env),
        persistent_entries(env),
        admin_role_tag_spec(),
        admin_marker_tag_spec(),
        admin_slot_tag_spec(),
        limit,
        admin_count(env),
        max_live_until(env),
        id,
    );
}

/// After a grant the address holds the admin role.
pub proof fn lemma_granted_is_admin(pe: Map<StoreKey, StoreValue>, id: Seq<u8>, count: u64)
    ensures
        recorded(
            pe,
            admin_role_tag_spec(),
            admin_marker_tag_spec(),
            admin_slot_tag_spec(),
            id,
            count,
            StoreValue::Bool(true),
        ).contains_key(admin_role_key(id)),
{
}


/// The tag of the pending-admin entry.
pub open spec fn pending_admin_tag_spec() -> Seq<char> {
    "PendingAdmin"@
}

/// The instance key of the address that an admin transfer is waiting for.
pub open spec fn pending_admin_key() -> StoreKey {
    StoreKey::Unit(pending_admin_tag_spec())
}

/// The strkey of the address that a transfer recorded in the instance
/// entries `ie` is waiting for, if any.
pub open spec fn pending_in(ie: Map<StoreKey, StoreValue>) -> Option<Seq<u8>> {
    match ie.get(pending_admin_key()) {
        Some(StoreValue::Address(id)) => Some(id),
        _ => None,
    }
}

/// The strkey of the address that an admin transfer is waiting for, if any.
pub open spec fn pending_admin(env: Env) -> Option<Seq<u8>> {
    pending_in(instance_entries(env))
}

/// The pending-admin entry, when there is one, holds an address.
pub open spec fn pending_admin_well_typed(env: Env) -> bool {
    instance_entries(env).contains_key(pending_admin_key()) ==> instance_entries(env)[pending_admin_key()] is Address
}

/// The event published when an admin starts a transfer: topic
/// `admin_transfer_initiated`, data `{current_admin, new_admin}`.
pub open spec fn transfer_initiated_event(current: Seq<u8>, new: Seq<u8>) -> EventRecord {
    EventRecord {
        topics: seq!["admin_transfer_initiated"@],
        data: map!["current_admin"@ => EventField::Address(current), "new_admin"@ => EventField::Address(new)],
    }
}

/// The event published when a transfer is accepted: topic
/// `admin_transfer_accepted`, data `{new_admin}`.
pub open spec fn transfer_accepted_event(new: Seq<u8>) -> EventRecord {
    EventRecord {
        topics: seq!["admin_transfer_accepted"@],
        data: map!["new_admin"@ => EventField::Address(new)],
    }
}

fn pending_admin_tag() -> (t: &'static str)
    ensures
        t@ == pending_admin_tag_spec(),
        valid_symbol(t@),
{
    proof {
        reveal_strlit("PendingAdmin");
    }
    "PendingAdmin"
}

/// Starts handing the admin role to `new_admin`: records it as pending and
/// publishes `admin_transfer_initiated`.  Only an admin may do so;
/// `NotAuthorized` otherwise.
pub fn transfer_admin(env: &mut Env, current_admin: &Address, new_admin: &Address) -> (r: Result<(), PurchaseError>)
    requires
        authorized_addresses(*old(env)).contains(address_strkey(*current_admin)),
    ensures
        r is Ok <==> is_admin(*old(env), address_strkey(*current_admin)),
        r is Err ==> r == Err::<(), PurchaseError>(PurchaseError::NotAuthorized),
        required_auths(*final(env)) == required_auths(*old(env)).insert(address_strkey(*current_admin)),
        r is Err ==> storage_unchanged(*old(env), *final(env)),
        r is Err ==> persistent_live_until(*final(env)) == persistent_live_until(*old(env)),
        r is Ok ==> persistent_entries(*final(env)) == persistent_entries(*old(env)),
        r is Ok ==> instance_entries(*final(env)) == instance_entries(*old(env)).insert(
            pending_admin_key(),
            StoreValue::Address(address_strkey(*new_admin)),
        ),
        r is Ok ==> persistent_live_until(*final(env)) == renew_all(
            persistent_live_until(*old(env)),
            set![admin_role_key(address_strkey(*current_admin))],
            max_live_until(*old(env)),
        ),
        r is Ok ==> contract_events(*final(env)) == contract_events(*old(env)).push(
            transfer_initiated_event(address_strkey(*current_admin), address_strkey(*new_admin)),
        ),
        instance_live_until(*final(env)) == instance_live_until(*old(env)),
        ledger_sequence(*final(env)) == ledger_sequence(*old(env)),
        max_live_until(*final(env)) == max_live_until(*old(env)),
        admin_index_covers(*old(env)) ==> admin_index_covers(*final(env)),
        admin_index_consistent(*old(env)) ==> admin_index_consistent(*final(env)),
{
    match require_admin(env, current_admin) {
        Err(e) => {
            proof {
                lemma_renew_all_empty(persistent_live_until(*old(env)), max_live_until(*old(env)));
            }
            return Err(e);
        },
        Ok(()) => {},
    }
    instance_set_address(env, pending_admin_tag(), new_admin);
    proof {
        reveal_strlit("PendingAdmin");
        reveal_strlit("AdminRoleIndexCount");
        assert(pending_admin_tag_spec().len() != admin_count_tag_spec().len());
        reveal_strlit("admin_transfer_initiated");
        reveal_strlit("current_admin");
        reveal_strlit("new_admin");
    }
    publish_two_addresses(env, "admin_transfer_initiated", "current_admin", current_admin, "new_admin", new_admin);
    Ok(())
}

/// Completes an admin transfer: `new_admin` must have authorized the call and
/// be the pending address.  It is granted the admin role, the pending entry
/// is cleared and `admin_transfer_accepted` is published.
/// `NoPendingAdminTransfer` when no transfer is pending; `NotAuthorized` when
/// another address is pending.  The previous admin keeps the role.
pub fn accept_admin(env: &mut Env, new_admin: &Address) -> (r: Result<(), PurchaseError>)
    requires
        authorized_addresses(*old(env)).contains(address_strkey(*new_admin)),
        admin_count_well_typed(*old(env)),
        pending_admin_well_typed(*old(env)),
        !admin_takes_slot(*old(env), address_strkey(*new_admin)) || admin_count(*old(env)) < u64::MAX,
    ensures
        r == match pending_admin(*old(env)) {
            None => Err::<(), PurchaseError>(PurchaseError::NoPendingAdminTransfer),
            Some(p) => if p == address_strkey(*new_admin) {
                Ok(())
            } else {
                Err(PurchaseError::NotAuthorized)
            },
        },
        required_auths(*final(env)) == required_auths(*old(env)).insert(address_strkey(*new_admin)),
        r is Err ==> storage_unchanged(*old(env), *final(env)),
        r is Err ==> persistent_live_until(*final(env)) == persistent_live_until(*old(env)),
        r is Err ==> instance_live_until(*final(env)) == instance_live_until(*old(env)),
        r is Ok ==> persistent_entries(*final(env)) == recorded(
            persistent_entries(*old(env)),
            admin_role_tag_spec(),
            admin_marker_tag_spec(),
            admin_slot_tag_spec(),
            address_strkey(*new_admin),
            admin_count(*old(env)),
            StoreValue::Bool(true),
        ),
        r is Ok ==> instance_entries(*final(env)) == recorded_instance(
            instance_entries(*old(env)),
            persistent_entries(*old(env)),
            admin_role_tag_spec(),
            admin_marker_tag_spec(),
            admin_count_tag_spec(),
            address_strkey(*new_admin),
            admin_count(*old(env)),
        ).remove(pending_admin_key()),
        r is Ok ==> written_and_renewed(
            persistent_live_until(*old(env)),
            persistent_live_until(*final(env)),
            recorded_keys(
                persistent_entries(*old(env)),
                admin_role_tag_spec(),
                admin_marker_tag_spec(),
                admin_slot_tag_spec(),
                address_strkey(*new_admin),
                admin_count(*old(env)),
            ),
            max_live_until(*old(env)),
        ),
        r is Ok ==> instance_live_until(*final(env)) == if !admin_takes_slot(*old(env), address_strkey(*new_admin)) {
            instance_live_until(*old(env))
        } else {
            renewed(instance_live_until(*old(env)), max_live_until(*old(env)))
        },
        r is Ok ==> contract_events(*final(env)) == contract_events(*old(env)).push(
            transfer_accepted_event(address_strkey(*new_admin)),
        ),
        ledger_sequence(*final(env)) == ledger_sequence(*old(env)),
        max_live_until(*final(env)) == max_live_until(*old(env)),
        admin_index_covers(*old(env)) ==> admin_index_covers(*final(env)),
        admin_index_consistent(*old(env)) ==> admin_index_consistent(*final(env)),
{
    require_auth(env, new_admin);
    let tag = pending_admin_tag();
    match instance_get_address(env, tag) {
        None => {
            return Err(PurchaseError::NoPendingAdminTransfer);
        },
        Some(pending) => {
            if !address_eq(&pending, new_admin) {
                return Err(PurchaseError::NotAuthorized);
            }
        },
    }
    set_admin_role(env, new_admin);
    instance_remove(env, tag);
    proof {
        reveal_strlit("admin_transfer_accepted");
        reveal_strlit("new_admin");
        reveal_strlit("PendingAdmin");
        reveal_strlit("AdminRoleIndexCount");
        assert(pending_admin_tag_spec().len() != admin_count_tag_spec().len());
    }
    publish_one_address(env, "admin_transfer_accepted", "new_admin", new_admin);
    Ok(())
}

/// The address that an admin transfer is waiting for, if any.
pub fn get_pending_admin(env: &Env) -> (r: Option<Address>)
    requires
        pending_admin_well_typed(*env),
    ensures
        match r {
            Some(a) => pending_admin(*env) == Some(address_strkey(a)),
            None => pending_admin(*env) is None,
        },
{
    instance_get_address(env, pending_admin_tag())
}


/// A transfer to `new` followed by its acceptance: the transfer leaves `new`
/// pending, so the acceptance succeeds; afterwards `new` holds the admin role
/// and nothing is pending.
pub proof fn lemma_transfer_then_accept(
    pe: Map<StoreKey, StoreValue>,
    ie: Map<StoreKey, StoreValue>,
    new: Seq<u8>,
    count: u64,
)
    ensures
        pending_in(ie.insert(pending_admin_key(), StoreValue::Address(new))) == Some(new),
        recorded(
            pe,
            admin_role_tag_spec(),
            admin_marker_tag_spec(),
            admin_slot_tag_spec(),
            new,
            count,
            StoreValue::Bool(true),
        ).contains_key(admin_role_key(new)),
        pending_in(
            recorded_instance(
                ie.insert(pending_admin_key(), StoreValue::Address(new)),
                pe,
                admin_role_tag_spec(),
                admin_marker_tag_spec(),
                admin_count_tag_spec(),
                new,
                count,
            ).remove(pending_admin_key()),
        ) is None,
{
}

} // verus!
