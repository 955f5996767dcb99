//! The assets that purchases may be paid in: which are allowed, of what kind,
//! and the maintenance index that keeps their entries alive.
//!
//! Storage layout:
//! - persistent `("AllowedAsset", asset)`: `(kind code, enabled)`;
//! - persistent `("AllowedAssetIndexed", asset)`: `true` once the asset has
//!   a slot of the index, which it keeps for good;
//! - persistent `("AllowedAssetIndex", n)`: the `n`-th asset ever configured;
//! - instance `("AllowedAssetIndexCount",)`: how many slots are used.
use vstd::prelude::*;
use soroban_sdk::{Address, Env};
use crate::auth::{admin_role_key, is_admin, require_admin};
use crate::error::PurchaseError;
use crate::index::{
    append_to_index, count_well_typed, entry_key, extend_indexed_ttl, index_consistent_in,
    index_count, index_well_typed, takes_slot, index_covers_in, lemma_entry_then_slot, lemma_record_keeps_index_covering,
    lemma_record_keeps_index_consistent, marker_key, recorded, recorded_instance, recorded_keys,
    slot_key, sweep_end, swept_keys,
};
use crate::storage::{
    contract_events, publish_address_flag_tag, EventField, EventRecord,
    address_strkey, instance_entries, instance_live_until, ledger_sequence, max_live_until,
    persistent_entries, persistent_get_u32_flag_by_address, persistent_has_by_address,
    persistent_live_until, persistent_set_u32_flag_by_address, valid_symbol, StoreKey, StoreValue,
    authorized_addresses, required_auths,
};
use crate::ttl::{
    contents_and_ledger_unchanged, storage_unchanged, extend_persistent_ttl_by_address, lemma_renew_all_empty,
    lemma_write_then_renew, renew_all, renewed, written_and_renewed,
};

verus! {

/// What kind of asset a payment asset is.
#[derive(Clone, Copy, Debug, PartialEq, Eq, Structural)]
pub enum AssetKind {
    /// A token contract such as USDC.
    Token,
    /// An asset issued by an institution.
    InstitutionAsset,
    /// The network's native asset.
    Native,
}

/// The payment policy of an asset.
#[derive(Clone, Copy, Debug, PartialEq, Eq, Structural)]
pub struct AssetInfo {
    pub kind: AssetKind,
    pub enabled: bool,
}

/// The code under which a kind is stored.
pub open spec fn asset_kind_code(k: AssetKind) -> u32 {
    match k {
        AssetKind::Token => 0,
        AssetKind::InstitutionAsset => 1,
        AssetKind::Native => 2,
    }
}

/// The kind stored under a code.
pub open spec fn asset_kind_of_code(n: u32) -> Option<AssetKind> {
    if n == 0 {
        Some(AssetKind::Token)
    } else if n == 1 {
        Some(AssetKind::InstitutionAsset)
    } else if n == 2 {
        Some(AssetKind::Native)
    } else {
        None
    }
}

fn kind_code(k: AssetKind) -> (n: u32)
    ensures
        n == asset_kind_code(k),
{
    match k {
        AssetKind::Token => 0,
        AssetKind::InstitutionAsset => 1,
        AssetKind::Native => 2,
    }
}

fn kind_of_code(n: u32) -> (k: Option<AssetKind>)
    ensures
        k == asset_kind_of_code(n),
{
    if n == 0 {
        Some(AssetKind::Token)
    } else if n == 1 {
        Some(AssetKind::InstitutionAsset)
    } else if n == 2 {
        Some(AssetKind::Native)
    } else {
        None
    }
}

/// The name under which a kind appears in events.
pub open spec fn asset_kind_name(k: AssetKind) -> Seq<char> {
    match k {
        AssetKind::Token => "Token"@,
        AssetKind::InstitutionAsset => "InstitutionAsset"@,
        AssetKind::Native => "Native"@,
    }
}

fn kind_name(k: AssetKind) -> (n: &'static str)
    ensures
        n@ == asset_kind_name(k),
        valid_symbol(n@),
{
    proof {
        reveal_strlit("Token");
        reveal_strlit("InstitutionAsset");
        reveal_strlit("Native");
    }
    match k {
        AssetKind::Token => "Token",
        AssetKind::InstitutionAsset => "InstitutionAsset",
        AssetKind::Native => "Native",
    }
}

/// The event published when an asset's policy is set: topic
/// `asset_policy_updated`, data `{asset, enabled, kind}`.
pub open spec fn asset_policy_event(id: Seq<u8>, kind: AssetKind, enabled: bool) -> EventRecord {
    EventRecord {
        topics: seq!["asset_policy_updated"@],
        data: map![
            "asset"@ => EventField::Address(id),
            "enabled"@ => EventField::Bool(enabled),
            "kind"@ => EventField::Tag(asset_kind_name(kind))
        ],
    }
}

fn event_topic() -> (t: &'static str)
    ensures
        t@ == "asset_policy_updated"@,
        valid_symbol(t@),
{
    proof {
        reveal_strlit("asset_policy_updated");
    }
    "asset_policy_updated"
}

fn event_asset_field() -> (t: &'static str)
    ensures
        t@ == "asset"@,
        valid_symbol(t@),
{
    proof {
        reveal_strlit("asset");
    }
    "asset"
}

fn event_enabled_field() -> (t: &'static str)
    ensures
        t@ == "enabled"@,
        valid_symbol(t@),
{
    proof {
        reveal_strlit("enabled");
    }
    "enabled"
}

fn event_kind_field() -> (t: &'static str)
    ensures
        t@ == "kind"@,
        valid_symbol(t@),
{
    proof {
        reveal_strlit("kind");
    }
    "kind"
}

/// The tag of the asset entries.
pub open spec fn asset_tag_spec() -> Seq<char> {
    "AllowedAsset"@
}

/// The tag of the markers of the assets that have an asset index slot.
pub open spec fn asset_marker_tag_spec() -> Seq<char> {
    "AllowedAssetIndexed"@
}

/// The tag of the asset index slots.
pub open spec fn asset_slot_tag_spec() -> Seq<char> {
    "AllowedAssetIndex"@
}

/// The tag of the asset index counter.
pub open spec fn asset_count_tag_spec() -> Seq<char> {
    "AllowedAssetIndexCount"@
}

/// The key of the policy of the asset with strkey `id`.
pub open spec fn asset_key(id: Seq<u8>) -> StoreKey {
    entry_key(asset_tag_spec(), id)
}

/// How a policy is stored.
pub open spec fn asset_info_value(info: AssetInfo) -> StoreValue {
    StoreValue::U32Flag(asset_kind_code(info.kind), info.enabled)
}

/// The policy stored for the asset with strkey `id`, if any.
pub open spec fn stored_asset_info(env: Env, id: Seq<u8>) -> Option<AssetInfo> {
    match persistent_entries(env).get(asset_key(id)) {
        Some(StoreValue::U32Flag(n, b)) => match asset_kind_of_code(n) {
            Some(k) => Some(AssetInfo { kind: k, enabled: b }),
            None => None,
        },
        _ => None,
    }
}

/// The entry of the asset, when there is one, holds a policy.
pub open spec fn asset_entry_well_typed(env: Env, id: Seq<u8>) -> bool {
    persistent_entries(env).contains_key(asset_key(id)) ==> persistent_entries(env)[asset_key(id)] is U32Flag
}

/// Whether writing the policy of the asset with strkey `id` gives it a slot of
/// the asset index: it has none and was never recorded.
pub open spec fn asset_takes_slot(env: Env, id: Seq<u8>) -> bool {
    takes_slot(persistent_entries(env), asset_tag_spec(), asset_marker_tag_spec(), id)
}

/// The number of used asset index slots.
pub open spec fn asset_count(env: Env) -> u64 {
    index_count(env, asset_count_tag_spec())
}

/// Every asset with an entry, or ever recorded, sits in a slot below the
/// counter, so a sweep from 0 reaches it.
pub open spec fn asset_index_covers(env: Env) -> bool {
    index_covers_in(env, asset_tag_spec(), asset_marker_tag_spec(), asset_slot_tag_spec(), asset_count_tag_spec())
}

/// The asset index records exactly the configured assets and the marked addresses, each once.
pub open spec fn asset_index_consistent(env: Env) -> bool {
    index_consistent_in(
        env,
        asset_tag_spec(),
        asset_marker_tag_spec(),
        asset_slot_tag_spec(),
        asset_count_tag_spec(),
    )
}

/// The asset entries and their markers have different tags.
proof fn lemma_asset_tags_distinct()
    ensures
        asset_tag_spec() != asset_marker_tag_spec(),
{
    reveal_strlit("AllowedAsset");
    reveal_strlit("AllowedAssetIndexed");
    assert(asset_tag_spec().len() != asset_marker_tag_spec().len());
}

fn asset_marker_tag() -> (t: &'static str)
    ensures
        t@ == asset_marker_tag_spec(),
        valid_symbol(t@),
{
    proof {
        reveal_strlit("AllowedAssetIndexed");
    }
    "AllowedAssetIndexed"
}

/// What setting the policy `info` of the asset `id` on behalf of `admin`
/// does, from `e0` to `e1`, with the result `r`: the admin's authorization is
/// required; an admin's request writes the policy (a new asset is also marked
/// and takes the next index slot), renews the admin's role, the policy and
/// what the index gained, renews the instance when the index grew, and
/// publishes `asset_policy_updated`; any other request is refused with
/// `NotAuthorized` and changes nothing else.
pub open spec fn asset_policy_set(
    e0: Env,
    e1: Env,
    admin: Seq<u8>,
    id: Seq<u8>,
    info: AssetInfo,
    r: Result<(), PurchaseError>,
) -> bool {
    let pe0 = persistent_entries(e0);
    let max = max_live_until(e0);
    &&& (r is Ok <==> is_admin(e0, admin))
    &&& (r is Err ==> r == Err::<(), PurchaseError>(PurchaseError::NotAuthorized))
    &&& required_auths(e1) == required_auths(e0).insert(admin)
    &&& (r is Err ==> storage_unchanged(e0, e1))
    &&& (r is Err ==> persistent_live_until(e1) == persistent_live_until(e0))
    &&& (r is Err ==> instance_live_until(e1) == instance_live_until(e0))
    &&& (r is Ok ==> persistent_entries(e1) == recorded(
        pe0,
        asset_tag_spec(),
        asset_marker_tag_spec(),
        asset_slot_tag_spec(),
        id,
        asset_count(e0),
        asset_info_value(info),
    ))
    &&& (r is Ok ==> instance_entries(e1) == recorded_instance(
        instance_entries(e0),
        pe0,
        asset_tag_spec(),
        asset_marker_tag_spec(),
        asset_count_tag_spec(),
        id,
        asset_count(e0),
    ))
    &&& (r is Ok ==> written_and_renewed(
        renew_all(persistent_live_until(e0), set![admin_role_key(admin)], max),
        persistent_live_until(e1),
        recorded_keys(pe0, asset_tag_spec(), asset_marker_tag_spec(), asset_slot_tag_spec(), id, asset_count(e0)),
        max,
    ))
    &&& (r is Ok ==> instance_live_until(e1) == if !asset_takes_slot(e0, id) {
        instance_live_until(e0)
    } else {
        renewed(instance_live_until(e0), max)
    })
    &&& (r is Ok ==> contract_events(e1) == contract_events(e0).push(asset_policy_event(id, info.kind, info.enabled)))
    &&& ledger_sequence(e1) == ledger_sequence(e0)
    &&& max_live_until(e1) == max_live_until(e0)
    &&& (r is Ok ==> stored_asset_info(e1, id) == Some(info))
    &&& (asset_index_covers(e0) ==> asset_index_covers(e1))
    &&& (asset_index_consistent(e0) ==> asset_index_consistent(e1))
}

fn asset_tag() -> (t: &'static str)
    ensures
        t@ == asset_tag_spec(),
        valid_symbol(t@),
{
    proof {
        reveal_strlit("AllowedAsset");
    }
    "AllowedAsset"
}

fn asset_slot_tag() -> (t: &'static str)
    ensures
        t@ == asset_slot_tag_spec(),
        valid_symbol(t@),
{
    proof {
        reveal_strlit("AllowedAssetIndex");
    }
    "AllowedAssetIndex"
}

fn asset_count_tag() -> (t: &'static str)
    ensures
        t@ == asset_count_tag_spec(),
        valid_symbol(t@),
{
    proof {
        reveal_strlit("AllowedAssetIndexCount");
    }
    "AllowedAssetIndexCount"
}

/// Sets the payment policy of `asset`: its kind and whether purchases may be
/// paid in it.  Only an admin may do so, and it must have authorized the
/// call; `NotAuthorized` otherwise.  The first policy set for an asset also
/// marks it and records it in the asset index.
pub fn set_asset_allowed(
    env: &mut Env,
    admin: &Address,
    asset: &Address,
    kind: AssetKind,
    enabled: bool,
) -> (r: Result<(), PurchaseError>)
    requires
        authorized_addresses(*old(env)).contains(address_strkey(*admin)),
        count_well_typed(*old(env), asset_count_tag_spec()),
        !asset_takes_slot(*old(env), address_strkey(*asset)) || asset_count(*old(env)) < u64::MAX,
    ensures
        asset_policy_set(
            *old(env),
            *final(env),
            address_strkey(*admin),
            address_strkey(*asset),
            AssetInfo { kind, enabled },
            r,
        ),
{
    match require_admin(env, admin) {
        Err(e) => {
            proof {
                lemma_renew_all_empty(persistent_live_until(*old(env)), max_live_until(*old(env)));
            }
            return Err(e);
        },
        Ok(()) => {},
    }
    let ghost lu_mid = persistent_live_until(*env);
    let ghost max = max_live_until(*old(env));
    let ghost id = address_strkey(*asset);
    let ghost c = asset_count(*old(env));
    let tag = asset_tag();
    let has_entry = persistent_has_by_address(env, tag, asset);
    let is_new = !has_entry && !persistent_has_by_address(env, asset_marker_tag(), asset);
    persistent_set_u32_flag_by_address(env, tag, asset, kind_code(kind), enabled);
    let ghost lu1 = persistent_live_until(*env);
    extend_persistent_ttl_by_address(env, tag, asset);
    proof {
        lemma_write_then_renew(lu_mid, lu1, asset_key(id), max);
        lemma_asset_tags_distinct();
    }
    let ghost lu2 = persistent_live_until(*env);
    if is_new {
        append_to_index(env, asset_marker_tag(), asset_slot_tag(), asset_count_tag(), asset);
    }
    proof {
        lemma_policy_reads_back(*old(env), *env, id, c, AssetInfo { kind, enabled }, id);
        lemma_entry_then_slot(
            lu_mid,
            lu2,
            persistent_live_until(*env),
            asset_key(id),
            marker_key(asset_marker_tag_spec(), id),
            slot_key(asset_slot_tag_spec(), c),
            is_new,
            max,
        );
        if asset_index_covers(*old(env)) {
            lemma_record_keeps_index_covering(
                persistent_entries(*old(env)),
                asset_tag_spec(),
                asset_marker_tag_spec(),
                asset_slot_tag_spec(),
                id,
                c,
                asset_info_value(AssetInfo { kind, enabled }),
            );
        }
        if asset_index_consistent(*old(env)) {
            lemma_record_keeps_index_consistent(
                persistent_entries(*old(env)),
                asset_tag_spec(),
                asset_marker_tag_spec(),
                asset_slot_tag_spec(),
                id,
                c,
                asset_info_value(AssetInfo { kind, enabled }),
            );
        }
    }
    publish_address_flag_tag(
        env,
        event_topic(),
        event_asset_field(),
        asset,
        event_enabled_field(),
        enabled,
        event_kind_field(),
        kind_name(kind),
    );
    Ok(())
}

/// Allows (or disallows) `asset` as a token asset: `set_asset_allowed` with
/// that kind.
pub fn register_token_asset(env: &mut Env, admin: &Address, asset: &Address, enabled: bool) -> (r: Result<(), PurchaseError>)
    requires
        authorized_addresses(*old(env)).contains(address_strkey(*admin)),
        count_well_typed(*old(env), asset_count_tag_spec()),
        !asset_takes_slot(*old(env), address_strkey(*asset)) || asset_count(*old(env)) < u64::MAX,
    ensures
        asset_policy_set(
            *old(env),
            *final(env),
            address_strkey(*admin),
            address_strkey(*asset),
            AssetInfo { kind: AssetKind::Token, enabled },
            r,
        ),
{
    set_asset_allowed(env, admin, asset, AssetKind::Token, enabled)
}

/// Allows (or disallows) `asset` as an institution asset: `set_asset_allowed` with
/// that kind.
pub fn register_institution_asset(env: &mut Env, admin: &Address, asset: &Address, enabled: bool) -> (r: Result<(), PurchaseError>)
    requires
        authorized_addresses(*old(env)).contains(address_strkey(*admin)),
        count_well_typed(*old(env), asset_count_tag_spec()),
        !asset_takes_slot(*old(env), address_strkey(*asset)) || asset_count(*old(env)) < u64::MAX,
    ensures
        asset_policy_set(
            *old(env),
            *final(env),
            address_strkey(*admin),
            address_strkey(*asset),
            AssetInfo { kind: AssetKind::InstitutionAsset, enabled },
            r,
        ),
{
    set_asset_allowed(env, admin, asset, AssetKind::InstitutionAsset, enabled)
}

/// Allows (or disallows) `asset` as the native asset: `set_asset_allowed` with
/// that kind.
pub fn register_native_asset(env: &mut Env, admin: &Address, asset: &Address, enabled: bool) -> (r: Result<(), PurchaseError>)
    requires
        authorized_addresses(*old(env)).contains(address_strkey(*admin)),
        count_well_typed(*old(env), asset_count_tag_spec()),
        !asset_takes_slot(*old(env), address_strkey(*asset)) || asset_count(*old(env)) < u64::MAX,
    ensures
        asset_policy_set(
            *old(env),
            *final(env),
            address_strkey(*admin),
            address_strkey(*asset),
            AssetInfo { kind: AssetKind::Native, enabled },
            r,
        ),
{
    set_asset_allowed(env, admin, asset, AssetKind::Native, enabled)
}

/// The payment policy of `asset`, if one was set.  A policy that is found has
/// its TTL renewed.
pub fn get_asset_info(env: &mut Env, asset: &Address) -> (r: Option<AssetInfo>)
    requires
        asset_entry_well_typed(*old(env), address_strkey(*asset)),
    ensures
        r == stored_asset_info(*old(env), address_strkey(*asset)),
        contents_and_ledger_unchanged(*old(env), *final(env)),
        instance_live_until(*final(env)) == instance_live_until(*old(env)),
        persistent_live_until(*final(env)) == renew_all(
            persistent_live_until(*old(env)),
            if persistent_entries(*old(env)).contains_key(asset_key(address_strkey(*asset))) {
                set![asset_key(address_strkey(*asset))]
            } else {
                Set::empty()
            },
            max_live_until(*old(env)),
        ),
{
    let tag = asset_tag();
    match persistent_get_u32_flag_by_address(env, tag, asset) {
        Some((code, enabled)) => {
            extend_persistent_ttl_by_address(env, tag, asset);
            match kind_of_code(code) {
                Some(kind) => Some(AssetInfo { kind, enabled }),
                None => None,
            }
        },
        None => {
            proof {
                lemma_renew_all_empty(persistent_live_until(*old(env)), max_live_until(*old(env)));
            }
            None
        },
    }
}

/// Whether purchases may be paid in `asset`: its policy exists and enables
/// it.
pub fn is_asset_allowed(env: &mut Env, asset: &Address) -> (r: bool)
    requires
        asset_entry_well_typed(*old(env), address_strkey(*asset)),
    ensures
        r == (stored_asset_info(*old(env), address_strkey(*asset)) matches Some(info) && info.enabled),
        contents_and_ledger_unchanged(*old(env), *final(env)),
        instance_live_until(*final(env)) == instance_live_until(*old(env)),
        persistent_live_until(*final(env)) == renew_all(
            persistent_live_until(*old(env)),
            if persistent_entries(*old(env)).contains_key(asset_key(address_strkey(*asset))) {
                set![asset_key(address_strkey(*asset))]
            } else {
                Set::empty()
            },
            max_live_until(*old(env)),
        ),
{
    match get_asset_info(env, asset) {
        Some(info) => info.enabled,
        None => false,
    }
}

/// Renews the TTL of up to `limit` (at most `MAX_MAINTENANCE_BATCH`) slots of
/// the asset index starting at `cursor`, and of the markers and policies of
/// the assets they record; also renews the contract instance.  Returns the cursor at
/// which the next call should start.
pub fn extend_allowed_asset_ttl(env: &mut Env, cursor: u64, limit: u32) -> (end: u64)
    requires
        index_well_typed(*old(env), asset_slot_tag_spec(), asset_count_tag_spec()),
    ensures
        end == sweep_end(cursor, limit, asset_count(*old(env))),
        end <= cursor + limit,
        end <= asset_count(*old(env)),
        cursor < asset_count(*old(env)) && limit > 0 ==> cursor < end,
        contents_and_ledger_unchanged(*old(env), *final(env)),
        instance_live_until(*final(env)) == renewed(instance_live_until(*old(env)), max_live_until(*old(env))),
        persistent_live_until(*final(env)) == renew_all(
            persistent_live_until(*old(env)),
            swept_keys(
                persistent_entries(*old(env)),
                asset_tag_spec(),
                asset_marker_tag_spec(),
                asset_slot_tag_spec(),
                cursor,
                end,
            ),
            max_live_until(*old(env)),
        ),
{
    extend_indexed_ttl(env, asset_tag(), asset_marker_tag(), asset_slot_tag(), asset_count_tag(), cursor, limit)
}

/// Read after write: once the policy `info` is set for the asset `id`, the
/// policy read for it is `info` (so it is allowed exactly when `info` enables
/// it), whatever it was before, and every other asset keeps its policy.
pub proof fn lemma_policy_reads_back(e0: Env, e1: Env, id: Seq<u8>, count: u64, info: AssetInfo, other: Seq<u8>)
    requires
        persistent_entries(e1) == recorded(
            persistent_entries(e0),
            asset_tag_spec(),
            asset_marker_tag_spec(),
            asset_slot_tag_spec(),
            id,
            count,
            asset_info_value(info),
        ),
    ensures
        stored_asset_info(e1, id) == Some(info),
        (stored_asset_info(e1, id) matches Some(i) && i.enabled) == info.enabled,
        other != id ==> stored_asset_info(e1, other) == stored_asset_info(e0, other),
{
    lemma_asset_tags_distinct();
    assert(asset_key(id) != slot_key(asset_slot_tag_spec(), count));
    assert(asset_key(id) != marker_key(asset_marker_tag_spec(), id));
    assert(asset_key(other) != slot_key(asset_slot_tag_spec(), count));
    assert(asset_key(other) != marker_key(asset_marker_tag_spec(), id));
}

/// After a policy is set, reading it gives it back.
pub proof fn lemma_policy_read_after_write(pe: Map<StoreKey, StoreValue>, id: Seq<u8>, count: u64, info: AssetInfo)
    ensures
        ({
            let pe1 = recorded(
                pe,
                asset_tag_spec(),
                asset_marker_tag_spec(),
                asset_slot_tag_spec(),
                id,
                count,
                asset_info_value(info),
            );
            pe1.get(asset_key(id)) == Some(asset_info_value(info))
        }),
        asset_kind_of_code(asset_kind_code(info.kind)) == Some(info.kind),
{
    lemma_asset_tags_distinct();
    assert(asset_key(id) != slot_key(asset_slot_tag_spec(), count));
    assert(asset_key(id) != marker_key(asset_marker_tag_spec(), id));
}

} // verus!
