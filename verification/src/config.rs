//! The platform configuration: set once at initialization, together with the
//! first admin.
//!
//! Storage layout: instance `("PlatformConfig",)` holds
//! `(registry, treasury, platform_fee_bps, paused)`.
use vstd::prelude::*;
use soroban_sdk::{Address, Env};
use crate::auth::{
    admin_count, admin_count_tag_spec, admin_count_well_typed, admin_role_tag_spec,
    admin_index_consistent, admin_index_covers, admin_takes_slot, admin_marker_tag_spec, admin_role_key,
    admin_slot_tag_spec, is_admin, require_admin, set_admin_role,
};
use crate::error::PurchaseError;
use crate::index::{count_key, recorded, recorded_instance, recorded_keys};
use crate::storage::{
    contract_events,
    address_strkey, instance_entries, instance_get_config, instance_has, instance_live_until,
    instance_set_config, ledger_sequence, max_live_until, persistent_entries, persistent_live_until,
    require_auth, valid_symbol, StoreKey, StoreValue, authorized_addresses, required_auths,
};
use crate::ttl::{
    contents_and_ledger_unchanged, storage_unchanged, extend_instance_ttl, lemma_renew_all_empty, renew_all, renewed,
    written_and_renewed,
};

verus! {

/// The platform configuration.
#[derive(Debug, PartialEq, Eq)]
pub struct PlatformConfig {
    /// The material registry contract.
    pub registry: Address,
    /// Where platform fees are paid.
    pub treasury: Address,
    /// The platform fee in basis points.
    pub platform_fee_bps: u32,
    /// Whether purchases are paused.
    pub paused: bool,
}

/// The tag of the configuration entry.
pub open spec fn config_tag_spec() -> Seq<char> {
    "PlatformConfig"@
}

/// The instance key of the configuration.
pub open spec fn config_key() -> StoreKey {
    StoreKey::Unit(config_tag_spec())
}

/// How a configuration is stored.
pub open spec fn config_value(registry: Address, treasury: Address, fee: u32, paused: bool) -> StoreValue {
    StoreValue::Config(address_strkey(registry), address_strkey(treasury), fee, paused)
}

/// A configuration as it is stored.
pub open spec fn config_view(c: PlatformConfig) -> StoreValue {
    config_value(c.registry, c.treasury, c.platform_fee_bps, c.paused)
}

/// Whether the contract was initialized.
pub open spec fn is_initialized(env: Env) -> bool {
    instance_entries(env).contains_key(config_key())
}

/// The stored configuration, when there is one, is well typed.
pub open spec fn config_well_typed(env: Env) -> bool {
    is_initialized(env) ==> instance_entries(env)[config_key()] is Config
}

fn config_tag() -> (t: &'static str)
    ensures
        t@ == config_tag_spec(),
        valid_symbol(t@),
{
    proof {
        reveal_strlit("PlatformConfig");
    }
    "PlatformConfig"
}

/// The configuration key is not the admin counter's key.
proof fn lemma_config_key_is_not_admin_count()
    ensures
        config_key() != count_key(admin_count_tag_spec()),
{
    reveal_strlit("PlatformConfig");
    reveal_strlit("AdminRoleIndexCount");
    assert(config_tag_spec().len() != admin_count_tag_spec().len());
}

/// Initializes the contract: records the configuration (not paused) and
/// grants `admin` the admin role; `admin` must have authorized the call.
/// `AlreadyInitialized`, with nothing changed and no authorization required,
/// when a configuration exists.
pub fn initialize(
    env: &mut Env,
    admin: &Address,
    registry: &Address,
    treasury: &Address,
    platform_fee_bps: u32,
) -> (r: Result<(), PurchaseError>)
    requires
        !is_initialized(*old(env)) ==> authorized_addresses(*old(env)).contains(address_strkey(*admin)),
        admin_count_well_typed(*old(env)),
        !admin_takes_slot(*old(env), address_strkey(*admin)) || admin_count(*old(env)) < u64::MAX,
    ensures
        r is Err <==> is_initialized(*old(env)),
        r is Err ==> r == Err::<(), PurchaseError>(PurchaseError::AlreadyInitialized),
        r is Err ==> contents_and_ledger_unchanged(*old(env), *final(env)),
        r is Err ==> persistent_live_until(*final(env)) == persistent_live_until(*old(env)),
        r is Err ==> instance_live_until(*final(env)) == instance_live_until(*old(env)),
        r is Ok ==> required_auths(*final(env)) == required_auths(*old(env)).insert(address_strkey(*admin)),
        r is Ok ==> persistent_entries(*final(env)) == recorded(
            persistent_entries(*old(env)),
            admin_role_tag_spec(),
            admin_marker_tag_spec(),
            admin_slot_tag_spec(),
            address_strkey(*admin),
            admin_count(*old(env)),
            StoreValue::Bool(true),
        ),
        r is Ok ==> instance_entries(*final(env)) == recorded_instance(
            instance_entries(*old(env)).insert(config_key(), config_value(*registry, *treasury, platform_fee_bps, false)),
            persistent_entries(*old(env)),
            admin_role_tag_spec(),
            admin_marker_tag_spec(),
            admin_count_tag_spec(),
            address_strkey(*admin),
            admin_count(*old(env)),
        ),
        r is Ok ==> written_and_renewed(
            persistent_live_until(*old(env)),
            persistent_live_until(*final(env)),
            recorded_keys(
                persistent_entries(*old(env)),
                admin_role_tag_spec(),
                admin_marker_tag_spec(),
                admin_slot_tag_spec(),
                address_strkey(*admin),
                admin_count(*old(env)),
            ),
            max_live_until(*old(env)),
        ),
        r is Ok ==> instance_live_until(*final(env)) == renewed(
            instance_live_until(*old(env)),
            max_live_until(*old(env)),
        ),
        r is Ok ==> instance_entries(*final(env))[config_key()]
            == config_value(*registry, *treasury, platform_fee_bps, false),
        ledger_sequence(*final(env)) == ledger_sequence(*old(env)),
        contract_events(*final(env)) == contract_events(*old(env)),
        max_live_until(*final(env)) == max_live_until(*old(env)),
        admin_index_covers(*old(env)) ==> admin_index_covers(*final(env)),
        admin_index_consistent(*old(env)) ==> admin_index_consistent(*final(env)),
{
    let tag = config_tag();
    if instance_has(env, tag) {
        return Err(PurchaseError::AlreadyInitialized);
    }
    require_auth(env, admin);
    instance_set_config(env, tag, registry, treasury, platform_fee_bps, false);
    proof {
        lemma_config_key_is_not_admin_count();
    }
    let ghost ilu_mid = instance_live_until(*env);
    set_admin_role(env, admin);
    extend_instance_ttl(env);
    proof {
        let id = address_strkey(*admin);
        if admin_takes_slot(*old(env), id) {
            assert(renewed(renewed(ilu_mid, max_live_until(*old(env))), max_live_until(*old(env)))
                == renewed(ilu_mid, max_live_until(*old(env))));
        }
    }
    Ok(())
}

/// The platform configuration, if the contract was initialized.  Reading it
/// renews the contract instance.
pub fn get_platform_config(env: &mut Env) -> (r: Option<PlatformConfig>)
    requires
        config_well_typed(*old(env)),
    ensures
        match r {
            Some(c) => is_initialized(*old(env)) && config_view(c) == instance_entries(*old(env))[config_key()],
            None => !is_initialized(*old(env)),
        },
        contents_and_ledger_unchanged(*old(env), *final(env)),
        persistent_live_until(*final(env)) == persistent_live_until(*old(env)),
        instance_live_until(*final(env)) == renewed(instance_live_until(*old(env)), max_live_until(*old(env))),
{
    let got = instance_get_config(env, config_tag());
    extend_instance_ttl(env);
    match got {
        Some((registry, treasury, platform_fee_bps, paused)) => Some(
            PlatformConfig { registry, treasury, platform_fee_bps, paused },
        ),
        None => None,
    }
}


/// The configuration `c` with the fee replaced.
pub open spec fn with_fee(c: StoreValue, fee: u32) -> StoreValue {
    match c {
        StoreValue::Config(registry, treasury, _, paused) => StoreValue::Config(registry, treasury, fee, paused),
        other => other,
    }
}

/// Sets the platform fee.  Only an admin may do so, and it must have
/// authorized the call; `NotAuthorized` otherwise.  The other settings stay as
/// they are; before initialization there is no configuration, and none is
/// written.
pub fn update_platform_fee(env: &mut Env, admin: &Address, platform_fee_bps: u32) -> (r: Result<(), PurchaseError>)
    requires
        authorized_addresses(*old(env)).contains(address_strkey(*admin)),
        config_well_typed(*old(env)),
    ensures
        r is Ok <==> is_admin(*old(env), address_strkey(*admin)),
        r is Err ==> r == Err::<(), PurchaseError>(PurchaseError::NotAuthorized),
        required_auths(*final(env)) == required_auths(*old(env)).insert(address_strkey(*admin)),
        r is Err ==> storage_unchanged(*old(env), *final(env)),
        r is Err ==> persistent_live_until(*final(env)) == persistent_live_until(*old(env)),
        r is Err ==> instance_live_until(*final(env)) == instance_live_until(*old(env)),
        r is Ok ==> persistent_entries(*final(env)) == persistent_entries(*old(env)),
        r is Ok ==> match instance_entries(*old(env)).get(config_key()) {
            Some(StoreValue::Config(registry, treasury, _, paused)) => instance_entries(*final(env)).get(config_key())
                == Some(StoreValue::Config(registry, treasury, platform_fee_bps, paused)),
            _ => instance_entries(*final(env)) == instance_entries(*old(env)),
        },
        r is Ok ==> instance_entries(*final(env)) == if is_initialized(*old(env)) {
            instance_entries(*old(env)).insert(
                config_key(),
                with_fee(instance_entries(*old(env))[config_key()], platform_fee_bps),
            )
        } else {
            instance_entries(*old(env))
        },
        r is Ok ==> persistent_live_until(*final(env)) == renew_all(
            persistent_live_until(*old(env)),
            set![admin_role_key(address_strkey(*admin))],
            max_live_until(*old(env)),
        ),
        r is Ok ==> instance_live_until(*final(env)) == renewed(
            instance_live_until(*old(env)),
            max_live_until(*old(env)),
        ),
        ledger_sequence(*final(env)) == ledger_sequence(*old(env)),
        contract_events(*final(env)) == contract_events(*old(env)),
        max_live_until(*final(env)) == max_live_until(*old(env)),
{
    match require_admin(env, admin) {
        Err(e) => {
            proof {
                lemma_renew_all_empty(persistent_live_until(*old(env)), max_live_until(*old(env)));
            }
            return Err(e);
        },
        Ok(()) => {},
    }
    let tag = config_tag();
    match instance_get_config(env, tag) {
        Some((registry, treasury, _, paused)) => {
            instance_set_config(env, tag, &registry, &treasury, platform_fee_bps, paused);
        },
        None => {},
    }
    extend_instance_ttl(env);
    Ok(())
}


/// The configuration `c` with the treasury, the fee and the pause flag
/// replaced; the registry stays.
pub open spec fn with_settings(c: StoreValue, treasury: Seq<u8>, fee: u32, paused: bool) -> StoreValue {
    match c {
        StoreValue::Config(registry, _, _, _) => StoreValue::Config(registry, treasury, fee, paused),
        other => other,
    }
}

/// Replaces the treasury, the platform fee and the pause flag.  Only an admin
/// may do so, and it must have authorized the call; `NotAuthorized`
/// otherwise.  The registry stays as it is; before initialization there is no
/// configuration, and none is written.
pub fn set_platform_config(
    env: &mut Env,
    admin: &Address,
    treasury: &Address,
    platform_fee_bps: u32,
    paused: bool,
) -> (r: Result<(), PurchaseError>)
    requires
        authorized_addresses(*old(env)).contains(address_strkey(*admin)),
        config_well_typed(*old(env)),
    ensures
        r is Ok <==> is_admin(*old(env), address_strkey(*admin)),
        r is Err ==> r == Err::<(), PurchaseError>(PurchaseError::NotAuthorized),
        required_auths(*final(env)) == required_auths(*old(env)).insert(address_strkey(*admin)),
        r is Err ==> storage_unchanged(*old(env), *final(env)),
        r is Err ==> persistent_live_until(*final(env)) == persistent_live_until(*old(env)),
        r is Err ==> instance_live_until(*final(env)) == instance_live_until(*old(env)),
        r is Ok ==> persistent_entries(*final(env)) == persistent_entries(*old(env)),
        r is Ok ==> match instance_entries(*old(env)).get(config_key()) {
            Some(StoreValue::Config(registry, _, _, _)) => instance_entries(*final(env)).get(config_key()) == Some(
                StoreValue::Config(registry, address_strkey(*treasury), platform_fee_bps, paused),
            ),
            _ => instance_entries(*final(env)) == instance_entries(*old(env)),
        },
        r is Ok ==> instance_entries(*final(env)) == if is_initialized(*old(env)) {
            instance_entries(*old(env)).insert(
                config_key(),
                with_settings(
                    instance_entries(*old(env))[config_key()],
                    address_strkey(*treasury),
                    platform_fee_bps,
                    paused,
                ),
            )
        } else {
            instance_entries(*old(env))
        },
        r is Ok ==> persistent_live_until(*final(env)) == renew_all(
            persistent_live_until(*old(env)),
            set![admin_role_key(address_strkey(*admin))],
            max_live_until(*old(env)),
        ),
        r is Ok ==> instance_live_until(*final(env)) == renewed(
            instance_live_until(*old(env)),
            max_live_until(*old(env)),
        ),
        ledger_sequence(*final(env)) == ledger_sequence(*old(env)),
        contract_events(*final(env)) == contract_events(*old(env)),
        max_live_until(*final(env)) == max_live_until(*old(env)),
{
    match require_admin(env, admin) {
        Err(e) => {
            proof {
                lemma_renew_all_empty(persistent_live_until(*old(env)), max_live_until(*old(env)));
            }
            return Err(e);
        },
        Ok(()) => {},
    }
    let tag = config_tag();
    match instance_get_config(env, tag) {
        Some((registry, _, _, _)) => {
            instance_set_config(env, tag, &registry, treasury, platform_fee_bps, paused);
        },
        None => {},
    }
    extend_instance_ttl(env);
    Ok(())
}

/// A fee update changes the fee and only the fee: the registry, the treasury
/// and the pause flag of the stored configuration stay as they were.
pub proof fn lemma_fee_update_changes_only_the_fee(
    registry: Seq<u8>,
    treasury: Seq<u8>,
    old_fee: u32,
    paused: bool,
    fee: u32,
)
    ensures
        with_fee(StoreValue::Config(registry, treasury, old_fee, paused), fee) == StoreValue::Config(
            registry,
            treasury,
            fee,
            paused,
        ),
{
}

/// Changing the settings stores the requested treasury, fee and pause flag,
/// whatever they were before (so a paused platform can be unpaused), and
/// keeps the registry; setting them twice is setting them once.
pub proof fn lemma_settings_take_the_requested_values(
    registry: Seq<u8>,
    old_treasury: Seq<u8>,
    old_fee: u32,
    was_paused: bool,
    treasury: Seq<u8>,
    fee: u32,
    paused: bool,
    treasury2: Seq<u8>,
    fee2: u32,
    paused2: bool,
)
    ensures
        with_settings(StoreValue::Config(registry, old_treasury, old_fee, was_paused), treasury, fee, paused)
            == StoreValue::Config(registry, treasury, fee, paused),
        with_settings(
            with_settings(StoreValue::Config(registry, old_treasury, old_fee, was_paused), treasury, fee, paused),
            treasury2,
            fee2,
            paused2,
        ) == StoreValue::Config(registry, treasury2, fee2, paused2),
{
}

} // verus!
