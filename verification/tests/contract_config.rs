use purchase_manager::assets::{
    extend_allowed_asset_ttl, get_asset_info, is_asset_allowed, register_institution_asset,
    register_native_asset, register_token_asset, set_asset_allowed, AssetInfo, AssetKind,
};
use purchase_manager::config::{get_platform_config, initialize, set_platform_config, PlatformConfig};
use purchase_manager::error::PurchaseError;
use purchase_manager::tiers::{extend_creator_tier_ttl, get_creator_tier, set_creator_tier, CreatorTier};
use soroban_sdk::testutils::storage::Instance as _;
use soroban_sdk::testutils::storage::Persistent as _;
use soroban_sdk::testutils::{Address as _, ContractFunctionSet, EnvTestConfig, Ledger};
use soroban_sdk::{Address, Env, Symbol, Val};

/// A test environment that keeps no snapshot files.
fn test_env() -> Env {
    Env::new_with_config(EnvTestConfig {
        capture_snapshot_at_drop: false,
    })
}

struct Holder;

impl ContractFunctionSet for Holder {
    fn call(&self, _func: &str, _env: Env, _args: &[Val]) -> Option<Val> {
        None
    }
}

/// Runs `f` as one invocation of the contract `id`.
fn invoke<T>(env: &Env, id: &Address, f: impl FnOnce(&mut Env) -> T) -> T {
    env.as_contract(id, || {
        let mut e = env.clone();
        f(&mut e)
    })
}

fn install_and_init_contract(
    env: &Env,
    admin: &Address,
    registry: &Address,
    treasury: &Address,
    platform_fee_bps: u32,
) -> Address {
    let contract_id = env.register(Holder, ());
    let r = invoke(env, &contract_id, |e| initialize(e, admin, registry, treasury, platform_fee_bps));
    assert_eq!(r, Ok(()));
    contract_id
}

fn set_short_ttl_window(env: &Env) {
    env.ledger().with_mut(|li| {
        li.min_persistent_entry_ttl = 100;
        li.max_entry_ttl = 20_000;
    });
}

fn assert_ttl_renewed_to_max(ttl: u32) {
    assert!(
        (19_990..=20_000).contains(&ttl),
        "expected TTL near the 20_000 max, got {ttl}"
    );
}

fn persistent_ttl(env: &Env, id: &Address, tag: &str, who: &Address) -> u32 {
    env.as_contract(id, || {
        env.storage()
            .persistent()
            .get_ttl(&(Symbol::new(env, tag), who.clone()))
    })
}

#[test]
fn initializes_contract_successfully() {
    let env = test_env();
    let admin = Address::generate(&env);
    let registry = Address::generate(&env);
    let treasury = Address::generate(&env);

    env.mock_all_auths();

    let contract_id = install_and_init_contract(&env, &admin, &registry, &treasury, 500);

    let config: PlatformConfig = invoke(&env, &contract_id, |e| get_platform_config(e)).unwrap();
    assert_eq!(config.registry, registry);
    assert_eq!(config.treasury, treasury);
    assert_eq!(config.platform_fee_bps, 500);
    assert!(!config.paused);
}

#[test]
fn fails_initialize_twice() {
    let env = test_env();
    let admin = Address::generate(&env);
    let registry = Address::generate(&env);
    let treasury = Address::generate(&env);

    env.mock_all_auths();

    let contract_id = install_and_init_contract(&env, &admin, &registry, &treasury, 500);

    let result = invoke(&env, &contract_id, |e| initialize(e, &admin, &registry, &treasury, 500));
    assert_eq!(result, Err(PurchaseError::AlreadyInitialized));
}

#[test]
fn set_creator_tier_requires_admin() {
    let env = test_env();
    env.mock_all_auths();

    let admin = Address::generate(&env);
    let registry = Address::generate(&env);
    let treasury = Address::generate(&env);
    let creator = Address::generate(&env);
    let non_admin = Address::generate(&env);

    let id = install_and_init_contract(&env, &admin, &registry, &treasury, 500);

    assert_eq!(invoke(&env, &id, |e| set_creator_tier(e, &admin, &creator, CreatorTier::Tier1)), Ok(()));
    assert_eq!(invoke(&env, &id, |e| get_creator_tier(e, &creator)), CreatorTier::Tier1);

    let result = invoke(&env, &id, |e| set_creator_tier(e, &non_admin, &creator, CreatorTier::Tier2));
    assert_eq!(result, Err(PurchaseError::NotAuthorized));
}

#[test]
fn creator_tier_defaults_to_default_when_not_set() {
    let env = test_env();
    env.mock_all_auths();

    let admin = Address::generate(&env);
    let registry = Address::generate(&env);
    let treasury = Address::generate(&env);
    let creator = Address::generate(&env);

    let id = install_and_init_contract(&env, &admin, &registry, &treasury, 500);

    assert_eq!(invoke(&env, &id, |e| get_creator_tier(e, &creator)), CreatorTier::Default);
}

#[test]
fn creator_tier_can_be_reverted_to_default() {
    let env = test_env();
    env.mock_all_auths();

    let admin = Address::generate(&env);
    let registry = Address::generate(&env);
    let treasury = Address::generate(&env);
    let creator = Address::generate(&env);

    let id = install_and_init_contract(&env, &admin, &registry, &treasury, 500);

    assert_eq!(invoke(&env, &id, |e| set_creator_tier(e, &admin, &creator, CreatorTier::Tier1)), Ok(()));
    assert_eq!(invoke(&env, &id, |e| get_creator_tier(e, &creator)), CreatorTier::Tier1);

    assert_eq!(invoke(&env, &id, |e| set_creator_tier(e, &admin, &creator, CreatorTier::Default)), Ok(()));
    assert_eq!(invoke(&env, &id, |e| get_creator_tier(e, &creator)), CreatorTier::Default);
}

#[test]
fn platform_config_ttl_renews_on_every_touch_and_never_lapses() {
    let env = test_env();
    env.mock_all_auths();
    set_short_ttl_window(&env);

    let admin = Address::generate(&env);
    let registry = Address::generate(&env);
    let treasury = Address::generate(&env);
    let contract_id = install_and_init_contract(&env, &admin, &registry, &treasury, 500);

    let initial_ttl = env.as_contract(&contract_id, || env.storage().instance().get_ttl());
    assert_ttl_renewed_to_max(initial_ttl);

    env.ledger().with_mut(|li| li.sequence_number += 12_000);

    assert!(invoke(&env, &contract_id, |e| get_platform_config(e)).is_some());

    let renewed_ttl = env.as_contract(&contract_id, || env.storage().instance().get_ttl());
    assert_ttl_renewed_to_max(renewed_ttl);
}

#[test]
fn allowed_asset_ttl_renews_on_write() {
    let env = test_env();
    env.mock_all_auths();
    set_short_ttl_window(&env);

    let admin = Address::generate(&env);
    let registry = Address::generate(&env);
    let treasury = Address::generate(&env);
    let contract_id = install_and_init_contract(&env, &admin, &registry, &treasury, 500);

    let asset = Address::generate(&env);
    assert_eq!(
        invoke(&env, &contract_id, |e| set_asset_allowed(e, &admin, &asset, AssetKind::Token, true)),
        Ok(())
    );

    let initial_ttl = persistent_ttl(&env, &contract_id, "AllowedAsset", &asset);
    assert_ttl_renewed_to_max(initial_ttl);

    env.ledger().with_mut(|li| li.sequence_number += 12_000);

    assert_eq!(
        invoke(&env, &contract_id, |e| set_asset_allowed(e, &admin, &asset, AssetKind::Token, true)),
        Ok(())
    );
    let renewed_ttl = persistent_ttl(&env, &contract_id, "AllowedAsset", &asset);
    assert_ttl_renewed_to_max(renewed_ttl);
}

#[test]
fn creator_tier_ttl_renews_on_write() {
    let env = test_env();
    env.mock_all_auths();
    set_short_ttl_window(&env);

    let admin = Address::generate(&env);
    let registry = Address::generate(&env);
    let treasury = Address::generate(&env);
    let contract_id = install_and_init_contract(&env, &admin, &registry, &treasury, 500);

    let creator = Address::generate(&env);
    assert_eq!(
        invoke(&env, &contract_id, |e| set_creator_tier(e, &admin, &creator, CreatorTier::Tier1)),
        Ok(())
    );

    let initial_ttl = persistent_ttl(&env, &contract_id, "CreatorTier", &creator);
    assert_ttl_renewed_to_max(initial_ttl);

    env.ledger().with_mut(|li| li.sequence_number += 12_000);

    assert_eq!(
        invoke(&env, &contract_id, |e| set_creator_tier(e, &admin, &creator, CreatorTier::Tier2)),
        Ok(())
    );
    let renewed_ttl = persistent_ttl(&env, &contract_id, "CreatorTier", &creator);
    assert_ttl_renewed_to_max(renewed_ttl);
}

#[test]
fn extend_allowed_asset_ttl_is_cursor_based() {
    let env = test_env();
    env.mock_all_auths();
    set_short_ttl_window(&env);

    let admin = Address::generate(&env);
    let registry = Address::generate(&env);
    let treasury = Address::generate(&env);
    let contract_id = install_and_init_contract(&env, &admin, &registry, &treasury, 500);

    let asset_a = Address::generate(&env);
    let asset_b = Address::generate(&env);
    assert_eq!(
        invoke(&env, &contract_id, |e| set_asset_allowed(e, &admin, &asset_a, AssetKind::Token, true)),
        Ok(())
    );
    assert_eq!(
        invoke(&env, &contract_id, |e| set_asset_allowed(e, &admin, &asset_b, AssetKind::Token, true)),
        Ok(())
    );

    env.ledger().with_mut(|li| li.sequence_number += 12_000);

    let cursor = invoke(&env, &contract_id, |e| extend_allowed_asset_ttl(e, 0, 1));
    assert_eq!(cursor, 1);
    let final_cursor = invoke(&env, &contract_id, |e| extend_allowed_asset_ttl(e, cursor, 1));
    assert_eq!(final_cursor, 2);

    let renewed_ttl = persistent_ttl(&env, &contract_id, "AllowedAsset", &asset_a);
    assert_ttl_renewed_to_max(renewed_ttl);
}

#[test]
fn extend_creator_tier_ttl_is_cursor_based() {
    let env = test_env();
    env.mock_all_auths();
    set_short_ttl_window(&env);

    let admin = Address::generate(&env);
    let registry = Address::generate(&env);
    let treasury = Address::generate(&env);
    let contract_id = install_and_init_contract(&env, &admin, &registry, &treasury, 500);

    let creator_a = Address::generate(&env);
    let creator_b = Address::generate(&env);
    assert_eq!(
        invoke(&env, &contract_id, |e| set_creator_tier(e, &admin, &creator_a, CreatorTier::Tier1)),
        Ok(())
    );
    assert_eq!(
        invoke(&env, &contract_id, |e| set_creator_tier(e, &admin, &creator_b, CreatorTier::Tier2)),
        Ok(())
    );

    env.ledger().with_mut(|li| li.sequence_number += 12_000);

    let cursor = invoke(&env, &contract_id, |e| extend_creator_tier_ttl(e, 0, 1));
    assert_eq!(cursor, 1);
    let final_cursor = invoke(&env, &contract_id, |e| extend_creator_tier_ttl(e, cursor, 1));
    assert_eq!(final_cursor, 2);

    let renewed_ttl = persistent_ttl(&env, &contract_id, "CreatorTier", &creator_a);
    assert_ttl_renewed_to_max(renewed_ttl);
}

#[test]
fn test_register_usdc_token_asset() {
    let env = test_env();
    env.mock_all_auths();

    let admin = Address::generate(&env);
    let treasury = Address::generate(&env);
    let registry = Address::generate(&env);

    let contract_id = install_and_init_contract(&env, &admin, &registry, &treasury, 500);

    let usdc_address = Address::generate(&env);

    assert_eq!(invoke(&env, &contract_id, |e| register_token_asset(e, &admin, &usdc_address, true)), Ok(()));

    let asset_info = invoke(&env, &contract_id, |e| get_asset_info(e, &usdc_address));
    assert_eq!(
        asset_info,
        Some(AssetInfo {
            kind: AssetKind::Token,
            enabled: true
        })
    );

    assert!(invoke(&env, &contract_id, |e| is_asset_allowed(e, &usdc_address)));
}

#[test]
fn test_register_institution_asset() {
    let env = test_env();
    env.mock_all_auths();

    let admin = Address::generate(&env);
    let treasury = Address::generate(&env);
    let registry = Address::generate(&env);

    let contract_id = install_and_init_contract(&env, &admin, &registry, &treasury, 500);

    let institution_asset = Address::generate(&env);

    assert_eq!(
        invoke(&env, &contract_id, |e| register_institution_asset(e, &admin, &institution_asset, true)),
        Ok(())
    );

    let asset_info = invoke(&env, &contract_id, |e| get_asset_info(e, &institution_asset));
    assert_eq!(
        asset_info,
        Some(AssetInfo {
            kind: AssetKind::InstitutionAsset,
            enabled: true
        })
    );

    assert!(invoke(&env, &contract_id, |e| is_asset_allowed(e, &institution_asset)));
}

#[test]
fn test_disable_asset() {
    let env = test_env();
    env.mock_all_auths();

    let admin = Address::generate(&env);
    let treasury = Address::generate(&env);
    let registry = Address::generate(&env);

    let contract_id = install_and_init_contract(&env, &admin, &registry, &treasury, 500);

    let usdc_address = Address::generate(&env);

    assert_eq!(invoke(&env, &contract_id, |e| register_token_asset(e, &admin, &usdc_address, true)), Ok(()));
    assert!(invoke(&env, &contract_id, |e| is_asset_allowed(e, &usdc_address)));

    assert_eq!(
        invoke(&env, &contract_id, |e| set_asset_allowed(e, &admin, &usdc_address, AssetKind::Token, false)),
        Ok(())
    );
    assert!(!invoke(&env, &contract_id, |e| is_asset_allowed(e, &usdc_address)));

    let asset_info = invoke(&env, &contract_id, |e| get_asset_info(e, &usdc_address));
    assert_eq!(
        asset_info,
        Some(AssetInfo {
            kind: AssetKind::Token,
            enabled: false
        })
    );
}

#[test]
fn test_register_native_asset() {
    let env = test_env();
    env.mock_all_auths();

    let admin = Address::generate(&env);
    let treasury = Address::generate(&env);
    let registry = Address::generate(&env);

    let contract_id = install_and_init_contract(&env, &admin, &registry, &treasury, 500);

    let native_asset = Address::generate(&env);

    assert_eq!(invoke(&env, &contract_id, |e| register_native_asset(e, &admin, &native_asset, true)), Ok(()));

    let asset_info = invoke(&env, &contract_id, |e| get_asset_info(e, &native_asset));
    assert_eq!(
        asset_info,
        Some(AssetInfo {
            kind: AssetKind::Native,
            enabled: true
        })
    );

    assert!(invoke(&env, &contract_id, |e| is_asset_allowed(e, &native_asset)));
}

#[test]
fn rejects_unauthorized_platform_config_change() {
    let env = test_env();
    env.mock_all_auths();

    let admin = Address::generate(&env);
    let unauthorized_user = Address::generate(&env);
    let registry = Address::generate(&env);
    let treasury = Address::generate(&env);

    let id = install_and_init_contract(&env, &admin, &registry, &treasury, 500);

    let new_treasury = Address::generate(&env);
    let result = invoke(&env, &id, |e| set_platform_config(e, &unauthorized_user, &new_treasury, 600, false));
    assert_eq!(result, Err(PurchaseError::NotAuthorized));
}

#[test]
fn admin_changes_platform_config_and_keeps_registry() {
    let env = test_env();
    env.mock_all_auths();

    let admin = Address::generate(&env);
    let registry = Address::generate(&env);
    let treasury = Address::generate(&env);
    let id = install_and_init_contract(&env, &admin, &registry, &treasury, 500);

    let new_treasury = Address::generate(&env);
    assert_eq!(invoke(&env, &id, |e| set_platform_config(e, &admin, &new_treasury, 600, true)), Ok(()));
    let config = invoke(&env, &id, |e| get_platform_config(e)).unwrap();
    assert_eq!(config.registry, registry);
    assert_eq!(config.treasury, new_treasury);
    assert_eq!(config.platform_fee_bps, 600);
    assert!(config.paused);
}

#[test]
fn platform_config_is_absent_before_initialize() {
    let env = test_env();
    env.mock_all_auths();
    let id = env.register(Holder, ());
    assert!(invoke(&env, &id, |e| get_platform_config(e)).is_none());
}

#[test]
fn settings_change_before_initialization_writes_no_configuration() {
    let env = test_env();
    env.mock_all_auths();
    let contract_id = env.register(Holder, ());
    let admin = Address::generate(&env);
    let treasury = Address::generate(&env);
    invoke(&env, &contract_id, |e| purchase_manager::auth::set_admin_role(e, &admin));
    assert_eq!(
        invoke(&env, &contract_id, |e| purchase_manager::config::update_platform_fee(e, &admin, 300)),
        Ok(())
    );
    assert_eq!(
        invoke(&env, &contract_id, |e| set_platform_config(e, &admin, &treasury, 300, true)),
        Ok(())
    );
    assert_eq!(invoke(&env, &contract_id, |e| get_platform_config(e)), None);
}
