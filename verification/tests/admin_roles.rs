use purchase_manager::assets::{set_asset_allowed, AssetKind};
use purchase_manager::auth::{
    accept_admin, extend_admin_role_ttl, get_pending_admin, has_admin_role, require_admin,
    set_admin_role, transfer_admin,
};
use purchase_manager::config::{get_platform_config, initialize, update_platform_fee};
use purchase_manager::error::PurchaseError;
use soroban_sdk::testutils::storage::Persistent as _;
use soroban_sdk::testutils::{Address as _, ContractFunctionSet, EnvTestConfig, Events as _, Ledger};
use soroban_sdk::{xdr, Address, Env, Event, IntoVal, Symbol, Val, Vec};

/// A test environment that keeps no snapshot files.
fn test_env() -> Env {
    Env::new_with_config(EnvTestConfig {
        capture_snapshot_at_drop: false,
    })
}

struct Holder;

impl ContractFunctionSet for Holder {
    fn call(&self, _func: &str, _env: Env, _args: &[Val]) -> Option<Val> {
        None
    }
}

/// Runs `f` as one invocation of the contract `id`.
fn invoke<T>(env: &Env, id: &Address, f: impl FnOnce(&mut Env) -> T) -> T {
    env.as_contract(id, || {
        let mut e = env.clone();
        f(&mut e)
    })
}

fn install_and_init_contract(
    env: &Env,
    admin: &Address,
    registry: &Address,
    treasury: &Address,
    platform_fee_bps: u32,
) -> Address {
    let contract_id = env.register(Holder, ());
    let r = invoke(env, &contract_id, |e| initialize(e, admin, registry, treasury, platform_fee_bps));
    assert_eq!(r, Ok(()));
    contract_id
}

fn set_short_ttl_window(env: &Env) {
    env.ledger().with_mut(|li| {
        li.min_persistent_entry_ttl = 100;
        li.max_entry_ttl = 20_000;
    });
}

fn assert_ttl_renewed_to_max(ttl: u32) {
    assert!(
        (19_990..=20_000).contains(&ttl),
        "expected TTL near the 20_000 max, got {ttl}"
    );
}

fn role_ttl(env: &Env, contract_id: &Address, admin: &Address) -> u32 {
    env.as_contract(contract_id, || {
        env.storage()
            .persistent()
            .get_ttl(&(Symbol::new(env, "AdminRole"), admin.clone()))
    })
}

/// The event that an asset policy change publishes, built as a contract
/// event with a map of named fields.
struct AssetPolicyUpdatedEvent {
    asset: Address,
    kind: AssetKind,
    enabled: bool,
}

impl Event for AssetPolicyUpdatedEvent {
    fn topics(&self, env: &Env) -> Vec<Val> {
        let mut v: Vec<Val> = Vec::new(env);
        v.push_back(Symbol::new(env, "asset_policy_updated").into_val(env));
        v
    }

    fn data(&self, env: &Env) -> Val {
        let kind = match self.kind {
            AssetKind::Token => "Token",
            AssetKind::InstitutionAsset => "InstitutionAsset",
            AssetKind::Native => "Native",
        };
        let mut m: soroban_sdk::Map<Symbol, Val> = soroban_sdk::Map::new(env);
        m.set(Symbol::new(env, "asset"), self.asset.into_val(env));
        m.set(Symbol::new(env, "enabled"), self.enabled.into_val(env));
        m.set(Symbol::new(env, "kind"), (Symbol::new(env, kind),).into_val(env));
        m.into_val(env)
    }
}

#[test]
fn sets_asset_allowed() {
    let env = test_env();
    let admin = Address::generate(&env);
    let registry = Address::generate(&env);
    let treasury = Address::generate(&env);
    let asset = Address::generate(&env);

    env.mock_all_auths();

    let contract_id = install_and_init_contract(&env, &admin, &registry, &treasury, 500);

    assert!(!invoke(&env, &contract_id, |e| purchase_manager::assets::is_asset_allowed(e, &asset)));

    assert_eq!(
        invoke(&env, &contract_id, |e| set_asset_allowed(e, &admin, &asset, AssetKind::Token, true)),
        Ok(())
    );
    let asset_policy_events = env.events().all();

    assert!(invoke(&env, &contract_id, |e| purchase_manager::assets::is_asset_allowed(e, &asset)));

    let info = invoke(&env, &contract_id, |e| purchase_manager::assets::get_asset_info(e, &asset)).unwrap();
    assert_eq!(info.kind, AssetKind::Token);
    assert!(info.enabled);

    let events = asset_policy_events.events();
    let last_event: &xdr::ContractEvent = &events[events.len() - 1];
    assert_eq!(
        last_event,
        &AssetPolicyUpdatedEvent {
            asset,
            kind: AssetKind::Token,
            enabled: true,
        }
        .to_xdr(&env, &contract_id)
    );
}

#[test]
fn transfer_admin_initiates_pending_transfer() {
    let env = test_env();
    env.mock_all_auths();

    let admin = Address::generate(&env);
    let new_admin = Address::generate(&env);
    let registry = Address::generate(&env);
    let treasury = Address::generate(&env);

    let id = install_and_init_contract(&env, &admin, &registry, &treasury, 500);

    assert_eq!(invoke(&env, &id, |e| transfer_admin(e, &admin, &new_admin)), Ok(()));

    assert_eq!(invoke(&env, &id, |e| get_pending_admin(e)), Some(new_admin));
}

#[test]
fn transfer_admin_emits_initiated_event() {
    let env = test_env();
    env.mock_all_auths();

    let admin = Address::generate(&env);
    let new_admin = Address::generate(&env);
    let registry = Address::generate(&env);
    let treasury = Address::generate(&env);

    let contract_id = install_and_init_contract(&env, &admin, &registry, &treasury, 500);

    assert_eq!(invoke(&env, &contract_id, |e| transfer_admin(e, &admin, &new_admin)), Ok(()));

    let all_events = env.events().all().filter_by_contract(&contract_id);
    let events = all_events.events();
    assert_eq!(events.len(), 1);
}

#[test]
fn transfer_admin_requires_admin() {
    let env = test_env();
    env.mock_all_auths();

    let admin = Address::generate(&env);
    let non_admin = Address::generate(&env);
    let new_admin = Address::generate(&env);
    let registry = Address::generate(&env);
    let treasury = Address::generate(&env);

    let id = install_and_init_contract(&env, &admin, &registry, &treasury, 500);

    let result = invoke(&env, &id, |e| transfer_admin(e, &non_admin, &new_admin));
    assert_eq!(result, Err(PurchaseError::NotAuthorized));
}

#[test]
fn accept_admin_completes_transfer() {
    let env = test_env();
    env.mock_all_auths();

    let admin = Address::generate(&env);
    let new_admin = Address::generate(&env);
    let registry = Address::generate(&env);
    let treasury = Address::generate(&env);

    let id = install_and_init_contract(&env, &admin, &registry, &treasury, 500);

    assert_eq!(invoke(&env, &id, |e| transfer_admin(e, &admin, &new_admin)), Ok(()));
    assert_eq!(invoke(&env, &id, |e| accept_admin(e, &new_admin)), Ok(()));

    assert_eq!(invoke(&env, &id, |e| get_pending_admin(e)), None);

    assert_eq!(invoke(&env, &id, |e| update_platform_fee(e, &new_admin, 300)), Ok(()));
    let config = invoke(&env, &id, |e| get_platform_config(e)).unwrap();
    assert_eq!(config.platform_fee_bps, 300);
}

#[test]
fn accept_admin_emits_accepted_event() {
    let env = test_env();
    env.mock_all_auths();

    let admin = Address::generate(&env);
    let new_admin = Address::generate(&env);
    let registry = Address::generate(&env);
    let treasury = Address::generate(&env);

    let contract_id = install_and_init_contract(&env, &admin, &registry, &treasury, 500);

    assert_eq!(invoke(&env, &contract_id, |e| transfer_admin(e, &admin, &new_admin)), Ok(()));
    assert_eq!(invoke(&env, &contract_id, |e| accept_admin(e, &new_admin)), Ok(()));

    let all_events = env.events().all().filter_by_contract(&contract_id);
    let events = all_events.events();
    assert_eq!(events.len(), 1);
}

#[test]
fn accept_admin_fails_when_no_pending_transfer() {
    let env = test_env();
    env.mock_all_auths();

    let admin = Address::generate(&env);
    let claimant = Address::generate(&env);
    let registry = Address::generate(&env);
    let treasury = Address::generate(&env);

    let id = install_and_init_contract(&env, &admin, &registry, &treasury, 500);

    let result = invoke(&env, &id, |e| accept_admin(e, &claimant));
    assert_eq!(result, Err(PurchaseError::NoPendingAdminTransfer));
}

#[test]
fn accept_admin_fails_for_non_pending_address() {
    let env = test_env();
    env.mock_all_auths();

    let admin = Address::generate(&env);
    let new_admin = Address::generate(&env);
    let impostor = Address::generate(&env);
    let registry = Address::generate(&env);
    let treasury = Address::generate(&env);

    let id = install_and_init_contract(&env, &admin, &registry, &treasury, 500);

    assert_eq!(invoke(&env, &id, |e| transfer_admin(e, &admin, &new_admin)), Ok(()));

    let result = invoke(&env, &id, |e| accept_admin(e, &impostor));
    assert_eq!(result, Err(PurchaseError::NotAuthorized));
}

#[test]
fn admin_role_ttl_renews_on_any_admin_check() {
    let env = test_env();
    env.mock_all_auths();
    set_short_ttl_window(&env);

    let admin = Address::generate(&env);
    let registry = Address::generate(&env);
    let treasury = Address::generate(&env);
    let contract_id = install_and_init_contract(&env, &admin, &registry, &treasury, 500);

    let initial_ttl = role_ttl(&env, &contract_id, &admin);
    assert_ttl_renewed_to_max(initial_ttl);

    env.ledger().with_mut(|li| li.sequence_number += 12_000);

    assert_eq!(invoke(&env, &contract_id, |e| update_platform_fee(e, &admin, 300)), Ok(()));

    let renewed_ttl = role_ttl(&env, &contract_id, &admin);
    assert_ttl_renewed_to_max(renewed_ttl);
}

#[test]
fn extend_admin_role_ttl_is_cursor_based() {
    let env = test_env();
    env.mock_all_auths();
    set_short_ttl_window(&env);

    let admin = Address::generate(&env);
    let registry = Address::generate(&env);
    let treasury = Address::generate(&env);
    let contract_id = install_and_init_contract(&env, &admin, &registry, &treasury, 500);

    let second_admin = Address::generate(&env);
    assert_eq!(invoke(&env, &contract_id, |e| transfer_admin(e, &admin, &second_admin)), Ok(()));
    assert_eq!(invoke(&env, &contract_id, |e| accept_admin(e, &second_admin)), Ok(()));

    env.ledger().with_mut(|li| li.sequence_number += 12_000);

    let cursor = invoke(&env, &contract_id, |e| extend_admin_role_ttl(e, 0, 1));
    assert_eq!(cursor, 1);
    let final_cursor = invoke(&env, &contract_id, |e| extend_admin_role_ttl(e, cursor, 1));
    assert_eq!(final_cursor, 2);

    let renewed_ttl = role_ttl(&env, &contract_id, &admin);
    assert_ttl_renewed_to_max(renewed_ttl);
}

#[test]
fn granted_admin_has_role_and_others_do_not() {
    let env = test_env();
    env.mock_all_auths();
    let contract_id = env.register(Holder, ());
    let admin = Address::generate(&env);
    let other = Address::generate(&env);
    invoke(&env, &contract_id, |e| {
        assert!(!has_admin_role(e, &admin));
        set_admin_role(e, &admin);
        assert!(has_admin_role(e, &admin));
        assert!(!has_admin_role(e, &other));
        assert_eq!(require_admin(e, &admin), Ok(()));
        assert_eq!(require_admin(e, &other), Err(PurchaseError::NotAuthorized));
    });
}

#[test]
fn nothing_is_pending_before_a_transfer() {
    let env = test_env();
    env.mock_all_auths();
    let admin = Address::generate(&env);
    let registry = Address::generate(&env);
    let treasury = Address::generate(&env);
    let id = install_and_init_contract(&env, &admin, &registry, &treasury, 500);
    assert_eq!(invoke(&env, &id, |e| get_pending_admin(e)), None);
}

#[test]
fn previous_admin_keeps_the_role_after_a_transfer() {
    let env = test_env();
    env.mock_all_auths();
    let admin = Address::generate(&env);
    let new_admin = Address::generate(&env);
    let registry = Address::generate(&env);
    let treasury = Address::generate(&env);
    let id = install_and_init_contract(&env, &admin, &registry, &treasury, 500);
    assert_eq!(invoke(&env, &id, |e| transfer_admin(e, &admin, &new_admin)), Ok(()));
    assert_eq!(invoke(&env, &id, |e| accept_admin(e, &new_admin)), Ok(()));
    assert!(invoke(&env, &id, |e| has_admin_role(e, &admin)));
    assert!(invoke(&env, &id, |e| has_admin_role(e, &new_admin)));
    // A second acceptance finds nothing pending.
    assert_eq!(invoke(&env, &id, |e| accept_admin(e, &new_admin)), Err(PurchaseError::NoPendingAdminTransfer));
}

#[test]
fn non_admin_cannot_update_the_fee() {
    let env = test_env();
    env.mock_all_auths();
    let admin = Address::generate(&env);
    let stranger = Address::generate(&env);
    let registry = Address::generate(&env);
    let treasury = Address::generate(&env);
    let id = install_and_init_contract(&env, &admin, &registry, &treasury, 500);
    assert_eq!(invoke(&env, &id, |e| update_platform_fee(e, &stranger, 1)), Err(PurchaseError::NotAuthorized));
    assert_eq!(invoke(&env, &id, |e| get_platform_config(e)).unwrap().platform_fee_bps, 500);
}

#[test]
fn regrant_after_the_role_is_gone_keeps_one_index_slot() {
    let env = test_env();
    env.mock_all_auths();
    let contract_id = env.register(Holder, ());
    let admin = Address::generate(&env);
    invoke(&env, &contract_id, |e| set_admin_role(e, &admin));
    env.as_contract(&contract_id, || {
        env.storage()
            .persistent()
            .remove(&(Symbol::new(&env, "AdminRole"), admin.clone()));
    });
    invoke(&env, &contract_id, |e| {
        assert!(!has_admin_role(e, &admin));
        set_admin_role(e, &admin);
        assert!(has_admin_role(e, &admin));
    });
    env.as_contract(&contract_id, || {
        let count: Option<u64> = env
            .storage()
            .instance()
            .get(&(Symbol::new(&env, "AdminRoleIndexCount"),));
        assert_eq!(count, Some(1));
        let first: Option<Address> = env
            .storage()
            .persistent()
            .get(&(Symbol::new(&env, "AdminRoleIndex"), 0u64));
        assert_eq!(first, Some(admin.clone()));
        assert!(!env
            .storage()
            .persistent()
            .has(&(Symbol::new(&env, "AdminRoleIndex"), 1u64)));
    });
    // A sweep of the whole index renews the re-granted role.
    let end = invoke(&env, &contract_id, |e| extend_admin_role_ttl(e, 0, 10));
    assert_eq!(end, 1);
}

#[test]
fn a_full_sweep_renews_every_admin_role() {
    let env = test_env();
    env.mock_all_auths();
    set_short_ttl_window(&env);
    let contract_id = env.register(Holder, ());
    let admins = [
        Address::generate(&env),
        Address::generate(&env),
        Address::generate(&env),
    ];
    invoke(&env, &contract_id, |e| {
        for a in admins.iter() {
            set_admin_role(e, a);
        }
    });
    env.ledger().with_mut(|li| li.sequence_number += 12_000);
    let mut cursor = 0u64;
    let mut calls = 0u32;
    loop {
        let next = invoke(&env, &contract_id, |e| extend_admin_role_ttl(e, cursor, 2));
        calls += 1;
        if next == cursor {
            break;
        }
        cursor = next;
    }
    assert_eq!(cursor, 3);
    assert_eq!(calls, 3);
    for a in admins.iter() {
        assert_ttl_renewed_to_max(role_ttl(&env, &contract_id, a));
    }
}

#[test]
fn grant_to_a_current_admin_changes_no_index_entry() {
    let env = test_env();
    env.mock_all_auths();
    let contract_id = env.register(Holder, ());
    let admin = Address::generate(&env);
    // A store where the admin holds the role and sits in slot 0, with no
    // marker beside it.
    env.as_contract(&contract_id, || {
        env.storage()
            .persistent()
            .set(&(Symbol::new(&env, "AdminRole"), admin.clone()), &true);
        env.storage()
            .persistent()
            .set(&(Symbol::new(&env, "AdminRoleIndex"), 0u64), &admin);
        env.storage()
            .instance()
            .set(&(Symbol::new(&env, "AdminRoleIndexCount"),), &1u64);
    });
    invoke(&env, &contract_id, |e| set_admin_role(e, &admin));
    env.as_contract(&contract_id, || {
        let count: Option<u64> = env
            .storage()
            .instance()
            .get(&(Symbol::new(&env, "AdminRoleIndexCount"),));
        assert_eq!(count, Some(1));
        assert!(!env
            .storage()
            .persistent()
            .has(&(Symbol::new(&env, "AdminRoleIndex"), 1u64)));
        assert!(!env
            .storage()
            .persistent()
            .has(&(Symbol::new(&env, "AdminRoleIndexed"), admin.clone())));
    });
    assert!(invoke(&env, &contract_id, |e| has_admin_role(e, &admin)));
}
