use purchase_manager::assets::{extend_allowed_asset_ttl, set_asset_allowed, AssetKind};
use purchase_manager::auth::{extend_admin_role_ttl, set_admin_role, MAX_MAINTENANCE_BATCH};
use purchase_manager::config::initialize;
use purchase_manager::error::PurchaseError;
use purchase_manager::tiers::{set_creator_tier, CreatorTier};
use soroban_sdk::testutils::storage::Persistent as _;
use soroban_sdk::testutils::{Address as _, ContractFunctionSet, EnvTestConfig, Ledger};
use soroban_sdk::{Address, Env, Symbol, Val};

fn test_env() -> Env {
    Env::new_with_config(EnvTestConfig {
        capture_snapshot_at_drop: false,
    })
}

struct Holder;

impl ContractFunctionSet for Holder {
    fn call(&self, _func: &str, _env: Env, _args: &[Val]) -> Option<Val> {
        None
    }
}

fn invoke<T>(env: &Env, id: &Address, f: impl FnOnce(&mut Env) -> T) -> T {
    env.as_contract(id, || {
        let mut e = env.clone();
        f(&mut e)
    })
}

fn persistent_ttl(env: &Env, id: &Address, tag: &str, who: &Address) -> u32 {
    env.as_contract(id, || {
        env.storage()
            .persistent()
            .get_ttl(&(Symbol::new(env, tag), who.clone()))
    })
}

#[test]
fn admin_sweep_is_clamped_to_the_batch_size() {
    let env = test_env();
    env.mock_all_auths();
    env.ledger().with_mut(|li| {
        li.min_persistent_entry_ttl = 100;
        li.max_entry_ttl = 20_000;
    });
    let id = env.register(Holder, ());
    let mut admins = std::vec::Vec::new();
    for _ in 0..30 {
        let a = Address::generate(&env);
        invoke(&env, &id, |e| set_admin_role(e, &a));
        admins.push(a);
    }
    env.ledger().with_mut(|li| li.sequence_number += 12_000);

    let next = invoke(&env, &id, |e| extend_admin_role_ttl(e, 0, 10_000));
    assert_eq!(next, MAX_MAINTENANCE_BATCH as u64);
    let last = invoke(&env, &id, |e| extend_admin_role_ttl(e, next, 10_000));
    assert_eq!(last, 30);
    // A cursor past the end comes back as the end.
    assert_eq!(invoke(&env, &id, |e| extend_admin_role_ttl(e, 100, 5)), 30);
    // A zero limit does not move.
    assert_eq!(invoke(&env, &id, |e| extend_admin_role_ttl(e, 3, 0)), 3);

    let first_ttl = persistent_ttl(&env, &id, "AdminRole", &admins[0]);
    let last_ttl = persistent_ttl(&env, &id, "AdminRole", &admins[29]);
    assert!((19_990..=20_000).contains(&first_ttl));
    assert!((19_990..=20_000).contains(&last_ttl));
}

#[test]
fn granting_twice_indexes_once() {
    let env = test_env();
    env.mock_all_auths();
    let id = env.register(Holder, ());
    let a = Address::generate(&env);
    invoke(&env, &id, |e| set_admin_role(e, &a));
    invoke(&env, &id, |e| set_admin_role(e, &a));
    assert_eq!(invoke(&env, &id, |e| extend_admin_role_ttl(e, 0, 25)), 1);
}

#[test]
fn re_enabling_an_asset_indexes_it_once() {
    let env = test_env();
    env.mock_all_auths();
    let id = env.register(Holder, ());
    let admin = Address::generate(&env);
    let registry = Address::generate(&env);
    let treasury = Address::generate(&env);
    assert_eq!(invoke(&env, &id, |e| initialize(e, &admin, &registry, &treasury, 500)), Ok(()));
    let asset = Address::generate(&env);
    for enabled in [true, false, true] {
        assert_eq!(
            invoke(&env, &id, |e| set_asset_allowed(e, &admin, &asset, AssetKind::Native, enabled)),
            Ok(())
        );
    }
    assert_eq!(invoke(&env, &id, |e| extend_allowed_asset_ttl(e, 0, 25)), 1);
}

#[test]
fn non_admin_cannot_change_policies() {
    let env = test_env();
    env.mock_all_auths();
    let id = env.register(Holder, ());
    let admin = Address::generate(&env);
    let registry = Address::generate(&env);
    let treasury = Address::generate(&env);
    let stranger = Address::generate(&env);
    assert_eq!(invoke(&env, &id, |e| initialize(e, &admin, &registry, &treasury, 500)), Ok(()));
    let asset = Address::generate(&env);
    assert_eq!(
        invoke(&env, &id, |e| set_asset_allowed(e, &stranger, &asset, AssetKind::Token, true)),
        Err(PurchaseError::NotAuthorized)
    );
    assert_eq!(
        invoke(&env, &id, |e| set_creator_tier(e, &stranger, &asset, CreatorTier::Tier1)),
        Err(PurchaseError::NotAuthorized)
    );
    assert_eq!(invoke(&env, &id, |e| extend_allowed_asset_ttl(e, 0, 25)), 0);
}
