use purchase_manager::asset::MockAsset;
use purchase_manager::error::PurchaseError;
use purchase_manager::material::{
    bytes32, same_material_id, AssetQuote, MaterialRecord, MaterialStatus, PayoutShare,
};
use purchase_manager::registry::MockRegistry;
use soroban_sdk::testutils::{Address as _, EnvTestConfig};
use soroban_sdk::{Address, Env};

fn test_env() -> Env {
    Env::new_with_config(EnvTestConfig {
        capture_snapshot_at_drop: false,
    })
}

fn material(id: [u8; 32], creator: &Address, asset: &Address, amount: i128) -> MaterialRecord {
    MaterialRecord {
        material_id: id,
        creator: creator.clone(),
        paused: false,
        status: MaterialStatus::Active,
        quotes: vec![AssetQuote {
            asset: asset.clone(),
            amount,
        }],
        payout_shares: vec![PayoutShare {
            recipient: creator.clone(),
            share_bps: 10_000,
        }],
    }
}

fn create_payout_shares_for(
    first: &Address,
    first_bps: u32,
    second: &Address,
    second_bps: u32,
) -> Vec<PayoutShare> {
    vec![
        PayoutShare {
            recipient: first.clone(),
            share_bps: first_bps,
        },
        PayoutShare {
            recipient: second.clone(),
            share_bps: second_bps,
        },
    ]
}

/// Registers `material_id` with a single quote/payout pair.
fn seed_purchasable_material(
    registry: &mut MockRegistry,
    material_id: &[u8; 32],
    creator: &Address,
    asset: &Address,
    amount: i128,
) {
    let material = MaterialRecord {
        material_id: *material_id,
        creator: creator.clone(),
        paused: false,
        status: MaterialStatus::Active,
        quotes: vec![AssetQuote {
            asset: asset.clone(),
            amount,
        }],
        payout_shares: vec![PayoutShare {
            recipient: creator.clone(),
            share_bps: 10_000,
        }],
    };
    registry.set_material(*material_id, material);
}

#[test]
fn seeded_materials_are_found_by_id() {
    let env = test_env();
    let creator = Address::generate(&env);
    let asset = Address::generate(&env);
    let mut registry = MockRegistry::new();
    for i in 0..30u8 {
        seed_purchasable_material(&mut registry, &bytes32(100u8.wrapping_add(i)), &creator, &asset, 1_000_000);
    }
    let got = registry.get_material(bytes32(129)).unwrap();
    assert_eq!(got.material_id, bytes32(129));
    assert_eq!(got.quotes[0].amount, 1_000_000);
    assert_eq!(registry.get_material(bytes32(130)), Err(PurchaseError::MaterialNotFound));
}

#[test]
fn registry_keeps_split_payouts() {
    let env = test_env();
    let creator = Address::generate(&env);
    let creator_payout = Address::generate(&env);
    let collaborator = Address::generate(&env);
    let asset = Address::generate(&env);
    let mut registry = MockRegistry::new();
    let mut m = material(bytes32(1), &creator, &asset, 1_000_000);
    m.payout_shares = create_payout_shares_for(&creator_payout, 8_000, &collaborator, 2_000);
    registry.set_material(bytes32(1), m);
    let got = registry.get_material(bytes32(1)).unwrap();
    assert_eq!(got.payout_shares.len(), 2);
    assert_eq!(got.payout_shares[0].recipient, creator_payout);
    assert_eq!(got.payout_shares[0].share_bps, 8_000);
    assert_eq!(got.payout_shares[1].recipient, collaborator);
    assert_eq!(got.payout_shares[1].share_bps, 2_000);
}

#[test]
fn bytes32_repeats_the_value() {
    assert_eq!(bytes32(7), [7u8; 32]);
    assert!(same_material_id(&bytes32(1), &bytes32(1)));
    assert!(!same_material_id(&bytes32(1), &bytes32(2)));
}

#[test]
fn registry_gives_back_what_was_registered() {
    let env = test_env();
    let creator = Address::generate(&env);
    let asset = Address::generate(&env);
    let mut registry = MockRegistry::new();
    let id = bytes32(1);
    registry.set_material(id, material(id, &creator, &asset, 1_000_000));

    let got = registry.get_material(id).unwrap();
    assert_eq!(got, material(id, &creator, &asset, 1_000_000));
}

#[test]
fn registry_reports_missing_material() {
    let env = test_env();
    let creator = Address::generate(&env);
    let asset = Address::generate(&env);
    let mut registry = MockRegistry::new();
    assert_eq!(registry.get_material(bytes32(9)), Err(PurchaseError::MaterialNotFound));
    registry.set_material(bytes32(1), material(bytes32(1), &creator, &asset, 5));
    assert_eq!(registry.get_material(bytes32(9)), Err(PurchaseError::MaterialNotFound));
}

#[test]
fn registry_overwrites_and_keeps_other_ids() {
    let env = test_env();
    let creator = Address::generate(&env);
    let asset = Address::generate(&env);
    let mut registry = MockRegistry::new();
    registry.set_material(bytes32(1), material(bytes32(1), &creator, &asset, 5));
    registry.set_material(bytes32(2), material(bytes32(2), &creator, &asset, 6));
    registry.set_material(bytes32(1), material(bytes32(1), &creator, &asset, 7));
    assert_eq!(registry.get_material(bytes32(1)).unwrap().quotes[0].amount, 7);
    assert_eq!(registry.get_material(bytes32(2)).unwrap().quotes[0].amount, 6);
}

#[test]
fn asset_balances_follow_transfers() {
    let env = test_env();
    let buyer = Address::generate(&env);
    let creator = Address::generate(&env);
    let treasury = Address::generate(&env);
    let mut asset = MockAsset::new();
    assert_eq!(asset.balance(&buyer), 0);

    asset.transfer(buyer.clone(), creator.clone(), 950_000);
    asset.transfer(buyer.clone(), treasury.clone(), 50_000);

    assert_eq!(asset.balance(&buyer), -1_000_000);
    assert_eq!(asset.balance(&creator), 950_000);
    assert_eq!(asset.balance(&treasury), 50_000);
    assert_eq!(asset.transfer_count(), 2);

    let second = asset.transfer_at(1);
    assert_eq!(second.from, buyer);
    assert_eq!(second.to, treasury);
    assert_eq!(second.amount, 50_000);
}

#[test]
fn transfer_to_oneself_changes_no_balance() {
    let env = test_env();
    let who = Address::generate(&env);
    let mut asset = MockAsset::new();
    asset.transfer(who.clone(), who.clone(), 42);
    assert_eq!(asset.balance(&who), 0);
    assert_eq!(asset.transfer_count(), 1);
}

#[test]
fn balances_of_all_participants_sum_to_zero() {
    let env = test_env();
    let a = Address::generate(&env);
    let b = Address::generate(&env);
    let c = Address::generate(&env);
    let mut asset = MockAsset::new();
    asset.transfer(a.clone(), b.clone(), 700);
    asset.transfer(b.clone(), c.clone(), 250);
    asset.transfer(c.clone(), a.clone(), 1_000);
    asset.transfer(b.clone(), b.clone(), 5);
    let total = asset.balance(&a) + asset.balance(&b) + asset.balance(&c);
    assert_eq!(total, 0);
    assert_eq!(asset.balance(&a), 300);
    assert_eq!(asset.balance(&b), 450);
    assert_eq!(asset.balance(&c), -750);
}

#[test]
fn transfers_are_recorded_in_call_order() {
    let env = test_env();
    let a = Address::generate(&env);
    let b = Address::generate(&env);
    let mut asset = MockAsset::new();
    asset.transfer(a.clone(), b.clone(), 1);
    asset.transfer(b.clone(), a.clone(), 2);
    asset.transfer(a.clone(), a.clone(), 3);
    assert_eq!(asset.transfer_count(), 3);
    let expected = [(&a, &b, 1i128), (&b, &a, 2i128), (&a, &a, 3i128)];
    for (i, (from, to, amount)) in expected.iter().enumerate() {
        let t = asset.transfer_at(i as u32);
        assert_eq!(&t.from, *from);
        assert_eq!(&t.to, *to);
        assert_eq!(t.amount, *amount);
    }
}

#[test]
fn checked_balance_reports_a_sum_out_of_range() {
    let env = test_env();
    let a = Address::generate(&env);
    let b = Address::generate(&env);
    let mut asset = MockAsset::new();
    assert_eq!(asset.balance_checked(&a), Some(0));
    asset.transfer(b.clone(), a.clone(), i128::MAX);
    assert_eq!(asset.balance_checked(&a), Some(i128::MAX));
    assert_eq!(asset.balance_checked(&b), Some(-i128::MAX));
    asset.transfer(b.clone(), a.clone(), 1);
    assert_eq!(asset.balance_checked(&a), None);
    assert_eq!(asset.balance_checked(&b), Some(i128::MIN));
}
