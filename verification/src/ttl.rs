//! Time-to-live renewal: every entry that the contract touches is extended to
//! the largest TTL that the network allows.
use vstd::prelude::*;
use soroban_sdk::{Address, Env};
use crate::storage::{
    auths_unchanged, contract_events,
    address_strkey, extended_live_until, instance_extend_ttl, instance_entries, instance_live_until,
    ledger_sequence, max_live_until, persistent_entries, persistent_extend_ttl_by_address,
    persistent_extend_ttl_by_index, persistent_live_until, sat_sub, storage_max_ttl, valid_symbol,
    StoreKey,
};

verus! {

/// The live-until ledger of an entry renewed to the network's maximum: the
/// maximum, unless the entry already lives longer.
pub open spec fn renewed(old: u32, max: u32) -> u32 {
    if max > old { max } else { old }
}

/// `lu` with each key of `keys` renewed.
pub open spec fn renew_all(lu: Map<StoreKey, u32>, keys: Set<StoreKey>, max: u32) -> Map<StoreKey, u32> {
    Map::new(
        |k: StoreKey| lu.contains_key(k) || keys.contains(k),
        |k: StoreKey| if keys.contains(k) { renewed(lu[k], max) } else { lu[k] },
    )
}

/// `lu1` is `lu0` where the keys of `keys` were written when absent and
/// renewed: every such key lives at least until `max`, one that existed is
/// renewed from its old ledger, and every other key keeps its ledger.
pub open spec fn written_and_renewed(
    lu0: Map<StoreKey, u32>,
    lu1: Map<StoreKey, u32>,
    keys: Set<StoreKey>,
    max: u32,
) -> bool {
    &&& lu1.dom() == lu0.dom().union(keys)
    &&& forall|k: StoreKey| #[trigger] lu1.contains_key(k) && !keys.contains(k) ==> lu1[k] == lu0[k]
    &&& forall|k: StoreKey| #[trigger] keys.contains(k) && lu0.contains_key(k) ==> lu1[k] == renewed(lu0[k], max)
    &&& forall|k: StoreKey| #[trigger] keys.contains(k) ==> lu1[k] >= max
}

/// Extending with threshold and target both at the maximum TTL renews.
pub proof fn lemma_extend_to_max_is_renewal(old: u32, seq: u32, max: u32)
    ensures
        extended_live_until(old, seq, max, sat_sub(max, seq), sat_sub(max, seq)) == renewed(old, max),
{
}

/// Renewing one set of keys and then another is renewing both at once;
/// renewing a key twice is renewing it once.
pub proof fn lemma_renew_all_union(lu: Map<StoreKey, u32>, a: Set<StoreKey>, b: Set<StoreKey>, max: u32)
    requires
        forall|k: StoreKey| #[trigger] b.contains(k) ==> lu.contains_key(k) || a.contains(k),
    ensures
        renew_all(renew_all(lu, a, max), b, max) == renew_all(lu, a.union(b), max),
{
    assert(renew_all(renew_all(lu, a, max), b, max) =~= renew_all(lu, a.union(b), max));
}

/// Renewing no key leaves the map as it is.
pub proof fn lemma_renew_all_empty(lu: Map<StoreKey, u32>, max: u32)
    ensures
        renew_all(lu, Set::empty(), max) == lu,
{
    assert(renew_all(lu, Set::empty(), max) =~= lu);
}

/// The contents of both storages, the ledger info and the published events
/// are as they were.
pub open spec fn storage_unchanged(e0: Env, e1: Env) -> bool {
    &&& persistent_entries(e1) == persistent_entries(e0)
    &&& instance_entries(e1) == instance_entries(e0)
    &&& ledger_sequence(e1) == ledger_sequence(e0)
    &&& max_live_until(e1) == max_live_until(e0)
    &&& contract_events(e1) == contract_events(e0)
}

/// What an operation on TTLs alone leaves as it was: the contents of both
/// storages, the ledger info, the events and the authorizations.
pub open spec fn contents_and_ledger_unchanged(e0: Env, e1: Env) -> bool {
    &&& storage_unchanged(e0, e1)
    &&& auths_unchanged(e0, e1)
}

/// Extends the TTL of the persistent entry `(tag, a)` to the network's
/// maximum.
pub fn extend_persistent_ttl_by_address(env: &mut Env, tag: &str, a: &Address)
    requires
        valid_symbol(tag@),
        persistent_entries(*old(env)).contains_key(StoreKey::ByAddress(tag@, address_strkey(*a))),
        persistent_live_until(*old(env))[StoreKey::ByAddress(tag@, address_strkey(*a))]
            >= ledger_sequence(*old(env)),
    ensures
        contents_and_ledger_unchanged(*old(env), *final(env)),
        instance_live_until(*final(env)) == instance_live_until(*old(env)),
        persistent_live_until(*final(env)) == renew_all(
            persistent_live_until(*old(env)),
            set![StoreKey::ByAddress(tag@, address_strkey(*a))],
            max_live_until(*old(env)),
        ),
{
    let max_ttl = storage_max_ttl(env);
    persistent_extend_ttl_by_address(env, tag, a, max_ttl, max_ttl);
    proof {
        let k = StoreKey::ByAddress(tag@, address_strkey(*a));
        let lu0 = persistent_live_until(*old(env));
        lemma_extend_to_max_is_renewal(lu0[k], ledger_sequence(*old(env)), max_live_until(*old(env)));
        assert(persistent_live_until(*env) =~= renew_all(lu0, set![k], max_live_until(*old(env))));
    }
}

/// Extends the TTL of the persistent entry `(tag, n)` to the network's
/// maximum.
pub fn extend_persistent_ttl_by_index(env: &mut Env, tag: &str, n: u64)
    requires
        valid_symbol(tag@),
        persistent_entries(*old(env)).contains_key(StoreKey::ByIndex(tag@, n)),
        persistent_live_until(*old(env))[StoreKey::ByIndex(tag@, n)] >= ledger_sequence(*old(env)),
    ensures
        contents_and_ledger_unchanged(*old(env), *final(env)),
        instance_live_until(*final(env)) == instance_live_until(*old(env)),
        persistent_live_until(*final(env)) == renew_all(
            persistent_live_until(*old(env)),
            set![StoreKey::ByIndex(tag@, n)],
            max_live_until(*old(env)),
        ),
{
    let max_ttl = storage_max_ttl(env);
    persistent_extend_ttl_by_index(env, tag, n, max_ttl, max_ttl);
    proof {
        let k = StoreKey::ByIndex(tag@, n);
        let lu0 = persistent_live_until(*old(env));
        lemma_extend_to_max_is_renewal(lu0[k], ledger_sequence(*old(env)), max_live_until(*old(env)));
        assert(persistent_live_until(*env) =~= renew_all(lu0, set![k], max_live_until(*old(env))));
    }
}

/// Extends the TTL of the contract instance to the network's maximum.
pub fn extend_instance_ttl(env: &mut Env)
    ensures
        contents_and_ledger_unchanged(*old(env), *final(env)),
        persistent_live_until(*final(env)) == persistent_live_until(*old(env)),
        instance_live_until(*final(env)) == renewed(instance_live_until(*old(env)), max_live_until(*old(env))),
{
    let max_ttl = storage_max_ttl(env);
    instance_extend_ttl(env, max_ttl, max_ttl);
    proof {
        lemma_extend_to_max_is_renewal(
            instance_live_until(*old(env)),
            ledger_sequence(*old(env)),
            max_live_until(*old(env)),
        );
    }
}

/// Writing `k` and then renewing it.
pub proof fn lemma_write_then_renew(lu0: Map<StoreKey, u32>, lu1: Map<StoreKey, u32>, k: StoreKey, max: u32)
    requires
        lu1 == (if lu0.contains_key(k) { lu0 } else { lu0.insert(k, lu1[k]) }),
    ensures
        written_and_renewed(lu0, renew_all(lu1, set![k], max), set![k], max),
{
    let lu2 = renew_all(lu1, set![k], max);
    assert(lu2.dom() =~= lu0.dom().union(set![k]));
}

/// Two writes-and-renewals of disjoint key sets make one.
pub proof fn lemma_written_and_renewed_compose(
    lu0: Map<StoreKey, u32>,
    lu1: Map<StoreKey, u32>,
    lu2: Map<StoreKey, u32>,
    a: Set<StoreKey>,
    b: Set<StoreKey>,
    max: u32,
)
    requires
        written_and_renewed(lu0, lu1, a, max),
        written_and_renewed(lu1, lu2, b, max),
        a.disjoint(b),
    ensures
        written_and_renewed(lu0, lu2, a.union(b), max),
{
    assert(lu2.dom() =~= lu0.dom().union(a.union(b)));
    assert forall|k: StoreKey| #[trigger] a.union(b).contains(k) && lu0.contains_key(k)
        implies lu2[k] == renewed(lu0[k], max) by {
        if a.contains(k) {
            assert(!b.contains(k));
            assert(lu2.contains_key(k));
        } else {
            assert(lu1.contains_key(k));
        }
    }
    assert forall|k: StoreKey| #[trigger] lu2.contains_key(k) && !a.union(b).contains(k)
        implies lu2[k] == lu0[k] by {
        assert(lu1.contains_key(k));
    }
    assert forall|k: StoreKey| #[trigger] a.union(b).contains(k) implies lu2[k] >= max by {
        if a.contains(k) {
            assert(!b.contains(k));
            assert(lu2.contains_key(k));
        }
    }
}

} // verus!
