//! Maintenance indexes.  A registry keeps one persistent entry per address
//! under `(entry_tag, address)`.  So that those entries can be kept alive
//! without any off-chain list of addresses, each address is also recorded,
//! the first time it gets an entry, in slot `n` of an index,
//! `(slot_tag, n) -> address`, with the number of used slots kept in instance
//! storage under `(count_tag,)`.  An address that has an entry takes no new
//! slot.  A marker `(marker_tag, address) -> true`, written with the slot,
//! says that the address has its slot, so that it never takes a second one,
//! even when its entry is gone and it gets one again.  Maintenance then pages
//! through the index with a cursor, renewing a bounded batch of slots per
//! call, with the markers and entries of the addresses they record.
use vstd::prelude::*;
use soroban_sdk::{Address, Env};
use crate::storage::{
    auths_unchanged, contract_events, persistent_set_bool_by_address,
    address_strkey, instance_entries, instance_get_u64, instance_live_until, instance_set_u64,
    ledger_sequence, max_live_until, persistent_entries, persistent_get_address_by_index,
    persistent_has_by_address, persistent_live_until, persistent_set_address_by_index,
    valid_symbol, StoreKey, StoreValue,
};
use crate::ttl::{
    contents_and_ledger_unchanged, extend_instance_ttl, extend_persistent_ttl_by_address,
    extend_persistent_ttl_by_index, lemma_renew_all_empty, lemma_renew_all_union,
    lemma_write_then_renew, lemma_written_and_renewed_compose, renew_all, renewed,
    written_and_renewed,
};

verus! {

/// The most index slots that one maintenance call renews.
pub const MAX_MAINTENANCE_BATCH: u32 = 25;

/// The key of the entry of the address with strkey `id`.
pub open spec fn entry_key(e: Seq<char>, id: Seq<u8>) -> StoreKey {
    StoreKey::ByAddress(e, id)
}

/// The key of slot `n` of an index.
pub open spec fn slot_key(s: Seq<char>, n: u64) -> StoreKey {
    StoreKey::ByIndex(s, n)
}

/// The instance key of the number of used slots of an index.
pub open spec fn count_key(c: Seq<char>) -> StoreKey {
    StoreKey::Unit(c)
}

/// The number of used slots (0 before the first one).
pub open spec fn index_count(env: Env, c: Seq<char>) -> u64 {
    match instance_entries(env).get(count_key(c)) {
        Some(StoreValue::U64(n)) => n,
        _ => 0,
    }
}

/// The stored slot counter, when there is one, is a `u64`.
pub open spec fn count_well_typed(env: Env, c: Seq<char>) -> bool {
    instance_entries(env).contains_key(count_key(c)) ==> instance_entries(env)[count_key(c)] is U64
}

/// The counter is well typed and every stored slot holds an address.
pub open spec fn index_well_typed(env: Env, s: Seq<char>, c: Seq<char>) -> bool {
    &&& count_well_typed(env, c)
    &&& forall|n: u64| #[trigger] persistent_entries(env).contains_key(slot_key(s, n))
        ==> persistent_entries(env)[slot_key(s, n)] is Address
}

/// The key of the marker that records that the address with strkey `id` has
/// taken a slot of the index.
pub open spec fn marker_key(m: Seq<char>, id: Seq<u8>) -> StoreKey {
    StoreKey::ByAddress(m, id)
}

/// Whether the address with strkey `id` is marked as having a slot.
pub open spec fn is_indexed(pe: Map<StoreKey, StoreValue>, m: Seq<char>, id: Seq<u8>) -> bool {
    pe.contains_key(marker_key(m, id))
}

/// Whether writing the entry of `id` gives it a slot: only when it has no
/// entry (as in a store where entries are recorded on their first write) and
/// is not marked (its entry was never written before, so it has no slot).
pub open spec fn takes_slot(pe: Map<StoreKey, StoreValue>, e: Seq<char>, m: Seq<char>, id: Seq<u8>) -> bool {
    !pe.contains_key(entry_key(e, id)) && !is_indexed(pe, m, id)
}

/// The persistent entries after writing `v` as the entry of `id` while `count`
/// slots are used: an address that takes a slot is marked and recorded in
/// slot `count`; for any other address only its entry changes.
pub open spec fn recorded(
    pe: Map<StoreKey, StoreValue>,
    e: Seq<char>,
    m: Seq<char>,
    s: Seq<char>,
    id: Seq<u8>,
    count: u64,
    v: StoreValue,
) -> Map<StoreKey, StoreValue> {
    let with_entry = pe.insert(entry_key(e, id), v);
    if takes_slot(pe, e, m, id) {
        with_entry.insert(marker_key(m, id), StoreValue::Bool(true)).insert(
            slot_key(s, count),
            StoreValue::Address(id),
        )
    } else {
        with_entry
    }
}

/// The instance entries after that write: an address that takes a slot moves
/// the slot counter on by one.
pub open spec fn recorded_instance(
    ie: Map<StoreKey, StoreValue>,
    pe: Map<StoreKey, StoreValue>,
    e: Seq<char>,
    m: Seq<char>,
    c: Seq<char>,
    id: Seq<u8>,
    count: u64,
) -> Map<StoreKey, StoreValue> {
    if takes_slot(pe, e, m, id) {
        ie.insert(count_key(c), StoreValue::U64((count + 1) as u64))
    } else {
        ie
    }
}

/// The persistent keys that the write touches and renews.
pub open spec fn recorded_keys(
    pe: Map<StoreKey, StoreValue>,
    e: Seq<char>,
    m: Seq<char>,
    s: Seq<char>,
    id: Seq<u8>,
    count: u64,
) -> Set<StoreKey> {
    if takes_slot(pe, e, m, id) {
        set![entry_key(e, id), marker_key(m, id), slot_key(s, count)]
    } else {
        set![entry_key(e, id)]
    }
}

/// Marks `a` as indexed and records it in the next free slot of the index,
/// moving the counter on; the marker, the slot and the contract instance are
/// renewed.
pub fn append_to_index(env: &mut Env, marker_tag: &str, slot_tag: &str, count_tag: &str, a: &Address)
    requires
        valid_symbol(marker_tag@),
        valid_symbol(slot_tag@),
        valid_symbol(count_tag@),
        count_well_typed(*old(env), count_tag@),
        index_count(*old(env), count_tag@) < u64::MAX,
    ensures
        persistent_entries(*final(env)) == persistent_entries(*old(env)).insert(
            marker_key(marker_tag@, address_strkey(*a)),
            StoreValue::Bool(true),
        ).insert(
            slot_key(slot_tag@, index_count(*old(env), count_tag@)),
            StoreValue::Address(address_strkey(*a)),
        ),
        instance_entries(*final(env)) == instance_entries(*old(env)).insert(
            count_key(count_tag@),
            StoreValue::U64((index_count(*old(env), count_tag@) + 1) as u64),
        ),
        written_and_renewed(
            persistent_live_until(*old(env)),
            persistent_live_until(*final(env)),
            set![
                marker_key(marker_tag@, address_strkey(*a)),
                slot_key(slot_tag@, index_count(*old(env), count_tag@))
            ],
            max_live_until(*old(env)),
        ),
        instance_live_until(*final(env)) == renewed(instance_live_until(*old(env)), max_live_until(*old(env))),
        ledger_sequence(*final(env)) == ledger_sequence(*old(env)),
        contract_events(*final(env)) == contract_events(*old(env)),
        max_live_until(*final(env)) == max_live_until(*old(env)),
        auths_unchanged(*old(env), *final(env)),
{
    let count: u64 = instance_get_u64(env, count_tag).unwrap_or(0);
    assert(count == index_count(*old(env), count_tag@));
    let ghost max = max_live_until(*old(env));
    let ghost mk = marker_key(marker_tag@, address_strkey(*a));
    let ghost sk = slot_key(slot_tag@, count);
    persistent_set_bool_by_address(env, marker_tag, a, true);
    let ghost lu1 = persistent_live_until(*env);
    extend_persistent_ttl_by_address(env, marker_tag, a);
    proof {
        lemma_write_then_renew(persistent_live_until(*old(env)), lu1, mk, max);
    }
    let ghost lu2 = persistent_live_until(*env);
    persistent_set_address_by_index(env, slot_tag, count, a);
    let ghost lu3 = persistent_live_until(*env);
    extend_persistent_ttl_by_index(env, slot_tag, count);
    proof {
        lemma_write_then_renew(lu2, lu3, sk, max);
        lemma_written_and_renewed_compose(
            persistent_live_until(*old(env)),
            lu2,
            persistent_live_until(*env),
            set![mk],
            set![sk],
            max,
        );
        assert(set![mk].union(set![sk]) =~= set![mk, sk]);
    }
    instance_set_u64(env, count_tag, count + 1);
    extend_instance_ttl(env);
}

/// Writing and renewing an entry, then, for an address that takes a slot,
/// its marker and its slot, writes and renews all of those keys.
pub proof fn lemma_entry_then_slot(
    lu0: Map<StoreKey, u32>,
    lu1: Map<StoreKey, u32>,
    lu2: Map<StoreKey, u32>,
    entry: StoreKey,
    marker: StoreKey,
    slot: StoreKey,
    is_new: bool,
    max: u32,
)
    requires
        written_and_renewed(lu0, lu1, set![entry], max),
        is_new ==> written_and_renewed(lu1, lu2, set![marker, slot], max),
        !is_new ==> lu2 == lu1,
        entry != slot,
        entry != marker,
    ensures
        written_and_renewed(lu0, lu2, if is_new { set![entry, marker, slot] } else { set![entry] }, max),
{
    if is_new {
        assert(set![entry].disjoint(set![marker, slot]));
        lemma_written_and_renewed_compose(lu0, lu1, lu2, set![entry], set![marker, slot], max);
        assert(set![entry].union(set![marker, slot]) =~= set![entry, marker, slot]);
    }
}

/// How many slots one maintenance call may renew: `limit`, capped at
/// `MAX_MAINTENANCE_BATCH`.
pub open spec fn maintenance_batch(limit: u32) -> u64 {
    if limit < MAX_MAINTENANCE_BATCH { limit as u64 } else { MAX_MAINTENANCE_BATCH as u64 }
}

/// The cursor that a maintenance call returns: `cursor` moved on by the batch
/// (saturating), and never past the number of used slots.
pub open spec fn sweep_end(cursor: u64, limit: u32, count: u64) -> u64 {
    let upto = if cursor + maintenance_batch(limit) <= u64::MAX {
        (cursor + maintenance_batch(limit)) as u64
    } else {
        u64::MAX
    };
    if upto < count { upto } else { count }
}

/// Whether renewing slot `n` touches the key `k`: the slot itself, when it
/// exists, and the marker and the entry of the address it records, when
/// those exist.
pub open spec fn slot_renewal(
    pe: Map<StoreKey, StoreValue>,
    e: Seq<char>,
    m: Seq<char>,
    s: Seq<char>,
    n: u64,
    k: StoreKey,
) -> bool {
    &&& pe.contains_key(slot_key(s, n))
    &&& (k == slot_key(s, n) || match pe[slot_key(s, n)] {
        StoreValue::Address(id) => (pe.contains_key(marker_key(m, id)) && k == marker_key(m, id)) || (
        pe.contains_key(entry_key(e, id)) && k == entry_key(e, id)),
        _ => false,
    })
}

/// The keys that renewing slot `n` touches.
pub open spec fn slot_keys(pe: Map<StoreKey, StoreValue>, e: Seq<char>, m: Seq<char>, s: Seq<char>, n: u64) -> Set<
    StoreKey,
> {
    Set::new(|k: StoreKey| slot_renewal(pe, e, m, s, n, k))
}

/// The keys that renewing the slots `lo..hi` touches.
pub open spec fn swept_keys(
    pe: Map<StoreKey, StoreValue>,
    e: Seq<char>,
    m: Seq<char>,
    s: Seq<char>,
    lo: u64,
    hi: u64,
) -> Set<StoreKey> {
    Set::new(|k: StoreKey| exists|n: u64| lo <= n < hi && #[trigger] slot_renewal(pe, e, m, s, n, k))
}

/// Consecutive ranges of slots touch together what their union touches.
pub proof fn lemma_swept_keys_split(
    pe: Map<StoreKey, StoreValue>,
    e: Seq<char>,
    m: Seq<char>,
    s: Seq<char>,
    a: u64,
    b: u64,
    c: u64,
)
    requires
        a <= b <= c,
    ensures
        swept_keys(pe, e, m, s, a, b).union(swept_keys(pe, e, m, s, b, c)) == swept_keys(pe, e, m, s, a, c),
{
    assert forall|k: StoreKey| swept_keys(pe, e, m, s, a, c).contains(k) implies swept_keys(pe, e, m, s, a, b).union(
        swept_keys(pe, e, m, s, b, c),
    ).contains(k) by {
        let n = choose|n: u64| a <= n < c && #[trigger] slot_renewal(pe, e, m, s, n, k);
        if n < b {
            assert(swept_keys(pe, e, m, s, a, b).contains(k));
        } else {
            assert(swept_keys(pe, e, m, s, b, c).contains(k));
        }
    }
    assert(swept_keys(pe, e, m, s, a, b).union(swept_keys(pe, e, m, s, b, c)) =~= swept_keys(pe, e, m, s, a, c));
}

/// Renewing one more slot adds the keys of that slot.
proof fn lemma_swept_step(pe: Map<StoreKey, StoreValue>, e: Seq<char>, m: Seq<char>, s: Seq<char>, lo: u64, n: u64)
    requires
        lo <= n < u64::MAX,
    ensures
        swept_keys(pe, e, m, s, lo, (n + 1) as u64) == swept_keys(pe, e, m, s, lo, n).union(slot_keys(pe, e, m, s, n)),
{
    lemma_swept_keys_split(pe, e, m, s, lo, n, (n + 1) as u64);
    assert forall|k: StoreKey| swept_keys(pe, e, m, s, n, (n + 1) as u64).contains(k) <==> slot_keys(pe, e, m, s, n).contains(k) by {
        if slot_keys(pe, e, m, s, n).contains(k) {
            assert(slot_renewal(pe, e, m, s, n, k));
        }
    }
    assert(swept_keys(pe, e, m, s, n, (n + 1) as u64) =~= slot_keys(pe, e, m, s, n));
}

/// Renews up to `limit` (at most `MAX_MAINTENANCE_BATCH`) slots of the index
/// starting at `cursor`, with the markers and the entries of the addresses
/// they record; also renews the contract instance.  Returns the cursor at
/// which the next call should start.
pub fn extend_indexed_ttl(
    env: &mut Env,
    entry_tag: &str,
    marker_tag: &str,
    slot_tag: &str,
    count_tag: &str,
    cursor: u64,
    limit: u32,
) -> (end: u64)
    requires
        valid_symbol(entry_tag@),
        valid_symbol(marker_tag@),
        valid_symbol(slot_tag@),
        valid_symbol(count_tag@),
        index_well_typed(*old(env), slot_tag@, count_tag@),
    ensures
        end == sweep_end(cursor, limit, index_count(*old(env), count_tag@)),
        end <= cursor + limit,
        end <= index_count(*old(env), count_tag@),
        cursor < index_count(*old(env), count_tag@) && limit > 0 ==> cursor < end,
        contents_and_ledger_unchanged(*old(env), *final(env)),
        instance_live_until(*final(env)) == renewed(instance_live_until(*old(env)), max_live_until(*old(env))),
        persistent_live_until(*final(env)) == renew_all(
            persistent_live_until(*old(env)),
            swept_keys(persistent_entries(*old(env)), entry_tag@, marker_tag@, slot_tag@, cursor, end),
            max_live_until(*old(env)),
        ),
{
    let batch: u64 = if limit < MAX_MAINTENANCE_BATCH { limit as u64 } else { MAX_MAINTENANCE_BATCH as u64 };
    let count: u64 = instance_get_u64(env, count_tag).unwrap_or(0);
    extend_instance_ttl(env);

    let upto = cursor.saturating_add(batch);
    let end = if upto < count { upto } else { count };
    let ghost e = entry_tag@;
    let ghost m = marker_tag@;
    let ghost s = slot_tag@;
    let ghost pe0 = persistent_entries(*old(env));
    let ghost lu0 = persistent_live_until(*old(env));
    let ghost max = max_live_until(*old(env));
    proof {
        lemma_renew_all_empty(lu0, max);
        assert(swept_keys(pe0, e, m, s, cursor, cursor) =~= Set::empty());
    }
    let mut i = cursor;
    while i < end
        invariant
            cursor <= i,
            i <= end || i == cursor,
            end <= count,
            contents_and_ledger_unchanged(*old(env), *env),
            instance_live_until(*env) == renewed(instance_live_until(*old(env)), max),
            persistent_live_until(*env) == renew_all(lu0, swept_keys(pe0, e, m, s, cursor, i), max),
            index_well_typed(*old(env), s, count_tag@),
            pe0 == persistent_entries(*old(env)),
            lu0 == persistent_live_until(*old(env)),
            max == max_live_until(*old(env)),
            valid_symbol(entry_tag@),
            valid_symbol(marker_tag@),
            valid_symbol(slot_tag@),
            e == entry_tag@,
            m == marker_tag@,
            s == slot_tag@,
        decreases end - i,
    {
        let ghost s0 = swept_keys(pe0, e, m, s, cursor, i);
        let ghost sk = slot_key(s, i);
        proof {
            lemma_swept_step(pe0, e, m, s, cursor, i);
        }
        if let Some(a) = persistent_get_address_by_index(env, slot_tag, i) {
            let ghost id = address_strkey(a);
            let ghost mk = marker_key(m, id);
            let ghost ek = entry_key(e, id);
            extend_persistent_ttl_by_index(env, slot_tag, i);
            proof {
                lemma_renew_all_union(lu0, s0, set![sk], max);
            }
            let ghost mut acc = s0.union(set![sk]);
            let has_marker = persistent_has_by_address(env, marker_tag, &a);
            if has_marker {
                extend_persistent_ttl_by_address(env, marker_tag, &a);
                proof {
                    lemma_renew_all_union(lu0, acc, set![mk], max);
                    acc = acc.union(set![mk]);
                }
            }
            let has_entry = persistent_has_by_address(env, entry_tag, &a);
            if has_entry {
                extend_persistent_ttl_by_address(env, entry_tag, &a);
                proof {
                    lemma_renew_all_union(lu0, acc, set![ek], max);
                    acc = acc.union(set![ek]);
                }
            }
            proof {
                assert forall|k: StoreKey| slot_keys(pe0, e, m, s, i).contains(k) implies acc.contains(k) by {
                    assert(slot_renewal(pe0, e, m, s, i, k));
                }
                assert forall|k: StoreKey| acc.contains(k) && !s0.contains(k) implies slot_keys(pe0, e, m, s, i).contains(
                    k,
                ) by {
                    assert(slot_renewal(pe0, e, m, s, i, k));
                }
                assert(acc =~= s0.union(slot_keys(pe0, e, m, s, i)));
            }
        } else {
            proof {
                assert(slot_keys(pe0, e, m, s, i) =~= Set::empty());
                assert(s0.union(slot_keys(pe0, e, m, s, i)) =~= s0);
            }
        }
        i += 1;
    }
    proof {
        assert(swept_keys(pe0, e, m, s, cursor, i) =~= swept_keys(pe0, e, m, s, cursor, end));
    }
    end
}

/// The strkey recorded in slot `n` (empty when the slot holds no address).
pub open spec fn slot_id(pe: Map<StoreKey, StoreValue>, s: Seq<char>, n: u64) -> Seq<u8> {
    match pe[slot_key(s, n)] {
        StoreValue::Address(id) => id,
        _ => Seq::empty(),
    }
}

/// The index covers the registry: slots `0..count` are used and no other,
/// each records an address, and every address with an entry or a marker is
/// recorded in one of them.  A maintenance sweep over `0..count` then reaches
/// every entry.
pub open spec fn index_covers(
    pe: Map<StoreKey, StoreValue>,
    e: Seq<char>,
    m: Seq<char>,
    s: Seq<char>,
    count: u64,
) -> bool {
    &&& forall|n: u64| #[trigger] pe.contains_key(slot_key(s, n)) <==> n < count
    &&& forall|n: u64| n < count ==> (#[trigger] pe[slot_key(s, n)]) is Address
    &&& forall|id: Seq<u8>|
        #[trigger] pe.contains_key(entry_key(e, id)) ==> exists|n: u64|
            n < count && #[trigger] pe[slot_key(s, n)] == StoreValue::Address(id)
    &&& forall|id: Seq<u8>|
        #[trigger] pe.contains_key(marker_key(m, id)) ==> exists|n: u64|
            n < count && #[trigger] pe[slot_key(s, n)] == StoreValue::Address(id)
}

/// The index describes the registry exactly: it covers it, every recorded
/// address has an entry or a marker, and no address is recorded twice.
pub open spec fn index_consistent(
    pe: Map<StoreKey, StoreValue>,
    e: Seq<char>,
    m: Seq<char>,
    s: Seq<char>,
    count: u64,
) -> bool {
    &&& index_covers(pe, e, m, s, count)
    &&& forall|n: u64|
        #![trigger pe[slot_key(s, n)]]
        n < count ==> pe.contains_key(entry_key(e, slot_id(pe, s, n))) || pe.contains_key(
            marker_key(m, slot_id(pe, s, n)),
        )
    &&& forall|a: u64, b: u64|
        a < b < count ==> #[trigger] pe[slot_key(s, a)] != #[trigger] pe[slot_key(s, b)]
}

/// The index of `env` covers its registry and its counter is well typed.
pub open spec fn index_covers_in(env: Env, e: Seq<char>, m: Seq<char>, s: Seq<char>, c: Seq<char>) -> bool {
    &&& count_well_typed(env, c)
    &&& index_covers(persistent_entries(env), e, m, s, index_count(env, c))
}

/// The index of `env` is consistent and its counter well typed.
pub open spec fn index_consistent_in(env: Env, e: Seq<char>, m: Seq<char>, s: Seq<char>, c: Seq<char>) -> bool {
    &&& count_well_typed(env, c)
    &&& index_consistent(persistent_entries(env), e, m, s, index_count(env, c))
}

/// An empty store has a consistent (empty) index.
pub proof fn lemma_empty_index_consistent(pe: Map<StoreKey, StoreValue>, e: Seq<char>, m: Seq<char>, s: Seq<char>)
    requires
        forall|k: StoreKey| !pe.contains_key(k),
    ensures
        index_consistent(pe, e, m, s, 0),
{
}

/// An index that covers its registry is well typed.
pub proof fn lemma_covering_index_is_well_typed(env: Env, e: Seq<char>, m: Seq<char>, s: Seq<char>, c: Seq<char>)
    requires
        index_covers_in(env, e, m, s, c),
    ensures
        index_well_typed(env, s, c),
{
}

/// Writing an entry keeps an index that covers the registry covering it: an
/// address that takes a slot is recorded in it, and any other address was
/// recorded already.
pub proof fn lemma_record_keeps_index_covering(
    pe: Map<StoreKey, StoreValue>,
    e: Seq<char>,
    m: Seq<char>,
    s: Seq<char>,
    id: Seq<u8>,
    count: u64,
    v: StoreValue,
)
    requires
        index_covers(pe, e, m, s, count),
        !takes_slot(pe, e, m, id) || count < u64::MAX,
    ensures
        index_covers(
            recorded(pe, e, m, s, id, count, v),
            e,
            m,
            s,
            if takes_slot(pe, e, m, id) { (count + 1) as u64 } else { count },
        ),
{
    let pe1 = recorded(pe, e, m, s, id, count, v);
    if !takes_slot(pe, e, m, id) {
        assert forall|n: u64| n < count implies (#[trigger] pe1[slot_key(s, n)]) is Address by {
            assert(pe1[slot_key(s, n)] == pe[slot_key(s, n)]);
        }
        assert forall|j: Seq<u8>| #[trigger] pe1.contains_key(entry_key(e, j)) implies exists|n: u64|
            n < count && #[trigger] pe1[slot_key(s, n)] == StoreValue::Address(j) by {
            if j == id && !pe.contains_key(entry_key(e, j)) {
                assert(pe.contains_key(marker_key(m, j)));
            }
            let n = choose|n: u64| n < count && #[trigger] pe[slot_key(s, n)] == StoreValue::Address(j);
            assert(pe1[slot_key(s, n)] == StoreValue::Address(j));
        }
        assert forall|j: Seq<u8>| #[trigger] pe1.contains_key(marker_key(m, j)) implies exists|n: u64|
            n < count && #[trigger] pe1[slot_key(s, n)] == StoreValue::Address(j) by {
            if !pe.contains_key(marker_key(m, j)) {
                assert(marker_key(m, j) == entry_key(e, id));
                assert(pe.contains_key(entry_key(e, j)) || pe.contains_key(marker_key(m, j)));
            }
            let n = choose|n: u64| n < count && #[trigger] pe[slot_key(s, n)] == StoreValue::Address(j);
            assert(pe1[slot_key(s, n)] == StoreValue::Address(j));
        }
    } else {
        let c1 = (count + 1) as u64;
        assert forall|n: u64| #[trigger] pe1.contains_key(slot_key(s, n)) <==> n < c1 by {
            if n < count {
                assert(pe.contains_key(slot_key(s, n)));
            }
        }
        assert forall|n: u64| n < c1 implies (#[trigger] pe1[slot_key(s, n)]) is Address by {
            if n < count {
                assert(pe1[slot_key(s, n)] == pe[slot_key(s, n)]);
            }
        }
        assert forall|j: Seq<u8>| #[trigger] pe1.contains_key(entry_key(e, j)) implies exists|n: u64|
            n < c1 && #[trigger] pe1[slot_key(s, n)] == StoreValue::Address(j) by {
            if j == id {
                assert(pe1[slot_key(s, count)] == StoreValue::Address(j));
            } else {
                assert(pe.contains_key(entry_key(e, j)));
                let n = choose|n: u64| n < count && #[trigger] pe[slot_key(s, n)] == StoreValue::Address(j);
                assert(pe1[slot_key(s, n)] == StoreValue::Address(j));
            }
        }
        assert forall|j: Seq<u8>| #[trigger] pe1.contains_key(marker_key(m, j)) implies exists|n: u64|
            n < c1 && #[trigger] pe1[slot_key(s, n)] == StoreValue::Address(j) by {
            if j == id {
                assert(pe1[slot_key(s, count)] == StoreValue::Address(j));
            } else {
                assert(pe.contains_key(marker_key(m, j)));
                let n = choose|n: u64| n < count && #[trigger] pe[slot_key(s, n)] == StoreValue::Address(j);
                assert(pe1[slot_key(s, n)] == StoreValue::Address(j));
            }
        }
    }
}

/// Writing an entry keeps a consistent index consistent: an address that
/// takes a slot is recorded in it and was recorded nowhere before.
pub proof fn lemma_record_keeps_index_consistent(
    pe: Map<StoreKey, StoreValue>,
    e: Seq<char>,
    m: Seq<char>,
    s: Seq<char>,
    id: Seq<u8>,
    count: u64,
    v: StoreValue,
)
    requires
        index_consistent(pe, e, m, s, count),
        !takes_slot(pe, e, m, id) || count < u64::MAX,
    ensures
        index_consistent(
            recorded(pe, e, m, s, id, count, v),
            e,
            m,
            s,
            if takes_slot(pe, e, m, id) { (count + 1) as u64 } else { count },
        ),
{
    lemma_record_keeps_index_covering(pe, e, m, s, id, count, v);
    let pe1 = recorded(pe, e, m, s, id, count, v);
    let c1: u64 = if takes_slot(pe, e, m, id) { (count + 1) as u64 } else { count };
    assert forall|n: u64| #![trigger pe1[slot_key(s, n)]]
        n < c1 implies pe1.contains_key(entry_key(e, slot_id(pe1, s, n))) || pe1.contains_key(
            marker_key(m, slot_id(pe1, s, n)),
        ) by {
        if n < count {
            assert(pe1[slot_key(s, n)] == pe[slot_key(s, n)]);
            assert(pe[slot_key(s, n)] is Address);
        } else {
            assert(pe1[slot_key(s, n)] == StoreValue::Address(id));
        }
    }
    assert forall|a: u64, b: u64| a < b < c1 implies #[trigger] pe1[slot_key(s, a)]
        != #[trigger] pe1[slot_key(s, b)] by {
        assert(pe1[slot_key(s, a)] == pe[slot_key(s, a)]);
        if b < count {
            assert(pe1[slot_key(s, b)] == pe[slot_key(s, b)]);
        } else {
            assert(pe[slot_key(s, a)] is Address);
            assert(pe.contains_key(entry_key(e, slot_id(pe, s, a))) || pe.contains_key(
                marker_key(m, slot_id(pe, s, a)),
            ));
        }
    }
}

/// Granting again an address that has an entry or a marker leaves the
/// counter, every slot and every marker as they were, and the address in
/// exactly one slot: only its entry is written.
pub proof fn lemma_regrant_keeps_one_slot(
    pe: Map<StoreKey, StoreValue>,
    ie: Map<StoreKey, StoreValue>,
    e: Seq<char>,
    m: Seq<char>,
    s: Seq<char>,
    c: Seq<char>,
    id: Seq<u8>,
    count: u64,
    v: StoreValue,
)
    requires
        index_consistent(pe, e, m, s, count),
        e != m,
        !takes_slot(pe, e, m, id),
    ensures
        recorded(pe, e, m, s, id, count, v) == pe.insert(entry_key(e, id), v),
        recorded_instance(ie, pe, e, m, c, id, count) == ie,
        forall|n: u64| #[trigger] recorded(pe, e, m, s, id, count, v).get(slot_key(s, n)) == pe.get(slot_key(s, n)),
        forall|j: Seq<u8>|
            #[trigger] recorded(pe, e, m, s, id, count, v).get(marker_key(m, j)) == pe.get(marker_key(m, j)),
        exists|n: u64| n < count && #[trigger] pe[slot_key(s, n)] == StoreValue::Address(id),
        forall|a: u64, b: u64|
            a < count && b < count && #[trigger] pe[slot_key(s, a)] == StoreValue::Address(id)
                && #[trigger] pe[slot_key(s, b)] == StoreValue::Address(id) ==> a == b,
{
    let pe1 = recorded(pe, e, m, s, id, count, v);
    assert forall|n: u64| #[trigger] pe1.get(slot_key(s, n)) == pe.get(slot_key(s, n)) by {
        assert(entry_key(e, id) != slot_key(s, n));
    }
    assert forall|j: Seq<u8>| #[trigger] pe1.get(marker_key(m, j)) == pe.get(marker_key(m, j)) by {
        assert(entry_key(e, id) != marker_key(m, j));
    }
    if pe.contains_key(entry_key(e, id)) {
        let n = choose|n: u64| n < count && #[trigger] pe[slot_key(s, n)] == StoreValue::Address(id);
    } else {
        assert(pe.contains_key(marker_key(m, id)));
    }
    assert forall|a: u64, b: u64|
        a < count && b < count && #[trigger] pe[slot_key(s, a)] == StoreValue::Address(id)
            && #[trigger] pe[slot_key(s, b)] == StoreValue::Address(id) implies a == b by {
        if a < b {
            assert(pe[slot_key(s, a)] != pe[slot_key(s, b)]);
        } else if b < a {
            assert(pe[slot_key(s, b)] != pe[slot_key(s, a)]);
        }
    }
}

/// A maintenance call with a positive limit that starts before the end of the
/// index moves forward by at least one slot and by at most
/// `MAX_MAINTENANCE_BATCH`; one that starts at or past the end returns the end.
pub proof fn lemma_sweep_progress(cursor: u64, limit: u32, count: u64)
    ensures
        cursor < count && limit > 0 ==> cursor < sweep_end(cursor, limit, count),
        sweep_end(cursor, limit, count) <= count,
        cursor <= sweep_end(cursor, limit, count) ==> sweep_end(cursor, limit, count) - cursor
            <= MAX_MAINTENANCE_BATCH,
        cursor >= count ==> sweep_end(cursor, limit, count) == count,
{
}

/// Where a maintenance call ends: `cursor` moved on by `limit`, or by
/// `MAX_MAINTENANCE_BATCH` when the limit is larger (saturating at
/// `u64::MAX`), but never past the number of used slots.  In particular a
/// call never moves the cursor by more than the caller's limit.
pub proof fn lemma_sweep_end_exact(cursor: u64, limit: u32, count: u64)
    ensures
        ({
            let step: int = if limit <= MAX_MAINTENANCE_BATCH { limit as int } else { MAX_MAINTENANCE_BATCH as int };
            let moved: int = if cursor + step <= u64::MAX { cursor + step } else { u64::MAX as int };
            sweep_end(cursor, limit, count) as int == if moved <= count { moved } else { count as int }
        }),
        sweep_end(cursor, limit, count) <= cursor + limit,
        MAX_MAINTENANCE_BATCH == 25,
{
}

/// The cursor after `k` maintenance calls that start at 0 and each start
/// where the previous one ended.
pub open spec fn sweep_cursor(k: nat, limit: u32, count: u64) -> u64
    decreases k,
{
    if k == 0 {
        0
    } else {
        sweep_end(sweep_cursor((k - 1) as nat, limit, count), limit, count)
    }
}

/// Starting at 0, the `k`-th call ends at `k` batches or at the end of the
/// index, whichever comes first.
pub proof fn lemma_sweep_cursor(k: nat, limit: u32, count: u64)
    requires
        limit > 0,
    ensures
        sweep_cursor(k, limit, count) == if k * maintenance_batch(limit) < count {
            k * maintenance_batch(limit)
        } else {
            count as int
        },
    decreases k,
{
    let b = maintenance_batch(limit);
    if k > 0 {
        let j = (k - 1) as nat;
        lemma_sweep_cursor(j, limit, count);
        assert(k * b == j * b + b) by (nonlinear_arith) requires k == j + 1;
        let prev = sweep_cursor(j, limit, count);
        if j * b < count {
            assert(prev == j * b);
            assert(prev + b == k * b);
        } else {
            assert(prev == count);
            assert(j * b <= k * b) by (nonlinear_arith) requires b >= 0, k == j + 1;
        }
        assert(sweep_cursor(k, limit, count) == sweep_end(prev, limit, count));
    } else {
        assert(k * b == 0) by (nonlinear_arith) requires k == 0;
    }
}

/// A sweep from 0 with a positive limit reaches the end of the index after
/// `ceil(count / batch)` calls.
pub proof fn lemma_sweep_reaches_end(limit: u32, count: u64)
    requires
        limit > 0,
    ensures
        sweep_cursor(
            ((count + maintenance_batch(limit) - 1) / (maintenance_batch(limit) as int)) as nat,
            limit,
            count,
        ) == count,
{
    let b = maintenance_batch(limit) as int;
    let k = (count + b - 1) / b;
    assert(k >= 0) by (nonlinear_arith) requires b >= 1, count >= 0, k == (count + b - 1) / b;
    assert(k * b >= count) by (nonlinear_arith) requires b >= 1, count >= 0, k == (count + b - 1) / b;
    lemma_sweep_cursor(k as nat, limit, count);
}

/// With an index that covers the registry, sweeping the slots `0..count`
/// touches the entry of every address that has one, and every used slot:
/// paging through the index keeps every entry alive.
pub proof fn lemma_full_sweep_covers_every_entry(
    pe: Map<StoreKey, StoreValue>,
    e: Seq<char>,
    m: Seq<char>,
    s: Seq<char>,
    count: u64,
    id: Seq<u8>,
    n: u64,
)
    requires
        index_covers(pe, e, m, s, count),
    ensures
        pe.contains_key(entry_key(e, id)) ==> swept_keys(pe, e, m, s, 0, count).contains(entry_key(e, id)),
        n < count ==> swept_keys(pe, e, m, s, 0, count).contains(slot_key(s, n)),
{
    if pe.contains_key(entry_key(e, id)) {
        let j = choose|j: u64| j < count && #[trigger] pe[slot_key(s, j)] == StoreValue::Address(id);
        assert(slot_renewal(pe, e, m, s, j, entry_key(e, id)));
    }
    if n < count {
        assert(slot_renewal(pe, e, m, s, n, slot_key(s, n)));
    }
}

/// The keys that the first `k` maintenance calls of a sweep from 0 touch,
/// each call starting where the previous one ended.
pub open spec fn swept_by_calls(
    pe: Map<StoreKey, StoreValue>,
    e: Seq<char>,
    m: Seq<char>,
    s: Seq<char>,
    limit: u32,
    count: u64,
    k: nat,
) -> Set<StoreKey>
    decreases k,
{
    if k == 0 {
        Set::empty()
    } else {
        swept_by_calls(pe, e, m, s, limit, count, (k - 1) as nat).union(
            swept_keys(
                pe,
                e,
                m,
                s,
                sweep_cursor((k - 1) as nat, limit, count),
                sweep_cursor(k, limit, count),
            ),
        )
    }
}

/// The cursors of a sweep from 0 never pass the end of the index and never
/// move back.
pub proof fn lemma_sweep_cursor_monotone(k: nat, limit: u32, count: u64)
    ensures
        sweep_cursor(k, limit, count) <= count,
        sweep_cursor(k, limit, count) <= sweep_cursor(k + 1, limit, count),
{
}

/// The calls of a sweep from 0 touch together exactly the keys of the slots
/// before the last cursor: the sweep leaves no slot out.
pub proof fn lemma_sweep_calls_cover(
    pe: Map<StoreKey, StoreValue>,
    e: Seq<char>,
    m: Seq<char>,
    s: Seq<char>,
    limit: u32,
    count: u64,
    k: nat,
)
    ensures
        swept_by_calls(pe, e, m, s, limit, count, k) == swept_keys(pe, e, m, s, 0, sweep_cursor(k, limit, count)),
    decreases k,
{
    if k == 0 {
        assert(swept_keys(pe, e, m, s, 0, 0) =~= Set::empty());
    } else {
        let j = (k - 1) as nat;
        lemma_sweep_calls_cover(pe, e, m, s, limit, count, j);
        lemma_sweep_cursor_monotone(j, limit, count);
        lemma_swept_keys_split(pe, e, m, s, 0, sweep_cursor(j, limit, count), sweep_cursor(k, limit, count));
    }
}

/// The number of calls after which a sweep from 0 with `limit` has reached
/// the end of an index of `count` slots.
pub open spec fn full_sweep_calls(limit: u32, count: u64) -> nat {
    ((count + maintenance_batch(limit) - 1) / (maintenance_batch(limit) as int)) as nat
}

/// With an index that covers the registry and a positive limit, the calls of
/// a full sweep
/// from 0 touch the entry of every address that has one.
pub proof fn lemma_full_sweep_keeps_every_entry(
    pe: Map<StoreKey, StoreValue>,
    e: Seq<char>,
    m: Seq<char>,
    s: Seq<char>,
    limit: u32,
    count: u64,
    id: Seq<u8>,
)
    requires
        index_covers(pe, e, m, s, count),
        limit > 0,
        pe.contains_key(entry_key(e, id)),
    ensures
        swept_by_calls(pe, e, m, s, limit, count, full_sweep_calls(limit, count)).contains(entry_key(e, id)),
{
    let k = full_sweep_calls(limit, count);
    lemma_sweep_reaches_end(limit, count);
    lemma_sweep_calls_cover(pe, e, m, s, limit, count, k);
    lemma_full_sweep_covers_every_entry(pe, e, m, s, count, id, 0);
}

/// The live-until ledgers after the first `k` maintenance calls of a sweep
/// from 0, each starting where the previous one ended: each call renews the
/// keys of the slots it passes, as `extend_indexed_ttl` states.
pub open spec fn live_until_after_sweep(
    lu: Map<StoreKey, u32>,
    pe: Map<StoreKey, StoreValue>,
    e: Seq<char>,
    m: Seq<char>,
    s: Seq<char>,
    limit: u32,
    count: u64,
    max: u32,
    k: nat,
) -> Map<StoreKey, u32>
    decreases k,
{
    if k == 0 {
        lu
    } else {
        renew_all(
            live_until_after_sweep(lu, pe, e, m, s, limit, count, max, (k - 1) as nat),
            swept_keys(pe, e, m, s, sweep_cursor((k - 1) as nat, limit, count), sweep_cursor(k, limit, count)),
            max,
        )
    }
}

/// Successive calls renew at once everything that they touch together.
proof fn lemma_live_until_after_sweep(
    lu: Map<StoreKey, u32>,
    pe: Map<StoreKey, StoreValue>,
    e: Seq<char>,
    m: Seq<char>,
    s: Seq<char>,
    limit: u32,
    count: u64,
    max: u32,
    k: nat,
)
    requires
        forall|key: StoreKey| #[trigger] pe.contains_key(key) ==> lu.contains_key(key),
    ensures
        live_until_after_sweep(lu, pe, e, m, s, limit, count, max, k) == renew_all(
            lu,
            swept_by_calls(pe, e, m, s, limit, count, k),
            max,
        ),
    decreases k,
{
    if k == 0 {
        lemma_renew_all_empty(lu, max);
    } else {
        let j = (k - 1) as nat;
        lemma_live_until_after_sweep(lu, pe, e, m, s, limit, count, max, j);
        let b = swept_keys(pe, e, m, s, sweep_cursor(j, limit, count), sweep_cursor(k, limit, count));
        assert forall|key: StoreKey| #[trigger] b.contains(key) implies lu.contains_key(key)
            || swept_by_calls(pe, e, m, s, limit, count, j).contains(key) by {
            let n = choose|n: u64|
                sweep_cursor(j, limit, count) <= n < sweep_cursor(k, limit, count) && #[trigger] slot_renewal(
                    pe,
                    e,
                    m,
                    s,
                    n,
                    key,
                );
            assert(pe.contains_key(key));
        }
        lemma_renew_all_union(lu, swept_by_calls(pe, e, m, s, limit, count, j), b, max);
    }
}

/// With an index that covers the registry and a positive limit, once the
/// calls of a sweep
/// from 0 have reached the end of the index, the entry of every address that
/// has one lives at least until the network's maximum: it was renewed.
/// (Every stored entry has a live-until ledger.)
pub proof fn lemma_full_sweep_renews_every_entry(
    lu: Map<StoreKey, u32>,
    pe: Map<StoreKey, StoreValue>,
    e: Seq<char>,
    m: Seq<char>,
    s: Seq<char>,
    limit: u32,
    count: u64,
    max: u32,
    id: Seq<u8>,
)
    requires
        index_covers(pe, e, m, s, count),
        limit > 0,
        forall|key: StoreKey| #[trigger] pe.contains_key(key) ==> lu.contains_key(key),
        pe.contains_key(entry_key(e, id)),
    ensures
        live_until_after_sweep(lu, pe, e, m, s, limit, count, max, full_sweep_calls(limit, count))[entry_key(e, id)]
            == renewed(lu[entry_key(e, id)], max),
        live_until_after_sweep(lu, pe, e, m, s, limit, count, max, full_sweep_calls(limit, count))[entry_key(e, id)]
            >= max,
{
    let k = full_sweep_calls(limit, count);
    lemma_full_sweep_keeps_every_entry(pe, e, m, s, limit, count, id);
    lemma_live_until_after_sweep(lu, pe, e, m, s, limit, count, max, k);
}

/// Writing an entry a second time leaves the index and the counter as the
/// first write left them.
pub proof fn lemma_record_twice_indexes_once(
    pe: Map<StoreKey, StoreValue>,
    ie: Map<StoreKey, StoreValue>,
    e: Seq<char>,
    m: Seq<char>,
    s: Seq<char>,
    c: Seq<char>,
    id: Seq<u8>,
    count: u64,
    later_count: u64,
    v: StoreValue,
    w: StoreValue,
)
    ensures
        recorded(recorded(pe, e, m, s, id, count, v), e, m, s, id, later_count, w)
            == recorded(pe, e, m, s, id, count, v).insert(entry_key(e, id), w),
        recorded_instance(
            recorded_instance(ie, pe, e, m, c, id, count),
            recorded(pe, e, m, s, id, count, v),
            e,
            m,
            c,
            id,
            later_count,
        ) == recorded_instance(ie, pe, e, m, c, id, count),
{
    let pe1 = recorded(pe, e, m, s, id, count, v);
    assert(pe1.contains_key(entry_key(e, id)));
}

} // verus!
