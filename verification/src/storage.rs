//! The contract's state as the soroban host keeps it (persistent and
//! instance storage, the time-to-live of entries, the ledger info and the
//! published events) and the calls into `soroban_sdk` that read and change it.
//!
//! An `Env` stands here for that state as the current invocation sees it:
//! every call that changes the state takes `&mut Env`, and the ledger info
//! does not change during an invocation.
//!
//! Keys are built the way `#[contracttype]` encodes an enum variant: a
//! vector whose first element is the variant's name as a `Symbol`, followed by
//! the variant's fields.  A key is therefore described here by its tag (the
//! variant's name) and its field.
use vstd::prelude::*;
use soroban_sdk::{Address, Env, IntoVal, Map as SorobanMap, Symbol, Val};

verus! {

#[verifier::external_type_specification]
#[verifier::external_body]
pub struct ExEnv(Env);

#[verifier::external_type_specification]
#[verifier::external_body]
pub struct ExAddress(Address);

/// A storage key of one of the three shapes that the library uses.
pub enum StoreKey {
    /// `(tag, address)`: a variant that carries an address.
    ByAddress(Seq<char>, Seq<u8>),
    /// `(tag, n)`: a variant that carries a `u64`.
    ByIndex(Seq<char>, u64),
    /// `(tag,)`: a variant without fields.
    Unit(Seq<char>),
}

/// A stored value, as far as the library reads it.
pub enum StoreValue {
    Bool(bool),
    /// An address, by its strkey.
    Address(Seq<u8>),
    U64(u64),
    U32(u32),
    /// A pair `(code, flag)`.
    U32Flag(u32, bool),
    /// A platform configuration `(registry, treasury, fee_bps, paused)`.
    Config(Seq<u8>, Seq<u8>, u32, bool),
    /// Any value of another type.
    Other,
}

/// The strkey (`G...` or `C...`) that `Address::to_string` gives for an
/// address.  Two addresses are equal, and select the same storage entry,
/// exactly when their strkeys are equal.
pub uninterp spec fn address_strkey(a: Address) -> Seq<u8>;

/// The live entries of the current contract's persistent storage whose keys
/// have one of the shapes of `StoreKey`.
pub uninterp spec fn persistent_entries(env: Env) -> Map<StoreKey, StoreValue>;

/// The ledger until which each persistent entry lives, as the host sees it
/// when the invocation accesses the entry: an archived entry is restored
/// before it can be accessed, so the ledger given here for an entry is never
/// before the current one.  The wrappers below rely on this when they state that an entry kept
/// through a write keeps its ledger and lives at least until the current one.
pub uninterp spec fn persistent_live_until(env: Env) -> Map<StoreKey, u32>;

/// The entries of the current contract's instance storage whose keys have one
/// of the shapes of `StoreKey`.
pub uninterp spec fn instance_entries(env: Env) -> Map<StoreKey, StoreValue>;

/// The ledger until which the current contract's instance lives.
pub uninterp spec fn instance_live_until(env: Env) -> u32;

/// The sequence number of the ledger that the invocation runs in.
pub uninterp spec fn ledger_sequence(env: Env) -> u32;

/// The last ledger until which the network lets an entry live, as of the
/// ledger that the invocation runs in.
pub uninterp spec fn max_live_until(env: Env) -> u32;

/// A value carried by an event's data.
pub enum EventField {
    Address(Seq<u8>),
    Bool(bool),
    /// A variant of a field-less enum, by its name.
    Tag(Seq<char>),
}

/// A contract event: its topics (symbols) and its data, a map from field
/// names to values.
pub struct EventRecord {
    pub topics: Seq<Seq<char>>,
    pub data: Map<Seq<char>, EventField>,
}

/// The events that the current contract invocation has published so far, in
/// order.
pub uninterp spec fn contract_events(env: Env) -> Seq<EventRecord>;

/// The addresses (by strkey) that have authorized the current invocation of
/// the contract: `require_auth` on one of them returns.
pub uninterp spec fn authorized_addresses(env: Env) -> Set<Seq<u8>>;

/// The addresses (by strkey) that the current invocation has required to
/// authorize it, with `require_auth`.
pub uninterp spec fn required_auths(env: Env) -> Set<Seq<u8>>;

/// Neither the authorizations of the invocation nor the record of those it
/// required have changed.
pub open spec fn auths_unchanged(e1: Env, e2: Env) -> bool {
    &&& authorized_addresses(e2) == authorized_addresses(e1)
    &&& required_auths(e2) == required_auths(e1)
}

/// `a - b`, or 0 when `b > a`.
pub open spec fn sat_sub(a: u32, b: u32) -> u32 {
    if a >= b { (a - b) as u32 } else { 0 }
}

/// `a + b`, or `u32::MAX` when that overflows.
pub open spec fn sat_add(a: u32, b: u32) -> u32 {
    if a + b <= u32::MAX { (a + b) as u32 } else { u32::MAX }
}

/// The ledger until which an entry that lived until `old` lives after
/// `extend_ttl(threshold, extend_to)`: when its TTL (ledgers left after the
/// current one) is at most `threshold`, it is raised to `extend_to`, never
/// past the network's maximum and never lowered.
pub open spec fn extended_live_until(old: u32, seq: u32, max: u32, threshold: u32, extend_to: u32) -> u32 {
    if sat_sub(old, seq) <= threshold {
        let target = if sat_add(seq, extend_to) <= max { sat_add(seq, extend_to) } else { max };
        if target > old { target } else { old }
    } else {
        old
    }
}

/// What `Symbol::new` accepts: at most 32 characters, each of `a-zA-Z0-9_`.
pub open spec fn valid_symbol(s: Seq<char>) -> bool {
    &&& s.len() <= 32
    &&& forall|i: int|
        0 <= i < s.len() ==> {
            let c = #[trigger] s[i];
            ('a' <= c <= 'z') || ('A' <= c <= 'Z') || ('0' <= c <= '9') || c == '_'
        }
}

/// The names and the ledger info that a write to persistent storage leaves as
/// they were.
pub open spec fn same_outside_persistent(e1: Env, e2: Env) -> bool {
    &&& instance_entries(e2) == instance_entries(e1)
    &&& instance_live_until(e2) == instance_live_until(e1)
    &&& ledger_sequence(e2) == ledger_sequence(e1)
    &&& max_live_until(e2) == max_live_until(e1)
    &&& contract_events(e2) == contract_events(e1)
    &&& auths_unchanged(e1, e2)
}

/// The live-until map after a write to `k`: an entry that existed keeps its
/// ledger; a new entry lives until `fresh`.
pub open spec fn written_live_until(lu: Map<StoreKey, u32>, k: StoreKey, fresh: u32) -> Map<StoreKey, u32> {
    if lu.contains_key(k) { lu } else { lu.insert(k, fresh) }
}

/// `Persistent::has` on the key `(tag, address)`: whether the entry exists;
/// an entry that the host reports is live.
#[verifier::external_body]
pub(crate) fn persistent_has_by_address(env: &Env, tag: &str, a: &Address) -> (r: bool)
    requires
        valid_symbol(tag@),
    ensures
        r == persistent_entries(*env).contains_key(StoreKey::ByAddress(tag@, address_strkey(*a))),
        r ==> persistent_live_until(*env).contains_key(StoreKey::ByAddress(tag@, address_strkey(*a))),
        r ==> persistent_live_until(*env)[StoreKey::ByAddress(tag@, address_strkey(*a))]
            >= ledger_sequence(*env),
{
    env.storage().persistent().has(&(Symbol::new(env, tag), a.clone()))
}

/// `Persistent::set` of a `bool` on the key `(tag, address)`: the entry holds
/// the value; an existing entry keeps its live-until ledger, a new one lives
/// at least until the current ledger; nothing else changes.
#[verifier::external_body]
pub(crate) fn persistent_set_bool_by_address(env: &mut Env, tag: &str, a: &Address, v: bool)
    requires
        valid_symbol(tag@),
    ensures
        persistent_entries(*final(env)) == persistent_entries(*old(env)).insert(
            StoreKey::ByAddress(tag@, address_strkey(*a)),
            StoreValue::Bool(v),
        ),
        persistent_live_until(*final(env)) == written_live_until(
            persistent_live_until(*old(env)),
            StoreKey::ByAddress(tag@, address_strkey(*a)),
            persistent_live_until(*final(env))[StoreKey::ByAddress(tag@, address_strkey(*a))],
        ),
        persistent_live_until(*final(env))[StoreKey::ByAddress(tag@, address_strkey(*a))] >= ledger_sequence(*old(env)),
        same_outside_persistent(*old(env), *final(env)),
{
    env.storage().persistent().set(&(Symbol::new(env, tag), a.clone()), &v)
}

/// `Persistent::extend_ttl` on the key `(tag, address)`: as the host computes
/// it (see `extended_live_until`), for an entry that exists and is live;
/// nothing else changes.
#[verifier::external_body]
pub(crate) fn persistent_extend_ttl_by_address(
    env: &mut Env,
    tag: &str,
    a: &Address,
    threshold: u32,
    extend_to: u32,
)
    requires
        valid_symbol(tag@),
        threshold <= extend_to,
        persistent_entries(*old(env)).contains_key(StoreKey::ByAddress(tag@, address_strkey(*a))),
        persistent_live_until(*old(env))[StoreKey::ByAddress(tag@, address_strkey(*a))]
            >= ledger_sequence(*old(env)),
    ensures
        persistent_entries(*final(env)) == persistent_entries(*old(env)),
        ({
            let k = StoreKey::ByAddress(tag@, address_strkey(*a));
            let lu0 = persistent_live_until(*old(env));
            persistent_live_until(*final(env)) == lu0.insert(
                k,
                extended_live_until(
                    lu0[k],
                    ledger_sequence(*old(env)),
                    max_live_until(*old(env)),
                    threshold,
                    extend_to,
                ),
            )
        }),
        same_outside_persistent(*old(env), *final(env)),
{
    env.storage().persistent().extend_ttl(&(Symbol::new(env, tag), a.clone()), threshold, extend_to)
}

/// `Persistent::get` of a `u32` on the key `(tag, address)`: the stored value,
/// if any; the entry must hold a `u32` (the host traps on another type).
#[verifier::external_body]
pub(crate) fn persistent_get_u32_by_address(env: &Env, tag: &str, a: &Address) -> (r: Option<u32>)
    requires
        valid_symbol(tag@),
        persistent_entries(*env).contains_key(StoreKey::ByAddress(tag@, address_strkey(*a))) ==>
            persistent_entries(*env)[StoreKey::ByAddress(tag@, address_strkey(*a))] is U32,
    ensures
        match persistent_entries(*env).get(StoreKey::ByAddress(tag@, address_strkey(*a))) {
            Some(StoreValue::U32(n)) => r == Some(n),
            _ => r is None,
        },
        r is Some ==> persistent_live_until(*env).contains_key(StoreKey::ByAddress(tag@, address_strkey(*a))),
        r is Some ==> persistent_live_until(*env)[StoreKey::ByAddress(tag@, address_strkey(*a))]
            >= ledger_sequence(*env),
{
    env.storage().persistent().get::<_, u32>(&(Symbol::new(env, tag), a.clone()))
}

/// `Persistent::set` of a `u32` on the key `(tag, address)`: as
/// `persistent_set_bool_by_address`, with a `u32` value.
#[verifier::external_body]
pub(crate) fn persistent_set_u32_by_address(env: &mut Env, tag: &str, a: &Address, v: u32)
    requires
        valid_symbol(tag@),
    ensures
        persistent_entries(*final(env)) == persistent_entries(*old(env)).insert(
            StoreKey::ByAddress(tag@, address_strkey(*a)),
            StoreValue::U32(v),
        ),
        persistent_live_until(*final(env)) == written_live_until(
            persistent_live_until(*old(env)),
            StoreKey::ByAddress(tag@, address_strkey(*a)),
            persistent_live_until(*final(env))[StoreKey::ByAddress(tag@, address_strkey(*a))],
        ),
        persistent_live_until(*final(env))[StoreKey::ByAddress(tag@, address_strkey(*a))] >= ledger_sequence(*old(env)),
        same_outside_persistent(*old(env), *final(env)),
{
    env.storage().persistent().set(&(Symbol::new(env, tag), a.clone()), &v)
}

/// `Persistent::get` of a `(u32, bool)` pair on the key `(tag, address)`: the
/// stored pair, if any; the entry must hold such a pair.
#[verifier::external_body]
pub(crate) fn persistent_get_u32_flag_by_address(env: &Env, tag: &str, a: &Address) -> (r: Option<(u32, bool)>)
    requires
        valid_symbol(tag@),
        persistent_entries(*env).contains_key(StoreKey::ByAddress(tag@, address_strkey(*a))) ==>
            persistent_entries(*env)[StoreKey::ByAddress(tag@, address_strkey(*a))] is U32Flag,
    ensures
        match persistent_entries(*env).get(StoreKey::ByAddress(tag@, address_strkey(*a))) {
            Some(StoreValue::U32Flag(n, b)) => r == Some((n, b)),
            _ => r is None,
        },
        r is Some ==> persistent_live_until(*env).contains_key(StoreKey::ByAddress(tag@, address_strkey(*a))),
        r is Some ==> persistent_live_until(*env)[StoreKey::ByAddress(tag@, address_strkey(*a))]
            >= ledger_sequence(*env),
{
    env.storage().persistent().get::<_, (u32, bool)>(&(Symbol::new(env, tag), a.clone()))
}

/// `Persistent::set` of a `(u32, bool)` pair on the key `(tag, address)`: as
/// `persistent_set_bool_by_address`, with a pair.
#[verifier::external_body]
pub(crate) fn persistent_set_u32_flag_by_address(env: &mut Env, tag: &str, a: &Address, n: u32, b: bool)
    requires
        valid_symbol(tag@),
    ensures
        persistent_entries(*final(env)) == persistent_entries(*old(env)).insert(
            StoreKey::ByAddress(tag@, address_strkey(*a)),
            StoreValue::U32Flag(n, b),
        ),
        persistent_live_until(*final(env)) == written_live_until(
            persistent_live_until(*old(env)),
            StoreKey::ByAddress(tag@, address_strkey(*a)),
            persistent_live_until(*final(env))[StoreKey::ByAddress(tag@, address_strkey(*a))],
        ),
        persistent_live_until(*final(env))[StoreKey::ByAddress(tag@, address_strkey(*a))] >= ledger_sequence(*old(env)),
        same_outside_persistent(*old(env), *final(env)),
{
    env.storage().persistent().set(&(Symbol::new(env, tag), a.clone()), &(n, b))
}

/// `Persistent::get` of an `Address` on the key `(tag, n)`: the stored address
/// (by its strkey), if any; the entry must hold an address.
#[verifier::external_body]
pub(crate) fn persistent_get_address_by_index(env: &Env, tag: &str, n: u64) -> (r: Option<Address>)
    requires
        valid_symbol(tag@),
        persistent_entries(*env).contains_key(StoreKey::ByIndex(tag@, n)) ==>
            persistent_entries(*env)[StoreKey::ByIndex(tag@, n)] is Address,
    ensures
        match persistent_entries(*env).get(StoreKey::ByIndex(tag@, n)) {
            Some(StoreValue::Address(id)) => r is Some && address_strkey(r->0) == id,
            _ => r is None,
        },
        r is Some ==> persistent_live_until(*env).contains_key(StoreKey::ByIndex(tag@, n)),
        r is Some ==> persistent_live_until(*env)[StoreKey::ByIndex(tag@, n)] >= ledger_sequence(*env),
{
    env.storage().persistent().get::<_, Address>(&(Symbol::new(env, tag), n))
}

/// `Persistent::set` of an `Address` on the key `(tag, n)`: as
/// `persistent_set_bool_by_address`, with an address.
#[verifier::external_body]
pub(crate) fn persistent_set_address_by_index(env: &mut Env, tag: &str, n: u64, a: &Address)
    requires
        valid_symbol(tag@),
    ensures
        persistent_entries(*final(env)) == persistent_entries(*old(env)).insert(
            StoreKey::ByIndex(tag@, n),
            StoreValue::Address(address_strkey(*a)),
        ),
        persistent_live_until(*final(env)) == written_live_until(
            persistent_live_until(*old(env)),
            StoreKey::ByIndex(tag@, n),
            persistent_live_until(*final(env))[StoreKey::ByIndex(tag@, n)],
        ),
        persistent_live_until(*final(env))[StoreKey::ByIndex(tag@, n)] >= ledger_sequence(*old(env)),
        same_outside_persistent(*old(env), *final(env)),
{
    env.storage().persistent().set(&(Symbol::new(env, tag), n), a)
}

/// `Persistent::extend_ttl` on the key `(tag, n)`: as
/// `persistent_extend_ttl_by_address`.
#[verifier::external_body]
pub(crate) fn persistent_extend_ttl_by_index(
    env: &mut Env,
    tag: &str,
    n: u64,
    threshold: u32,
    extend_to: u32,
)
    requires
        valid_symbol(tag@),
        threshold <= extend_to,
        persistent_entries(*old(env)).contains_key(StoreKey::ByIndex(tag@, n)),
        persistent_live_until(*old(env))[StoreKey::ByIndex(tag@, n)] >= ledger_sequence(*old(env)),
    ensures
        persistent_entries(*final(env)) == persistent_entries(*old(env)),
        ({
            let k = StoreKey::ByIndex(tag@, n);
            let lu0 = persistent_live_until(*old(env));
            persistent_live_until(*final(env)) == lu0.insert(
                k,
                extended_live_until(
                    lu0[k],
                    ledger_sequence(*old(env)),
                    max_live_until(*old(env)),
                    threshold,
                    extend_to,
                ),
            )
        }),
        same_outside_persistent(*old(env), *final(env)),
{
    env.storage().persistent().extend_ttl(&(Symbol::new(env, tag), n), threshold, extend_to)
}

/// `Instance::get` of a `u64` on the key `(tag,)`: the stored value, if any;
/// the entry must hold a `u64`.
#[verifier::external_body]
pub(crate) fn instance_get_u64(env: &Env, tag: &str) -> (r: Option<u64>)
    requires
        valid_symbol(tag@),
        instance_entries(*env).contains_key(StoreKey::Unit(tag@)) ==>
            instance_entries(*env)[StoreKey::Unit(tag@)] is U64,
    ensures
        match instance_entries(*env).get(StoreKey::Unit(tag@)) {
            Some(StoreValue::U64(n)) => r == Some(n),
            _ => r is None,
        },
{
    env.storage().instance().get::<_, u64>(&(Symbol::new(env, tag),))
}

/// `Instance::set` of a `u64` on the key `(tag,)`: the entry holds the value;
/// nothing else changes (instance entries share the instance's TTL).
#[verifier::external_body]
pub(crate) fn instance_set_u64(env: &mut Env, tag: &str, v: u64)
    requires
        valid_symbol(tag@),
    ensures
        instance_entries(*final(env)) == instance_entries(*old(env)).insert(
            StoreKey::Unit(tag@),
            StoreValue::U64(v),
        ),
        instance_live_until(*final(env)) == instance_live_until(*old(env)),
        persistent_entries(*final(env)) == persistent_entries(*old(env)),
        persistent_live_until(*final(env)) == persistent_live_until(*old(env)),
        ledger_sequence(*final(env)) == ledger_sequence(*old(env)),
        contract_events(*final(env)) == contract_events(*old(env)),
        max_live_until(*final(env)) == max_live_until(*old(env)),
        authorized_addresses(*final(env)) == authorized_addresses(*old(env)),
        required_auths(*final(env)) == required_auths(*old(env)),
{
    env.storage().instance().set(&(Symbol::new(env, tag),), &v)
}

/// `Instance::has` on the key `(tag,)`: whether the entry exists.
#[verifier::external_body]
pub(crate) fn instance_has(env: &Env, tag: &str) -> (r: bool)
    requires
        valid_symbol(tag@),
    ensures
        r == instance_entries(*env).contains_key(StoreKey::Unit(tag@)),
{
    env.storage().instance().has(&(Symbol::new(env, tag),))
}

/// `Instance::get` of a configuration `(Address, Address, u32, bool)` on the
/// key `(tag,)`.
#[verifier::external_body]
pub(crate) fn instance_get_config(env: &Env, tag: &str) -> (r: Option<(Address, Address, u32, bool)>)
    requires
        valid_symbol(tag@),
        instance_entries(*env).contains_key(StoreKey::Unit(tag@)) ==>
            instance_entries(*env)[StoreKey::Unit(tag@)] is Config,
    ensures
        match instance_entries(*env).get(StoreKey::Unit(tag@)) {
            Some(StoreValue::Config(registry, treasury, fee, paused)) => r matches Some(t) && {
                &&& address_strkey(t.0) == registry
                &&& address_strkey(t.1) == treasury
                &&& t.2 == fee
                &&& t.3 == paused
            },
            _ => r is None,
        },
{
    env.storage().instance().get::<_, (Address, Address, u32, bool)>(&(Symbol::new(env, tag),))
}

/// `Instance::set` of a configuration `(Address, Address, u32, bool)` on the
/// key `(tag,)`.
#[verifier::external_body]
pub(crate) fn instance_set_config(
    env: &mut Env,
    tag: &str,
    registry: &Address,
    treasury: &Address,
    fee: u32,
    paused: bool,
)
    requires
        valid_symbol(tag@),
    ensures
        instance_entries(*final(env)) == instance_entries(*old(env)).insert(
            StoreKey::Unit(tag@),
            StoreValue::Config(address_strkey(*registry), address_strkey(*treasury), fee, paused),
        ),
        instance_live_until(*final(env)) == instance_live_until(*old(env)),
        persistent_entries(*final(env)) == persistent_entries(*old(env)),
        persistent_live_until(*final(env)) == persistent_live_until(*old(env)),
        ledger_sequence(*final(env)) == ledger_sequence(*old(env)),
        contract_events(*final(env)) == contract_events(*old(env)),
        max_live_until(*final(env)) == max_live_until(*old(env)),
        authorized_addresses(*final(env)) == authorized_addresses(*old(env)),
        required_auths(*final(env)) == required_auths(*old(env)),
{
    env.storage().instance().set(&(Symbol::new(env, tag),), &(registry.clone(), treasury.clone(), fee, paused))
}

/// `Instance::get` of an `Address` on the key `(tag,)`: the stored address, if
/// any; the entry must hold an address.
#[verifier::external_body]
pub(crate) fn instance_get_address(env: &Env, tag: &str) -> (r: Option<Address>)
    requires
        valid_symbol(tag@),
        instance_entries(*env).contains_key(StoreKey::Unit(tag@)) ==>
            instance_entries(*env)[StoreKey::Unit(tag@)] is Address,
    ensures
        match instance_entries(*env).get(StoreKey::Unit(tag@)) {
            Some(StoreValue::Address(id)) => r is Some && address_strkey(r->0) == id,
            _ => r is None,
        },
{
    env.storage().instance().get::<_, Address>(&(Symbol::new(env, tag),))
}

/// `Instance::set` of an `Address` on the key `(tag,)`: the entry holds the
/// address; nothing else changes.
#[verifier::external_body]
pub(crate) fn instance_set_address(env: &mut Env, tag: &str, a: &Address)
    requires
        valid_symbol(tag@),
    ensures
        instance_entries(*final(env)) == instance_entries(*old(env)).insert(
            StoreKey::Unit(tag@),
            StoreValue::Address(address_strkey(*a)),
        ),
        instance_live_until(*final(env)) == instance_live_until(*old(env)),
        persistent_entries(*final(env)) == persistent_entries(*old(env)),
        persistent_live_until(*final(env)) == persistent_live_until(*old(env)),
        ledger_sequence(*final(env)) == ledger_sequence(*old(env)),
        contract_events(*final(env)) == contract_events(*old(env)),
        max_live_until(*final(env)) == max_live_until(*old(env)),
        authorized_addresses(*final(env)) == authorized_addresses(*old(env)),
        required_auths(*final(env)) == required_auths(*old(env)),
{
    env.storage().instance().set(&(Symbol::new(env, tag),), a)
}

/// `Instance::remove` of the key `(tag,)`: the entry is gone (a missing entry
/// stays missing); nothing else changes.
#[verifier::external_body]
pub(crate) fn instance_remove(env: &mut Env, tag: &str)
    requires
        valid_symbol(tag@),
    ensures
        instance_entries(*final(env)) == instance_entries(*old(env)).remove(StoreKey::Unit(tag@)),
        instance_live_until(*final(env)) == instance_live_until(*old(env)),
        persistent_entries(*final(env)) == persistent_entries(*old(env)),
        persistent_live_until(*final(env)) == persistent_live_until(*old(env)),
        ledger_sequence(*final(env)) == ledger_sequence(*old(env)),
        contract_events(*final(env)) == contract_events(*old(env)),
        max_live_until(*final(env)) == max_live_until(*old(env)),
        authorized_addresses(*final(env)) == authorized_addresses(*old(env)),
        required_auths(*final(env)) == required_auths(*old(env)),
{
    env.storage().instance().remove(&(Symbol::new(env, tag),))
}

/// `Events::publish` of an event with the topic `topic` and, as data, the map
/// `{k1: a1, k2: a2}` of two addresses.
#[verifier::external_body]
#[allow(deprecated)]
pub(crate) fn publish_two_addresses(env: &mut Env, topic: &str, k1: &str, a1: &Address, k2: &str, a2: &Address)
    requires
        valid_symbol(topic@),
        valid_symbol(k1@),
        valid_symbol(k2@),
    ensures
        contract_events(*final(env)) == contract_events(*old(env)).push(EventRecord {
            topics: seq![topic@],
            data: map![k1@ => EventField::Address(address_strkey(*a1)), k2@ => EventField::Address(address_strkey(*a2))],
        }),
        instance_entries(*final(env)) == instance_entries(*old(env)),
        instance_live_until(*final(env)) == instance_live_until(*old(env)),
        persistent_entries(*final(env)) == persistent_entries(*old(env)),
        persistent_live_until(*final(env)) == persistent_live_until(*old(env)),
        ledger_sequence(*final(env)) == ledger_sequence(*old(env)),
        max_live_until(*final(env)) == max_live_until(*old(env)),
        authorized_addresses(*final(env)) == authorized_addresses(*old(env)),
        required_auths(*final(env)) == required_auths(*old(env)),
{
    let mut data: SorobanMap<Symbol, Val> = SorobanMap::new(env);
    data.set(Symbol::new(env, k1), a1.into_val(env));
    data.set(Symbol::new(env, k2), a2.into_val(env));
    env.events().publish((Symbol::new(env, topic),), data)
}

/// `Events::publish` of an event with the topic `topic` and, as data, the map
/// `{k: a}` of one address.
#[verifier::external_body]
#[allow(deprecated)]
pub(crate) fn publish_one_address(env: &mut Env, topic: &str, k: &str, a: &Address)
    requires
        valid_symbol(topic@),
        valid_symbol(k@),
    ensures
        contract_events(*final(env)) == contract_events(*old(env)).push(EventRecord {
            topics: seq![topic@],
            data: map![k@ => EventField::Address(address_strkey(*a))],
        }),
        instance_entries(*final(env)) == instance_entries(*old(env)),
        instance_live_until(*final(env)) == instance_live_until(*old(env)),
        persistent_entries(*final(env)) == persistent_entries(*old(env)),
        persistent_live_until(*final(env)) == persistent_live_until(*old(env)),
        ledger_sequence(*final(env)) == ledger_sequence(*old(env)),
        max_live_until(*final(env)) == max_live_until(*old(env)),
        authorized_addresses(*final(env)) == authorized_addresses(*old(env)),
        required_auths(*final(env)) == required_auths(*old(env)),
{
    let mut data: SorobanMap<Symbol, Val> = SorobanMap::new(env);
    data.set(Symbol::new(env, k), a.into_val(env));
    env.events().publish((Symbol::new(env, topic),), data)
}

/// `Events::publish` of an event with the topic `topic` and, as data, the map
/// `{k_addr: a, k_flag: flag, k_tag: variant}`, where `variant` is a variant
/// of a field-less enum, encoded as `#[contracttype]` encodes it.
#[verifier::external_body]
#[allow(deprecated)]
pub(crate) fn publish_address_flag_tag(
    env: &mut Env,
    topic: &str,
    k_addr: &str,
    a: &Address,
    k_flag: &str,
    flag: bool,
    k_tag: &str,
    variant: &str,
)
    requires
        valid_symbol(topic@),
        valid_symbol(k_addr@),
        valid_symbol(k_flag@),
        valid_symbol(k_tag@),
        valid_symbol(variant@),
    ensures
        contract_events(*final(env)) == contract_events(*old(env)).push(EventRecord {
            topics: seq![topic@],
            data: map![
                k_addr@ => EventField::Address(address_strkey(*a)),
                k_flag@ => EventField::Bool(flag),
                k_tag@ => EventField::Tag(variant@)
            ],
        }),
        instance_entries(*final(env)) == instance_entries(*old(env)),
        instance_live_until(*final(env)) == instance_live_until(*old(env)),
        persistent_entries(*final(env)) == persistent_entries(*old(env)),
        persistent_live_until(*final(env)) == persistent_live_until(*old(env)),
        ledger_sequence(*final(env)) == ledger_sequence(*old(env)),
        max_live_until(*final(env)) == max_live_until(*old(env)),
        authorized_addresses(*final(env)) == authorized_addresses(*old(env)),
        required_auths(*final(env)) == required_auths(*old(env)),
{
    let mut data: SorobanMap<Symbol, Val> = SorobanMap::new(env);
    data.set(Symbol::new(env, k_addr), a.into_val(env));
    data.set(Symbol::new(env, k_flag), flag.into_val(env));
    data.set(Symbol::new(env, k_tag), (Symbol::new(env, variant),).into_val(env));
    env.events().publish((Symbol::new(env, topic),), data)
}

/// `Instance::extend_ttl`: extends the contract instance (and its code; the
/// code's TTL is not described here).
#[verifier::external_body]
pub(crate) fn instance_extend_ttl(env: &mut Env, threshold: u32, extend_to: u32)
    requires
        threshold <= extend_to,
    ensures
        instance_live_until(*final(env)) == extended_live_until(
            instance_live_until(*old(env)),
            ledger_sequence(*old(env)),
            max_live_until(*old(env)),
            threshold,
            extend_to,
        ),
        instance_entries(*final(env)) == instance_entries(*old(env)),
        persistent_entries(*final(env)) == persistent_entries(*old(env)),
        persistent_live_until(*final(env)) == persistent_live_until(*old(env)),
        ledger_sequence(*final(env)) == ledger_sequence(*old(env)),
        contract_events(*final(env)) == contract_events(*old(env)),
        max_live_until(*final(env)) == max_live_until(*old(env)),
        authorized_addresses(*final(env)) == authorized_addresses(*old(env)),
        required_auths(*final(env)) == required_auths(*old(env)),
{
    env.storage().instance().extend_ttl(threshold, extend_to)
}

/// `Storage::max_ttl`: the most ledgers after the current one that an entry
/// may be made to live.
#[verifier::external_body]
pub(crate) fn storage_max_ttl(env: &Env) -> (r: u32)
    ensures
        r == sat_sub(max_live_until(*env), ledger_sequence(*env)),
{
    env.storage().max_ttl()
}

/// `Address::require_auth`: the host checks that `a` authorized the current
/// invocation, and panics when it did not; so it is called here only for an
/// address that did.  The host records that the invocation required the
/// address's authorization; storage, ledger info and events stay as they
/// were.  What the check uses up of the authorizations is not described.
#[verifier::external_body]
pub(crate) fn require_auth(env: &mut Env, a: &Address)
    requires
        authorized_addresses(*old(env)).contains(address_strkey(*a)),
    ensures
        required_auths(*final(env)) == required_auths(*old(env)).insert(address_strkey(*a)),
        persistent_entries(*final(env)) == persistent_entries(*old(env)),
        persistent_live_until(*final(env)) == persistent_live_until(*old(env)),
        instance_entries(*final(env)) == instance_entries(*old(env)),
        instance_live_until(*final(env)) == instance_live_until(*old(env)),
        ledger_sequence(*final(env)) == ledger_sequence(*old(env)),
        max_live_until(*final(env)) == max_live_until(*old(env)),
        contract_events(*final(env)) == contract_events(*old(env)),
{
    let _ = env;
    a.require_auth()
}

/// Compares two addresses with `Address`'s `PartialEq`.
#[verifier::external_body]
pub(crate) fn address_eq(a: &Address, b: &Address) -> (r: bool)
    ensures
        r == (address_strkey(*a) == address_strkey(*b)),
{
    a == b
}

/// `Address::clone`.
#[verifier::external_body]
pub(crate) fn address_clone(a: &Address) -> (r: Address)
    ensures
        address_strkey(r) == address_strkey(*a),
{
    a.clone()
}

} // verus!
