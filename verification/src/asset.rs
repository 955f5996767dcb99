//! A token that stands in for a real one: it records every transfer, in
//! order, and derives balances from the record.
use vstd::prelude::*;
use soroban_sdk::Address;
use crate::storage::{address_clone, address_eq, address_strkey};

verus! {

/// One recorded transfer.
#[derive(Debug, PartialEq, Eq)]
pub struct MockTransfer {
    pub from: Address,
    pub to: Address,
    pub amount: i128,
}

/// A transfer with its addresses given by their strkeys: `(from, to, amount)`.
pub open spec fn transfer_view(t: MockTransfer) -> (Seq<u8>, Seq<u8>, i128) {
    (address_strkey(t.from), address_strkey(t.to), t.amount)
}

/// What a transfer adds to the balance of `id`.
pub open spec fn credit(t: (Seq<u8>, Seq<u8>, i128), id: Seq<u8>) -> int {
    if t.1 == id { t.2 as int } else { 0 }
}

/// What a transfer takes from the balance of `id`.
pub open spec fn debit(t: (Seq<u8>, Seq<u8>, i128), id: Seq<u8>) -> int {
    if t.0 == id { t.2 as int } else { 0 }
}

/// The balance of `id`: what it received minus what it sent.
pub open spec fn balance_of(ts: Seq<(Seq<u8>, Seq<u8>, i128)>, id: Seq<u8>) -> int
    decreases ts.len(),
{
    if ts.len() == 0 {
        0
    } else {
        balance_of(ts.drop_last(), id) + credit(ts.last(), id) - debit(ts.last(), id)
    }
}

/// Whether a value fits in an `i128`.
pub open spec fn fits_i128(x: int) -> bool {
    i128::MIN <= x <= i128::MAX
}

/// Summing the record in order for `id` never leaves the range of `i128`:
/// neither after a credit nor after a debit.
pub open spec fn balance_fits(ts: Seq<(Seq<u8>, Seq<u8>, i128)>, id: Seq<u8>) -> bool {
    forall|k: int|
        0 <= k < ts.len() ==> {
            &&& fits_i128(#[trigger] balance_of(ts.take(k), id) + credit(ts[k], id))
            &&& fits_i128(balance_of(ts.take(k + 1), id))
        }
}

/// Recording a transfer moves its amount from the sender to the receiver:
/// the sender's balance drops by it, the receiver's rises by it, a transfer
/// to oneself changes nothing, and every other balance stays.
pub proof fn lemma_transfer_moves_amount(
    ts: Seq<(Seq<u8>, Seq<u8>, i128)>,
    from: Seq<u8>,
    to: Seq<u8>,
    amount: i128,
    other: Seq<u8>,
)
    ensures
        from != to ==> balance_of(ts.push((from, to, amount)), from) == balance_of(ts, from) - amount,
        from != to ==> balance_of(ts.push((from, to, amount)), to) == balance_of(ts, to) + amount,
        balance_of(ts.push((from, from, amount)), from) == balance_of(ts, from),
        other != from && other != to ==> balance_of(ts.push((from, to, amount)), other) == balance_of(ts, other),
{
    assert(ts.push((from, to, amount)).drop_last() =~= ts);
    assert(ts.push((from, from, amount)).drop_last() =~= ts);
}

/// The record after the transfers `calls` were recorded one after the
/// other, each appended as `MockAsset::transfer` states, starting from
/// `start`.
pub open spec fn recorded_one_by_one(
    start: Seq<(Seq<u8>, Seq<u8>, i128)>,
    calls: Seq<(Seq<u8>, Seq<u8>, i128)>,
) -> Seq<(Seq<u8>, Seq<u8>, i128)>
    decreases calls.len(),
{
    if calls.len() == 0 {
        start
    } else {
        recorded_one_by_one(start, calls.drop_last()).push(calls.last())
    }
}

/// Transfers are recorded in the order of the calls: after any number of
/// them, the earlier records are untouched and the `i`-th call is the
/// `i`-th new record.
pub proof fn lemma_transfers_in_call_order(
    start: Seq<(Seq<u8>, Seq<u8>, i128)>,
    calls: Seq<(Seq<u8>, Seq<u8>, i128)>,
)
    ensures
        recorded_one_by_one(start, calls) == start + calls,
    decreases calls.len(),
{
    if calls.len() > 0 {
        lemma_transfers_in_call_order(start, calls.drop_last());
        assert(start + calls =~= (start + calls.drop_last()).push(calls.last()));
    }
}

/// The sum of the balances of the addresses `ids`.
pub open spec fn total_balance(ts: Seq<(Seq<u8>, Seq<u8>, i128)>, ids: Seq<Seq<u8>>) -> int
    decreases ids.len(),
{
    if ids.len() == 0 {
        0
    } else {
        total_balance(ts, ids.drop_last()) + balance_of(ts, ids.last())
    }
}

/// What one transfer adds to the balances of `ids` together.
spec fn total_change(t: (Seq<u8>, Seq<u8>, i128), ids: Seq<Seq<u8>>) -> int
    decreases ids.len(),
{
    if ids.len() == 0 {
        0
    } else {
        total_change(t, ids.drop_last()) + credit(t, ids.last()) - debit(t, ids.last())
    }
}

/// Recording one more transfer changes the total by what it adds.
proof fn lemma_total_after_push(ts: Seq<(Seq<u8>, Seq<u8>, i128)>, t: (Seq<u8>, Seq<u8>, i128), ids: Seq<Seq<u8>>)
    ensures
        total_balance(ts.push(t), ids) == total_balance(ts, ids) + total_change(t, ids),
    decreases ids.len(),
{
    assert(ts.push(t).drop_last() =~= ts);
    if ids.len() > 0 {
        lemma_total_after_push(ts, t, ids.drop_last());
    }
}

/// Over addresses listed once each, one transfer adds its amount to the
/// receiver and takes it from the sender, when they are listed.
proof fn lemma_total_change(t: (Seq<u8>, Seq<u8>, i128), ids: Seq<Seq<u8>>)
    requires
        ids.no_duplicates(),
    ensures
        total_change(t, ids) == (if ids.contains(t.1) { t.2 as int } else { 0 }) - (if ids.contains(t.0) {
            t.2 as int
        } else {
            0
        }),
    decreases ids.len(),
{
    if ids.len() > 0 {
        let rest = ids.drop_last();
        assert(rest.no_duplicates()) by {
            assert forall|i: int, j: int| 0 <= i < rest.len() && 0 <= j < rest.len() && i != j implies rest[i]
                != rest[j] by {
                assert(rest[i] == ids[i] && rest[j] == ids[j]);
            }
        }
        lemma_total_change(t, rest);
        assert forall|x: Seq<u8>| ids.contains(x) <==> (rest.contains(x) || x == ids.last()) by {
            if ids.contains(x) && x != ids.last() {
                let i = choose|i: int| 0 <= i < ids.len() && ids[i] == x;
                assert(rest[i] == x);
            }
            if rest.contains(x) {
                let i = choose|i: int| 0 <= i < rest.len() && rest[i] == x;
                assert(ids[i] == x);
            }
            if x == ids.last() {
                assert(ids[ids.len() - 1] == x);
            }
        }
        assert(!rest.contains(ids.last())) by {
            if rest.contains(ids.last()) {
                let i = choose|i: int| 0 <= i < rest.len() && rest[i] == ids.last();
                assert(ids[i] == ids[ids.len() - 1]);
            }
        }
    }
}

/// Balances sum to zero: over any list of addresses, each listed once, that
/// includes every sender and receiver, the balances add up to nothing, since
/// each transfer takes from one what it gives to another.
pub proof fn lemma_balances_sum_to_zero(ts: Seq<(Seq<u8>, Seq<u8>, i128)>, ids: Seq<Seq<u8>>)
    requires
        ids.no_duplicates(),
        forall|k: int| 0 <= k < ts.len() ==> ids.contains((#[trigger] ts[k]).0) && ids.contains(ts[k].1),
    ensures
        total_balance(ts, ids) == 0,
    decreases ts.len(),
{
    if ts.len() == 0 {
        lemma_total_of_empty(ids);
        assert(ts =~= Seq::<(Seq<u8>, Seq<u8>, i128)>::empty());
    } else {
        let rest = ts.drop_last();
        assert(ts[ts.len() - 1] == ts.last());
        assert(ids.contains(ts[ts.len() - 1].0) && ids.contains(ts[ts.len() - 1].1));
        assert forall|k: int| 0 <= k < rest.len() implies ids.contains((#[trigger] rest[k]).0) && ids.contains(
            rest[k].1,
        ) by {
            assert(rest[k] == ts[k]);
        }
        lemma_balances_sum_to_zero(rest, ids);
        assert(ts == rest.push(ts.last()));
        lemma_total_after_push(rest, ts.last(), ids);
        lemma_total_change(ts.last(), ids);
        assert(ts[ts.len() - 1] == ts.last());
    }
}

/// Without transfers every balance is zero.
proof fn lemma_total_of_empty(ids: Seq<Seq<u8>>)
    ensures
        total_balance(Seq::empty(), ids) == 0,
    decreases ids.len(),
{
    if ids.len() > 0 {
        lemma_total_of_empty(ids.drop_last());
    }
}

/// The record of transfers.
pub struct MockAsset {
    transfers: Vec<MockTransfer>,
}

impl View for MockAsset {
    type V = Seq<(Seq<u8>, Seq<u8>, i128)>;

    closed spec fn view(&self) -> Seq<(Seq<u8>, Seq<u8>, i128)> {
        self.transfers@.map_values(|t: MockTransfer| transfer_view(t))
    }
}

impl MockAsset {
    /// The record holds at most `u32::MAX` transfers.
    #[verifier::type_invariant]
    closed spec fn count_fits(self) -> bool {
        self.transfers@.len() <= u32::MAX
    }

    /// The number of recorded transfers.
    pub closed spec fn spec_len(&self) -> nat {
        self.transfers@.len()
    }

    /// A token with no transfers.
    pub fn new() -> (r: MockAsset)
        ensures
            r@ == Seq::<(Seq<u8>, Seq<u8>, i128)>::empty(),
    {
        let r = MockAsset { transfers: Vec::new() };
        assert(r@ =~= Seq::<(Seq<u8>, Seq<u8>, i128)>::empty());
        r
    }

    /// Records a transfer of `amount` from `from` to `to`.
    pub fn transfer(&mut self, from: Address, to: Address, amount: i128)
        requires
            old(self)@.len() < u32::MAX,
        ensures
            final(self)@ == old(self)@.push((address_strkey(from), address_strkey(to), amount)),
    {
        let ghost t = (address_strkey(from), address_strkey(to), amount);
        let mut transfers: Vec<MockTransfer> = Vec::new();
        std::mem::swap(&mut transfers, &mut self.transfers);
        transfers.push(MockTransfer { from, to, amount });
        self.transfers = transfers;
        assert(self@ =~= old(self)@.push(t));
    }

    /// The balance of `id`: the sum of what it received minus what it sent.
    pub fn balance(&self, id: &Address) -> (b: i128)
        requires
            balance_fits(self@, address_strkey(*id)),
        ensures
            b == balance_of(self@, address_strkey(*id)),
    {
        proof {
            use_type_invariant(self);
        }
        let ghost ts = self@;
        let ghost who = address_strkey(*id);
        let mut balance: i128 = 0;
        let mut i: u32 = 0;
        let len = self.transfers.len() as u32;
        proof {
            assert(ts.take(0) =~= Seq::<(Seq<u8>, Seq<u8>, i128)>::empty());
        }
        while i < len
            invariant
                len == ts.len(),
                ts == self@,
                i <= len,
                balance == balance_of(ts.take(i as int), who),
                balance_fits(ts, who),
                who == address_strkey(*id),
            decreases len - i,
        {
            let t = &self.transfers[i as usize];
            let ghost tv = ts[i as int];
            assert(tv == transfer_view(*t));
            assert(ts.take(i + 1).drop_last() =~= ts.take(i as int));
            assert(ts.take(i + 1).last() == tv);
            assert(fits_i128(balance_of(ts.take(i as int), who) + credit(ts[i as int], who)));
            if address_eq(&t.to, id) {
                balance = balance + t.amount;
            }
            assert(fits_i128(balance_of(ts.take(i + 1), who)));
            if address_eq(&t.from, id) {
                balance = balance - t.amount;
            }
            i += 1;
        }
        assert(ts.take(len as int) =~= ts);
        balance
    }

    /// The balance of `id`, or `None` when summing the record in order
    /// leaves the range of `i128`.
    pub fn balance_checked(&self, id: &Address) -> (b: Option<i128>)
        ensures
            match b {
                Some(v) => balance_fits(self@, address_strkey(*id)) && v == balance_of(self@, address_strkey(*id)),
                None => !balance_fits(self@, address_strkey(*id)),
            },
    {
        proof {
            use_type_invariant(self);
        }
        let ghost ts = self@;
        let ghost who = address_strkey(*id);
        let mut balance: i128 = 0;
        let mut i: u32 = 0;
        let len = self.transfers.len() as u32;
        proof {
            assert(ts.take(0) =~= Seq::<(Seq<u8>, Seq<u8>, i128)>::empty());
        }
        while i < len
            invariant
                len == ts.len(),
                ts == self@,
                i <= len,
                balance == balance_of(ts.take(i as int), who),
                forall|k: int|
                    0 <= k < i ==> {
                        &&& fits_i128(#[trigger] balance_of(ts.take(k), who) + credit(ts[k], who))
                        &&& fits_i128(balance_of(ts.take(k + 1), who))
                    },
                who == address_strkey(*id),
            decreases len - i,
        {
            let t = &self.transfers[i as usize];
            let ghost tv = ts[i as int];
            assert(tv == transfer_view(*t));
            assert(ts.take(i + 1).drop_last() =~= ts.take(i as int));
            assert(ts.take(i + 1).last() == tv);
            let mut next = balance;
            if address_eq(&t.to, id) {
                match next.checked_add(t.amount) {
                    Some(v) => next = v,
                    None => {
                        assert(!fits_i128(balance_of(ts.take(i as int), who) + credit(ts[i as int], who)));
                        return None;
                    },
                }
            }
            assert(fits_i128(balance_of(ts.take(i as int), who) + credit(ts[i as int], who)));
            if address_eq(&t.from, id) {
                match next.checked_sub(t.amount) {
                    Some(v) => next = v,
                    None => {
                        assert(!fits_i128(balance_of(ts.take(i + 1), who)));
                        return None;
                    },
                }
            }
            assert(next == balance_of(ts.take(i + 1), who));
            assert(fits_i128(balance_of(ts.take(i + 1), who)));
            assert forall|k: int| 0 <= k < i + 1 implies {
                &&& fits_i128(#[trigger] balance_of(ts.take(k), who) + credit(ts[k], who))
                &&& fits_i128(balance_of(ts.take(k + 1), who))
            } by {
                if k == i {
                    assert(fits_i128(balance_of(ts.take(i as int), who) + credit(ts[i as int], who)));
                    assert(k + 1 == i + 1);
                    assert(fits_i128(balance_of(ts.take(k + 1), who)));
                } else {
                    assert(k < i);
                    assert(fits_i128(balance_of(ts.take(k), who) + credit(ts[k], who)));
                }
            }
            balance = next;
            i += 1;
        }
        assert(ts.take(len as int) =~= ts);
        Some(balance)
    }

    /// The number of recorded transfers.
    pub fn transfer_count(&self) -> (n: u32)
        ensures
            n == self@.len(),
    {
        proof {
            use_type_invariant(self);
        }
        self.transfers.len() as u32
    }

    /// The transfer recorded at `index`.
    pub fn transfer_at(&self, index: u32) -> (t: MockTransfer)
        requires
            index < self@.len(),
        ensures
            transfer_view(t) == self@[index as int],
    {
        let r = &self.transfers[index as usize];
        MockTransfer { from: address_clone(&r.from), to: address_clone(&r.to), amount: r.amount }
    }
}

} // verus!
