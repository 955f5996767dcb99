//! Study materials as the registry describes them: who created them, whether
//! they are on sale, their price in each accepted asset and how a sale is
//! split between payees.
use vstd::prelude::*;
use soroban_sdk::Address;
use crate::storage::{address_clone, address_strkey};

verus! {

/// The identifier of a material: 32 bytes.
pub type MaterialId = [u8; 32];

/// Whether a material is on offer.
#[derive(Clone, Copy, Debug, PartialEq, Eq, Structural)]
pub enum MaterialStatus {
    Active,
    Archived,
}

/// The price of a material in one asset.
#[derive(Debug, PartialEq, Eq)]
pub struct AssetQuote {
    pub asset: Address,
    pub amount: i128,
}

/// A payee of a sale and its share in basis points.
#[derive(Debug, PartialEq, Eq)]
pub struct PayoutShare {
    pub recipient: Address,
    pub share_bps: u32,
}

/// A registered material.
#[derive(Debug, PartialEq, Eq)]
pub struct MaterialRecord {
    pub material_id: MaterialId,
    pub creator: Address,
    pub paused: bool,
    pub status: MaterialStatus,
    pub quotes: Vec<AssetQuote>,
    pub payout_shares: Vec<PayoutShare>,
}

/// A material with each address given by its strkey.
pub struct MaterialView {
    pub material_id: Seq<u8>,
    pub creator: Seq<u8>,
    pub paused: bool,
    pub status: MaterialStatus,
    pub quotes: Seq<(Seq<u8>, i128)>,
    pub payout_shares: Seq<(Seq<u8>, u32)>,
}

pub open spec fn quote_view(q: AssetQuote) -> (Seq<u8>, i128) {
    (address_strkey(q.asset), q.amount)
}

pub open spec fn share_view(p: PayoutShare) -> (Seq<u8>, u32) {
    (address_strkey(p.recipient), p.share_bps)
}

impl View for MaterialRecord {
    type V = MaterialView;

    open spec fn view(&self) -> MaterialView {
        MaterialView {
            material_id: self.material_id@,
            creator: address_strkey(self.creator),
            paused: self.paused,
            status: self.status,
            quotes: self.quotes@.map_values(|q: AssetQuote| quote_view(q)),
            payout_shares: self.payout_shares@.map_values(|p: PayoutShare| share_view(p)),
        }
    }
}

/// Whether two material ids are the same.
pub fn same_material_id(a: &MaterialId, b: &MaterialId) -> (r: bool)
    ensures
        r == (a@ == b@),
{
    let mut i: usize = 0;
    while i < 32
        invariant
            i <= 32,
            forall|j: int| 0 <= j < i ==> a@[j] == b@[j],
        decreases 32 - i,
    {
        if a[i] != b[i] {
            return false;
        }
        i += 1;
    }
    assert(a@ =~= b@);
    true
}

/// The material id whose 32 bytes all equal `value`.
pub fn bytes32(value: u8) -> (id: MaterialId)
    ensures
        forall|i: int| 0 <= i < 32 ==> id@[i] == value,
{
    let id: [u8; 32] = [value; 32];
    id
}

impl MaterialRecord {
    /// A copy of the record.
    pub fn duplicate(&self) -> (r: MaterialRecord)
        ensures
            r@ == self@,
    {
        let mut quotes: Vec<AssetQuote> = Vec::new();
        let mut i: usize = 0;
        while i < self.quotes.len()
            invariant
                i <= self.quotes.len(),
                quotes@.len() == i,
                forall|j: int| 0 <= j < i ==> quote_view(#[trigger] quotes@[j]) == quote_view(self.quotes@[j]),
            decreases self.quotes.len() - i,
        {
            let q = &self.quotes[i];
            quotes.push(AssetQuote { asset: address_clone(&q.asset), amount: q.amount });
            i += 1;
        }
        let mut shares: Vec<PayoutShare> = Vec::new();
        let mut i: usize = 0;
        while i < self.payout_shares.len()
            invariant
                i <= self.payout_shares.len(),
                shares@.len() == i,
                forall|j: int| 0 <= j < i ==> share_view(#[trigger] shares@[j]) == share_view(self.payout_shares@[j]),
            decreases self.payout_shares.len() - i,
        {
            let p = &self.payout_shares[i];
            shares.push(PayoutShare { recipient: address_clone(&p.recipient), share_bps: p.share_bps });
            i += 1;
        }
        let r = MaterialRecord {
            material_id: self.material_id,
            creator: address_clone(&self.creator),
            paused: self.paused,
            status: self.status,
            quotes,
            payout_shares: shares,
        };
        assert(r@.quotes =~= self@.quotes);
        assert(r@.payout_shares =~= self@.payout_shares);
        r
    }
}

} // verus!
