//! Settlement definitions: shops and duelling rings.

use vstd::prelude::*;
use crate::text::{Keyed, first_match, lemma_first_match, same_text};

verus! {

#[derive(Debug, Clone)]
pub struct ShopEntry {
    pub graft: String,
    /// Price override; defaults to the graft's base value.
    pub price: Option<i64>,
}

#[derive(Debug, Clone)]
pub struct DuelGraftFit {
    pub limb: String,
    pub slot: usize,
    pub graft: String,
}

#[derive(Debug, Clone)]
pub struct DuelUnitDef {
    pub species: String,
    pub name: Option<String>,
    pub grafts: Vec<DuelGraftFit>,
}

#[derive(Debug, Clone)]
pub struct DuelistDef {
    pub id: String,
    pub name: String,
    pub blurb: String,
    /// Ladder rank required to challenge (0 = open to anyone).
    pub rank_req: u32,
    /// Practice duels risk nothing; staked duels wager parts.
    pub practice: bool,
    pub reward_scrip: i64,
    /// Staked lane: the part this duelist puts up.
    pub stake: Option<String>,
    /// Staked lane: minimum base value of the part you must put up.
    pub min_stake_value: i64,
    pub party: Vec<DuelUnitDef>,
}

#[derive(Debug, Clone)]
pub struct SettlementDef {
    pub id: String,
    pub name: String,
    pub region: String,
    pub description: String,
    pub shop: Vec<ShopEntry>,
    pub duelists: Vec<DuelistDef>,
}

pub open spec fn duelist_ids(ds: Seq<DuelistDef>) -> Seq<Seq<char>> {
    ds.map_values(|d: DuelistDef| d.id@)
}

pub open spec fn shop_grafts(shop: Seq<ShopEntry>) -> Seq<Seq<char>> {
    shop.map_values(|e: ShopEntry| e.graft@)
}

impl SettlementDef {
    /// The duelist with the given id.
    pub fn duelist(&self, id: &str) -> (r: Option<&DuelistDef>)
        ensures
            match first_match(duelist_ids(self.duelists@), id@) {
                Some(i) => r == Some(&self.duelists@[i]),
                None => r.is_none(),
            },
    {
        let mut i: usize = 0;
        while i < self.duelists.len()
            invariant
                i <= self.duelists@.len(),
                forall|j: int| 0 <= j < i ==> duelist_ids(self.duelists@)[j] != id@,
            decreases self.duelists@.len() - i,
        {
            if same_text(self.duelists[i].id.as_str(), id) {
                proof { lemma_first_match(duelist_ids(self.duelists@), id@, i as int); }
                return Some(&self.duelists[i]);
            }
            i = i + 1;
        }
        None
    }

    /// The shop entry selling the given graft.
    pub fn shop_entry(&self, graft: &str) -> (r: Option<&ShopEntry>)
        ensures
            match first_match(shop_grafts(self.shop@), graft@) {
                Some(i) => r == Some(&self.shop@[i]),
                None => r.is_none(),
            },
    {
        let mut i: usize = 0;
        while i < self.shop.len()
            invariant
                i <= self.shop@.len(),
                forall|j: int| 0 <= j < i ==> shop_grafts(self.shop@)[j] != graft@,
            decreases self.shop@.len() - i,
        {
            if same_text(self.shop[i].graft.as_str(), graft) {
                proof { lemma_first_match(shop_grafts(self.shop@), graft@, i as int); }
                return Some(&self.shop[i]);
            }
            i = i + 1;
        }
        None
    }
}

impl Keyed for SettlementDef {
    open spec fn key(&self) -> Seq<char> {
        self.id@
    }

    fn key_text(&self) -> (r: &str) {
        self.id.as_str()
    }
}

} // verus!
