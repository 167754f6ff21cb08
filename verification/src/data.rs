//! Game data definitions: the species roster, the graftware catalogue, the
//! world, the settlements and the factories, as one bundle.

pub mod factory;
pub mod settlement;
pub mod species;
pub mod world;

use vstd::prelude::*;
use crate::text::{first_match, keys_distinct, keys_of, keys_unique, lemma_first_match, same_text, Keyed};
use factory::FactoryDef;
use settlement::SettlementDef;
use species::SpeciesDef;
use world::{map_ids, region_ids, WorldDef};

verus! {

#[derive(Debug, Clone)]
pub struct GameConfig {
    pub game_name: String,
    pub display_name: String,
    pub save_slot: String,
    pub version: String,
}

/// The parts of a graftware pattern that the economy and the narration read.
#[derive(Debug, Clone)]
pub struct GraftwareDef {
    pub id: String,
    pub name: String,
    /// Base value in scrip.
    pub value: i64,
}

/// All loaded definitions. Each list is keyed by its entries' ids.
#[derive(Debug, Clone)]
pub struct GameData {
    pub config: GameConfig,
    pub species: Vec<SpeciesDef>,
    pub graftware: Vec<GraftwareDef>,
    pub world: WorldDef,
    pub settlements: Vec<SettlementDef>,
    pub factories: Vec<FactoryDef>,
}

pub open spec fn species_ids(s: Seq<SpeciesDef>) -> Seq<Seq<char>> {
    s.map_values(|d: SpeciesDef| d.id@)
}

pub open spec fn graftware_ids(s: Seq<GraftwareDef>) -> Seq<Seq<char>> {
    s.map_values(|d: GraftwareDef| d.id@)
}

pub open spec fn settlement_ids(s: Seq<SettlementDef>) -> Seq<Seq<char>> {
    s.map_values(|d: SettlementDef| d.id@)
}

pub open spec fn factory_ids(s: Seq<FactoryDef>) -> Seq<Seq<char>> {
    s.map_values(|d: FactoryDef| d.id@)
}

impl GameData {
    /// Every catalogue keys each record once: species, graftware,
    /// settlements, factories, maps and regions.
    pub open spec fn wf(self) -> bool {
        &&& keys_unique(species_ids(self.species@))
        &&& keys_unique(graftware_ids(self.graftware@))
        &&& keys_unique(settlement_ids(self.settlements@))
        &&& keys_unique(factory_ids(self.factories@))
        &&& keys_unique(map_ids(self.world.maps@))
        &&& keys_unique(region_ids(self.world.regions@))
    }

    /// Whether every catalogue keys each record once.
    pub fn ids_unique(&self) -> (r: bool)
        ensures
            r == self.wf(),
    {
        assert(keys_of(self.species@) =~= species_ids(self.species@));
        assert(keys_of(self.graftware@) =~= graftware_ids(self.graftware@));
        assert(keys_of(self.settlements@) =~= settlement_ids(self.settlements@));
        assert(keys_of(self.factories@) =~= factory_ids(self.factories@));
        assert(keys_of(self.world.maps@) =~= map_ids(self.world.maps@));
        assert(keys_of(self.world.regions@) =~= region_ids(self.world.regions@));
        keys_distinct(&self.species) && keys_distinct(&self.graftware) && keys_distinct(&self.settlements)
            && keys_distinct(&self.factories) && keys_distinct(&self.world.maps)
            && keys_distinct(&self.world.regions)
    }

    pub open spec fn species_named(self, id: Seq<char>) -> Option<SpeciesDef> {
        match first_match(species_ids(self.species@), id) {
            Some(i) => Some(self.species@[i]),
            None => None,
        }
    }

    pub open spec fn graftware_named(self, id: Seq<char>) -> Option<GraftwareDef> {
        match first_match(graftware_ids(self.graftware@), id) {
            Some(i) => Some(self.graftware@[i]),
            None => None,
        }
    }

    pub open spec fn settlement_named(self, id: Seq<char>) -> Option<SettlementDef> {
        match first_match(settlement_ids(self.settlements@), id) {
            Some(i) => Some(self.settlements@[i]),
            None => None,
        }
    }

    pub open spec fn factory_named(self, id: Seq<char>) -> Option<FactoryDef> {
        match first_match(factory_ids(self.factories@), id) {
            Some(i) => Some(self.factories@[i]),
            None => None,
        }
    }

    pub fn find_species(&self, id: &str) -> (r: Option<&SpeciesDef>)
        ensures
            r == (match self.species_named(id@) {
                Some(d) => Some(&d),
                None => None::<&SpeciesDef>,
            }),
    {
        let mut i: usize = 0;
        while i < self.species.len()
            invariant
                i <= self.species@.len(),
                forall|j: int| 0 <= j < i ==> species_ids(self.species@)[j] != id@,
            decreases self.species@.len() - i,
        {
            if same_text(self.species[i].id.as_str(), id) {
                proof { lemma_first_match(species_ids(self.species@), id@, i as int); }
                return Some(&self.species[i]);
            }
            i = i + 1;
        }
        None
    }

    pub fn find_graftware(&self, id: &str) -> (r: Option<&GraftwareDef>)
        ensures
            r == (match self.graftware_named(id@) {
                Some(d) => Some(&d),
                None => None::<&GraftwareDef>,
            }),
    {
        let mut i: usize = 0;
        while i < self.graftware.len()
            invariant
                i <= self.graftware@.len(),
                forall|j: int| 0 <= j < i ==> graftware_ids(self.graftware@)[j] != id@,
            decreases self.graftware@.len() - i,
        {
            if same_text(self.graftware[i].id.as_str(), id) {
                proof { lemma_first_match(graftware_ids(self.graftware@), id@, i as int); }
                return Some(&self.graftware[i]);
            }
            i = i + 1;
        }
        None
    }

    pub fn find_settlement(&self, id: &str) -> (r: Option<&SettlementDef>)
        ensures
            r == (match self.settlement_named(id@) {
                Some(d) => Some(&d),
                None => None::<&SettlementDef>,
            }),
    {
        let mut i: usize = 0;
        while i < self.settlements.len()
            invariant
                i <= self.settlements@.len(),
                forall|j: int| 0 <= j < i ==> settlement_ids(self.settlements@)[j] != id@,
            decreases self.settlements@.len() - i,
        {
            if same_text(self.settlements[i].id.as_str(), id) {
                proof { lemma_first_match(settlement_ids(self.settlements@), id@, i as int); }
                return Some(&self.settlements[i]);
            }
            i = i + 1;
        }
        None
    }

    pub fn find_factory(&self, id: &str) -> (r: Option<&FactoryDef>)
        ensures
            r == (match self.factory_named(id@) {
                Some(d) => Some(&d),
                None => None::<&FactoryDef>,
            }),
    {
        let mut i: usize = 0;
        while i < self.factories.len()
            invariant
                i <= self.factories@.len(),
                forall|j: int| 0 <= j < i ==> factory_ids(self.factories@)[j] != id@,
            decreases self.factories@.len() - i,
        {
            if same_text(self.factories[i].id.as_str(), id) {
                proof { lemma_first_match(factory_ids(self.factories@), id@, i as int); }
                return Some(&self.factories[i]);
            }
            i = i + 1;
        }
        None
    }
}

impl Keyed for GraftwareDef {
    open spec fn key(&self) -> Seq<char> {
        self.id@
    }

    fn key_text(&self) -> (r: &str) {
        self.id.as_str()
    }
}

} // verus!
