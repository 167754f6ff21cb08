//! Gestarium (bio-factory) definitions: the dungeons and the anchors of the
//! verdict system.

use vstd::prelude::*;
use crate::text::Keyed;
use crate::data::settlement::DuelUnitDef;
use crate::data::world::MapDef;
use crate::model::rider::RiderUpgrade;

verus! {

#[derive(Debug, Clone)]
pub struct FactoryDef {
    pub id: String,
    pub name: String,
    pub region: String,
    pub description: String,
    /// Floor maps, entrance first, heart floor last.
    pub floors: Vec<MapDef>,
    /// The authored heart-guardian fight on the deepest floor.
    pub heart_guard: Vec<DuelUnitDef>,
    /// The rider's permanent upgrade for silencing this factory.
    pub rider_upgrade: RiderUpgrade,
    /// Species this factory can gestate once Bound.
    pub grows: Vec<String>,
    /// Scrip cost to grow a core here once Bound.
    pub grow_cost: i64,
}

impl Keyed for FactoryDef {
    open spec fn key(&self) -> Seq<char> {
        self.id@
    }

    fn key_text(&self) -> (r: &str) {
        self.id.as_str()
    }
}

} // verus!
