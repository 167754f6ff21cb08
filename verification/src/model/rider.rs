//! The rider's own progression: one permanent upgrade per Gestarium
//! defeated, separate from creature and gear power.

use vstd::prelude::*;
use crate::text::{keys_distinct, keys_of, keys_unique, Keyed};

verus! {

/// The six rider upgrades, one earned per factory heart.
#[derive(Debug, Clone, Copy, PartialEq, Eq, Hash, Structural)]
pub enum RiderUpgrade {
    /// +10% called-shot accuracy.
    SteadyHands,
    /// -30% rider-hop transit time.
    SwiftCrossing,
    /// -25% strain gain on the ridden creature.
    Beastwhisper,
    /// +30% limb regrowth speed while ridden.
    FieldMedic,
    /// +20% battlefield salvage drop chance.
    Salvager,
    /// +25% reinforce shield strength.
    Ironheart,
}

pub open spec fn upgrade_name(u: RiderUpgrade) -> Seq<char> {
    match u {
        RiderUpgrade::SteadyHands => "Steady Hands"@,
        RiderUpgrade::SwiftCrossing => "Swift Crossing"@,
        RiderUpgrade::Beastwhisper => "Beastwhisper"@,
        RiderUpgrade::FieldMedic => "Field Medic"@,
        RiderUpgrade::Salvager => "Salvager"@,
        RiderUpgrade::Ironheart => "Ironheart"@,
    }
}

pub open spec fn upgrade_description(u: RiderUpgrade) -> Seq<char> {
    match u {
        RiderUpgrade::SteadyHands => "Called shots are 10% more accurate."@,
        RiderUpgrade::SwiftCrossing => "Rider hops cross 30% faster."@,
        RiderUpgrade::Beastwhisper => "Your mount gains strain 25% slower."@,
        RiderUpgrade::FieldMedic => "Your mount regrows limbs 30% faster."@,
        RiderUpgrade::Salvager => "20% more graftware survives as salvage."@,
        RiderUpgrade::Ironheart => "Reinforcing shields the core 25% harder."@,
    }
}

impl RiderUpgrade {
    /// Every upgrade, in the order the factories award them.
    pub fn all() -> (r: [RiderUpgrade; 6])
        ensures
            r@ == seq![
                RiderUpgrade::SteadyHands,
                RiderUpgrade::SwiftCrossing,
                RiderUpgrade::Beastwhisper,
                RiderUpgrade::FieldMedic,
                RiderUpgrade::Salvager,
                RiderUpgrade::Ironheart,
            ],
    {
        let r = [
            RiderUpgrade::SteadyHands,
            RiderUpgrade::SwiftCrossing,
            RiderUpgrade::Beastwhisper,
            RiderUpgrade::FieldMedic,
            RiderUpgrade::Salvager,
            RiderUpgrade::Ironheart,
        ];
        assert(r@ =~= seq![
            RiderUpgrade::SteadyHands,
            RiderUpgrade::SwiftCrossing,
            RiderUpgrade::Beastwhisper,
            RiderUpgrade::FieldMedic,
            RiderUpgrade::Salvager,
            RiderUpgrade::Ironheart,
        ]);
        r
    }

    pub fn display_name(self) -> (s: &'static str)
        ensures
            s@ == upgrade_name(self),
    {
        match self {
            RiderUpgrade::SteadyHands => "Steady Hands",
            RiderUpgrade::SwiftCrossing => "Swift Crossing",
            RiderUpgrade::Beastwhisper => "Beastwhisper",
            RiderUpgrade::FieldMedic => "Field Medic",
            RiderUpgrade::Salvager => "Salvager",
            RiderUpgrade::Ironheart => "Ironheart",
        }
    }

    pub fn description(self) -> (s: &'static str)
        ensures
            s@ == upgrade_description(self),
    {
        match self {
            RiderUpgrade::SteadyHands => "Called shots are 10% more accurate.",
            RiderUpgrade::SwiftCrossing => "Rider hops cross 30% faster.",
            RiderUpgrade::Beastwhisper => "Your mount gains strain 25% slower.",
            RiderUpgrade::FieldMedic => "Your mount regrows limbs 30% faster.",
            RiderUpgrade::Salvager => "20% more graftware survives as salvage.",
            RiderUpgrade::Ironheart => "Reinforcing shields the core 25% harder.",
        }
    }
}

/// The rider: a name, the upgrades earned, and the practice-ladder rank held
/// at each settlement ring (ring id, rank).
#[derive(Debug, Clone)]
pub struct Rider {
    pub name: String,
    pub upgrades: Vec<RiderUpgrade>,
    pub duel_ranks: Vec<(String, u32)>,
}

/// A ring's rank entry is keyed by the ring's id.
impl Keyed for (String, u32) {
    open spec fn key(&self) -> Seq<char> {
        self.0@
    }

    fn key_text(&self) -> (r: &str) {
        self.0.as_str()
    }
}

impl Rider {
    pub open spec fn holds(&self, u: RiderUpgrade) -> bool {
        self.upgrades@.contains(u)
    }

    /// Each ring holds one rank entry.
    pub open spec fn wf(&self) -> bool {
        keys_unique(keys_of(self.duel_ranks@))
    }

    /// Whether each ring holds one rank entry.
    pub fn ranks_unique(&self) -> (r: bool)
        ensures
            r == self.wf(),
    {
        keys_distinct(&self.duel_ranks)
    }

    pub fn new(name: &str) -> (r: Rider)
        ensures
            r.name@ == name@,
            r.upgrades@.len() == 0,
            r.duel_ranks@.len() == 0,
            r.wf(),
    {
        Rider { name: name.to_owned(), upgrades: Vec::new(), duel_ranks: Vec::new() }
    }

    pub fn has(&self, upgrade: RiderUpgrade) -> (r: bool)
        ensures
            r == self.holds(upgrade),
    {
        let mut i: usize = 0;
        while i < self.upgrades.len()
            invariant
                i <= self.upgrades@.len(),
                forall|j: int| 0 <= j < i ==> self.upgrades@[j] != upgrade,
            decreases self.upgrades@.len() - i,
        {
            if self.upgrades[i] == upgrade {
                assert(self.upgrades@[i as int] == upgrade);
                return true;
            }
            i = i + 1;
        }
        false
    }

    /// Called-shot accuracy multiplier, in percent.
    pub fn called_shot_accuracy_mult(&self) -> (p: u32)
        ensures
            p == if self.holds(RiderUpgrade::SteadyHands) { 110u32 } else { 100u32 },
    {
        if self.has(RiderUpgrade::SteadyHands) { 110 } else { 100 }
    }

    /// Rider-hop transit time multiplier, in percent.
    pub fn hop_time_mult(&self) -> (p: u32)
        ensures
            p == if self.holds(RiderUpgrade::SwiftCrossing) { 70u32 } else { 100u32 },
    {
        if self.has(RiderUpgrade::SwiftCrossing) { 70 } else { 100 }
    }

    /// Strain gain multiplier of the ridden creature, in percent.
    pub fn strain_gain_mult(&self) -> (p: u32)
        ensures
            p == if self.holds(RiderUpgrade::Beastwhisper) { 75u32 } else { 100u32 },
    {
        if self.has(RiderUpgrade::Beastwhisper) { 75 } else { 100 }
    }

    /// Limb regrowth multiplier while ridden, in percent.
    pub fn ridden_regrow_mult(&self) -> (p: u32)
        ensures
            p == if self.holds(RiderUpgrade::FieldMedic) { 130u32 } else { 100u32 },
    {
        if self.has(RiderUpgrade::FieldMedic) { 130 } else { 100 }
    }

    /// Added salvage drop chance, in percentage points.
    pub fn salvage_chance_bonus(&self) -> (p: u32)
        ensures
            p == if self.holds(RiderUpgrade::Salvager) { 20u32 } else { 0u32 },
    {
        if self.has(RiderUpgrade::Salvager) { 20 } else { 0 }
    }

    /// Reinforce shield strength multiplier, in percent.
    pub fn reinforce_shield_mult(&self) -> (p: u32)
        ensures
            p == if self.holds(RiderUpgrade::Ironheart) { 125u32 } else { 100u32 },
    {
        if self.has(RiderUpgrade::Ironheart) { 125 } else { 100 }
    }
}

} // verus!
