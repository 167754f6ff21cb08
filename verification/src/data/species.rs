//! Species (chassis) definitions: element, size, temperament, limb archetype,
//! and the limbs with their graftware mount points.

use vstd::prelude::*;
use crate::text::{Keyed, first_match, lemma_first_match, same_text};

verus! {

#[derive(Debug, Clone, Copy, PartialEq, Eq, Hash, Structural)]
pub enum Element {
    BioElectric,
    Plant,
    Rock,
    Fire,
    Water,
    Poison,
}

pub open spec fn element_name(e: Element) -> Seq<char> {
    match e {
        Element::BioElectric => "Bio-Electric"@,
        Element::Plant => "Plant"@,
        Element::Rock => "Rock"@,
        Element::Fire => "Fire"@,
        Element::Water => "Water"@,
        Element::Poison => "Poison"@,
    }
}

impl Element {
    pub fn display_name(self) -> (s: &'static str)
        ensures
            s@ == element_name(self),
    {
        match self {
            Element::BioElectric => "Bio-Electric",
            Element::Plant => "Plant",
            Element::Rock => "Rock",
            Element::Fire => "Fire",
            Element::Water => "Water",
            Element::Poison => "Poison",
        }
    }
}

#[derive(Debug, Clone, Copy, PartialEq, Eq, Hash, Structural)]
pub enum SizeClass {
    Small,
    Medium,
    Large,
    Huge,
}

/// Party/battle field budget cost of each size class.
pub open spec fn size_slot_cost(s: SizeClass) -> u32 {
    match s {
        SizeClass::Small => 1,
        SizeClass::Medium => 2,
        SizeClass::Large => 3,
        SizeClass::Huge => 4,
    }
}

pub open spec fn size_name(s: SizeClass) -> Seq<char> {
    match s {
        SizeClass::Small => "Small"@,
        SizeClass::Medium => "Medium"@,
        SizeClass::Large => "Large"@,
        SizeClass::Huge => "Huge"@,
    }
}

impl SizeClass {
    /// Party/battle field budget cost.
    pub fn slot_cost(self) -> (c: u32)
        ensures
            c == size_slot_cost(self),
    {
        match self {
            SizeClass::Small => 1,
            SizeClass::Medium => 2,
            SizeClass::Large => 3,
            SizeClass::Huge => 4,
        }
    }

    pub fn display_name(self) -> (s: &'static str)
        ensures
            s@ == size_name(self),
    {
        match self {
            SizeClass::Small => "Small",
            SizeClass::Medium => "Medium",
            SizeClass::Large => "Large",
            SizeClass::Huge => "Huge",
        }
    }
}

/// Slots a battle party may spend on creatures, by size class.
pub const PARTY_SLOTS: u32 = 6;

/// Slots a list of creatures of these sizes takes.
pub open spec fn slots_total(sizes: Seq<SizeClass>) -> nat
    decreases sizes.len(),
{
    if sizes.len() == 0 {
        0
    } else {
        slots_total(sizes.drop_last()) + size_slot_cost(sizes.last()) as nat
    }
}

/// Slots add up creature by creature: joined lists take the sum of their
/// slots, and a lone creature takes its own size's cost.
pub proof fn lemma_slots_total_adds_up(a: Seq<SizeClass>, b: Seq<SizeClass>)
    ensures
        slots_total(a + b) == slots_total(a) + slots_total(b),
        b.len() > 0 ==> slots_total(seq![b[0]]) == size_slot_cost(b[0]),
    decreases b.len(),
{
    if b.len() > 0 {
        let one = seq![b[0]];
        assert(one.drop_last() =~= Seq::<SizeClass>::empty());
        assert(one.last() == b[0]);
        assert(slots_total(one.drop_last()) == 0);
        assert(slots_total(one) == slots_total(one.drop_last()) + (size_slot_cost(one.last()) as nat));
    }
    if b.len() == 0 {
        assert(a + b =~= a);
    } else {
        assert((a + b).drop_last() =~= a + b.drop_last());
        assert((a + b).last() == b.last());
        lemma_slots_total_adds_up(a, b.drop_last());
    }
}

/// A prefix never takes more slots than the whole list.
proof fn lemma_slots_total_prefix(sizes: Seq<SizeClass>, k: int)
    requires
        0 <= k <= sizes.len(),
    ensures
        slots_total(sizes.take(k)) <= slots_total(sizes),
    decreases sizes.len(),
{
    if k < sizes.len() {
        assert(sizes.drop_last().take(k) =~= sizes.take(k));
        lemma_slots_total_prefix(sizes.drop_last(), k);
    } else {
        assert(sizes.take(k) =~= sizes);
    }
}

/// Whether creatures of these sizes fit the party's slot budget together.
pub fn fits_party_budget(sizes: &[SizeClass]) -> (r: bool)
    ensures
        r == (slots_total(sizes@) <= PARTY_SLOTS),
{
    let mut total: u32 = 0;
    let mut i: usize = 0;
    while i < sizes.len()
        invariant
            i <= sizes@.len(),
            total == slots_total(sizes@.take(i as int)),
            total <= PARTY_SLOTS,
        decreases sizes@.len() - i,
    {
        assert(sizes@.take(i as int + 1).drop_last() =~= sizes@.take(i as int));
        total = total + sizes[i].slot_cost();
        if total > PARTY_SLOTS {
            proof {
                lemma_slots_total_prefix(sizes@, i as int + 1);
            }
            return false;
        }
        i = i + 1;
    }
    assert(sizes@.take(i as int) =~= sizes@);
    true
}

/// Strain-tolerance personality: gentler creatures have the lowest tolerance.
#[derive(Debug, Clone, Copy, PartialEq, Eq, Hash, Structural)]
pub enum Temperament {
    Gentle,
    Placid,
    Wary,
    Fierce,
}

pub open spec fn temperament_name(t: Temperament) -> Seq<char> {
    match t {
        Temperament::Gentle => "Gentle"@,
        Temperament::Placid => "Placid"@,
        Temperament::Wary => "Wary"@,
        Temperament::Fierce => "Fierce"@,
    }
}

impl Temperament {
    pub fn display_name(self) -> (s: &'static str)
        ensures
            s@ == temperament_name(self),
    {
        match self {
            Temperament::Gentle => "Gentle",
            Temperament::Placid => "Placid",
            Temperament::Wary => "Wary",
            Temperament::Fierce => "Fierce",
        }
    }
}

/// Limb-count archetype.
#[derive(Debug, Clone, Copy, PartialEq, Eq, Hash, Structural)]
pub enum LimbArchetype {
    Flier,
    Standard,
    Utility,
    Heavy,
}

pub open spec fn archetype_name(a: LimbArchetype) -> Seq<char> {
    match a {
        LimbArchetype::Flier => "Flier"@,
        LimbArchetype::Standard => "Standard"@,
        LimbArchetype::Utility => "Utility"@,
        LimbArchetype::Heavy => "Heavy"@,
    }
}

impl LimbArchetype {
    pub fn display_name(self) -> (s: &'static str)
        ensures
            s@ == archetype_name(self),
    {
        match self {
            LimbArchetype::Flier => "Flier",
            LimbArchetype::Standard => "Standard",
            LimbArchetype::Utility => "Utility",
            LimbArchetype::Heavy => "Heavy",
        }
    }
}

/// Graftware weight class a mount point accepts.
#[derive(Debug, Clone, Copy, PartialEq, Eq, Hash, PartialOrd, Ord, Structural)]
pub enum WeightClass {
    Light,
    Medium,
    Heavy,
}

pub open spec fn weight_name(w: WeightClass) -> Seq<char> {
    match w {
        WeightClass::Light => "Light"@,
        WeightClass::Medium => "Medium"@,
        WeightClass::Heavy => "Heavy"@,
    }
}

impl WeightClass {
    pub fn display_name(self) -> (s: &'static str)
        ensures
            s@ == weight_name(self),
    {
        match self {
            WeightClass::Light => "Light",
            WeightClass::Medium => "Medium",
            WeightClass::Heavy => "Heavy",
        }
    }
}

/// Where a limb sits on the body; drives called-shot directions.
#[derive(Debug, Clone, Copy, PartialEq, Eq, Hash, Structural)]
pub enum LimbRegion {
    Head,
    Back,
    ArmLeft,
    ArmRight,
    Legs,
    Tail,
}

pub open spec fn region_name(r: LimbRegion) -> Seq<char> {
    match r {
        LimbRegion::Head => "Head"@,
        LimbRegion::Back => "Back"@,
        LimbRegion::ArmLeft => "Left Arm"@,
        LimbRegion::ArmRight => "Right Arm"@,
        LimbRegion::Legs => "Legs"@,
        LimbRegion::Tail => "Tail"@,
    }
}

impl LimbRegion {
    pub fn display_name(self) -> (s: &'static str)
        ensures
            s@ == region_name(self),
    {
        match self {
            LimbRegion::Head => "Head",
            LimbRegion::Back => "Back",
            LimbRegion::ArmLeft => "Left Arm",
            LimbRegion::ArmRight => "Right Arm",
            LimbRegion::Legs => "Legs",
            LimbRegion::Tail => "Tail",
        }
    }
}

/// One war-body limb: a targetable body segment that can host graftware
/// mounts (zero to two, by accepted weight class).
#[derive(Debug, Clone)]
pub struct LimbDef {
    pub id: String,
    pub name: String,
    pub region: LimbRegion,
    pub mounts: Vec<WeightClass>,
}

#[derive(Debug, Clone)]
pub struct SpeciesDef {
    pub id: String,
    pub name: String,
    pub description: String,
    pub element: Element,
    pub size: SizeClass,
    pub temperament: Temperament,
    pub archetype: LimbArchetype,
    /// Biological capacity, 0-100.
    pub power: u32,
    /// 0-100: dodge, battle movement and overworld pace.
    pub speed: u32,
    pub natural_flight: bool,
    /// Flat innate shell armor, subtracted from limb hits.
    pub innate_armor: u32,
    pub limbs: Vec<LimbDef>,
    /// Content tier 1-4: gates wild placement and factory depth.
    pub tier: u32,
    /// Biome tags for encounter tables.
    pub biomes: Vec<String>,
}

/// Total number of mount points over a list of limbs.
pub open spec fn mounts_total(limbs: Seq<LimbDef>) -> nat
    decreases limbs.len(),
{
    if limbs.len() == 0 {
        0
    } else {
        mounts_total(limbs.drop_last()) + limbs.last().mounts@.len()
    }
}

/// The ids of a list of limbs, in order.
pub open spec fn limb_ids(limbs: Seq<LimbDef>) -> Seq<Seq<char>> {
    limbs.map_values(|l: LimbDef| l.id@)
}

impl SpeciesDef {
    /// Mount points over all limbs.
    pub fn mount_count(&self) -> (n: usize)
        requires
            mounts_total(self.limbs@) <= usize::MAX,
        ensures
            n == mounts_total(self.limbs@),
    {
        let mut total: usize = 0;
        let mut i: usize = 0;
        while i < self.limbs.len()
            invariant
                i <= self.limbs@.len(),
                total == mounts_total(self.limbs@.take(i as int)),
                mounts_total(self.limbs@) <= usize::MAX,
            decreases self.limbs@.len() - i,
        {
            proof {
                assert(self.limbs@.take(i as int + 1).drop_last() =~= self.limbs@.take(i as int));
                lemma_mounts_total_prefix(self.limbs@, i as int + 1);
            }
            total = total + self.limbs[i].mounts.len();
            i = i + 1;
        }
        assert(self.limbs@.take(i as int) =~= self.limbs@);
        total
    }

    /// The limb with the given id (the first one, should ids repeat).
    pub fn limb(&self, limb_id: &str) -> (r: Option<&LimbDef>)
        ensures
            match first_match(limb_ids(self.limbs@), limb_id@) {
                Some(i) => r == Some(&self.limbs@[i]),
                None => r.is_none(),
            },
    {
        let mut i: usize = 0;
        while i < self.limbs.len()
            invariant
                i <= self.limbs@.len(),
                forall|j: int| 0 <= j < i ==> limb_ids(self.limbs@)[j] != limb_id@,
            decreases self.limbs@.len() - i,
        {
            if same_text(self.limbs[i].id.as_str(), limb_id) {
                proof { lemma_first_match(limb_ids(self.limbs@), limb_id@, i as int); }
                return Some(&self.limbs[i]);
            }
            i = i + 1;
        }
        None
    }
}

/// A prefix's mount total never exceeds the whole list's.
pub proof fn lemma_mounts_total_prefix(limbs: Seq<LimbDef>, k: int)
    requires
        0 <= k <= limbs.len(),
    ensures
        mounts_total(limbs.take(k)) <= mounts_total(limbs),
    decreases limbs.len(),
{
    if k < limbs.len() {
        assert(limbs.drop_last().take(k) =~= limbs.take(k));
        lemma_mounts_total_prefix(limbs.drop_last(), k);
    } else {
        assert(limbs.take(k) =~= limbs);
    }
}

/// Mount totals add up over joined lists of limbs.
pub proof fn lemma_mounts_total_concat(a: Seq<LimbDef>, b: Seq<LimbDef>)
    ensures
        mounts_total(a + b) == mounts_total(a) + mounts_total(b),
    decreases b.len(),
{
    if b.len() == 0 {
        assert(a + b =~= a);
    } else {
        assert((a + b).drop_last() =~= a + b.drop_last());
        assert((a + b).last() == b.last());
        lemma_mounts_total_concat(a, b.drop_last());
    }
}

/// Taking one limb out of a list takes its mounts out of the total.
proof fn lemma_mounts_total_remove(b: Seq<LimbDef>, i: int)
    requires
        0 <= i < b.len(),
    ensures
        mounts_total(b) == mounts_total(b.remove(i)) + b[i].mounts@.len(),
{
    let front = b.take(i);
    let back = b.skip(i + 1);
    assert(b =~= front + seq![b[i]] + back);
    assert(b.remove(i) =~= front + back);
    lemma_mounts_total_concat(front + seq![b[i]], back);
    lemma_mounts_total_concat(front, seq![b[i]]);
    lemma_mounts_total_concat(front, back);
    let one = seq![b[i]];
    assert(one.drop_last() =~= Seq::<LimbDef>::empty());
    assert(mounts_total(one) == mounts_total(one.drop_last()) + one.last().mounts@.len());
    assert(mounts_total(one) == b[i].mounts@.len());
}

/// The mount total does not depend on the order of the limbs: any two
/// lists holding the same limbs have the same total.
pub proof fn lemma_mounts_total_ignores_order(a: Seq<LimbDef>, b: Seq<LimbDef>)
    requires
        a.to_multiset() == b.to_multiset(),
    ensures
        mounts_total(a) == mounts_total(b),
    decreases a.len(),
{
    broadcast use vstd::seq_lib::group_to_multiset_ensures;
    broadcast use vstd::multiset::group_multiset_axioms;

    if a.len() == 0 {
        assert(b.to_multiset().len() == 0);
        assert(b.len() == 0);
    } else {
        let x = a.last();
        let init = a.drop_last();
        assert(init.push(x) =~= a);
        assert(a.to_multiset() =~= init.to_multiset().insert(x));
        assert(b.to_multiset().count(x) > 0);
        assert(b.contains(x));
        let i = choose|i: int| 0 <= i < b.len() && b[i] == x;
        assert(b.remove(i).to_multiset() == b.to_multiset().remove(b[i]));
        assert(init.to_multiset() =~= init.to_multiset().insert(x).remove(x));
        lemma_mounts_total_ignores_order(init, b.remove(i));
        lemma_mounts_total_remove(b, i);
    }
}

/// A body whose limbs each carry at most two mounts has at most twice as
/// many mounts as limbs.
pub proof fn lemma_mounts_total_bound(limbs: Seq<LimbDef>)
    requires
        forall|k: int| 0 <= k < limbs.len() ==> (#[trigger] limbs[k]).mounts@.len() <= 2,
    ensures
        mounts_total(limbs) <= 2 * limbs.len(),
    decreases limbs.len(),
{
    if limbs.len() > 0 {
        let init = limbs.drop_last();
        assert forall|k: int| 0 <= k < init.len() implies (#[trigger] init[k]).mounts@.len() <= 2 by {
            assert(init[k] == limbs[k]);
        }
        lemma_mounts_total_bound(init);
        assert(limbs.last() == limbs[limbs.len() - 1]);
    }
}

impl Keyed for SpeciesDef {
    open spec fn key(&self) -> Seq<char> {
        self.id@
    }

    fn key_text(&self) -> (r: &str) {
        self.id.as_str()
    }
}

} // verus!
