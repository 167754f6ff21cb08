//! Persistent world state: the sum of the player's factory verdicts.
//! Regions remember what you decided.

use vstd::prelude::*;
use crate::data::GameData;
use crate::data::factory::FactoryDef;
use crate::data::world::RegionDef;
use crate::text::{
    first_match, keys_distinct, keys_of, keys_unique, lemma_first_match, lemma_first_match_facts, lemma_first_match_same_keys,
    lemma_unique_first_match, same_text, Keyed,
};

verus! {

/// The region-defining decision at each Gestarium.
#[derive(Debug, Clone, Copy, PartialEq, Eq, Structural)]
pub enum Verdict {
    /// Shut it down forever: safe, but the region stays dead.
    Purge,
    /// Restore its benign function: the region revives, and can relapse.
    Reseed,
    /// Claim it: grow your own cores with the old civilization's machine.
    Bind,
}

pub open spec fn verdict_name(v: Verdict) -> Seq<char> {
    match v {
        Verdict::Purge => "Purged"@,
        Verdict::Reseed => "Reseeded"@,
        Verdict::Bind => "Bound"@,
    }
}

impl Verdict {
    pub fn display_name(self) -> (s: &'static str)
        ensures
            s@ == verdict_name(self),
    {
        match self {
            Verdict::Purge => "Purged",
            Verdict::Reseed => "Reseeded",
            Verdict::Bind => "Bound",
        }
    }
}

/// How a region currently reads, derived from its factory's state.
#[derive(Debug, Clone, Copy, PartialEq, Eq, Structural)]
pub enum RegionMood {
    /// Factory alive and hostile: the default danger.
    Threatened,
    /// Purged: graveyard peace.
    Dead,
    /// Reseeded: blooming, and quietly at risk.
    Reviving,
    /// Bound: the machine answers to you now.
    Claimed,
    /// A reseeded region that slid back: someone is grafting again.
    Relapsed,
}

pub open spec fn mood_name(m: RegionMood) -> Seq<char> {
    match m {
        RegionMood::Threatened => "Threatened"@,
        RegionMood::Dead => "Dead"@,
        RegionMood::Reviving => "Reviving"@,
        RegionMood::Claimed => "Claimed"@,
        RegionMood::Relapsed => "Relapsed"@,
    }
}

impl RegionMood {
    pub fn display_name(self) -> (s: &'static str)
        ensures
            s@ == mood_name(self),
    {
        match self {
            RegionMood::Threatened => "Threatened",
            RegionMood::Dead => "Dead",
            RegionMood::Reviving => "Reviving",
            RegionMood::Claimed => "Claimed",
            RegionMood::Relapsed => "Relapsed",
        }
    }
}

/// Relapse rates and multipliers are given in parts per million.
pub const PPM: u64 = 1000000;

/// A full relapse risk. Risk is kept in parts per trillion of a full
/// relapse, so a per-step rate in parts per million scaled by a multiplier
/// in parts per million is exact.
pub const RISK_FULL: u64 = 1000000000000;

#[derive(Debug, Clone, Copy, PartialEq, Eq, Structural)]
pub struct FactoryState {
    pub heart_defeated: bool,
    pub verdict: Option<Verdict>,
    /// Grows with time after a Reseed left untended, in parts per trillion
    /// of a full relapse.
    pub relapse_risk: u64,
    /// Stewardship investment lowers relapse risk at ongoing cost.
    pub invested: bool,
    /// The region slid back into weaponizing: confront it to end it.
    pub relapsed: bool,
}

/// The state of a factory nobody has touched yet.
pub open spec fn fresh_state() -> FactoryState {
    FactoryState {
        heart_defeated: false,
        verdict: None,
        relapse_risk: 0,
        invested: false,
        relapsed: false,
    }
}

impl Default for FactoryState {
    fn default() -> (s: FactoryState)
        ensures
            s == fresh_state(),
    {
        FactoryState {
            heart_defeated: false,
            verdict: None,
            relapse_risk: 0,
            invested: false,
            relapsed: false,
        }
    }
}

/// The mood a factory's state gives its region.
pub open spec fn mood_for(s: FactoryState) -> RegionMood {
    match s.verdict {
        None => RegionMood::Threatened,
        Some(Verdict::Purge) => RegionMood::Dead,
        Some(Verdict::Reseed) => if s.relapsed {
            RegionMood::Relapsed
        } else {
            RegionMood::Reviving
        },
        Some(Verdict::Bind) => RegionMood::Claimed,
    }
}

/// A region's mood is read off its factory alone: threatened until judged,
/// dead once purged, bound once claimed, and after a reseed reviving, or
/// relapsed once the relapse has come.
pub proof fn lemma_mood_cases(s: FactoryState)
    ensures
        mood_for(s) == RegionMood::Threatened <==> s.verdict.is_none(),
        mood_for(s) == RegionMood::Dead <==> s.verdict == Some(Verdict::Purge),
        mood_for(s) == RegionMood::Claimed <==> s.verdict == Some(Verdict::Bind),
        mood_for(s) == RegionMood::Reviving <==> (s.verdict == Some(Verdict::Reseed) && !s.relapsed),
        mood_for(s) == RegionMood::Relapsed <==> (s.verdict == Some(Verdict::Reseed) && s.relapsed),
{
    match s.verdict {
        Some(Verdict::Purge) => {},
        Some(Verdict::Reseed) => {},
        Some(Verdict::Bind) => {},
        None => {},
    }
}

/// Wild encounter richness of each mood, in percent.
pub open spec fn mood_encounter_pct(m: RegionMood) -> u32 {
    match m {
        RegionMood::Threatened => 100,
        RegionMood::Dead => 25,
        RegionMood::Reviving => 140,
        RegionMood::Claimed => 100,
        RegionMood::Relapsed => 120,
    }
}

/// A reseeded factory that has not relapsed yet slides toward relapse.
pub open spec fn slides(s: FactoryState) -> bool {
    s.verdict == Some(Verdict::Reseed) && !s.relapsed
}

/// Risk added by one step, in parts per trillion: `per_step` (parts per
/// million) untended, scaled by `invested_mult` (parts per million) when
/// the watch is funded.
pub open spec fn relapse_rate(s: FactoryState, per_step: u32, invested_mult: u32) -> nat {
    if s.invested {
        (per_step as nat) * (invested_mult as nat)
    } else {
        (per_step as nat) * (PPM as nat)
    }
}

/// Whether this step tips the factory into relapse.
pub open spec fn tips(s: FactoryState, per_step: u32, invested_mult: u32) -> bool {
    slides(s) && s.relapse_risk + relapse_rate(s, per_step, invested_mult) >= RISK_FULL
}

/// A factory's state after one overworld step.
pub open spec fn advanced(s: FactoryState, per_step: u32, invested_mult: u32) -> FactoryState {
    if !slides(s) {
        s
    } else if tips(s, per_step, invested_mult) {
        FactoryState { relapsed: true, relapse_risk: RISK_FULL, ..s }
    } else {
        FactoryState {
            relapse_risk: (s.relapse_risk + relapse_rate(s, per_step, invested_mult)) as u64,
            ..s
        }
    }
}

/// A factory's state after `n` steps.
pub open spec fn advanced_n(s: FactoryState, per_step: u32, invested_mult: u32, n: nat) -> FactoryState
    decreases n,
{
    if n == 0 {
        s
    } else {
        advanced(advanced_n(s, per_step, invested_mult, (n - 1) as nat), per_step, invested_mult)
    }
}

/// Per-factory states, keyed by factory id.
#[derive(Debug, Clone)]
pub struct WorldState {
    pub factories: Vec<(String, FactoryState)>,
}

pub open spec fn entry_ids(fs: Seq<(String, FactoryState)>) -> Seq<Seq<char>> {
    fs.map_values(|e: (String, FactoryState)| e.0@)
}

/// The state recorded under `id` (the first entry with it), or a fresh one.
pub open spec fn state_in(fs: Seq<(String, FactoryState)>, id: Seq<char>) -> FactoryState {
    match first_match(entry_ids(fs), id) {
        Some(i) => fs[i].1,
        None => fresh_state(),
    }
}

/// Number of the listed factories that carry a verdict.
pub open spec fn judged_count(fs: Seq<(String, FactoryState)>, defs: Seq<FactoryDef>) -> nat
    decreases defs.len(),
{
    if defs.len() == 0 {
        0
    } else {
        judged_count(fs, defs.drop_last()) + if state_in(fs, defs.last().id@).verdict.is_some() {
            1nat
        } else {
            0nat
        }
    }
}

/// Number of the listed factories that carry verdict `v`.
pub open spec fn verdict_count(fs: Seq<(String, FactoryState)>, defs: Seq<FactoryDef>, v: Verdict) -> nat
    decreases defs.len(),
{
    if defs.len() == 0 {
        0
    } else {
        verdict_count(fs, defs.drop_last(), v) + if state_in(fs, defs.last().id@).verdict == Some(v) {
            1nat
        } else {
            0nat
        }
    }
}

/// The mood of the region named `region` (threatened when the region is unknown).
pub open spec fn region_mood_in(fs: Seq<(String, FactoryState)>, region: Option<RegionDef>) -> RegionMood {
    match region {
        Some(r) => mood_for(state_in(fs, r.gestarium_id@)),
        None => RegionMood::Threatened,
    }
}

/// A factory's entry is keyed by the factory's id.
impl Keyed for (String, FactoryState) {
    open spec fn key(&self) -> Seq<char> {
        self.0@
    }

    fn key_text(&self) -> (r: &str) {
        self.0.as_str()
    }
}

impl Default for WorldState {
    fn default() -> (w: WorldState)
        ensures
            w.factories@.len() == 0,
            w.wf(),
    {
        WorldState { factories: Vec::new() }
    }
}

impl WorldState {
    pub open spec fn state_of(self, id: Seq<char>) -> FactoryState {
        state_in(self.factories@, id)
    }

    /// Each factory is recorded at most once.
    pub open spec fn wf(self) -> bool {
        keys_unique(entry_ids(self.factories@))
    }

    /// A world where no factory has been touched.
    pub fn new() -> (w: WorldState)
        ensures
            w.factories@.len() == 0,
            w.wf(),
    {
        WorldState { factories: Vec::new() }
    }

    /// Whether each factory is recorded at most once.
    pub fn ids_unique(&self) -> (r: bool)
        ensures
            r == self.wf(),
    {
        assert(keys_of(self.factories@) =~= entry_ids(self.factories@));
        keys_distinct(&self.factories)
    }

    fn position(&self, id: &str) -> (r: Option<usize>)
        ensures
            match r {
                Some(i) => i < self.factories@.len() && first_match(entry_ids(self.factories@), id@)
                    == Some(i as int),
                None => first_match(entry_ids(self.factories@), id@).is_none(),
            },
    {
        let mut i: usize = 0;
        while i < self.factories.len()
            invariant
                i <= self.factories@.len(),
                forall|j: int| 0 <= j < i ==> entry_ids(self.factories@)[j] != id@,
            decreases self.factories@.len() - i,
        {
            if same_text(self.factories[i].0.as_str(), id) {
                proof { lemma_first_match(entry_ids(self.factories@), id@, i as int); }
                return Some(i);
            }
            i = i + 1;
        }
        proof {
            lemma_first_match_facts(entry_ids(self.factories@), id@);
        }
        None
    }

    /// A copy of the factory's state (fresh if never touched).
    pub fn factory(&self, id: &str) -> (s: FactoryState)
        ensures
            s == self.state_of(id@),
    {
        match self.position(id) {
            Some(i) => self.factories[i].1,
            None => FactoryState::default(),
        }
    }

    /// The factory's state for editing, created fresh if never touched. The
    /// ids stay as they were, or gain the missing `id` at the end, so each
    /// factory is still recorded once (`lemma_factory_mut_keeps_wf`).
    pub fn factory_mut(&mut self, id: &str) -> (r: &mut FactoryState)
        requires
            old(self).wf(),
        ensures
            entry_ids(final(self).factories@) == match first_match(entry_ids(old(self).factories@), id@) {
                Some(_) => entry_ids(old(self).factories@),
                None => entry_ids(old(self).factories@).push(id@),
            },
            *r == old(self).state_of(id@),
            match first_match(entry_ids(old(self).factories@), id@) {
                Some(i) => final(self).factories@ == old(self).factories@.update(
                    i,
                    (old(self).factories@[i].0, *final(r)),
                ),
                None => {
                    &&& final(self).factories@.len() == old(self).factories@.len() + 1
                    &&& final(self).factories@.drop_last() == old(self).factories@
                    &&& final(self).factories@.last().0@ == id@
                    &&& final(self).factories@.last().1 == *final(r)
                },
            },
    {
        match self.position(id) {
            Some(i) => {
                &mut self.factories[i].1
            },
            None => {
                self.factories.push((id.to_owned(), FactoryState::default()));
                let last = self.factories.len() - 1;
                assert(self.factories@.drop_last() =~= old(self).factories@);
                &mut self.factories[last].1
            },
        }
    }

    pub fn verdict(&self, id: &str) -> (v: Option<Verdict>)
        ensures
            v == self.state_of(id@).verdict,
    {
        self.factory(id).verdict
    }

    /// A region's mood follows its anchoring factory's state.
    pub fn region_mood(&self, data: &GameData, region_id: &str) -> (m: RegionMood)
        ensures
            m == region_mood_in(self.factories@, data.world.region_named(region_id@)),
    {
        let Some(region) = data.world.region(region_id) else {
            return RegionMood::Threatened;
        };
        let state = self.factory(region.gestarium_id.as_str());
        match state.verdict {
            None => RegionMood::Threatened,
            Some(Verdict::Purge) => RegionMood::Dead,
            Some(Verdict::Reseed) => if state.relapsed {
                RegionMood::Relapsed
            } else {
                RegionMood::Reviving
            },
            Some(Verdict::Bind) => RegionMood::Claimed,
        }
    }

    /// Wild encounter richness under each mood, in percent: purged ground
    /// goes quiet, reseeded ground blooms.
    pub fn encounter_rate_mult(mood: RegionMood) -> (p: u32)
        ensures
            p == mood_encounter_pct(mood),
    {
        match mood {
            RegionMood::Threatened => 100,
            RegionMood::Dead => 25,
            RegionMood::Reviving => 140,
            RegionMood::Claimed => 100,
            RegionMood::Relapsed => 120,
        }
    }

    /// Factory floors go dormant once any verdict is passed.
    pub fn factory_active(&self, id: &str) -> (r: bool)
        ensures
            r == self.state_of(id@).verdict.is_none(),
    {
        self.verdict(id).is_none()
    }

    /// How many of the world's Gestaria have received a verdict.
    pub fn verdicts_passed(&self, data: &GameData) -> (n: usize)
        ensures
            n == judged_count(self.factories@, data.factories@),
            n == data.factories@.filter(judged(self.factories@)).len(),
    {
        proof {
            lemma_judged_count_counts(self.factories@, data.factories@);
        }
        let defs = &data.factories;
        let mut n: usize = 0;
        let mut i: usize = 0;
        while i < defs.len()
            invariant
                i <= defs@.len(),
                n == judged_count(self.factories@, defs@.take(i as int)),
                n <= i,
            decreases defs@.len() - i,
        {
            assert(defs@.take(i as int + 1).drop_last() =~= defs@.take(i as int));
            if self.verdict(defs[i].id.as_str()).is_some() {
                n = n + 1;
            }
            i = i + 1;
        }
        assert(defs@.take(i as int) =~= defs@);
        n
    }

    /// True once every Gestarium in the world has been judged: the endgame.
    pub fn all_judged(&self, data: &GameData) -> (r: bool)
        ensures
            r == (data.factories@.len() > 0
                && judged_count(self.factories@, data.factories@) == data.factories@.len()),
    {
        !data.factories.is_empty() && self.verdicts_passed(data) == data.factories.len()
    }

    /// Tally of verdicts by kind (purge, reseed, bind), for the closing
    /// reflection.
    pub fn verdict_tally(&self, data: &GameData) -> (t: (usize, usize, usize))
        ensures
            t.0 == verdict_count(self.factories@, data.factories@, Verdict::Purge),
            t.1 == verdict_count(self.factories@, data.factories@, Verdict::Reseed),
            t.2 == verdict_count(self.factories@, data.factories@, Verdict::Bind),
            t.0 == data.factories@.filter(carries(self.factories@, Verdict::Purge)).len(),
            t.1 == data.factories@.filter(carries(self.factories@, Verdict::Reseed)).len(),
            t.2 == data.factories@.filter(carries(self.factories@, Verdict::Bind)).len(),
    {
        proof {
            lemma_verdict_count_counts(self.factories@, data.factories@, Verdict::Purge);
            lemma_verdict_count_counts(self.factories@, data.factories@, Verdict::Reseed);
            lemma_verdict_count_counts(self.factories@, data.factories@, Verdict::Bind);
        }
        let defs = &data.factories;
        let mut purge: usize = 0;
        let mut reseed: usize = 0;
        let mut bind: usize = 0;
        let mut i: usize = 0;
        while i < defs.len()
            invariant
                i <= defs@.len(),
                purge == verdict_count(self.factories@, defs@.take(i as int), Verdict::Purge),
                reseed == verdict_count(self.factories@, defs@.take(i as int), Verdict::Reseed),
                bind == verdict_count(self.factories@, defs@.take(i as int), Verdict::Bind),
                purge + reseed + bind <= i,
            decreases defs@.len() - i,
        {
            assert(defs@.take(i as int + 1).drop_last() =~= defs@.take(i as int));
            match self.verdict(defs[i].id.as_str()) {
                Some(Verdict::Purge) => purge = purge + 1,
                Some(Verdict::Reseed) => reseed = reseed + 1,
                Some(Verdict::Bind) => bind = bind + 1,
                None => {},
            }
            i = i + 1;
        }
        assert(defs@.take(i as int) =~= defs@);
        (purge, reseed, bind)
    }

    /// Advances relapse pressure by one overworld step, walking the
    /// factories in order. Returns the id of the factory that just tipped
    /// into relapse, if any; factories after it wait for the next step.
    pub fn tick_relapse(&mut self, per_step: u32, invested_mult: u32) -> (r: Option<String>)
        requires
            old(self).wf(),
        ensures
            final(self).wf(),
            r matches Some(id) ==> final(self).state_of(id@).relapsed,
            final(self).factories@.len() == old(self).factories@.len(),
            forall|j: int| 0 <= j < old(self).factories@.len()
                ==> (#[trigger] final(self).factories@[j]).0 == old(self).factories@[j].0,
            match r {
                Some(id) => exists|k: int| {
                    &&& 0 <= k < old(self).factories@.len()
                    &&& tips(old(self).factories@[k].1, per_step, invested_mult)
                    &&& id@ == old(self).factories@[k].0@
                    &&& forall|j: int| 0 <= j < k ==> !tips(old(self).factories@[j].1, per_step, invested_mult)
                    &&& forall|j: int| 0 <= j <= k ==> final(self).factories@[j].1
                        == advanced(old(self).factories@[j].1, per_step, invested_mult)
                    &&& forall|j: int| k < j < old(self).factories@.len()
                        ==> final(self).factories@[j].1 == old(self).factories@[j].1
                },
                None => forall|j: int| 0 <= j < old(self).factories@.len() ==> {
                    &&& !tips(old(self).factories@[j].1, per_step, invested_mult)
                    &&& final(self).factories@[j].1 == advanced(old(self).factories@[j].1, per_step, invested_mult)
                },
            },
    {
        let n = self.factories.len();
        let mut i: usize = 0;
        while i < n
            invariant
                n == self.factories@.len(),
                n == old(self).factories@.len(),
                i <= n,
                old(self).wf(),
                forall|j: int| 0 <= j < n ==> (#[trigger] self.factories@[j]).0 == old(self).factories@[j].0,
                forall|j: int| 0 <= j < i ==> !tips(#[trigger] old(self).factories@[j].1, per_step, invested_mult),
                forall|j: int| 0 <= j < i ==> (#[trigger] self.factories@[j]).1
                    == advanced(old(self).factories@[j].1, per_step, invested_mult),
                forall|j: int| i <= j < n ==> self.factories@[j].1 == old(self).factories@[j].1,
            decreases n - i,
        {
            let st = self.factories[i].1;
            let sliding = match st.verdict {
                Some(Verdict::Reseed) => !st.relapsed,
                _ => false,
            };
            if sliding {
                proof {
                    lemma_u32_product_fits(per_step, invested_mult);
                    lemma_u32_product_fits(per_step, 1000000);
                }
                let rate: u64 = if st.invested {
                    (per_step as u64) * (invested_mult as u64)
                } else {
                    (per_step as u64) * PPM
                };
                assert(rate == relapse_rate(st, per_step, invested_mult));
                let sum: u128 = st.relapse_risk as u128 + rate as u128;
                if sum >= RISK_FULL as u128 {
                    self.factories[i].1.relapsed = true;
                    self.factories[i].1.relapse_risk = RISK_FULL;
                    let id = self.factories[i].0.clone();
                    assert(tips(old(self).factories@[i as int].1, per_step, invested_mult));
                    assert(self.factories@[i as int].1 == advanced(old(self).factories@[i as int].1, per_step, invested_mult));
                    assert(forall|j: int| 0 <= j <= i ==> self.factories@[j].1
                        == advanced(old(self).factories@[j].1, per_step, invested_mult));
                    assert(forall|j: int| i < j < n ==> self.factories@[j].1 == old(self).factories@[j].1);
                    assert(id@ == old(self).factories@[i as int].0@);
                    assert(forall|j: int| 0 <= j < i ==> !tips(old(self).factories@[j].1, per_step, invested_mult));
                    assert(exists|k: int| {
                        &&& 0 <= k < old(self).factories@.len()
                        &&& tips(old(self).factories@[k].1, per_step, invested_mult)
                        &&& id@ == old(self).factories@[k].0@
                        &&& forall|j: int| 0 <= j < k ==> !tips(old(self).factories@[j].1, per_step, invested_mult)
                        &&& forall|j: int| 0 <= j <= k ==> self.factories@[j].1
                            == advanced(old(self).factories@[j].1, per_step, invested_mult)
                        &&& forall|j: int| k < j < old(self).factories@.len()
                            ==> self.factories@[j].1 == old(self).factories@[j].1
                    }) by {
                        let k = i as int;
                        assert(0 <= k < old(self).factories@.len());
                    }
                    proof {
                        assert(entry_ids(self.factories@) =~= entry_ids(old(self).factories@));
                        lemma_unique_first_match(entry_ids(self.factories@), i as int);
                    }
                    return Some(id);
                } else {
                    self.factories[i].1.relapse_risk = sum as u64;
                }
            }
            i = i + 1;
        }
        assert(entry_ids(self.factories@) =~= entry_ids(old(self).factories@));
        None
    }
}

proof fn lemma_u32_product_fits(a: u32, b: u32)
    ensures
        (a as int) * (b as int) <= u64::MAX,
{
    assert((a as int) * (b as int) <= (u32::MAX as int) * (u32::MAX as int)) by (nonlinear_arith)
        requires
            0 <= a <= u32::MAX,
            0 <= b <= u32::MAX,
    ;
}

/// `factory_mut` keeps each factory recorded at most once: it either
/// leaves the ids as they were or appends the one that was missing.
pub proof fn lemma_factory_mut_keeps_wf(
    before: Seq<(String, FactoryState)>,
    after: Seq<(String, FactoryState)>,
    id: Seq<char>,
)
    requires
        keys_unique(entry_ids(before)),
        entry_ids(after) == match first_match(entry_ids(before), id) {
            Some(_) => entry_ids(before),
            None => entry_ids(before).push(id),
        },
    ensures
        keys_unique(entry_ids(after)),
{
    lemma_first_match_facts(entry_ids(before), id);
    let ks = entry_ids(after);
    let kb = entry_ids(before);
    assert forall|a: int, b: int| 0 <= a < b < ks.len() implies ks[a] != ks[b] by {
        if first_match(kb, id).is_none() && b == ks.len() - 1 {
            assert(ks[a] == kb[a]);
        } else {
            assert(ks[a] == kb[a]);
            assert(ks[b] == kb[b]);
        }
    }
}

/// What `factory_mut` hands out is what `factory` reads back afterwards, and
/// every other factory reads as before.
pub proof fn lemma_factory_write_read(
    before: Seq<(String, FactoryState)>,
    after: Seq<(String, FactoryState)>,
    id: Seq<char>,
    written: FactoryState,
)
    requires
        match first_match(entry_ids(before), id) {
            Some(i) => after == before.update(i, (before[i].0, written)),
            None => {
                &&& after.len() == before.len() + 1
                &&& after.drop_last() == before
                &&& after.last().0@ == id
                &&& after.last().1 == written
            },
        },
    ensures
        state_in(after, id) == written,
        forall|other: Seq<char>| other != id ==> state_in(after, other) == state_in(before, other),
{
    lemma_first_match_facts(entry_ids(before), id);
    match first_match(entry_ids(before), id) {
        Some(i) => lemma_write_existing(before, after, id, written, i),
        None => lemma_write_new(before, after, id, written),
    }
}

proof fn lemma_write_existing(
    before: Seq<(String, FactoryState)>,
    after: Seq<(String, FactoryState)>,
    id: Seq<char>,
    written: FactoryState,
    i: int,
)
    requires
        first_match(entry_ids(before), id) == Some(i),
        0 <= i < before.len(),
        after == before.update(i, (before[i].0, written)),
    ensures
        state_in(after, id) == written,
        forall|other: Seq<char>| other != id ==> state_in(after, other) == state_in(before, other),
{
    lemma_first_match_facts(entry_ids(before), id);
    assert(entry_ids(after) =~= entry_ids(before));
    assert forall|other: Seq<char>| other != id implies state_in(after, other)
        == state_in(before, other) by {
        lemma_first_match_facts(entry_ids(before), other);
        match first_match(entry_ids(before), other) {
            Some(k) => {
                assert(k != i);
            },
            None => {},
        }
    }
}

proof fn lemma_write_new(
    before: Seq<(String, FactoryState)>,
    after: Seq<(String, FactoryState)>,
    id: Seq<char>,
    written: FactoryState,
)
    requires
        first_match(entry_ids(before), id).is_none(),
        after.len() == before.len() + 1,
        after.drop_last() == before,
        after.last().0@ == id,
        after.last().1 == written,
    ensures
        state_in(after, id) == written,
        forall|other: Seq<char>| other != id ==> state_in(after, other) == state_in(before, other),
{
    let n = before.len() as int;
    let ka = entry_ids(after);
    let kb = entry_ids(before);
    lemma_first_match_facts(kb, id);
    assert forall|j: int| 0 <= j < n implies ka[j] == kb[j] by {
        assert(after[j] == after.drop_last()[j]);
    }
    assert(ka[n] == id);
    lemma_first_match(ka, id, n);
    assert forall|other: Seq<char>| other != id implies state_in(after, other)
        == state_in(before, other) by {
        lemma_first_match_same_keys(kb, ka, other);
        lemma_first_match_facts(kb, other);
        match first_match(kb, other) {
            Some(k) => {
                assert(after[k] == after.drop_last()[k]);
            },
            None => {},
        }
    }
}

/// A step never changes a factory's verdict, heart or funding, never undoes
/// a relapse, keeps the risk within a full relapse, and leaves factories
/// that are not sliding untouched.
pub proof fn lemma_tick_keeps_verdicts(s: FactoryState, per_step: u32, invested_mult: u32)
    requires
        s.relapse_risk <= RISK_FULL,
    ensures
        advanced(s, per_step, invested_mult).verdict == s.verdict,
        advanced(s, per_step, invested_mult).heart_defeated == s.heart_defeated,
        advanced(s, per_step, invested_mult).invested == s.invested,
        s.relapsed ==> advanced(s, per_step, invested_mult).relapsed,
        advanced(s, per_step, invested_mult).relapse_risk <= RISK_FULL,
        !slides(s) ==> advanced(s, per_step, invested_mult) == s,
{
}

/// Funding the watch slows the slide: two factories that differ only in
/// being funded, stepped together, keep the funded one's risk no higher
/// than the untended one's, and the funded one never relapses first
/// (for a funding multiplier of at most one).
pub proof fn lemma_investment_slows_relapse(
    funded: FactoryState,
    untended: FactoryState,
    per_step: u32,
    invested_mult: u32,
    n: nat,
)
    requires
        invested_mult <= PPM,
        funded.invested,
        untended == (FactoryState { invested: false, ..funded }),
        funded.relapse_risk <= RISK_FULL,
    ensures
        advanced_n(funded, per_step, invested_mult, n).relapse_risk
            <= advanced_n(untended, per_step, invested_mult, n).relapse_risk,
        advanced_n(funded, per_step, invested_mult, n).relapsed
            ==> advanced_n(untended, per_step, invested_mult, n).relapsed,
    decreases n,
{
    lemma_slow_pair(funded, untended, per_step, invested_mult, n);
}

/// The pairing invariant between a funded and an untended factory.
pub open spec fn slower_pair(a: FactoryState, b: FactoryState) -> bool {
    &&& a.verdict == b.verdict
    &&& a.invested
    &&& !b.invested
    &&& a.relapse_risk <= b.relapse_risk
    &&& b.relapse_risk <= RISK_FULL
    &&& (a.relapsed ==> b.relapsed)
    &&& (b.relapsed && !a.relapsed ==> b.relapse_risk == RISK_FULL)
}

proof fn lemma_slow_pair(a: FactoryState, b: FactoryState, per_step: u32, invested_mult: u32, n: nat)
    requires
        invested_mult <= PPM,
        a.invested,
        b == (FactoryState { invested: false, ..a }),
        a.relapse_risk <= RISK_FULL,
    ensures
        slower_pair(
            advanced_n(a, per_step, invested_mult, n),
            advanced_n(b, per_step, invested_mult, n),
        ),
    decreases n,
{
    if n > 0 {
        lemma_slow_pair(a, b, per_step, invested_mult, (n - 1) as nat);
        let x = advanced_n(a, per_step, invested_mult, (n - 1) as nat);
        let y = advanced_n(b, per_step, invested_mult, (n - 1) as nat);
        lemma_slow_step(x, y, per_step, invested_mult);
    }
}

proof fn lemma_slow_step(a: FactoryState, b: FactoryState, per_step: u32, invested_mult: u32)
    requires
        invested_mult <= PPM,
        slower_pair(a, b),
    ensures
        slower_pair(advanced(a, per_step, invested_mult), advanced(b, per_step, invested_mult)),
{
    assert((per_step as nat) * (invested_mult as nat) <= (per_step as nat) * (PPM as nat))
        by (nonlinear_arith)
        requires
            invested_mult <= PPM,
    ;
}

/// What the rates mean: an untended factory gains `per_step` millionths of
/// a full relapse per step, and funding the watch scales that by
/// `invested_mult` millionths.
pub proof fn lemma_relapse_rate_meaning(s: FactoryState, per_step: u32, invested_mult: u32)
    ensures
        !s.invested ==> relapse_rate(s, per_step, invested_mult) * PPM == (per_step as nat) * RISK_FULL,
        s.invested ==> relapse_rate(s, per_step, invested_mult) * PPM == relapse_rate(
            FactoryState { invested: false, ..s },
            per_step,
            invested_mult,
        ) * (invested_mult as nat),
{
    let p = per_step as nat;
    let m = invested_mult as nat;
    assert(p * 1000000 * 1000000 == p * 1000000000000) by (nonlinear_arith);
    assert(p * m * 1000000 == p * 1000000 * m) by (nonlinear_arith);
}

/// A reseeded factory that has not relapsed gains the same risk on every
/// step and relapses on the first step at which its accumulated risk
/// reaches a full relapse: after `n` steps its risk is the starting risk
/// plus `n` steps' worth, or it has relapsed with a full risk once that
/// sum reaches the full mark.
pub proof fn lemma_relapse_after_steps(s: FactoryState, per_step: u32, invested_mult: u32, n: nat)
    requires
        slides(s),
        s.relapse_risk < RISK_FULL,
    ensures
        s.relapse_risk + n * relapse_rate(s, per_step, invested_mult) >= RISK_FULL ==> advanced_n(
            s,
            per_step,
            invested_mult,
            n,
        ) == (FactoryState { relapsed: true, relapse_risk: RISK_FULL, ..s }),
        s.relapse_risk + n * relapse_rate(s, per_step, invested_mult) < RISK_FULL ==> advanced_n(
            s,
            per_step,
            invested_mult,
            n,
        ) == (FactoryState {
            relapse_risk: (s.relapse_risk + n * relapse_rate(s, per_step, invested_mult)) as u64,
            ..s
        }),
    decreases n,
{
    let rate = relapse_rate(s, per_step, invested_mult);
    if n == 0 {
        assert(n * rate == 0) by (nonlinear_arith)
            requires
                n == 0,
        ;
        assert(advanced_n(s, per_step, invested_mult, n) == s);
    } else {
        let m = (n - 1) as nat;
        lemma_relapse_after_steps(s, per_step, invested_mult, m);
        assert(s.relapse_risk + m * rate + rate == s.relapse_risk + n * rate) by (nonlinear_arith)
            requires
                n == m + 1,
        ;
        assert(m * rate <= n * rate) by (nonlinear_arith)
            requires
                n == m + 1,
        ;
        let prev = advanced_n(s, per_step, invested_mult, m);
        assert(advanced_n(s, per_step, invested_mult, n) == advanced(prev, per_step, invested_mult));
        assert(relapse_rate(prev, per_step, invested_mult) == rate);
        if s.relapse_risk + m * rate >= RISK_FULL {
            assert(!slides(prev));
        } else {
            assert(slides(prev));
            assert(prev.relapse_risk == s.relapse_risk + m * rate);
        }
    }
}

/// Whether a listed factory carries verdict `v`.
pub open spec fn carries(fs: Seq<(String, FactoryState)>, v: Verdict) -> spec_fn(FactoryDef) -> bool {
    |d: FactoryDef| state_in(fs, d.id@).verdict == Some(v)
}

/// Whether a listed factory carries any verdict.
pub open spec fn judged(fs: Seq<(String, FactoryState)>) -> spec_fn(FactoryDef) -> bool {
    |d: FactoryDef| state_in(fs, d.id@).verdict.is_some()
}

/// The tally of a verdict is the number of listed factories that carry
/// exactly that verdict, each counted once for its own verdict.
pub proof fn lemma_verdict_count_counts(fs: Seq<(String, FactoryState)>, defs: Seq<FactoryDef>, v: Verdict)
    ensures
        verdict_count(fs, defs, v) == defs.filter(carries(fs, v)).len(),
    decreases defs.len(),
{
    reveal(Seq::filter);
    if defs.len() > 0 {
        lemma_verdict_count_counts(fs, defs.drop_last(), v);
    }
}

/// The number judged is the number of listed factories that carry a verdict.
pub proof fn lemma_judged_count_counts(fs: Seq<(String, FactoryState)>, defs: Seq<FactoryDef>)
    ensures
        judged_count(fs, defs) == defs.filter(judged(fs)).len(),
    decreases defs.len(),
{
    reveal(Seq::filter);
    if defs.len() > 0 {
        lemma_judged_count_counts(fs, defs.drop_last());
    }
}

/// Every judged factory carries exactly one of the three verdicts: the
/// tally adds up to the number judged.
pub proof fn lemma_tally_adds_up(fs: Seq<(String, FactoryState)>, defs: Seq<FactoryDef>)
    ensures
        verdict_count(fs, defs, Verdict::Purge) + verdict_count(fs, defs, Verdict::Reseed)
            + verdict_count(fs, defs, Verdict::Bind) == judged_count(fs, defs),
    decreases defs.len(),
{
    if defs.len() > 0 {
        lemma_tally_adds_up(fs, defs.drop_last());
        let v = state_in(fs, defs.last().id@).verdict;
        assert(verdict_count(fs, defs, Verdict::Purge) == verdict_count(fs, defs.drop_last(), Verdict::Purge)
            + if v == Some(Verdict::Purge) { 1nat } else { 0nat });
        assert(verdict_count(fs, defs, Verdict::Reseed) == verdict_count(fs, defs.drop_last(), Verdict::Reseed)
            + if v == Some(Verdict::Reseed) { 1nat } else { 0nat });
        assert(verdict_count(fs, defs, Verdict::Bind) == verdict_count(fs, defs.drop_last(), Verdict::Bind)
            + if v == Some(Verdict::Bind) { 1nat } else { 0nat });
        match v {
            Some(Verdict::Purge) => {},
            Some(Verdict::Reseed) => {},
            Some(Verdict::Bind) => {},
            None => {},
        }
    }
}

/// All factories are judged exactly when each listed factory carries a verdict.
pub proof fn lemma_all_judged_means_each(fs: Seq<(String, FactoryState)>, defs: Seq<FactoryDef>)
    ensures
        judged_count(fs, defs) <= defs.len(),
        (judged_count(fs, defs) == defs.len()) <==> (forall|i: int| 0 <= i < defs.len()
            ==> #[trigger] state_in(fs, defs[i].id@).verdict.is_some()),
    decreases defs.len(),
{
    if defs.len() > 0 {
        let init = defs.drop_last();
        lemma_all_judged_means_each(fs, init);
        assert forall|i: int| 0 <= i < init.len() implies init[i] == defs[i] by {}
        if judged_count(fs, defs) == defs.len() {
            assert forall|i: int| 0 <= i < defs.len() implies #[trigger] state_in(fs, defs[i].id@).verdict.is_some() by {
                if i < init.len() {
                    assert(state_in(fs, init[i].id@).verdict.is_some());
                }
            }
        }
        if forall|i: int| 0 <= i < defs.len() ==> #[trigger] state_in(fs, defs[i].id@).verdict.is_some() {
            assert(state_in(fs, defs[defs.len() - 1].id@).verdict.is_some());
            assert forall|i: int| 0 <= i < init.len() implies #[trigger] state_in(fs, init[i].id@).verdict.is_some() by {
                assert(state_in(fs, defs[i].id@).verdict.is_some());
            }
        }
    }
}

} // verus!
