//! Overworld traversal rules: grid steps, warps and doors, relapse pressure
//! per step, and wild encounter odds and packs.

use vstd::prelude::*;
use crate::data::GameData;
use crate::data::world::{first_npc_at, first_warp_at, npc_stands_at, EncounterEntry, MapDef, MapKind, TileKind};
use crate::model::session::GameSession;
use vstd::string::*;
use crate::model::worldstate::{
    advanced, mood_encounter_pct, region_mood_in, tips, FactoryState, RegionMood, Verdict, WorldState,
};

verus! {

/// What stepping onto a tile led to.
#[derive(Debug, Clone, Copy, PartialEq, Eq, Structural)]
pub enum StepEvent {
    /// The rider's map is not in the world.
    NoMap,
    /// The target tile is not walkable; the rider stays put.
    Blocked,
    /// An ordinary step.
    Moved,
    /// The step landed on a warp and the rider was carried to its target.
    Warped,
    /// Stepped through a settlement door.
    SettlementDoor,
    /// Stepped into tall grass: roll for a wild encounter.
    Grass,
}

/// A step's event, and the factory that tipped into relapse on it.
#[derive(Debug, Clone)]
pub struct StepOutcome {
    pub event: StepEvent,
    pub relapsed: Option<String>,
}

/// The event a completed step onto `(x, y)` produces.
pub open spec fn arrival_event(map: MapDef, x: i32, y: i32) -> StepEvent {
    if first_warp_at(map.warps@, x, y).is_some() {
        StepEvent::Warped
    } else if map.tile_at(x, y) == TileKind::SettlementDoor {
        StepEvent::SettlementDoor
    } else if map.tile_at(x, y) == TileKind::Grass {
        StepEvent::Grass
    } else {
        StepEvent::Moved
    }
}

/// Takes one grid step by `(dx, dy)`. A walkable target moves the rider,
/// advances the step clock and the relapse pressure, then follows a warp
/// or reports the door or grass it landed on.
pub fn take_step(
    session: &mut GameSession,
    data: &GameData,
    dx: i32,
    dy: i32,
    relapse_per_step: u32,
    relapse_invested_mult: u32,
) -> (r: StepOutcome)
    requires
        -1 <= dx <= 1,
        -1 <= dy <= 1,
        i32::MIN < old(session).location.x < i32::MAX,
        i32::MIN < old(session).location.y < i32::MAX,
        old(session).steps < u64::MAX,
        old(session).world_state.wf(),
    ensures
        final(session).world_state.wf(),
        match data.world.map_named(old(session).location.map_id@) {
            None => r.event == StepEvent::NoMap && *final(session) == *old(session),
            Some(map) => {
                let nx = (old(session).location.x + dx) as i32;
                let ny = (old(session).location.y + dy) as i32;
                if !map.walkable_at(nx, ny) {
                    r.event == StepEvent::Blocked && *final(session) == *old(session)
                } else {
                    &&& r.event == arrival_event(map, nx, ny)
                    &&& final(session).steps == old(session).steps + 1
                    &&& final(session).profile == old(session).profile
                    &&& final(session).story_flags == old(session).story_flags
                    &&& final(session).journal == old(session).journal
                    &&& final(session).battles_fought == old(session).battles_fought
                    &&& match first_warp_at(map.warps@, nx, ny) {
                        Some(w) => {
                            &&& final(session).location.map_id@ == map.warps@[w].to_map@
                            &&& final(session).location.x == map.warps@[w].to_x
                            &&& final(session).location.y == map.warps@[w].to_y
                        },
                        None => {
                            &&& final(session).location.map_id == old(session).location.map_id
                            &&& final(session).location.x == nx
                            &&& final(session).location.y == ny
                        },
                    }
                    &&& final(session).world_state.factories@.len() == old(session).world_state.factories@.len()
                    &&& (r.relapsed matches Some(id) ==> final(session).world_state.state_of(id@).relapsed)
                    &&& forall|j: int| 0 <= j < old(session).world_state.factories@.len()
                        ==> (#[trigger] final(session).world_state.factories@[j]).0
                        == old(session).world_state.factories@[j].0
                    &&& match r.relapsed {
                        Some(id) => exists|k: int| {
                            &&& 0 <= k < old(session).world_state.factories@.len()
                            &&& tips(old(session).world_state.factories@[k].1, relapse_per_step, relapse_invested_mult)
                            &&& id@ == old(session).world_state.factories@[k].0@
                            &&& forall|j: int| 0 <= j < k ==> !tips(
                                old(session).world_state.factories@[j].1,
                                relapse_per_step,
                                relapse_invested_mult,
                            )
                            &&& forall|j: int| 0 <= j <= k ==> final(session).world_state.factories@[j].1
                                == advanced(old(session).world_state.factories@[j].1, relapse_per_step, relapse_invested_mult)
                            &&& forall|j: int| k < j < old(session).world_state.factories@.len()
                                ==> final(session).world_state.factories@[j].1
                                == old(session).world_state.factories@[j].1
                        },
                        None => forall|j: int| 0 <= j < old(session).world_state.factories@.len() ==> {
                            &&& !tips(old(session).world_state.factories@[j].1, relapse_per_step, relapse_invested_mult)
                            &&& final(session).world_state.factories@[j].1 == advanced(
                                old(session).world_state.factories@[j].1,
                                relapse_per_step,
                                relapse_invested_mult,
                            )
                        },
                    }
                }
            },
        },
{
    let Some(map) = data.world.map(session.location.map_id.as_str()) else {
        return StepOutcome { event: StepEvent::NoMap, relapsed: None };
    };
    let nx = session.location.x + dx;
    let ny = session.location.y + dy;
    if !map.walkable(nx, ny) {
        return StepOutcome { event: StepEvent::Blocked, relapsed: None };
    }
    session.location.x = nx;
    session.location.y = ny;
    session.steps = session.steps + 1;
    let relapsed = session.world_state.tick_relapse(relapse_per_step, relapse_invested_mult);
    if let Some(warp) = map.warp_at(nx, ny) {
        session.location.map_id = warp.to_map.clone();
        session.location.x = warp.to_x;
        session.location.y = warp.to_y;
        return StepOutcome { event: StepEvent::Warped, relapsed };
    }
    let tile = map.tile(nx, ny);
    let event = if matches!(tile, TileKind::SettlementDoor) {
        StepEvent::SettlementDoor
    } else if tile.encounter_prone() {
        StepEvent::Grass
    } else {
        StepEvent::Moved
    };
    StepOutcome { event, relapsed }
}

/// Encounter odds on a map per grass step, in parts per hundred million
/// (the map's rate in parts per million, times a percentage): factory floors
/// stop birthing patrols once their factory is judged; overworld odds follow
/// the region's mood.
pub open spec fn encounter_odds(map: MapDef, data: GameData, ws: WorldState) -> int {
    match map.kind {
        MapKind::Factory => {
            let active = match map.factory_id {
                Some(id) => ws.state_of(id@).verdict.is_none(),
                None => true,
            };
            if active {
                (map.encounter_rate as int) * 100
            } else {
                0
            }
        },
        MapKind::Overworld => (map.encounter_rate as int)
            * (mood_encounter_pct(region_mood_in(ws.factories@, data.world.region_named(map.region@))) as int),
    }
}

pub fn effective_encounter_rate(map: &MapDef, data: &GameData, session: &GameSession) -> (r: u64)
    ensures
        r == encounter_odds(*map, *data, session.world_state),
{
    match map.kind {
        MapKind::Factory => {
            let active = match &map.factory_id {
                Some(id) => session.world_state.factory_active(id.as_str()),
                None => true,
            };
            if active {
                (map.encounter_rate as u64) * 100
            } else {
                0
            }
        },
        MapKind::Overworld => {
            let mood = session.world_state.region_mood(data, map.region.as_str());
            let pct = WorldState::encounter_rate_mult(mood);
            assert((map.encounter_rate as int) * (pct as int) <= (u32::MAX as int) * 140) by (nonlinear_arith)
                requires
                    pct <= 140,
                    map.encounter_rate <= u32::MAX,
            ;
            (map.encounter_rate as u64) * (pct as u64)
        },
    }
}

/// Relapsed regions and factory floors field armed war-units.
pub fn encounter_armed(map: &MapDef, data: &GameData, session: &GameSession) -> (r: bool)
    ensures
        r == (map.kind == MapKind::Factory
            || region_mood_in(session.world_state.factories@, data.world.region_named(map.region@))
            == RegionMood::Relapsed),
{
    let mood = session.world_state.region_mood(data, map.region.as_str());
    matches!(map.kind, MapKind::Factory) || matches!(mood, RegionMood::Relapsed)
}

/// Sum of encounter weights.
pub open spec fn total_weight(entries: Seq<EncounterEntry>) -> nat
    decreases entries.len(),
{
    if entries.len() == 0 {
        0
    } else {
        total_weight(entries.drop_last()) + (entries.last().weight as nat)
    }
}

/// The entry a roll below the total weight lands in: entries own
/// consecutive spans of the roll as long as their weights.
pub open spec fn entry_for_roll(entries: Seq<EncounterEntry>, roll: nat) -> Option<int>
    decreases entries.len(),
{
    if entries.len() == 0 {
        None
    } else if roll < entries[0].weight {
        Some(0)
    } else {
        match entry_for_roll(entries.drop_first(), (roll - entries[0].weight) as nat) {
            Some(i) => Some(i + 1),
            None => None,
        }
    }
}

/// A rolled wild pack: which encounter entry, and how many of its species.
#[derive(Debug, Clone, Copy, PartialEq, Eq, Structural)]
pub struct EncounterPick {
    pub entry: usize,
    pub count: u32,
}

/// The pack a pair of random draws picks on a map: `roll` chooses an entry
/// by weight, `count_roll` its size within the entry's bounds. No pack when
/// the table is empty or names an unknown species.
pub open spec fn pack_for(map: MapDef, data: GameData, roll: u64, count_roll: u64) -> Option<EncounterPick> {
    let total = total_weight(map.encounters@);
    if total == 0 {
        None
    } else {
        match entry_for_roll(map.encounters@, (roll as nat) % total) {
            Some(i) => {
                let e = map.encounters@[i];
                if data.species_named(e.species@).is_some() {
                    Some(EncounterPick {
                        entry: i as usize,
                        count: (e.min + (count_roll as nat) % ((e.max - e.min + 1) as nat)) as u32,
                    })
                } else {
                    None
                }
            },
            None => None,
        }
    }
}

/// Rolls a wild pack from two random draws.
pub fn roll_encounter(map: &MapDef, data: &GameData, roll: u64, count_roll: u64) -> (r: Option<EncounterPick>)
    requires
        total_weight(map.encounters@) <= u32::MAX,
        forall|i: int| 0 <= i < map.encounters@.len() ==> (#[trigger] map.encounters@[i]).min
            <= map.encounters@[i].max && map.encounters@[i].max - map.encounters@[i].min < u32::MAX,
    ensures
        r == pack_for(*map, *data, roll, count_roll),
{
    let entries = &map.encounters;
    let mut total: u32 = 0;
    let mut i: usize = 0;
    while i < entries.len()
        invariant
            i <= entries@.len(),
            total == total_weight(entries@.take(i as int)),
            total_weight(entries@) <= u32::MAX,
        decreases entries@.len() - i,
    {
        proof {
            assert(entries@.take(i as int + 1).drop_last() =~= entries@.take(i as int));
            lemma_total_weight_prefix(entries@, i as int + 1);
        }
        total = total + entries[i].weight;
        i = i + 1;
    }
    assert(entries@.take(i as int) =~= entries@);
    if total == 0 {
        return None;
    }
    let mut left: u32 = (roll % (total as u64)) as u32;
    let mut k: usize = 0;
    proof {
        assert(entries@.skip(0) =~= entries@);
    }
    while k < entries.len()
        invariant
            k <= entries@.len(),
            total == total_weight(entries@),
            total > 0,
            entries@ == map.encounters@,
            forall|i: int| 0 <= i < map.encounters@.len() ==> (#[trigger] map.encounters@[i]).min
                <= map.encounters@[i].max && map.encounters@[i].max - map.encounters@[i].min < u32::MAX,
            entry_for_roll(entries@, ((roll as nat) % (total as nat)) as nat) == match entry_for_roll(entries@.skip(k as int), left as nat) {
                Some(j) => Some(j + k),
                None => None::<int>,
            },
        decreases entries@.len() - k,
    {
        let ghost rest = entries@.skip(k as int);
        assert(rest.drop_first() =~= entries@.skip(k as int + 1));
        assert(rest[0] == entries@[k as int]);
        if left < entries[k].weight {
            let e = &entries[k];
            assert(entry_for_roll(rest, left as nat) == Some(0int));
            assert(map.encounters@[k as int].min <= map.encounters@[k as int].max);
            if data.find_species(e.species.as_str()).is_none() {
                return None;
            }
            let span = e.max - e.min + 1;
            let count = e.min + ((count_roll % (span as u64)) as u32);
            return Some(EncounterPick { entry: k, count });
        }
        left = left - entries[k].weight;
        k = k + 1;
    }
    proof {
        lemma_roll_below_total(entries@, ((roll as nat) % (total as nat)) as nat);
    }
    None
}

proof fn lemma_total_weight_prefix(entries: Seq<EncounterEntry>, k: int)
    requires
        0 <= k <= entries.len(),
    ensures
        total_weight(entries.take(k)) <= total_weight(entries),
    decreases entries.len(),
{
    if k < entries.len() {
        assert(entries.drop_last().take(k) =~= entries.take(k));
        lemma_total_weight_prefix(entries.drop_last(), k);
    } else {
        assert(entries.take(k) =~= entries);
    }
}

/// Total weight split as the first entry plus the rest.
proof fn lemma_total_weight_first(entries: Seq<EncounterEntry>)
    requires
        entries.len() > 0,
    ensures
        total_weight(entries) == entries[0].weight + total_weight(entries.drop_first()),
    decreases entries.len(),
{
    if entries.len() > 1 {
        lemma_total_weight_first(entries.drop_last());
        assert(entries.drop_last().drop_first() =~= entries.drop_first().drop_last());
        assert(entries.drop_first().last() == entries.last());
        assert(entries.drop_last()[0] == entries[0]);
        let df = entries.drop_first();
        assert(total_weight(df) == total_weight(df.drop_last()) + (df.last().weight as nat));
        assert(total_weight(entries) == total_weight(entries.drop_last()) + (entries.last().weight as nat));
    } else {
        assert(entries.drop_first().len() == 0);
        assert(entries.drop_last().len() == 0);
        assert(total_weight(entries.drop_last()) == 0);
        assert(total_weight(entries.drop_first()) == 0);
        assert(entries.last() == entries[0]);
    }
}

/// Weights add up entry by entry: the total over two joined tables is the
/// sum of their totals, and a one-entry table weighs its entry's weight.
pub proof fn lemma_total_weight_adds_up(a: Seq<EncounterEntry>, b: Seq<EncounterEntry>)
    ensures
        total_weight(a + b) == total_weight(a) + total_weight(b),
        b.len() > 0 ==> total_weight(seq![b[0]]) == b[0].weight,
    decreases b.len(),
{
    if b.len() > 0 {
        let one = seq![b[0]];
        assert(one.drop_last() =~= Seq::<EncounterEntry>::empty());
        assert(one.last() == b[0]);
        assert(total_weight(one.drop_last()) == 0);
        assert(total_weight(one) == total_weight(one.drop_last()) + (one.last().weight as nat));
    }
    if b.len() == 0 {
        assert(a + b =~= a);
    } else {
        assert((a + b).drop_last() =~= a + b.drop_last());
        assert((a + b).last() == b.last());
        lemma_total_weight_adds_up(a, b.drop_last());
    }
}

/// What landing on a tile means: a warp there always carries the rider;
/// otherwise a settlement door opens the settlement, tall grass rolls for
/// an encounter, and anything else is a plain step.
pub proof fn lemma_arrival_cases(map: MapDef, x: i32, y: i32)
    ensures
        arrival_event(map, x, y) == StepEvent::Warped <==> first_warp_at(map.warps@, x, y).is_some(),
        arrival_event(map, x, y) == StepEvent::SettlementDoor <==> (first_warp_at(map.warps@, x, y).is_none()
            && map.tile_at(x, y) == TileKind::SettlementDoor),
        arrival_event(map, x, y) == StepEvent::Grass <==> (first_warp_at(map.warps@, x, y).is_none()
            && map.tile_at(x, y) == TileKind::Grass),
        arrival_event(map, x, y) == StepEvent::Moved <==> (first_warp_at(map.warps@, x, y).is_none()
            && map.tile_at(x, y) != TileKind::SettlementDoor && map.tile_at(x, y) != TileKind::Grass),
{
}

/// A weighted pick: each entry owns the span of rolls from the total weight
/// of the entries before it, as wide as its own weight. A roll lands in an
/// entry exactly when it is below the total weight, and then in the entry
/// whose span holds it.
pub proof fn lemma_roll_lands_in_its_span(entries: Seq<EncounterEntry>, roll: nat)
    ensures
        entry_for_roll(entries, roll).is_some() <==> roll < total_weight(entries),
        entry_for_roll(entries, roll) matches Some(i) ==> {
            &&& 0 <= i < entries.len()
            &&& total_weight(entries.take(i)) <= roll
            &&& roll < total_weight(entries.take(i)) + entries[i].weight
        },
    decreases entries.len(),
{
    if entries.len() == 0 {
    } else {
        lemma_total_weight_first(entries);
        let w = entries[0].weight as nat;
        let rest = entries.drop_first();
        assert(entries.take(0).len() == 0);
        assert(total_weight(entries.take(0)) == 0);
        if roll >= w {
            let r = (roll - w) as nat;
            lemma_roll_lands_in_its_span(rest, r);
            match entry_for_roll(rest, r) {
                Some(j) => {
                    let pre = entries.take(j + 1);
                    assert(pre.len() > 0);
                    lemma_total_weight_first(pre);
                    assert(pre.drop_first() =~= rest.take(j));
                    assert(pre[0] == entries[0]);
                    assert(entries[j + 1] == rest[j]);
                },
                None => {},
            }
        }
    }
}

/// A rolled pack comes from the entry whose span holds the roll (taken
/// modulo the total weight), names a species the catalogue knows, and has
/// a size within that entry's bounds; an empty table rolls no pack.
pub proof fn lemma_pack_fits_its_entry(map: MapDef, data: GameData, roll: u64, count_roll: u64)
    requires
        map.encounters@.len() <= usize::MAX,
        forall|i: int| 0 <= i < map.encounters@.len() ==> (#[trigger] map.encounters@[i]).min
            <= map.encounters@[i].max,
    ensures
        total_weight(map.encounters@) == 0 ==> pack_for(map, data, roll, count_roll).is_none(),
        pack_for(map, data, roll, count_roll) matches Some(pick) ==> {
            let es = map.encounters@;
            let k = pick.entry as int;
            let r = (roll as nat) % total_weight(es);
            &&& 0 <= k < es.len()
            &&& total_weight(es.take(k)) <= r < total_weight(es.take(k)) + es[k].weight
            &&& data.species_named(es[k].species@).is_some()
            &&& es[k].min <= pick.count <= es[k].max
        },
{
    let es = map.encounters@;
    let total = total_weight(es);
    if total > 0 {
        let r = (roll as nat) % total;
        lemma_roll_lands_in_its_span(es, r);
        if let Some(i) = entry_for_roll(es, r) {
            let e = es[i];
            let span = (e.max - e.min + 1) as nat;
            assert((count_roll as nat) % span < span);
            assert(e.min + (count_roll as nat) % span <= e.max);
            assert((i as usize) as int == i);
        }
    }
}

/// Every roll below the total weight lands in some entry.
proof fn lemma_roll_below_total(entries: Seq<EncounterEntry>, roll: nat)
    requires
        roll < total_weight(entries),
    ensures
        entry_for_roll(entries, roll).is_some(),
    decreases entries.len(),
{
    if entries.len() > 0 {
        lemma_total_weight_first(entries);
        if roll >= entries[0].weight {
            lemma_roll_below_total(entries.drop_first(), (roll - entries[0].weight) as nat);
        }
    }
}

/// The color family the HUD draws an objective in.
#[derive(Debug, Clone, Copy, PartialEq, Eq, Structural)]
pub enum ObjectiveTone {
    Amber,
    Red,
    Green,
    Grey,
    Purple,
}

/// The HUD objective for a region whose factory is named `fname`.
pub open spec fn region_goal(f: FactoryState, fname: Seq<char>) -> (Seq<char>, ObjectiveTone) {
    if !f.heart_defeated {
        (fname + " still births war-units. Raid its heart."@, ObjectiveTone::Amber)
    } else if f.verdict.is_none() {
        (fname + " lies silent — return to pass judgment."@, ObjectiveTone::Amber)
    } else if f.relapsed {
        ("This region has RELAPSED. Confront the keeper at the heart."@, ObjectiveTone::Red)
    } else if f.verdict == Some(Verdict::Reseed) && !f.invested {
        ("Revived — fund the Watch before prosperity forgets."@, ObjectiveTone::Green)
    } else {
        match f.verdict {
            Some(Verdict::Purge) => ("At peace. Dead peace, but peace. Your verdict holds."@, ObjectiveTone::Grey),
            Some(Verdict::Bind) => ("The factory answers to you now."@, ObjectiveTone::Purple),
            _ => ("Thriving under your watch."@, ObjectiveTone::Green),
        }
    }
}

/// The live objective the HUD shows on a map.
pub open spec fn map_goal(data: GameData, ws: WorldState, map: MapDef) -> (Seq<char>, ObjectiveTone) {
    if map.kind == MapKind::Factory && map.factory_id.is_some() {
        if !ws.state_of(map.factory_id.unwrap()@).heart_defeated {
            ("Descend to the heart and silence it."@, ObjectiveTone::Amber)
        } else {
            ("The vats are still. Nothing left to fight here."@, ObjectiveTone::Grey)
        }
    } else {
        match data.world.region_named(map.region@) {
            None => (Seq::empty(), ObjectiveTone::Grey),
            Some(region) => region_goal(
                ws.state_of(region.gestarium_id@),
                match data.factory_named(region.gestarium_id@) {
                    Some(fd) => fd.name@,
                    None => "the factory"@,
                },
            ),
        }
    }
}

/// The current region's live objective and its tone, derived from world
/// state: what makes the open world legible without hard gates.
pub fn region_objective(data: &GameData, session: &GameSession, map: &MapDef) -> (r: (String, ObjectiveTone))
    ensures
        (r.0@, r.1) == map_goal(*data, session.world_state, *map),
{
    if matches!(map.kind, MapKind::Factory) {
        if let Some(fid) = &map.factory_id {
            let f = session.world_state.factory(fid.as_str());
            if !f.heart_defeated {
                return (String::from_str("Descend to the heart and silence it."), ObjectiveTone::Amber);
            }
            return (String::from_str("The vats are still. Nothing left to fight here."), ObjectiveTone::Grey);
        }
    }
    let Some(region) = data.world.region(map.region.as_str()) else {
        return (String::new(), ObjectiveTone::Grey);
    };
    let f = session.world_state.factory(region.gestarium_id.as_str());
    let fname: &str = match data.find_factory(region.gestarium_id.as_str()) {
        Some(d) => d.name.as_str(),
        None => "the factory",
    };
    if !f.heart_defeated {
        (String::from_str(fname).concat(" still births war-units. Raid its heart."), ObjectiveTone::Amber)
    } else if f.verdict.is_none() {
        (String::from_str(fname).concat(" lies silent — return to pass judgment."), ObjectiveTone::Amber)
    } else if f.relapsed {
        (String::from_str("This region has RELAPSED. Confront the keeper at the heart."), ObjectiveTone::Red)
    } else if matches!(f.verdict, Some(Verdict::Reseed)) && !f.invested {
        (String::from_str("Revived — fund the Watch before prosperity forgets."), ObjectiveTone::Green)
    } else {
        match f.verdict {
            Some(Verdict::Purge) => (
                String::from_str("At peace. Dead peace, but peace. Your verdict holds."),
                ObjectiveTone::Grey,
            ),
            Some(Verdict::Bind) => (String::from_str("The factory answers to you now."), ObjectiveTone::Purple),
            _ => (String::from_str("Thriving under your watch."), ObjectiveTone::Green),
        }
    }
}

/// What the action key does toward a tile.
#[derive(Debug, Clone, Copy, PartialEq, Eq, Structural)]
pub enum Interaction {
    /// Talk to the NPC at this position in the map's NPC list.
    Talk(usize),
    /// Go through a gestarium door: the warp at this position in the map's
    /// warp list carries the rider.
    Enter(usize),
    /// A gestarium door with nothing behind it yet.
    Sealed,
    /// The factory's heart, on a floor that belongs to a factory.
    Heart,
    /// Nothing to do there.
    Nothing,
}

/// What facing `(x, y)` on `map` offers: an NPC standing there first, then a
/// gestarium door (open when a warp sits on it), then the factory's heart.
pub open spec fn interaction_at(map: MapDef, x: i32, y: i32) -> Interaction {
    match first_npc_at(map.npcs@, x, y) {
        Some(i) => Interaction::Talk(i as usize),
        None => if map.tile_at(x, y) == TileKind::GestariumDoor {
            match first_warp_at(map.warps@, x, y) {
                Some(w) => Interaction::Enter(w as usize),
                None => Interaction::Sealed,
            }
        } else if map.tile_at(x, y) == TileKind::Heart && map.factory_id.is_some() {
            Interaction::Heart
        } else {
            Interaction::Nothing
        },
    }
}

fn npc_index(map: &MapDef, x: i32, y: i32) -> (r: Option<usize>)
    ensures
        match first_npc_at(map.npcs@, x, y) {
            Some(i) => r == Some(i as usize) && 0 <= i < map.npcs@.len(),
            None => r.is_none(),
        },
{
    let mut i: usize = 0;
    while i < map.npcs.len()
        invariant
            i <= map.npcs@.len(),
            forall|j: int| 0 <= j < i ==> !(map.npcs@[j].x == x && map.npcs@[j].y == y),
        decreases map.npcs@.len() - i,
    {
        if map.npcs[i].x == x && map.npcs[i].y == y {
            proof {
                let ns = map.npcs@;
                assert(npc_stands_at(ns, x, y));
                let k = choose|k: int| 0 <= k < ns.len() && ns[k].x == x && ns[k].y == y
                    && forall|j: int| 0 <= j < k ==> !(ns[j].x == x && ns[j].y == y);
                if k > i {
                    assert(!(ns[i as int].x == x && ns[i as int].y == y));
                }
            }
            return Some(i);
        }
        i = i + 1;
    }
    None
}

fn warp_index(map: &MapDef, x: i32, y: i32) -> (r: Option<usize>)
    ensures
        match first_warp_at(map.warps@, x, y) {
            Some(i) => r == Some(i as usize) && 0 <= i < map.warps@.len(),
            None => r.is_none(),
        },
{
    let mut i: usize = 0;
    while i < map.warps.len()
        invariant
            i <= map.warps@.len(),
            forall|j: int| 0 <= j < i ==> !(map.warps@[j].x == x && map.warps@[j].y == y),
        decreases map.warps@.len() - i,
    {
        if map.warps[i].x == x && map.warps[i].y == y {
            proof {
                let ws = map.warps@;
                assert(ws[i as int].x == x && ws[i as int].y == y);
                let k = choose|k: int| 0 <= k < ws.len() && ws[k].x == x && ws[k].y == y
                    && forall|j: int| 0 <= j < k ==> !(ws[j].x == x && ws[j].y == y);
                if k > i {
                    assert(!(ws[i as int].x == x && ws[i as int].y == y));
                }
            }
            return Some(i);
        }
        i = i + 1;
    }
    None
}

/// Acts toward the tile at `(dx, dy)` from the rider: reports the NPC to
/// talk to, the heart, a sealed door or nothing, and walks the rider
/// through an open gestarium door.
pub fn interact(session: &mut GameSession, data: &GameData, dx: i32, dy: i32) -> (r: Interaction)
    requires
        -1 <= dx <= 1,
        -1 <= dy <= 1,
        i32::MIN < old(session).location.x < i32::MAX,
        i32::MIN < old(session).location.y < i32::MAX,
    ensures
        match data.world.map_named(old(session).location.map_id@) {
            None => r == Interaction::Nothing && *final(session) == *old(session),
            Some(map) => {
                let fx = (old(session).location.x + dx) as i32;
                let fy = (old(session).location.y + dy) as i32;
                &&& r == interaction_at(map, fx, fy)
                &&& match r {
                    Interaction::Enter(w) => {
                        &&& final(session).location.map_id@ == map.warps@[w as int].to_map@
                        &&& final(session).location.x == map.warps@[w as int].to_x
                        &&& final(session).location.y == map.warps@[w as int].to_y
                        &&& final(session).profile == old(session).profile
                        &&& final(session).world_state == old(session).world_state
                        &&& final(session).story_flags == old(session).story_flags
                        &&& final(session).journal == old(session).journal
                        &&& final(session).steps == old(session).steps
                        &&& final(session).battles_fought == old(session).battles_fought
                    },
                    _ => *final(session) == *old(session),
                }
            },
        },
{
    let Some(map) = data.world.map(session.location.map_id.as_str()) else {
        return Interaction::Nothing;
    };
    let fx = session.location.x + dx;
    let fy = session.location.y + dy;
    if let Some(i) = npc_index(map, fx, fy) {
        return Interaction::Talk(i);
    }
    let tile = map.tile(fx, fy);
    if matches!(tile, TileKind::GestariumDoor) {
        match warp_index(map, fx, fy) {
            Some(w) => {
                session.location.map_id = map.warps[w].to_map.clone();
                session.location.x = map.warps[w].to_x;
                session.location.y = map.warps[w].to_y;
                Interaction::Enter(w)
            },
            None => Interaction::Sealed,
        }
    } else if matches!(tile, TileKind::Heart) && map.factory_id.is_some() {
        Interaction::Heart
    } else {
        Interaction::Nothing
    }
}

/// What meets the rider at a factory's heart.
#[derive(Debug, Clone, Copy, PartialEq, Eq, Structural)]
pub enum HeartVisit {
    /// The guardian, or a relapsed keeper, still holds the heart: fight.
    Guarded,
    /// The heart lies silent and awaits a verdict.
    Judge,
    /// A Bound factory's gestation vats.
    Grow,
    /// Judged and at rest.
    Quiet,
}

pub open spec fn heart_visit_of(f: FactoryState) -> HeartVisit {
    if !f.heart_defeated || f.relapsed {
        HeartVisit::Guarded
    } else if f.verdict.is_none() {
        HeartVisit::Judge
    } else if f.verdict == Some(Verdict::Bind) {
        HeartVisit::Grow
    } else {
        HeartVisit::Quiet
    }
}

/// Which screen a heart opens: a fight while its guardian stands or its
/// region has relapsed; once silenced, the verdict until one is passed; the
/// gestation vats only for a Bound factory; and rest for a Purged or
/// Reseeded one.
pub proof fn lemma_heart_visit_cases(f: FactoryState)
    ensures
        heart_visit_of(f) == HeartVisit::Guarded <==> (!f.heart_defeated || f.relapsed),
        heart_visit_of(f) == HeartVisit::Judge <==> (f.heart_defeated && !f.relapsed && f.verdict.is_none()),
        heart_visit_of(f) == HeartVisit::Grow <==> (f.heart_defeated && !f.relapsed && f.verdict
            == Some(Verdict::Bind)),
        heart_visit_of(f) == HeartVisit::Quiet <==> (f.heart_defeated && !f.relapsed && (f.verdict
            == Some(Verdict::Purge) || f.verdict == Some(Verdict::Reseed))),
{
    match f.verdict {
        Some(Verdict::Purge) => {},
        Some(Verdict::Reseed) => {},
        Some(Verdict::Bind) => {},
        None => {},
    }
}

/// The screen a factory's heart opens, from the factory's state.
pub fn heart_visit(session: &GameSession, factory_id: &str) -> (r: HeartVisit)
    ensures
        r == heart_visit_of(session.world_state.state_of(factory_id@)),
        r == HeartVisit::Grow <==> ({
            let f = session.world_state.state_of(factory_id@);
            f.heart_defeated && !f.relapsed && f.verdict == Some(Verdict::Bind)
        }),
        r == HeartVisit::Quiet <==> ({
            let f = session.world_state.state_of(factory_id@);
            f.heart_defeated && !f.relapsed && (f.verdict == Some(Verdict::Purge) || f.verdict == Some(
                Verdict::Reseed,
            ))
        }),
        r == HeartVisit::Judge <==> ({
            let f = session.world_state.state_of(factory_id@);
            f.heart_defeated && !f.relapsed && f.verdict.is_none()
        }),
        r == HeartVisit::Guarded <==> ({
            let f = session.world_state.state_of(factory_id@);
            !f.heart_defeated || f.relapsed
        }),
{
    proof {
        lemma_heart_visit_cases(session.world_state.state_of(factory_id@));
    }
    let f = session.world_state.factory(factory_id);
    if !f.heart_defeated || f.relapsed {
        HeartVisit::Guarded
    } else if f.verdict.is_none() {
        HeartVisit::Judge
    } else if matches!(f.verdict, Some(Verdict::Bind)) {
        HeartVisit::Grow
    } else {
        HeartVisit::Quiet
    }
}

} // verus!
