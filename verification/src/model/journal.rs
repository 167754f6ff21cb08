//! The rider's chronicle: a log of what they have done, capped to the most
//! recent entries, plus the next thing the world is waiting on.

use vstd::prelude::*;
use crate::data::GameData;
use crate::data::world::MapKind;
use crate::model::session::GameSession;
use crate::model::worldstate::{FactoryState, Verdict, WorldState};
use vstd::string::*;

verus! {

/// The chronicle keeps at most this many entries.
pub const MAX_ENTRIES: usize = 120;

#[derive(Debug, Clone)]
pub struct JournalEntry {
    /// Overworld step count when it happened.
    pub step: u64,
    pub text: String,
}

/// The entries that survive the cap: the newest `MAX_ENTRIES`.
pub open spec fn capped(entries: Seq<JournalEntry>) -> Seq<JournalEntry> {
    if entries.len() > MAX_ENTRIES {
        entries.skip(entries.len() - MAX_ENTRIES)
    } else {
        entries
    }
}

/// Appends a chronicle line stamped with the current step, trimming the
/// oldest entries past the cap.
pub fn record(session: &mut GameSession, text: String)
    ensures
        final(session).journal@ == capped(
            old(session).journal@.push(JournalEntry { step: old(session).steps, text: text }),
        ),
        final(session).profile == old(session).profile,
        final(session).world_state == old(session).world_state,
        final(session).story_flags == old(session).story_flags,
        final(session).steps == old(session).steps,
        final(session).battles_fought == old(session).battles_fought,
        final(session).location == old(session).location,
{
    let step = session.steps;
    let ghost full = old(session).journal@.push(JournalEntry { step: old(session).steps, text: text });
    session.journal.push(JournalEntry { step, text });
    let ghost mut dropped: int = 0;
    assert(session.journal@ == full.skip(0));
    while session.journal.len() > MAX_ENTRIES
        invariant
            0 <= dropped <= full.len(),
            session.journal@ == full.skip(dropped),
            session.journal@.len() >= MAX_ENTRIES ==> dropped <= full.len() - MAX_ENTRIES
                || full.len() <= MAX_ENTRIES,
            dropped > 0 ==> full.len() - dropped >= MAX_ENTRIES,
            session.profile == old(session).profile,
            session.world_state == old(session).world_state,
            session.story_flags == old(session).story_flags,
            session.steps == old(session).steps,
            session.battles_fought == old(session).battles_fought,
            session.location == old(session).location,
        decreases session.journal@.len(),
    {
        session.journal.remove(0);
        proof {
            dropped = dropped + 1;
        }
        assert(session.journal@ =~= full.skip(dropped));
    }
    assert(session.journal@ =~= capped(full));
}

/// The chronicle never holds more than `MAX_ENTRIES`, the newest entry is
/// always kept last, and what survives is the newest part, in order.
pub proof fn lemma_chronicle_capped(entries: Seq<JournalEntry>, newest: JournalEntry)
    ensures
        capped(entries.push(newest)).len() <= MAX_ENTRIES,
        capped(entries.push(newest)).len() >= 1,
        capped(entries.push(newest)).last() == newest,
        forall|i: int| 0 <= i < capped(entries.push(newest)).len() ==> capped(entries.push(newest))[i]
            == entries.push(newest)[entries.len() + 1 - capped(entries.push(newest)).len() + i],
{
}

/// The objective shown for a factory floor.
pub open spec fn floor_objective(f: FactoryState) -> Seq<char> {
    if !f.heart_defeated {
        "Descend to the heart and silence it."@
    } else {
        "The vats here are still. Nothing left to fight."@
    }
}

/// The objective shown in a region whose factory is named `fname`.
pub open spec fn region_objective(f: FactoryState, fname: Seq<char>) -> Seq<char> {
    if !f.heart_defeated {
        fname + " still births war-units — raid its heart."@
    } else if f.verdict.is_none() {
        fname + " lies silent — return to pass judgment."@
    } else if f.relapsed {
        "This region has relapsed — confront the keeper at the heart."@
    } else if f.verdict == Some(Verdict::Reseed) && !f.invested {
        "Revived, but untended — fund the Watch before prosperity forgets."@
    } else {
        match f.verdict {
            Some(Verdict::Purge) => "At peace. Dead peace, but peace. Your verdict holds."@,
            Some(Verdict::Bind) => "The factory answers to your hand now."@,
            _ => "Thriving under your watch."@,
        }
    }
}

/// The next objective for a rider standing on the map named `map_id`.
pub open spec fn objective(data: GameData, ws: WorldState, map_id: Seq<char>) -> Seq<char> {
    match data.world.map_named(map_id) {
        None => "Find your bearings."@,
        Some(map) => if map.kind == MapKind::Factory && map.factory_id.is_some() {
            floor_objective(ws.state_of(map.factory_id.unwrap()@))
        } else {
            match data.world.region_named(map.region@) {
                None => "Follow the road."@,
                Some(region) => region_objective(
                    ws.state_of(region.gestarium_id@),
                    match data.factory_named(region.gestarium_id@) {
                        Some(fd) => fd.name@,
                        None => "the factory"@,
                    },
                ),
            }
        },
    }
}

/// The next objective, derived from the region the rider stands in.
pub fn current_step(data: &GameData, session: &GameSession) -> (s: String)
    ensures
        s@ == objective(*data, session.world_state, session.location.map_id@),
{
    let Some(map) = data.world.map(session.location.map_id.as_str()) else {
        return String::from_str("Find your bearings.");
    };
    if matches!(map.kind, MapKind::Factory) {
        if let Some(fid) = &map.factory_id {
            let f = session.world_state.factory(fid.as_str());
            return if !f.heart_defeated {
                String::from_str("Descend to the heart and silence it.")
            } else {
                String::from_str("The vats here are still. Nothing left to fight.")
            };
        }
    }
    let Some(region) = data.world.region(map.region.as_str()) else {
        return String::from_str("Follow the road.");
    };
    let f = session.world_state.factory(region.gestarium_id.as_str());
    let fname: &str = match data.find_factory(region.gestarium_id.as_str()) {
        Some(d) => d.name.as_str(),
        None => "the factory",
    };
    if !f.heart_defeated {
        String::from_str(fname).concat(" still births war-units — raid its heart.")
    } else if f.verdict.is_none() {
        String::from_str(fname).concat(" lies silent — return to pass judgment.")
    } else if f.relapsed {
        String::from_str("This region has relapsed — confront the keeper at the heart.")
    } else if matches!(f.verdict, Some(Verdict::Reseed)) && !f.invested {
        String::from_str("Revived, but untended — fund the Watch before prosperity forgets.")
    } else {
        match f.verdict {
            Some(Verdict::Purge) => String::from_str("At peace. Dead peace, but peace. Your verdict holds."),
            Some(Verdict::Bind) => String::from_str("The factory answers to your hand now."),
            _ => String::from_str("Thriving under your watch."),
        }
    }
}

} // verus!
