//! Story progression: flag-gated dialogue selection and one-shot rewards.

use vstd::prelude::*;
use vstd::string::*;
use crate::data::GameData;
use crate::data::world::{DialogueCond, DialogueRule, NpcDef};
use crate::model::session::{flag_set, has_flag, set_flag, GameSession, GraftCondition};
use crate::model::worldstate::{Verdict, WorldState};
use crate::text::{decimal_digits, decimal_text, join3, same_text};

verus! {

/// Whether a verdict name written in dialogue data matches a verdict.
pub open spec fn verdict_named(name: Seq<char>, verdict: Option<Verdict>) -> bool {
    ||| name == "Purge"@ && verdict == Some(Verdict::Purge)
    ||| name == "Reseed"@ && verdict == Some(Verdict::Reseed)
    ||| name == "Bind"@ && verdict == Some(Verdict::Bind)
}

pub fn verdict_matches(name: &str, verdict: Option<Verdict>) -> (r: bool)
    ensures
        r == verdict_named(name@, verdict),
{
    match verdict {
        Some(Verdict::Purge) => same_text(name, "Purge"),
        Some(Verdict::Reseed) => same_text(name, "Reseed"),
        Some(Verdict::Bind) => same_text(name, "Bind"),
        None => false,
    }
}

/// Whether a dialogue condition holds for the session.
pub open spec fn cond_holds(cond: DialogueCond, flags: Seq<String>, ws: WorldState) -> bool {
    &&& forall|i: int| 0 <= i < cond.flags_all@.len() ==> flag_set(flags, #[trigger] cond.flags_all@[i]@)
    &&& forall|i: int| 0 <= i < cond.flags_none@.len() ==> !flag_set(flags, #[trigger] cond.flags_none@[i]@)
    &&& match cond.heart_defeated {
        Some(f) => ws.state_of(f@).heart_defeated,
        None => true,
    }
    &&& match cond.verdict {
        Some((f, v)) => verdict_named(v@, ws.state_of(f@).verdict),
        None => true,
    }
    &&& match cond.relapsed {
        Some((f, wanted)) => ws.state_of(f@).relapsed == wanted,
        None => true,
    }
}

pub fn cond_passes(cond: &DialogueCond, session: &GameSession) -> (r: bool)
    ensures
        r == cond_holds(*cond, session.story_flags@, session.world_state),
{
    let mut i: usize = 0;
    while i < cond.flags_all.len()
        invariant
            i <= cond.flags_all@.len(),
            forall|j: int| 0 <= j < i ==> flag_set(session.story_flags@, #[trigger] cond.flags_all@[j]@),
        decreases cond.flags_all@.len() - i,
    {
        if !has_flag(&session.story_flags, cond.flags_all[i].as_str()) {
            return false;
        }
        i = i + 1;
    }
    let mut i: usize = 0;
    while i < cond.flags_none.len()
        invariant
            i <= cond.flags_none@.len(),
            forall|j: int| 0 <= j < i ==> !flag_set(session.story_flags@, #[trigger] cond.flags_none@[j]@),
        decreases cond.flags_none@.len() - i,
    {
        if has_flag(&session.story_flags, cond.flags_none[i].as_str()) {
            return false;
        }
        i = i + 1;
    }
    if let Some(factory) = &cond.heart_defeated {
        if !session.world_state.factory(factory.as_str()).heart_defeated {
            return false;
        }
    }
    if let Some((factory, verdict)) = &cond.verdict {
        if !verdict_matches(verdict.as_str(), session.world_state.verdict(factory.as_str())) {
            return false;
        }
    }
    if let Some((factory, wanted)) = &cond.relapsed {
        if session.world_state.factory(factory.as_str()).relapsed != *wanted {
            return false;
        }
    }
    true
}

/// The texts of a list of story flags.
pub open spec fn flag_texts(flags: Seq<String>) -> Seq<Seq<char>> {
    flags.map_values(|s: String| s@)
}

/// A dialogue condition holds exactly when each of its parts does: every
/// required flag is set, no forbidden flag is set, the named heart is
/// defeated, the named factory carries the named verdict, and the named
/// factory's relapse is what the condition wants (relapsed or not).
pub proof fn lemma_cond_holds_iff(cond: DialogueCond, flags: Seq<String>, ws: WorldState)
    ensures
        cond_holds(cond, flags, ws) <==> {
            &&& forall|i: int| 0 <= i < cond.flags_all@.len()
                ==> flag_texts(flags).contains(#[trigger] cond.flags_all@[i]@)
            &&& forall|i: int| 0 <= i < cond.flags_none@.len()
                ==> !flag_texts(flags).contains(#[trigger] cond.flags_none@[i]@)
            &&& (cond.heart_defeated matches Some(f) ==> ws.state_of(f@).heart_defeated)
            &&& (cond.verdict matches Some((f, name)) ==> {
                ||| name@ == "Purge"@ && ws.state_of(f@).verdict == Some(Verdict::Purge)
                ||| name@ == "Reseed"@ && ws.state_of(f@).verdict == Some(Verdict::Reseed)
                ||| name@ == "Bind"@ && ws.state_of(f@).verdict == Some(Verdict::Bind)
            })
            &&& (cond.relapsed matches Some((f, wanted)) ==> ws.state_of(f@).relapsed == wanted)
        },
{
    let ft = flag_texts(flags);
    assert forall|x: Seq<char>| ft.contains(x) <==> flag_set(flags, x) by {
        if ft.contains(x) {
            let k = choose|k: int| 0 <= k < ft.len() && ft[k] == x;
            assert(flags[k]@ == x);
        }
        if flag_set(flags, x) {
            let k = choose|k: int| 0 <= k < flags.len() && #[trigger] flags[k]@ == x;
            assert(ft[k] == x);
        }
    }
}

/// A condition on a factory's relapse holds only when that factory's
/// relapse is exactly the one wanted, whether relapsed or not.
pub proof fn lemma_relapse_condition_is_exact(cond: DialogueCond, flags: Seq<String>, ws: WorldState)
    requires
        cond_holds(cond, flags, ws),
        cond.relapsed.is_some(),
    ensures
        ws.state_of(cond.relapsed.unwrap().0@).relapsed == cond.relapsed.unwrap().1,
{
    lemma_cond_holds_iff(cond, flags, ws);
}

/// Whether a rule's condition (if any) holds.
pub open spec fn rule_holds(rule: DialogueRule, flags: Seq<String>, ws: WorldState) -> bool {
    match rule.when {
        Some(c) => cond_holds(c, flags, ws),
        None => true,
    }
}

/// Index of the first rule whose condition holds.
pub open spec fn first_holding(rules: Seq<DialogueRule>, flags: Seq<String>, ws: WorldState) -> Option<int> {
    if exists|i: int| 0 <= i < rules.len() && #[trigger] rule_holds(rules[i], flags, ws) {
        Some(choose|i: int| 0 <= i < rules.len() && rule_holds(rules[i], flags, ws)
            && forall|j: int| 0 <= j < i ==> !rule_holds(rules[j], flags, ws))
    } else {
        None
    }
}

/// The lines picked for an NPC, and the rule they came from (none for the
/// NPC's plain lines).
pub struct DialogueSelection<'a> {
    pub lines: &'a [String],
    pub rule: Option<&'a DialogueRule>,
}

/// Picks the first dialogue rule whose condition passes, falling back to the
/// NPC's plain lines (nothing when it has none).
pub fn select_dialogue<'a>(npc: &'a NpcDef, session: &GameSession) -> (r: Option<DialogueSelection<'a>>)
    ensures
        match first_holding(npc.dialogue@, session.story_flags@, session.world_state) {
            Some(i) => r.is_some() && r.unwrap().lines@ == npc.dialogue@[i].lines@
                && r.unwrap().rule == Some(&npc.dialogue@[i]),
            None => if npc.lines@.len() == 0 {
                r.is_none()
            } else {
                r.is_some() && r.unwrap().lines@ == npc.lines@ && r.unwrap().rule.is_none()
            },
        },
{
    let mut i: usize = 0;
    while i < npc.dialogue.len()
        invariant
            i <= npc.dialogue@.len(),
            forall|j: int| 0 <= j < i ==> !rule_holds(npc.dialogue@[j], session.story_flags@, session.world_state),
        decreases npc.dialogue@.len() - i,
    {
        let rule = &npc.dialogue[i];
        let passes = match &rule.when {
            Some(c) => cond_passes(c, session),
            None => true,
        };
        if passes {
            proof {
                let rs = npc.dialogue@;
                let (fl, ws) = (session.story_flags@, session.world_state);
                assert(rule_holds(rs[i as int], fl, ws));
                let k = choose|k: int| 0 <= k < rs.len() && rule_holds(rs[k], fl, ws)
                    && forall|j: int| 0 <= j < k ==> !rule_holds(rs[j], fl, ws);
                if k > i {
                    assert(!rule_holds(rs[i as int], fl, ws));
                }
            }
            return Some(DialogueSelection { lines: rule.lines.as_slice(), rule: Some(rule) });
        }
        i = i + 1;
    }
    if npc.lines.len() == 0 {
        None
    } else {
        Some(DialogueSelection { lines: npc.lines.as_slice(), rule: None })
    }
}

/// The notification for received scrip.
pub open spec fn scrip_note(amount: i64) -> Seq<char> {
    "Received "@ + decimal_digits(amount as nat) + " scrip"@
}

/// The notifications for received grafts: one per graft the catalogue knows.
pub open spec fn graft_notes(data: GameData, grafts: Seq<String>) -> Seq<Seq<char>>
    decreases grafts.len(),
{
    if grafts.len() == 0 {
        Seq::empty()
    } else {
        let rest = graft_notes(data, grafts.drop_last());
        match data.graftware_named(grafts.last()@) {
            Some(def) => rest.push("Received: "@ + def.name@),
            None => rest,
        }
    }
}

/// Notes come graft by graft: joined lists give the joined notes, and a
/// lone graft gives one note naming it when the catalogue knows it, none
/// otherwise.
pub proof fn lemma_graft_notes_add_up(data: GameData, a: Seq<String>, b: Seq<String>)
    ensures
        graft_notes(data, a + b) == graft_notes(data, a) + graft_notes(data, b),
        b.len() > 0 ==> graft_notes(data, seq![b[0]]) == (match data.graftware_named(b[0]@) {
            Some(def) => seq!["Received: "@ + def.name@],
            None => Seq::<Seq<char>>::empty(),
        }),
    decreases b.len(),
{
    if b.len() > 0 {
        let one = seq![b[0]];
        assert(one.drop_last() =~= Seq::<String>::empty());
        assert(one.last() == b[0]);
        assert(graft_notes(data, one.drop_last()) == Seq::<Seq<char>>::empty());
        match data.graftware_named(b[0]@) {
            Some(def) => {
                assert(graft_notes(data, one) =~= seq!["Received: "@ + def.name@]);
            },
            None => {},
        }
    }
    if b.len() == 0 {
        assert(a + b =~= a);
        assert(graft_notes(data, a) + graft_notes(data, b) =~= graft_notes(data, a));
    } else {
        assert((a + b).drop_last() =~= a + b.drop_last());
        assert((a + b).last() == b.last());
        lemma_graft_notes_add_up(data, a, b.drop_last());
        match data.graftware_named(b.last()@) {
            Some(def) => {
                assert(graft_notes(data, a) + graft_notes(data, b) =~= (graft_notes(data, a) + graft_notes(
                    data,
                    b.drop_last(),
                )).push("Received: "@ + def.name@));
            },
            None => {
                assert(graft_notes(data, a) + graft_notes(data, b) =~= graft_notes(data, a) + graft_notes(
                    data,
                    b.drop_last(),
                ));
            },
        }
    }
}

/// What applying a rule's effects does to a session, and the notes it returns.
pub open spec fn effects_applied(
    rule: DialogueRule,
    data: GameData,
    before: GameSession,
    after: GameSession,
    notes: Seq<Seq<char>>,
) -> bool {
    let n = before.profile.inventory.items@.len();
    let grafts = rule.give_grafts@;
    &&& forall|f: Seq<char>| flag_set(after.story_flags@, f) <==> (flag_set(before.story_flags@, f)
        || exists|j: int| 0 <= j < rule.set_flags@.len() && #[trigger] rule.set_flags@[j]@ == f)
    &&& after.profile.inventory.scrip == before.profile.inventory.scrip
        + if rule.give_scrip > 0 { rule.give_scrip } else { 0 }
    &&& after.profile.inventory.items@.len() == n + grafts.len()
    &&& after.profile.inventory.items@.take(n as int) == before.profile.inventory.items@
    &&& forall|j: int| 0 <= j < grafts.len() ==> {
        &&& (#[trigger] after.profile.inventory.items@[n + j]).id == before.profile.inventory.next_item_id + j
        &&& after.profile.inventory.items@[n + j].def_id@ == grafts[j]@
        &&& after.profile.inventory.items@[n + j].condition == GraftCondition::Intact
    }
    &&& after.profile.inventory.next_item_id == before.profile.inventory.next_item_id + grafts.len()
    &&& after.profile.rider == before.profile.rider
    &&& after.world_state == before.world_state
    &&& after.journal == before.journal
    &&& after.steps == before.steps
    &&& after.battles_fought == before.battles_fought
    &&& after.location == before.location
    &&& notes == (if rule.give_scrip > 0 { seq![scrip_note(rule.give_scrip)] } else { Seq::empty() })
        + graft_notes(data, grafts)
}

/// Applies a rule's effects: sets its flags, pays its scrip, grants its
/// grafts. Returns the notification lines. Rewards are one-shot when the
/// rule's condition forbids a flag the rule itself sets.
pub fn apply_dialogue_effects(rule: &DialogueRule, session: &mut GameSession, data: &GameData) -> (notes: Vec<String>)
    requires
        rule.give_scrip > 0 ==> old(session).profile.inventory.scrip + rule.give_scrip <= i64::MAX,
        old(session).profile.inventory.next_item_id + rule.give_grafts@.len() <= u64::MAX,
    ensures
        effects_applied(*rule, *data, *old(session), *final(session), notes@.map_values(|s: String| s@)),
{
    let mut notes: Vec<String> = Vec::new();
    let mut i: usize = 0;
    while i < rule.set_flags.len()
        invariant
            i <= rule.set_flags@.len(),
            forall|f: Seq<char>| flag_set(session.story_flags@, f) <==> (flag_set(old(session).story_flags@, f)
                || exists|j: int| 0 <= j < i && #[trigger] rule.set_flags@[j]@ == f),
            session.profile == old(session).profile,
            session.world_state == old(session).world_state,
            session.journal == old(session).journal,
            session.steps == old(session).steps,
            session.battles_fought == old(session).battles_fought,
            session.location == old(session).location,
        decreases rule.set_flags@.len() - i,
    {
        set_flag(&mut session.story_flags, rule.set_flags[i].as_str());
        proof {
            assert forall|f: Seq<char>| flag_set(session.story_flags@, f) <==> (flag_set(old(session).story_flags@, f)
                || exists|j: int| 0 <= j < i + 1 && #[trigger] rule.set_flags@[j]@ == f) by {
                if f == rule.set_flags@[i as int]@ {
                    assert(rule.set_flags@[i as int]@ == f);
                }
            }
        }
        i = i + 1;
    }
    if rule.give_scrip > 0 {
        session.profile.inventory.scrip = session.profile.inventory.scrip + rule.give_scrip;
        let amount = decimal_text(rule.give_scrip as u64);
        notes.push(join3("Received ", amount.as_str(), " scrip"));
    }
    let ghost scrip_notes = notes@.map_values(|s: String| s@);
    let ghost flags_done = session.story_flags;
    let ghost n = old(session).profile.inventory.items@.len();
    let ghost before_grafts = session.profile;
    let mut k: usize = 0;
    while k < rule.give_grafts.len()
        invariant
            k <= rule.give_grafts@.len(),
            old(session).profile.inventory.next_item_id + rule.give_grafts@.len() <= u64::MAX,
            session.profile.inventory.items@.len() == n + k,
            session.profile.inventory.items@.take(n as int) == old(session).profile.inventory.items@,
            forall|j: int| 0 <= j < k ==> {
                &&& (#[trigger] session.profile.inventory.items@[n + j]).id == old(session).profile.inventory.next_item_id + j
                &&& session.profile.inventory.items@[n + j].def_id@ == rule.give_grafts@[j]@
                &&& session.profile.inventory.items@[n + j].condition == GraftCondition::Intact
            },
            session.profile.inventory.next_item_id == old(session).profile.inventory.next_item_id + k,
            session.profile.inventory.scrip == before_grafts.inventory.scrip,
            session.profile.rider == old(session).profile.rider,
            session.story_flags == flags_done,
            session.world_state == old(session).world_state,
            session.journal == old(session).journal,
            session.steps == old(session).steps,
            session.battles_fought == old(session).battles_fought,
            session.location == old(session).location,
            notes@.map_values(|s: String| s@) == scrip_notes + graft_notes(*data, rule.give_grafts@.take(k as int)),
        decreases rule.give_grafts@.len() - k,
    {
        let def_id = rule.give_grafts[k].as_str();
        let ghost prev = session.profile.inventory.items@;
        let ghost prev_notes = notes@;
        session.profile.grant_graft(def_id, GraftCondition::Intact);
        let ghost g = rule.give_grafts@.take(k as int + 1);
        assert(g.drop_last() =~= rule.give_grafts@.take(k as int));
        assert(g.last() == rule.give_grafts@[k as int]);
        assert(graft_notes(*data, g) == match data.graftware_named(g.last()@) {
            Some(def) => graft_notes(*data, g.drop_last()).push("Received: "@ + def.name@),
            None => graft_notes(*data, g.drop_last()),
        });
        if let Some(def) = data.find_graftware(def_id) {
            let note = String::from_str("Received: ").concat(def.name.as_str());
            notes.push(note);
            assert(notes@.map_values(|s: String| s@) =~= prev_notes.map_values(|s: String| s@).push(note@));
        } else {
            assert(notes@ == prev_notes);
        }
        proof {
            assert(session.profile.inventory.items@.take(n as int) =~= prev.take(n as int));
            assert forall|j: int| 0 <= j < k + 1 implies {
                &&& (#[trigger] session.profile.inventory.items@[n + j]).id == old(session).profile.inventory.next_item_id + j
                &&& session.profile.inventory.items@[n + j].def_id@ == rule.give_grafts@[j]@
                &&& session.profile.inventory.items@[n + j].condition == GraftCondition::Intact
            } by {
                if j < k {
                    assert(session.profile.inventory.items@[n + j] == prev[n + j]);
                }
            }
            assert(notes@.map_values(|s: String| s@) =~= scrip_notes + graft_notes(*data, rule.give_grafts@.take(k as int + 1)));
        }
        k = k + 1;
    }
    assert(rule.give_grafts@.take(k as int) =~= rule.give_grafts@);
    assert(session.profile.inventory.scrip == old(session).profile.inventory.scrip
        + if rule.give_scrip > 0 { rule.give_scrip } else { 0 });
    proof {
        if rule.give_scrip > 0 {
            assert(scrip_notes =~= seq![scrip_note(rule.give_scrip)]);
        } else {
            assert(scrip_notes =~= Seq::<Seq<char>>::empty());
        }
    }
    notes
}

/// One-shot rewards: a rule whose condition forbids a flag that the rule
/// itself sets no longer holds once its effects are applied.
pub proof fn lemma_gated_reward_fires_once(
    rule: DialogueRule,
    data: GameData,
    before: GameSession,
    after: GameSession,
    notes: Seq<Seq<char>>,
    gate: int,
    set: int,
)
    requires
        effects_applied(rule, data, before, after, notes),
        rule.when.is_some(),
        0 <= gate < rule.when.unwrap().flags_none@.len(),
        0 <= set < rule.set_flags@.len(),
        rule.when.unwrap().flags_none@[gate]@ == rule.set_flags@[set]@,
    ensures
        !rule_holds(rule, after.story_flags@, after.world_state),
{
    let f = rule.set_flags@[set]@;
    assert(rule.set_flags@[set]@ == f);
    assert(flag_set(after.story_flags@, f));
    assert(flag_set(after.story_flags@, rule.when.unwrap().flags_none@[gate]@));
}

} // verus!
