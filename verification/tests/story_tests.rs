use iron_fauna::data::world::{DialogueCond, DialogueRule, NpcDef, WorldDef};
use iron_fauna::data::{GameConfig, GameData, GraftwareDef};
use iron_fauna::model::rider::Rider;
use iron_fauna::model::session::{GameSession, Inventory, Location, Profile};
use iron_fauna::model::story::{apply_dialogue_effects, cond_passes, select_dialogue, verdict_matches};
use iron_fauna::model::worldstate::{Verdict, WorldState};

fn game_data() -> GameData {
    GameData {
        config: GameConfig {
            game_name: "iron_fauna".to_owned(),
            display_name: "IRON FAUNA".to_owned(),
            save_slot: "main".to_owned(),
            version: "1".to_owned(),
        },
        species: vec![],
        graftware: vec![GraftwareDef { id: "spark_coil".to_owned(), name: "Spark Coil".to_owned(), value: 60 }],
        world: WorldDef { start_map: "fernhollow".to_owned(), regions: vec![], maps: vec![] },
        settlements: vec![],
        factories: vec![],
    }
}

fn new_session() -> GameSession {
    GameSession {
        profile: Profile {
            rider: Rider::new("Wren"),
            inventory: Inventory { scrip: 50, items: vec![], next_item_id: 1 },
        },
        world_state: WorldState::default(),
        story_flags: vec![],
        journal: vec![],
        steps: 0,
        battles_fought: 0,
        location: Location { map_id: "fernhollow".to_owned(), x: 3, y: 4 },
    }
}

fn npc_with_rules(rules: Vec<DialogueRule>) -> NpcDef {
    NpcDef {
        id: "test".into(),
        x: 0,
        y: 0,
        name: "Test".into(),
        lines: vec!["fallback".into()],
        dialogue: rules,
    }
}

fn rule(when: Option<DialogueCond>, line: &str) -> DialogueRule {
    DialogueRule {
        when,
        lines: vec![line.to_owned()],
        set_flags: vec![],
        give_scrip: 0,
        give_grafts: vec![],
    }
}

#[test]
fn dialogue_reacts_to_flags_and_verdicts() {
    let mut session = new_session();
    let npc = npc_with_rules(vec![
        rule(
            Some(DialogueCond {
                verdict: Some(("the_cradle".into(), "Purge".into())),
                ..Default::default()
            }),
            "after purge",
        ),
        rule(
            Some(DialogueCond {
                flags_all: vec!["met".into()],
                ..Default::default()
            }),
            "again",
        ),
    ]);

    // Without flags or a verdict the NPC speaks its own lines.
    assert_eq!(select_dialogue(&npc, &session).unwrap().lines[0], "fallback");

    session.story_flags.push("met".into());
    assert_eq!(select_dialogue(&npc, &session).unwrap().lines[0], "again");

    // A verdict outranks the flag rule (listed first).
    session.world_state.factory_mut("the_cradle").verdict = Some(Verdict::Purge);
    assert_eq!(select_dialogue(&npc, &session).unwrap().lines[0], "after purge");
}

#[test]
fn effects_grant_once_when_gated_by_flags() {
    let data = game_data();
    let mut session = new_session();
    let reward = DialogueRule {
        when: Some(DialogueCond {
            flags_none: vec!["paid".into()],
            ..Default::default()
        }),
        lines: vec!["here, take this".into()],
        set_flags: vec!["paid".into()],
        give_scrip: 100,
        give_grafts: vec!["spark_coil".into()],
    };
    let npc = npc_with_rules(vec![reward]);

    let scrip_before = session.profile.inventory.scrip;
    let items_before = session.profile.inventory.items.len();
    let selection = select_dialogue(&npc, &session).unwrap();
    let rule = selection.rule.unwrap().clone();
    let notes = apply_dialogue_effects(&rule, &mut session, &data);
    assert_eq!(session.profile.inventory.scrip, scrip_before + 100);
    assert_eq!(session.profile.inventory.items.len(), items_before + 1);
    assert_eq!(notes.len(), 2);

    // Flag now set: the reward rule no longer matches.
    assert_eq!(select_dialogue(&npc, &session).unwrap().lines[0], "fallback");
}

#[test]
fn reward_notes_name_the_scrip_and_the_graft() {
    let data = game_data();
    let mut session = new_session();
    let reward = DialogueRule {
        when: None,
        lines: vec!["take it".into()],
        set_flags: vec!["paid".into(), "paid".into()],
        give_scrip: 1205,
        give_grafts: vec!["spark_coil".into(), "mystery_gland".into()],
    };
    let notes = apply_dialogue_effects(&reward, &mut session, &data);
    assert_eq!(notes, vec!["Received 1205 scrip".to_owned(), "Received: Spark Coil".to_owned()]);
    // Both grafts are granted, known to the catalogue or not, under fresh ids.
    assert_eq!(session.profile.inventory.items.len(), 2);
    assert_eq!(session.profile.inventory.items[0].id, 1);
    assert_eq!(session.profile.inventory.items[1].id, 2);
    assert_eq!(session.profile.inventory.items[1].def_id, "mystery_gland");
    assert_eq!(session.profile.inventory.next_item_id, 3);
    // A flag set twice is kept once.
    assert_eq!(session.story_flags, vec!["paid".to_owned()]);
}

#[test]
fn no_scrip_note_without_scrip() {
    let data = game_data();
    let mut session = new_session();
    let quiet = DialogueRule {
        when: None,
        lines: vec![],
        set_flags: vec![],
        give_scrip: 0,
        give_grafts: vec![],
    };
    let notes = apply_dialogue_effects(&quiet, &mut session, &data);
    assert!(notes.is_empty());
    assert_eq!(session.profile.inventory.scrip, 50);
}

#[test]
fn npc_without_lines_or_passing_rules_says_nothing() {
    let session = new_session();
    let mut npc = npc_with_rules(vec![rule(
        Some(DialogueCond { flags_all: vec!["never".into()], ..Default::default() }),
        "gated",
    )]);
    npc.lines.clear();
    assert!(select_dialogue(&npc, &session).is_none());
    npc.dialogue.push(rule(None, "always"));
    let sel = select_dialogue(&npc, &session).unwrap();
    assert_eq!(sel.lines[0], "always");
    assert!(sel.rule.is_some());
}

#[test]
fn conditions_check_hearts_verdicts_and_relapse() {
    let mut session = new_session();
    let heart = DialogueCond { heart_defeated: Some("the_cradle".into()), ..Default::default() };
    assert!(!cond_passes(&heart, &session));
    session.world_state.factory_mut("the_cradle").heart_defeated = true;
    assert!(cond_passes(&heart, &session));

    let relapsed = DialogueCond { relapsed: Some(("the_cradle".into(), true)), ..Default::default() };
    assert!(!cond_passes(&relapsed, &session));
    session.world_state.factory_mut("the_cradle").relapsed = true;
    assert!(cond_passes(&relapsed, &session));

    let forbidden = DialogueCond { flags_none: vec!["met".into()], ..Default::default() };
    assert!(cond_passes(&forbidden, &session));
    session.story_flags.push("met".into());
    assert!(!cond_passes(&forbidden, &session));
    assert!(cond_passes(&DialogueCond::default(), &session));
}

#[test]
fn verdict_names_match_only_their_verdict() {
    assert!(verdict_matches("Purge", Some(Verdict::Purge)));
    assert!(verdict_matches("Reseed", Some(Verdict::Reseed)));
    assert!(verdict_matches("Bind", Some(Verdict::Bind)));
    assert!(!verdict_matches("Purge", Some(Verdict::Bind)));
    assert!(!verdict_matches("Purge", None));
    assert!(!verdict_matches("purge", Some(Verdict::Purge)));
}
