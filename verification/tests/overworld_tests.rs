use iron_fauna::data::factory::FactoryDef;
use iron_fauna::data::species::{Element, LimbArchetype, SizeClass, SpeciesDef, Temperament};
use iron_fauna::data::world::{EncounterEntry, MapDef, MapKind, NpcDef, RegionDef, WarpDef, WorldDef};
use iron_fauna::data::{GameConfig, GameData};
use iron_fauna::model::rider::{Rider, RiderUpgrade};
use iron_fauna::model::session::{GameSession, Inventory, Location, Profile};
use iron_fauna::model::worldstate::{Verdict, WorldState};
use iron_fauna::overworld::{
    effective_encounter_rate, encounter_armed, heart_visit, interact, region_objective, roll_encounter, take_step,
    EncounterPick, HeartVisit, Interaction, ObjectiveTone, StepEvent,
};

fn species(id: &str) -> SpeciesDef {
    SpeciesDef {
        id: id.to_owned(),
        name: id.to_owned(),
        description: String::new(),
        element: Element::Plant,
        size: SizeClass::Small,
        temperament: Temperament::Gentle,
        archetype: LimbArchetype::Standard,
        power: 30,
        speed: 30,
        natural_flight: false,
        innate_armor: 0,
        limbs: vec![],
        tier: 1,
        biomes: vec![],
    }
}

fn meadow() -> MapDef {
    MapDef {
        id: "meadow".to_owned(),
        name: "Meadow".to_owned(),
        region: "verdant_hollow".to_owned(),
        kind: MapKind::Overworld,
        factory_id: None,
        rows: vec!["#####".to_owned(), "#.gs#".to_owned(), "#.D~#".to_owned(), "#####".to_owned()],
        spawn_x: 1,
        spawn_y: 1,
        encounter_rate: 100_000,
        encounters: vec![
            EncounterEntry { species: "bumblit".to_owned(), weight: 3, min: 1, max: 2 },
            EncounterEntry { species: "volpi".to_owned(), weight: 1, min: 2, max: 4 },
            EncounterEntry { species: "ghost".to_owned(), weight: 1, min: 1, max: 1 },
        ],
        warps: vec![WarpDef { x: 2, y: 2, to_map: "cradle_f1".to_owned(), to_x: 4, to_y: 5 }],
        npcs: vec![NpcDef {
            id: "elder".to_owned(),
            x: 1,
            y: 2,
            name: "Elder".to_owned(),
            lines: vec![],
            dialogue: vec![],
        }],
        settlement: Some("fernhollow".to_owned()),
    }
}

fn floor() -> MapDef {
    MapDef {
        id: "cradle_f1".to_owned(),
        name: "Cradle, First Hall".to_owned(),
        region: "verdant_hollow".to_owned(),
        kind: MapKind::Factory,
        factory_id: Some("the_cradle".to_owned()),
        rows: vec!["......".to_owned()],
        spawn_x: 0,
        spawn_y: 0,
        encounter_rate: 200_000,
        encounters: vec![],
        warps: vec![],
        npcs: vec![],
        settlement: None,
    }
}

fn heart_floor() -> MapDef {
    MapDef {
        id: "cradle_heart".to_owned(),
        name: "Cradle, Heart".to_owned(),
        region: "verdant_hollow".to_owned(),
        kind: MapKind::Factory,
        factory_id: Some("the_cradle".to_owned()),
        rows: vec!["=%HV=".to_owned()],
        spawn_x: 0,
        spawn_y: 0,
        encounter_rate: 0,
        encounters: vec![],
        warps: vec![],
        npcs: vec![],
        settlement: None,
    }
}

fn game_data() -> GameData {
    GameData {
        config: GameConfig {
            game_name: "iron_fauna".to_owned(),
            display_name: "IRON FAUNA".to_owned(),
            save_slot: "main".to_owned(),
            version: "1".to_owned(),
        },
        species: vec![species("bumblit"), species("volpi")],
        graftware: vec![],
        world: WorldDef {
            start_map: "meadow".to_owned(),
            regions: vec![RegionDef {
                id: "verdant_hollow".to_owned(),
                name: "Verdant Hollow".to_owned(),
                description: String::new(),
                tier: 1,
                gestarium_id: "the_cradle".to_owned(),
                biomes: vec![],
            }],
            maps: vec![meadow(), floor(), heart_floor()],
        },
        settlements: vec![],
        factories: vec![FactoryDef {
            id: "the_cradle".to_owned(),
            name: "The Cradle".to_owned(),
            region: "verdant_hollow".to_owned(),
            description: String::new(),
            floors: vec![],
            heart_guard: vec![],
            rider_upgrade: RiderUpgrade::SteadyHands,
            grows: vec![],
            grow_cost: 100,
        }],
    }
}

fn session_at(x: i32, y: i32) -> GameSession {
    GameSession {
        profile: Profile {
            rider: Rider::new("Wren"),
            inventory: Inventory { scrip: 0, items: vec![], next_item_id: 1 },
        },
        world_state: WorldState::default(),
        story_flags: vec![],
        journal: vec![],
        steps: 0,
        battles_fought: 0,
        location: Location { map_id: "meadow".to_owned(), x, y },
    }
}

#[test]
fn steps_move_or_bump() {
    let data = game_data();
    let mut s = session_at(1, 1);
    let out = take_step(&mut s, &data, 0, -1, 1000, 150_000);
    assert_eq!(out.event, StepEvent::Blocked);
    assert_eq!((s.location.x, s.location.y, s.steps), (1, 1, 0));
    // An NPC blocks the way too.
    assert_eq!(take_step(&mut s, &data, 0, 1, 1000, 150_000).event, StepEvent::Blocked);
    let out = take_step(&mut s, &data, 1, 0, 1000, 150_000);
    assert_eq!(out.event, StepEvent::Grass);
    assert_eq!((s.location.x, s.location.y, s.steps), (2, 1, 1));
    let out = take_step(&mut s, &data, 1, 0, 1000, 150_000);
    assert_eq!(out.event, StepEvent::SettlementDoor);
    assert_eq!((s.location.x, s.location.y, s.steps), (3, 1, 2));
}

#[test]
fn warps_carry_the_rider() {
    let data = game_data();
    let mut s = session_at(2, 1);
    let out = take_step(&mut s, &data, 0, 1, 1000, 150_000);
    assert_eq!(out.event, StepEvent::Warped);
    assert_eq!(s.location.map_id, "cradle_f1");
    assert_eq!((s.location.x, s.location.y), (4, 5));
}

#[test]
fn steps_on_an_unknown_map_do_nothing() {
    let data = game_data();
    let mut s = session_at(1, 1);
    s.location.map_id = "void".to_owned();
    assert_eq!(take_step(&mut s, &data, 1, 0, 1000, 150_000).event, StepEvent::NoMap);
    assert_eq!(s.steps, 0);
}

#[test]
fn each_step_advances_relapse() {
    let data = game_data();
    let mut s = session_at(1, 1);
    s.world_state.factory_mut("the_cradle").verdict = Some(Verdict::Reseed);
    s.world_state.factory_mut("the_cradle").relapse_risk = 999_500_000_000;
    let out = take_step(&mut s, &data, 1, 0, 1000, 150_000);
    assert_eq!(out.relapsed.as_deref(), Some("the_cradle"));
    assert!(s.world_state.factory("the_cradle").relapsed);
    // A bump is no step: no relapse pressure.
    let mut t = session_at(1, 1);
    t.world_state.factory_mut("the_cradle").verdict = Some(Verdict::Reseed);
    take_step(&mut t, &data, -1, 0, 1000, 150_000);
    assert_eq!(t.world_state.factory("the_cradle").relapse_risk, 0);
}

#[test]
fn encounter_odds_follow_mood_and_factory_state() {
    let data = game_data();
    let mut s = session_at(1, 1);
    assert_eq!(effective_encounter_rate(&meadow(), &data, &s), 10_000_000);
    assert_eq!(effective_encounter_rate(&floor(), &data, &s), 20_000_000);
    assert!(!encounter_armed(&meadow(), &data, &s));
    assert!(encounter_armed(&floor(), &data, &s));
    s.world_state.factory_mut("the_cradle").verdict = Some(Verdict::Purge);
    assert_eq!(effective_encounter_rate(&meadow(), &data, &s), 2_500_000);
    assert_eq!(effective_encounter_rate(&floor(), &data, &s), 0);
    s.world_state.factory_mut("the_cradle").verdict = Some(Verdict::Reseed);
    assert_eq!(effective_encounter_rate(&meadow(), &data, &s), 14_000_000);
    s.world_state.factory_mut("the_cradle").relapsed = true;
    assert_eq!(effective_encounter_rate(&meadow(), &data, &s), 12_000_000);
    assert!(encounter_armed(&meadow(), &data, &s));
    // A rate of one part per million in a dead region keeps its quarter.
    let mut faint = meadow();
    faint.encounter_rate = 1;
    s.world_state.factory_mut("the_cradle").relapsed = false;
    s.world_state.factory_mut("the_cradle").verdict = Some(Verdict::Purge);
    assert_eq!(effective_encounter_rate(&faint, &data, &s), 25);
}

#[test]
fn encounter_rolls_pick_by_weight() {
    let data = game_data();
    let map = meadow();
    // Total weight 5: rolls 0-2 bumblit, 3 volpi, 4 an unknown species.
    assert_eq!(roll_encounter(&map, &data, 0, 0), Some(EncounterPick { entry: 0, count: 1 }));
    assert_eq!(roll_encounter(&map, &data, 2, 1), Some(EncounterPick { entry: 0, count: 2 }));
    assert_eq!(roll_encounter(&map, &data, 3, 5), Some(EncounterPick { entry: 1, count: 4 }));
    assert_eq!(roll_encounter(&map, &data, 8, 0), Some(EncounterPick { entry: 1, count: 2 }));
    assert_eq!(roll_encounter(&map, &data, 4, 0), None);
    assert_eq!(roll_encounter(&map, &data, 7, 7), Some(EncounterPick { entry: 0, count: 2 }));
    let mut empty = meadow();
    empty.encounters.clear();
    assert_eq!(roll_encounter(&empty, &data, 3, 3), None);
}

#[test]
fn the_hud_objective_reads_the_world() {
    let data = game_data();
    let mut s = session_at(1, 1);
    let (text, tone) = region_objective(&data, &s, &meadow());
    assert_eq!(text, "The Cradle still births war-units. Raid its heart.");
    assert_eq!(tone, ObjectiveTone::Amber);
    s.world_state.factory_mut("the_cradle").heart_defeated = true;
    s.world_state.factory_mut("the_cradle").verdict = Some(Verdict::Bind);
    assert_eq!(
        region_objective(&data, &s, &meadow()),
        ("The factory answers to you now.".to_owned(), ObjectiveTone::Purple)
    );
    s.world_state.factory_mut("the_cradle").verdict = Some(Verdict::Reseed);
    s.world_state.factory_mut("the_cradle").relapsed = true;
    assert_eq!(region_objective(&data, &s, &meadow()).1, ObjectiveTone::Red);
    assert_eq!(
        region_objective(&data, &s, &floor()),
        ("The vats are still. Nothing left to fight here.".to_owned(), ObjectiveTone::Grey)
    );
    let mut lost = meadow();
    lost.region = "lost".to_owned();
    assert_eq!(region_objective(&data, &s, &lost), (String::new(), ObjectiveTone::Grey));
}

#[test]
fn the_heart_floor_can_be_walked_up_to_the_vat() {
    let data = game_data();
    let mut s = session_at(0, 0);
    s.location.map_id = "cradle_heart".to_owned();
    assert_eq!(take_step(&mut s, &data, 1, 0, 0, 0).event, StepEvent::Moved);
    assert_eq!(take_step(&mut s, &data, 1, 0, 0, 0).event, StepEvent::Moved);
    assert_eq!((s.location.x, s.location.y), (2, 0));
    // The vat beyond the heart blocks the way.
    assert_eq!(take_step(&mut s, &data, 1, 0, 0, 0).event, StepEvent::Blocked);
    assert_eq!((s.location.x, s.location.y, s.steps), (2, 0, 2));
}

#[test]
fn facing_finds_npc_door_heart_or_nothing() {
    let data = game_data();
    let mut s = session_at(1, 1);
    assert_eq!(interact(&mut s, &data, 0, 1), Interaction::Talk(0));
    assert_eq!(interact(&mut s, &data, 1, 0), Interaction::Nothing);
    assert_eq!((s.location.map_id.as_str(), s.location.x, s.location.y), ("meadow", 1, 1));
    assert_eq!(interact(&mut s, &data, 1, 1), Interaction::Enter(0));
    assert_eq!((s.location.map_id.as_str(), s.location.x, s.location.y), ("cradle_f1", 4, 5));

    let mut sealed = game_data();
    sealed.world.maps[0].warps.clear();
    let mut t = session_at(1, 1);
    assert_eq!(interact(&mut t, &sealed, 1, 1), Interaction::Sealed);
    assert_eq!((t.location.map_id.as_str(), t.location.x, t.location.y), ("meadow", 1, 1));

    let mut h = session_at(1, 0);
    h.location.map_id = "cradle_heart".to_owned();
    assert_eq!(interact(&mut h, &data, 1, 0), Interaction::Heart);
    assert_eq!(interact(&mut h, &data, -1, 0), Interaction::Nothing);

    let mut lost = session_at(1, 1);
    lost.location.map_id = "void".to_owned();
    assert_eq!(interact(&mut lost, &data, 1, 0), Interaction::Nothing);
}

#[test]
fn the_heart_opens_what_the_factory_state_calls_for() {
    let mut s = session_at(0, 0);
    assert_eq!(heart_visit(&s, "the_cradle"), HeartVisit::Guarded);
    s.world_state.factory_mut("the_cradle").heart_defeated = true;
    assert_eq!(heart_visit(&s, "the_cradle"), HeartVisit::Judge);
    s.world_state.factory_mut("the_cradle").verdict = Some(Verdict::Bind);
    assert_eq!(heart_visit(&s, "the_cradle"), HeartVisit::Grow);
    s.world_state.factory_mut("the_cradle").verdict = Some(Verdict::Purge);
    assert_eq!(heart_visit(&s, "the_cradle"), HeartVisit::Quiet);
    s.world_state.factory_mut("the_cradle").verdict = Some(Verdict::Reseed);
    s.world_state.factory_mut("the_cradle").relapsed = true;
    assert_eq!(heart_visit(&s, "the_cradle"), HeartVisit::Guarded);
}
