use iron_fauna::data::factory::FactoryDef;
use iron_fauna::data::settlement::{SettlementDef, ShopEntry};
use iron_fauna::data::world::{MapDef, MapKind, RegionDef, WorldDef};
use iron_fauna::data::{GameConfig, GameData, GraftwareDef};
use iron_fauna::economy::{
    buy_graft, choose_verdict, fund_watch, price_of, sell_item, sell_price, verdict_message, watch_offered, Funding,
    Purchase,
};
use iron_fauna::model::journal::{current_step, record, JournalEntry, MAX_ENTRIES};
use iron_fauna::model::rider::{Rider, RiderUpgrade};
use iron_fauna::model::session::{GameSession, GraftCondition, GraftItem, Inventory, Location, Profile};
use iron_fauna::model::worldstate::{Verdict, WorldState};

fn factory(id: &str, name: &str, region: &str) -> FactoryDef {
    FactoryDef {
        id: id.to_owned(),
        name: name.to_owned(),
        region: region.to_owned(),
        description: String::new(),
        floors: vec![],
        heart_guard: vec![],
        rider_upgrade: RiderUpgrade::Salvager,
        grows: vec![],
        grow_cost: 300,
    }
}

fn map(id: &str, region: &str, kind: MapKind, factory_id: Option<&str>) -> MapDef {
    MapDef {
        id: id.to_owned(),
        name: id.to_owned(),
        region: region.to_owned(),
        kind,
        factory_id: factory_id.map(|f| f.to_owned()),
        rows: vec!["...".to_owned()],
        spawn_x: 0,
        spawn_y: 0,
        encounter_rate: 0,
        encounters: vec![],
        warps: vec![],
        npcs: vec![],
        settlement: None,
    }
}

fn game_data() -> GameData {
    GameData {
        config: GameConfig {
            game_name: "iron_fauna".to_owned(),
            display_name: "IRON FAUNA".to_owned(),
            save_slot: "main".to_owned(),
            version: "1".to_owned(),
        },
        species: vec![],
        graftware: vec![
            GraftwareDef { id: "spark_coil".to_owned(), name: "Spark Coil".to_owned(), value: 60 },
            GraftwareDef { id: "bolt_cannon".to_owned(), name: "Bolt Cannon".to_owned(), value: 200 },
        ],
        world: WorldDef {
            start_map: "meadow".to_owned(),
            regions: vec![RegionDef {
                id: "verdant_hollow".to_owned(),
                name: "Verdant Hollow".to_owned(),
                description: String::new(),
                tier: 1,
                gestarium_id: "the_cradle".to_owned(),
                biomes: vec![],
            }],
            maps: vec![
                map("meadow", "verdant_hollow", MapKind::Overworld, None),
                map("cradle_f1", "verdant_hollow", MapKind::Factory, Some("the_cradle")),
                map("nowhere_road", "lost_region", MapKind::Overworld, None),
            ],
        },
        settlements: vec![SettlementDef {
            id: "fernhollow".to_owned(),
            name: "Fernhollow".to_owned(),
            region: "verdant_hollow".to_owned(),
            description: String::new(),
            shop: vec![
                ShopEntry { graft: "spark_coil".to_owned(), price: Some(75) },
                ShopEntry { graft: "bolt_cannon".to_owned(), price: None },
            ],
            duelists: vec![],
        }],
        factories: vec![factory("the_cradle", "The Cradle", "verdant_hollow")],
    }
}

fn new_session(scrip: i64) -> GameSession {
    GameSession {
        profile: Profile {
            rider: Rider::new("Wren"),
            inventory: Inventory { scrip, items: vec![], next_item_id: 10 },
        },
        world_state: WorldState::default(),
        story_flags: vec![],
        journal: vec![],
        steps: 7,
        battles_fought: 0,
        location: Location { map_id: "meadow".to_owned(), x: 0, y: 0 },
    }
}

#[test]
fn resale_is_two_fifths_at_least_one() {
    assert_eq!(sell_price(200), 80);
    assert_eq!(sell_price(60), 24);
    assert_eq!(sell_price(3), 1);
    assert_eq!(sell_price(2), 1);
    assert_eq!(sell_price(0), 1);
    assert_eq!(sell_price(-40), 1);
    assert_eq!(sell_price(13), 5);
}

#[test]
fn buying_uses_the_shop_price_then_the_catalogue() {
    let data = game_data();
    let mut session = new_session(500);
    assert_eq!(buy_graft(&mut session, &data, "fernhollow", "spark_coil"), Purchase::Bought);
    assert_eq!(session.profile.inventory.scrip, 425);
    assert_eq!(session.profile.inventory.items.len(), 1);
    assert_eq!(session.profile.inventory.items[0].def_id, "spark_coil");
    assert_eq!(session.profile.inventory.items[0].id, 10);
    assert_eq!(session.profile.inventory.items[0].condition, GraftCondition::Intact);
    // Listed without a price: the catalogue value.
    assert_eq!(buy_graft(&mut session, &data, "fernhollow", "bolt_cannon"), Purchase::Bought);
    assert_eq!(session.profile.inventory.scrip, 225);
    // Not listed here, but known: still the catalogue value.
    assert_eq!(buy_graft(&mut session, &data, "elsewhere", "spark_coil"), Purchase::Bought);
    assert_eq!(session.profile.inventory.scrip, 165);
    assert_eq!(session.profile.inventory.next_item_id, 13);
}

#[test]
fn buying_refuses_unknown_and_unaffordable() {
    let data = game_data();
    let mut session = new_session(100);
    assert_eq!(buy_graft(&mut session, &data, "fernhollow", "mystery"), Purchase::UnknownGraft);
    assert_eq!(buy_graft(&mut session, &data, "fernhollow", "bolt_cannon"), Purchase::NotEnoughScrip);
    assert_eq!(session.profile.inventory.scrip, 100);
    assert!(session.profile.inventory.items.is_empty());
}

#[test]
fn selling_pays_resale_and_removes_the_item() {
    let data = game_data();
    let mut session = new_session(0);
    session.profile.inventory.items = vec![
        GraftItem { id: 1, def_id: "bolt_cannon".to_owned(), condition: GraftCondition::Intact },
        GraftItem { id: 2, def_id: "spark_coil".to_owned(), condition: GraftCondition::Damaged },
        GraftItem { id: 3, def_id: "mystery".to_owned(), condition: GraftCondition::Intact },
    ];
    // Mounted grafts stay.
    assert_eq!(sell_item(&mut session, &data, 1, &[1]), None);
    assert_eq!(session.profile.inventory.items.len(), 3);
    // Unknown ids and unknown patterns are refused.
    assert_eq!(sell_item(&mut session, &data, 9, &[]), None);
    assert_eq!(sell_item(&mut session, &data, 3, &[]), None);
    assert_eq!(sell_item(&mut session, &data, 1, &[2]), Some(80));
    assert_eq!(session.profile.inventory.scrip, 80);
    let ids: Vec<u64> = session.profile.inventory.items.iter().map(|i| i.id).collect();
    assert_eq!(ids, vec![2, 3]);
    assert!(!session.profile.inventory.items[0].is_usable());
}

#[test]
fn funding_the_watch_marks_the_factory() {
    let data = game_data();
    let mut session = new_session(150);
    assert_eq!(fund_watch(&mut session, &data, "nowhere", 100), Funding::NoFactory);
    assert_eq!(fund_watch(&mut session, &data, "fernhollow", 200), Funding::NotEnoughScrip);
    assert!(!session.world_state.factory("the_cradle").invested);
    assert_eq!(fund_watch(&mut session, &data, "fernhollow", 100), Funding::Funded);
    assert_eq!(session.profile.inventory.scrip, 50);
    assert!(session.world_state.factory("the_cradle").invested);
}

#[test]
fn passing_the_last_verdict_closes_the_game() {
    let data = game_data();
    let mut session = new_session(0);
    let done = choose_verdict(&mut session, &data, "the_cradle", Verdict::Reseed);
    assert!(done);
    assert_eq!(session.world_state.verdict("the_cradle"), Some(Verdict::Reseed));
    assert_eq!(session.journal.len(), 1);
    assert_eq!(session.journal[0].text, "Passed Reseeded on The Cradle.");
    assert_eq!(session.journal[0].step, 7);
    let still_done = choose_verdict(&mut session, &data, "the_spire", Verdict::Bind);
    assert!(still_done);
    assert_eq!(session.journal[1].text, "Passed Bound on the_spire.");
}

#[test]
fn verdict_messages() {
    assert!(verdict_message(Verdict::Purge).starts_with("The wombs burn."));
    assert!(verdict_message(Verdict::Reseed).starts_with("The vats hum"));
    assert!(verdict_message(Verdict::Bind).starts_with("The machine acknowledges"));
}

#[test]
fn the_chronicle_keeps_the_newest_entries() {
    let mut session = new_session(0);
    for i in 0..(MAX_ENTRIES + 5) {
        session.steps = i as u64;
        record(&mut session, format!("entry {}", i));
    }
    assert_eq!(session.journal.len(), MAX_ENTRIES);
    assert_eq!(session.journal[0].text, "entry 5");
    assert_eq!(session.journal[0].step, 5);
    assert_eq!(session.journal[MAX_ENTRIES - 1].text, format!("entry {}", MAX_ENTRIES + 4));
}

#[test]
fn an_overfull_chronicle_is_trimmed_to_the_cap() {
    let mut session = new_session(0);
    session.journal = (0..200).map(|i| JournalEntry { step: i, text: format!("old {}", i) }).collect();
    record(&mut session, "new".to_owned());
    assert_eq!(session.journal.len(), MAX_ENTRIES);
    assert_eq!(session.journal[0].text, "old 81");
    assert_eq!(session.journal.last().unwrap().text, "new");
}

#[test]
fn the_current_step_follows_the_region() {
    let data = game_data();
    let mut session = new_session(0);
    assert_eq!(current_step(&data, &session), "The Cradle still births war-units — raid its heart.");
    session.world_state.factory_mut("the_cradle").heart_defeated = true;
    assert_eq!(current_step(&data, &session), "The Cradle lies silent — return to pass judgment.");
    session.world_state.factory_mut("the_cradle").verdict = Some(Verdict::Reseed);
    assert_eq!(
        current_step(&data, &session),
        "Revived, but untended — fund the Watch before prosperity forgets."
    );
    session.world_state.factory_mut("the_cradle").invested = true;
    assert_eq!(current_step(&data, &session), "Thriving under your watch.");
    session.world_state.factory_mut("the_cradle").relapsed = true;
    assert_eq!(
        current_step(&data, &session),
        "This region has relapsed — confront the keeper at the heart."
    );
    session.world_state.factory_mut("the_cradle").verdict = Some(Verdict::Purge);
    assert_eq!(current_step(&data, &session), "This region has relapsed — confront the keeper at the heart.");
    session.world_state.factory_mut("the_cradle").relapsed = false;
    assert_eq!(current_step(&data, &session), "At peace. Dead peace, but peace. Your verdict holds.");
    session.world_state.factory_mut("the_cradle").verdict = Some(Verdict::Bind);
    assert_eq!(current_step(&data, &session), "The factory answers to your hand now.");
}

#[test]
fn the_current_step_on_floors_and_lost_ground() {
    let data = game_data();
    let mut session = new_session(0);
    session.location.map_id = "cradle_f1".to_owned();
    assert_eq!(current_step(&data, &session), "Descend to the heart and silence it.");
    session.world_state.factory_mut("the_cradle").heart_defeated = true;
    assert_eq!(current_step(&data, &session), "The vats here are still. Nothing left to fight.");
    session.location.map_id = "nowhere_road".to_owned();
    assert_eq!(current_step(&data, &session), "Follow the road.");
    session.location.map_id = "void".to_owned();
    assert_eq!(current_step(&data, &session), "Find your bearings.");
}

#[test]
fn prices_come_from_the_shop_then_the_catalogue() {
    let data = game_data();
    assert_eq!(price_of(&data, "fernhollow", "spark_coil"), Some(75));
    assert_eq!(price_of(&data, "fernhollow", "bolt_cannon"), Some(200));
    assert_eq!(price_of(&data, "elsewhere", "spark_coil"), Some(60));
    assert_eq!(price_of(&data, "fernhollow", "mystery"), None);
}

#[test]
fn the_watch_is_offered_only_for_an_untended_reseed() {
    let data = game_data();
    let mut session = new_session(500);
    assert!(!watch_offered(&data, &session, "fernhollow"));
    session.world_state.factory_mut("the_cradle").verdict = Some(Verdict::Reseed);
    assert!(watch_offered(&data, &session, "fernhollow"));
    assert!(!watch_offered(&data, &session, "nowhere"));
    assert_eq!(fund_watch(&mut session, &data, "fernhollow", 100), Funding::Funded);
    assert!(!watch_offered(&data, &session, "fernhollow"));
    session.world_state.factory_mut("the_cradle").invested = false;
    session.world_state.factory_mut("the_cradle").relapsed = true;
    assert!(!watch_offered(&data, &session, "fernhollow"));
    session.world_state.factory_mut("the_cradle").relapsed = false;
    session.world_state.factory_mut("the_cradle").verdict = Some(Verdict::Bind);
    assert!(!watch_offered(&data, &session, "fernhollow"));
}
