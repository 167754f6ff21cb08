use iron_fauna::data::settlement::{DuelistDef, SettlementDef, ShopEntry};
use iron_fauna::data::species::{
    fits_party_budget, Element, LimbArchetype, LimbDef, LimbRegion, SizeClass, SpeciesDef, Temperament,
    WeightClass, PARTY_SLOTS,
};
use iron_fauna::data::world::{
    one, DialogueRule, EncounterEntry, MapDef, MapKind, NpcDef, RegionDef, TileKind, WarpDef, WorldDef,
};
use iron_fauna::data::{GameConfig, GameData, GraftwareDef};

fn limb(id: &str, region: LimbRegion, mounts: Vec<WeightClass>) -> LimbDef {
    LimbDef { id: id.to_owned(), name: id.to_owned(), region, mounts }
}

fn volpi() -> SpeciesDef {
    SpeciesDef {
        id: "volpi".to_owned(),
        name: "Volpi".to_owned(),
        description: "A quick fox.".to_owned(),
        element: Element::BioElectric,
        size: SizeClass::Small,
        temperament: Temperament::Wary,
        archetype: LimbArchetype::Standard,
        power: 40,
        speed: 80,
        natural_flight: false,
        innate_armor: 0,
        limbs: vec![
            limb("foreleg_l", LimbRegion::ArmLeft, vec![WeightClass::Light]),
            limb("foreleg_r", LimbRegion::ArmRight, vec![WeightClass::Light, WeightClass::Medium]),
            limb("tail", LimbRegion::Tail, vec![]),
        ],
        tier: 1,
        biomes: vec!["meadow".to_owned()],
    }
}

fn npc(id: &str, x: i32, y: i32) -> NpcDef {
    NpcDef { id: id.to_owned(), x, y, name: id.to_owned(), lines: vec![], dialogue: Vec::<DialogueRule>::new() }
}

fn meadow() -> MapDef {
    MapDef {
        id: "meadow".to_owned(),
        name: "Meadow".to_owned(),
        region: "verdant_hollow".to_owned(),
        kind: MapKind::Overworld,
        factory_id: None,
        rows: vec!["#####".to_owned(), "#.gs#".to_owned(), "#~^D#".to_owned(), "#,x".to_owned()],
        spawn_x: 1,
        spawn_y: 1,
        encounter_rate: 100_000,
        encounters: vec![EncounterEntry { species: "volpi".to_owned(), weight: 3, min: 1, max: 2 }],
        warps: vec![
            WarpDef { x: 3, y: 2, to_map: "cradle_f1".to_owned(), to_x: 4, to_y: 5 },
            WarpDef { x: 3, y: 2, to_map: "shadowed".to_owned(), to_x: 0, to_y: 0 },
        ],
        npcs: vec![npc("elder", 1, 3), npc("child", 1, 3)],
        settlement: Some("fernhollow".to_owned()),
    }
}

#[test]
fn tiles_parse_from_their_characters() {
    assert_eq!(TileKind::from_char('.'), Some(TileKind::Ground));
    assert_eq!(TileKind::from_char(','), Some(TileKind::Path));
    assert_eq!(TileKind::from_char('g'), Some(TileKind::Grass));
    assert_eq!(TileKind::from_char('#'), Some(TileKind::Tree));
    assert_eq!(TileKind::from_char('~'), Some(TileKind::Water));
    assert_eq!(TileKind::from_char('^'), Some(TileKind::Rock));
    assert_eq!(TileKind::from_char('s'), Some(TileKind::SettlementDoor));
    assert_eq!(TileKind::from_char('D'), Some(TileKind::GestariumDoor));
    assert_eq!(TileKind::from_char('='), Some(TileKind::DeckPlate));
    assert_eq!(TileKind::from_char('%'), Some(TileKind::VatSpill));
    assert_eq!(TileKind::from_char('V'), Some(TileKind::Vat));
    assert_eq!(TileKind::from_char('H'), Some(TileKind::Heart));
    assert_eq!(TileKind::from_char('x'), None);
    assert_eq!(TileKind::from_char('G'), None);
}

#[test]
fn only_trees_water_rocks_and_vats_block() {
    for t in [TileKind::Tree, TileKind::Water, TileKind::Rock, TileKind::Vat] {
        assert!(!t.walkable());
    }
    for t in [
        TileKind::Ground,
        TileKind::Path,
        TileKind::Grass,
        TileKind::SettlementDoor,
        TileKind::GestariumDoor,
        TileKind::DeckPlate,
        TileKind::VatSpill,
        TileKind::Heart,
    ] {
        assert!(t.walkable());
    }
    assert!(TileKind::Grass.encounter_prone());
    assert!(!TileKind::Ground.encounter_prone());
    assert_eq!(one(), 1);
}

#[test]
fn map_reads_tiles_and_bounds() {
    let map = meadow();
    assert_eq!(map.width(), 5);
    assert_eq!(map.height(), 4);
    assert_eq!(map.tile(1, 1), TileKind::Ground);
    assert_eq!(map.tile(2, 1), TileKind::Grass);
    assert_eq!(map.tile(3, 1), TileKind::SettlementDoor);
    assert_eq!(map.tile(1, 2), TileKind::Water);
    assert_eq!(map.tile(3, 2), TileKind::GestariumDoor);
    // Off the map, past a short row, and unknown characters are trees.
    assert_eq!(map.tile(-1, 1), TileKind::Tree);
    assert_eq!(map.tile(1, -1), TileKind::Tree);
    assert_eq!(map.tile(1, 4), TileKind::Tree);
    assert_eq!(map.tile(4, 3), TileKind::Tree);
    assert_eq!(map.tile(2, 3), TileKind::Tree);
    assert_eq!(map.tile(1, 3), TileKind::Path);
}

#[test]
fn npcs_block_walking() {
    let map = meadow();
    assert!(map.walkable(1, 1));
    assert!(!map.walkable(1, 3));
    assert!(!map.walkable(1, 2));
    assert!(map.walkable(3, 1));
    assert_eq!(map.npc_at(1, 3).unwrap().id, "elder");
    assert!(map.npc_at(2, 2).is_none());
}

#[test]
fn first_warp_on_a_tile_wins() {
    let map = meadow();
    let w = map.warp_at(3, 2).unwrap();
    assert_eq!(w.to_map, "cradle_f1");
    assert_eq!((w.to_x, w.to_y), (4, 5));
    assert!(map.warp_at(2, 2).is_none());
}

#[test]
fn empty_map_has_no_width() {
    let mut map = meadow();
    map.rows.clear();
    assert_eq!(map.width(), 0);
    assert_eq!(map.height(), 0);
    assert_eq!(map.tile(0, 0), TileKind::Tree);
}

#[test]
fn rows_are_counted_in_characters() {
    let mut map = meadow();
    map.rows = vec!["é.g".to_owned()];
    assert_eq!(map.width(), 3);
    assert_eq!(map.tile(1, 0), TileKind::Ground);
    assert_eq!(map.tile(2, 0), TileKind::Grass);
}

#[test]
fn world_looks_up_maps_and_regions() {
    let world = WorldDef {
        start_map: "meadow".to_owned(),
        regions: vec![RegionDef {
            id: "verdant_hollow".to_owned(),
            name: "Verdant Hollow".to_owned(),
            description: String::new(),
            tier: 1,
            gestarium_id: "the_cradle".to_owned(),
            biomes: vec![],
        }],
        maps: vec![meadow()],
    };
    assert_eq!(world.map("meadow").unwrap().name, "Meadow");
    assert!(world.map("meado").is_none());
    assert_eq!(world.region("verdant_hollow").unwrap().gestarium_id, "the_cradle");
    assert!(world.region("ash_reach").is_none());
}

#[test]
fn species_names_and_slot_costs() {
    assert_eq!(SizeClass::Small.slot_cost(), 1);
    assert_eq!(SizeClass::Medium.slot_cost(), 2);
    assert_eq!(SizeClass::Large.slot_cost(), 3);
    assert_eq!(SizeClass::Huge.slot_cost(), 4);
    assert_eq!(SizeClass::Huge.display_name(), "Huge");
    assert_eq!(Element::BioElectric.display_name(), "Bio-Electric");
    assert_eq!(Element::Poison.display_name(), "Poison");
    assert_eq!(Temperament::Gentle.display_name(), "Gentle");
    assert_eq!(LimbArchetype::Flier.display_name(), "Flier");
    assert_eq!(WeightClass::Medium.display_name(), "Medium");
    assert_eq!(LimbRegion::ArmLeft.display_name(), "Left Arm");
    assert_eq!(LimbRegion::ArmRight.display_name(), "Right Arm");
}

#[test]
fn species_counts_mounts_and_finds_limbs() {
    let sp = volpi();
    assert_eq!(sp.mount_count(), 3);
    assert_eq!(sp.limb("foreleg_r").unwrap().mounts.len(), 2);
    assert_eq!(sp.limb("tail").unwrap().region, LimbRegion::Tail);
    assert!(sp.limb("wing").is_none());
}

#[test]
fn settlements_find_duelists_and_shop_entries() {
    let s = SettlementDef {
        id: "fernhollow".to_owned(),
        name: "Fernhollow".to_owned(),
        region: "verdant_hollow".to_owned(),
        description: String::new(),
        shop: vec![ShopEntry { graft: "spark_coil".to_owned(), price: Some(90) }],
        duelists: vec![DuelistDef {
            id: "maren".to_owned(),
            name: "Maren".to_owned(),
            blurb: String::new(),
            rank_req: 0,
            practice: true,
            reward_scrip: 40,
            stake: None,
            min_stake_value: 0,
            party: vec![],
        }],
    };
    assert_eq!(s.duelist("maren").unwrap().reward_scrip, 40);
    assert!(s.duelist("tovin").is_none());
    assert_eq!(s.shop_entry("spark_coil").unwrap().price, Some(90));
    assert!(s.shop_entry("bolt_cannon").is_none());
}

#[test]
fn game_data_lookups() {
    let data = GameData {
        config: GameConfig {
            game_name: "iron_fauna".to_owned(),
            display_name: "IRON FAUNA".to_owned(),
            save_slot: "main".to_owned(),
            version: "1".to_owned(),
        },
        species: vec![volpi()],
        graftware: vec![GraftwareDef { id: "spark_coil".to_owned(), name: "Spark Coil".to_owned(), value: 60 }],
        world: WorldDef { start_map: "meadow".to_owned(), regions: vec![], maps: vec![] },
        settlements: vec![],
        factories: vec![],
    };
    assert_eq!(data.find_species("volpi").unwrap().power, 40);
    assert!(data.find_species("tembolo").is_none());
    assert_eq!(data.find_graftware("spark_coil").unwrap().value, 60);
    assert!(data.find_settlement("fernhollow").is_none());
    assert!(data.find_factory("the_cradle").is_none());
}

#[test]
fn parties_fit_the_six_slot_budget() {
    assert_eq!(PARTY_SLOTS, 6);
    assert!(fits_party_budget(&[SizeClass::Small, SizeClass::Small, SizeClass::Small, SizeClass::Small, SizeClass::Small, SizeClass::Small]));
    assert!(fits_party_budget(&[SizeClass::Large, SizeClass::Large]));
    assert!(fits_party_budget(&[SizeClass::Small, SizeClass::Medium, SizeClass::Large]));
    assert!(fits_party_budget(&[]));
    assert!(!fits_party_budget(&[SizeClass::Huge, SizeClass::Large]));
    assert!(!fits_party_budget(&[SizeClass::Small, SizeClass::Small, SizeClass::Small, SizeClass::Small, SizeClass::Small, SizeClass::Small, SizeClass::Small]));
    assert!(!fits_party_budget(&[SizeClass::Huge, SizeClass::Huge, SizeClass::Huge, SizeClass::Huge]));
}

#[test]
fn mount_count_ignores_limb_order() {
    let mut sp = volpi();
    assert_eq!(sp.mount_count(), 3);
    sp.limbs.reverse();
    assert_eq!(sp.mount_count(), 3);
    assert!(sp.mount_count() <= 2 * sp.limbs.len());
}

#[test]
fn repeated_catalogue_ids_are_spotted() {
    let mut data = GameData {
        config: GameConfig {
            game_name: "iron_fauna".to_owned(),
            display_name: "IRON FAUNA".to_owned(),
            save_slot: "main".to_owned(),
            version: "1".to_owned(),
        },
        species: vec![volpi()],
        graftware: vec![GraftwareDef { id: "spark_coil".to_owned(), name: "Spark Coil".to_owned(), value: 60 }],
        world: WorldDef { start_map: "meadow".to_owned(), regions: vec![], maps: vec![meadow()] },
        settlements: vec![],
        factories: vec![],
    };
    assert!(data.ids_unique());
    data.world.maps.push(meadow());
    assert!(!data.ids_unique());
    data.world.maps.pop();
    data.species.push(volpi());
    assert!(!data.ids_unique());
}
