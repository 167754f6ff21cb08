use iron_fauna::combat::{
    alive_on, begin_hop, can_hop, check_victory, hop_targets, is_commandable, ridden_unit, update_hop,
    BattleContext, BattleOutcome, CalledTarget, Hop, HopEvent, RiderState, Side, UnitStatus,
};
use iron_fauna::menu::{root_commands, Part, RootCmd};

fn unit(side: Side, alive: bool, species: &str, power: u32) -> UnitStatus {
    UnitStatus { side, alive, berserk: false, species_id: species.to_owned(), power }
}

fn field() -> Vec<UnitStatus> {
    vec![
        unit(Side::Player, true, "volpi", 40),
        unit(Side::Player, true, "pangol", 60),
        unit(Side::Enemy, true, "bumblit", 20),
    ]
}

#[test]
fn standing_units_by_side() {
    let mut units = field();
    assert_eq!(alive_on(&units, Side::Player), vec![0, 1]);
    assert_eq!(alive_on(&units, Side::Enemy), vec![2]);
    units[0].alive = false;
    assert_eq!(alive_on(&units, Side::Player), vec![1]);
    assert_eq!(Side::Player.opponent(), Side::Enemy);
    assert_eq!(Side::Enemy.opponent(), Side::Player);
}

#[test]
fn only_the_ridden_calm_unit_takes_commands() {
    let mut units = field();
    let mounted = Some(0);
    assert_eq!(ridden_unit(&units, mounted), Some(0));
    assert!(is_commandable(&units, mounted, 0));
    assert!(!is_commandable(&units, mounted, 1));
    // Hopping to the mount you're already on is refused.
    assert!(!can_hop(&units, mounted, false, 0));
    // Hopping to an enemy is refused.
    assert!(!can_hop(&units, mounted, false, 2));
    assert!(can_hop(&units, mounted, false, 1));
    // Mid-transit there is no ridden unit and no second hop.
    assert_eq!(ridden_unit(&units, None), None);
    assert!(!can_hop(&units, None, true, 1));
    assert!(!can_hop(&units, mounted, false, 9));
    // A berserk mount ignores the rider.
    units[0].berserk = true;
    assert!(!is_commandable(&units, mounted, 0));
    // A cracked mount carries no rider.
    units[0].alive = false;
    assert_eq!(ridden_unit(&units, mounted), None);
    assert_eq!(ridden_unit(&units, Some(7)), None);
}

#[test]
fn hop_targets_skip_the_current_mount() {
    let mut units = field();
    units.push(unit(Side::Player, false, "quillow", 10));
    units.push(unit(Side::Player, true, "weavil", 30));
    assert_eq!(hop_targets(&units, Some(0)), vec![1, 4]);
    assert_eq!(hop_targets(&units, None), vec![0, 1, 4]);
}

#[test]
fn a_won_duel_captures_no_core() {
    let mut units = field();
    units[2].alive = false;
    let Some(BattleOutcome::Victory(rewards)) = check_victory(BattleContext::Duel, &units, &vec![]) else {
        panic!("expected duel victory");
    };
    assert!(rewards.captured_species.is_empty(), "duels never capture");
    assert_eq!(rewards.scrip, 20);
}

#[test]
fn victory_captures_every_enemy_core_and_pays_bounty() {
    let mut units = field();
    units.push(unit(Side::Enemy, false, "pangol", 61));
    units[2].alive = false;
    let salvage = vec!["ember_spitter".to_owned()];
    let Some(BattleOutcome::Victory(rewards)) = check_victory(BattleContext::FactoryDismantle, &units, &salvage)
    else {
        panic!("expected victory");
    };
    assert_eq!(rewards.captured_species, vec!["bumblit".to_owned(), "pangol".to_owned()]);
    assert_eq!(rewards.salvage, salvage);
    assert_eq!(rewards.scrip, 10 + 10 + 10 + 30);
}

#[test]
fn a_wiped_party_flees_the_field() {
    let mut units = field();
    assert!(check_victory(BattleContext::WildSubdue, &units, &vec![]).is_none());
    units[0].alive = false;
    units[1].alive = false;
    assert!(matches!(check_victory(BattleContext::WildSubdue, &units, &vec![]), Some(BattleOutcome::Fled)));
}

#[test]
fn menu_offers_what_the_state_allows() {
    assert_eq!(root_commands(false, true, true, true, 3), vec![RootCmd::Hop]);
    assert_eq!(
        root_commands(true, false, false, false, 1),
        vec![RootCmd::Attack, RootCmd::Reinforce, RootCmd::Stance, RootCmd::Pass]
    );
    assert_eq!(
        root_commands(true, true, true, true, 2),
        vec![
            RootCmd::Attack,
            RootCmd::Utility,
            RootCmd::Reinforce,
            RootCmd::Regrow,
            RootCmd::Item,
            RootCmd::Hop,
            RootCmd::Stance,
            RootCmd::Pass
        ]
    );
    assert_eq!(RootCmd::Regrow.label(), "Regrow limb");
    assert_eq!(RootCmd::Hop.label(), "Ride another");
    assert_eq!(RootCmd::Stance.label(), "Orders");
    assert_eq!(RootCmd::Pass.label(), "Wait");
}

#[test]
fn parts_map_to_called_shots() {
    assert_eq!(Part::Center.called(), None);
    assert_eq!(Part::Limb(2).called(), Some(CalledTarget::Limb(2)));
    assert_eq!(Part::Mount(1).called(), Some(CalledTarget::Mount(1)));
}

#[test]
fn a_hop_leaves_the_mount_and_lands_when_the_crossing_ends() {
    let units = field();
    let mut rider = RiderState { mounted_on: Some(0), hop: None };
    // Nothing starts once the battle is over.
    assert!(!begin_hop(&mut rider, &units, true, 1, 600));
    assert_eq!(rider, RiderState { mounted_on: Some(0), hop: None });
    assert!(!begin_hop(&mut rider, &units, false, 2, 600));
    assert!(begin_hop(&mut rider, &units, false, 1, 600));
    assert_eq!(rider, RiderState { mounted_on: None, hop: Some(Hop { to: 1, left_ms: 600 }) });
    // No second hop mid-transit.
    assert!(!begin_hop(&mut rider, &units, false, 0, 600));
    assert_eq!(update_hop(&mut rider, &units, 250), HopEvent::InTransit);
    assert_eq!(rider.hop, Some(Hop { to: 1, left_ms: 350 }));
    assert_eq!(update_hop(&mut rider, &units, 350), HopEvent::Landed(1));
    assert_eq!(rider, RiderState { mounted_on: Some(1), hop: None });
    assert_eq!(update_hop(&mut rider, &units, 100), HopEvent::Idle);
}

#[test]
fn a_destination_cracked_mid_transit_leaves_the_rider_exposed() {
    let mut units = field();
    let mut rider = RiderState { mounted_on: Some(0), hop: None };
    assert!(begin_hop(&mut rider, &units, false, 1, 600));
    units[1].alive = false;
    assert_eq!(update_hop(&mut rider, &units, 10), HopEvent::Exposed);
    assert_eq!(rider, RiderState { mounted_on: None, hop: None });
}
