use iron_fauna::model::rider::{Rider, RiderUpgrade};

#[test]
fn a_new_rider_has_nothing() {
    let r = Rider::new("Wren");
    assert_eq!(r.name, "Wren");
    assert!(r.upgrades.is_empty());
    assert!(r.duel_ranks.is_empty());
    for u in RiderUpgrade::all() {
        assert!(!r.has(u));
    }
    assert_eq!(r.called_shot_accuracy_mult(), 100);
    assert_eq!(r.hop_time_mult(), 100);
    assert_eq!(r.strain_gain_mult(), 100);
    assert_eq!(r.ridden_regrow_mult(), 100);
    assert_eq!(r.salvage_chance_bonus(), 0);
    assert_eq!(r.reinforce_shield_mult(), 100);
}

#[test]
fn each_upgrade_moves_its_own_multiplier() {
    let mut r = Rider::new("Wren");
    r.upgrades = RiderUpgrade::all().to_vec();
    assert_eq!(r.called_shot_accuracy_mult(), 110);
    assert_eq!(r.hop_time_mult(), 70);
    assert_eq!(r.strain_gain_mult(), 75);
    assert_eq!(r.ridden_regrow_mult(), 130);
    assert_eq!(r.salvage_chance_bonus(), 20);
    assert_eq!(r.reinforce_shield_mult(), 125);

    let mut only = Rider::new("Ash");
    only.upgrades.push(RiderUpgrade::Beastwhisper);
    assert!(only.has(RiderUpgrade::Beastwhisper));
    assert!(!only.has(RiderUpgrade::Salvager));
    assert_eq!(only.strain_gain_mult(), 75);
    assert_eq!(only.hop_time_mult(), 100);
}

#[test]
fn upgrade_names_and_descriptions() {
    assert_eq!(RiderUpgrade::SteadyHands.display_name(), "Steady Hands");
    assert_eq!(RiderUpgrade::FieldMedic.display_name(), "Field Medic");
    assert_eq!(RiderUpgrade::Ironheart.description(), "Reinforcing shields the core 25% harder.");
    assert_eq!(RiderUpgrade::SwiftCrossing.description(), "Rider hops cross 30% faster.");
    assert_eq!(RiderUpgrade::all().len(), 6);
}

#[test]
fn each_ring_holds_one_rank() {
    let mut rider = Rider::new("Wren");
    assert!(rider.ranks_unique());
    rider.duel_ranks.push(("fernhollow".to_owned(), 1));
    rider.duel_ranks.push(("saltmarsh".to_owned(), 2));
    assert!(rider.ranks_unique());
    rider.duel_ranks.push(("fernhollow".to_owned(), 3));
    assert!(!rider.ranks_unique());
}
