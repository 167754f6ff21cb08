//! The plain-value decisions of the battle field: who stands, who is ridden
//! and commandable, where the rider may hop, how a battle ends and what a
//! victory pays; and the command menu's options.

use vstd::prelude::*;

verus! {

#[derive(Debug, Clone, Copy, PartialEq, Eq, Structural)]
pub enum Side {
    Player,
    Enemy,
}

impl Side {
    pub fn opponent(self) -> (s: Side)
        ensures
            s != self,
    {
        match self {
            Side::Player => Side::Enemy,
            Side::Enemy => Side::Player,
        }
    }
}

/// The three kinds of fight: subduing wilds, dismantling factory war-units,
/// and sanctioned duels that end in a yield.
#[derive(Debug, Clone, Copy, PartialEq, Eq, Structural)]
pub enum BattleContext {
    WildSubdue,
    FactoryDismantle,
    Duel,
}

/// What the decisions read of one fielded unit.
#[derive(Debug, Clone)]
pub struct UnitStatus {
    pub side: Side,
    /// The core is not cracked.
    pub alive: bool,
    /// In a berserk episode: ignores the rider.
    pub berserk: bool,
    pub species_id: String,
    /// The species' power (0-100).
    pub power: u32,
}

#[derive(Debug, Clone)]
pub struct BattleRewards {
    pub captured_species: Vec<String>,
    pub salvage: Vec<String>,
    pub scrip: i64,
}

#[derive(Debug, Clone)]
pub enum BattleOutcome {
    Victory(BattleRewards),
    Fled,
}

/// The ids (positions) of the standing units on a side, in order.
pub open spec fn standing(units: Seq<UnitStatus>, side: Side) -> Seq<usize>
    decreases units.len(),
{
    if units.len() == 0 {
        Seq::empty()
    } else {
        let rest = standing(units.drop_last(), side);
        if units.last().side == side && units.last().alive {
            rest.push((units.len() - 1) as usize)
        } else {
            rest
        }
    }
}

/// The standing list holds exactly the positions of the standing units of
/// that side.
pub proof fn lemma_standing_members(units: Seq<UnitStatus>, side: Side)
    requires
        units.len() <= usize::MAX,
    ensures
        forall|u: usize| #[trigger] standing(units, side).contains(u) <==> ((u as int) < units.len()
            && units[u as int].side == side && units[u as int].alive),
        standing(units, side).len() == 0 <==> wiped(units, side),
    decreases units.len(),
{
    if units.len() > 0 {
        let init = units.drop_last();
        let n = (units.len() - 1) as usize;
        lemma_standing_members(init, side);
        let rest = standing(init, side);
        let all = standing(units, side);
        assert forall|u: usize| #[trigger] all.contains(u) <==> ((u as int) < units.len()
            && units[u as int].side == side && units[u as int].alive) by {
            if (u as int) < n {
                assert(init[u as int] == units[u as int]);
            }
            if all.contains(u) {
                let k = choose|k: int| 0 <= k < all.len() && all[k] == u;
                if k < rest.len() {
                    assert(rest[k] == u);
                    assert(rest.contains(u));
                    assert(init[u as int] == units[u as int]);
                } else {
                    assert(u == n);
                }
            }
            if (u as int) < units.len() && units[u as int].side == side && units[u as int].alive {
                if u == n {
                    assert(all[all.len() - 1] == u);
                } else {
                    assert(rest.contains(u));
                    let k = choose|k: int| 0 <= k < rest.len() && rest[k] == u;
                    assert(all[k] == u);
                }
            }
        }
        if all.len() == 0 {
            assert forall|k: int| 0 <= k < units.len() implies !(#[trigger] units[k].side == side && units[k].alive) by {
                if units[k].side == side && units[k].alive {
                    assert(all.contains(k as usize));
                }
            }
        } else {
            assert(all.contains(all[0]));
        }
    } else {
        assert(standing(units, side) =~= Seq::<usize>::empty());
    }
}

/// The standing list keeps field order, each unit once.
pub proof fn lemma_standing_in_field_order(units: Seq<UnitStatus>, side: Side)
    requires
        units.len() <= usize::MAX,
    ensures
        forall|a: int, b: int| 0 <= a < b < standing(units, side).len() ==> standing(units, side)[a] < standing(
            units,
            side,
        )[b],
    decreases units.len(),
{
    if units.len() > 0 {
        let init = units.drop_last();
        lemma_standing_in_field_order(init, side);
        lemma_standing_members(init, side);
        let rest = standing(init, side);
        assert forall|a: int| 0 <= a < rest.len() implies rest[a] < units.len() - 1 by {
            assert(rest.contains(rest[a]));
        }
    }
}

/// The standing units on a side.
pub fn alive_on(units: &[UnitStatus], side: Side) -> (r: Vec<usize>)
    ensures
        r@ == standing(units@, side),
{
    let mut r: Vec<usize> = Vec::new();
    let mut i: usize = 0;
    while i < units.len()
        invariant
            i <= units@.len(),
            r@ == standing(units@.take(i as int), side),
        decreases units@.len() - i,
    {
        assert(units@.take(i as int + 1).drop_last() =~= units@.take(i as int));
        if units[i].side == side && units[i].alive {
            r.push(i);
        }
        i = i + 1;
    }
    assert(units@.take(i as int) =~= units@);
    r
}

/// The unit the rider sits on, while it still stands.
pub open spec fn ridden(units: Seq<UnitStatus>, mounted_on: Option<usize>) -> Option<usize> {
    match mounted_on {
        Some(id) => if id < units.len() && units[id as int].alive {
            Some(id)
        } else {
            None
        },
        None => None,
    }
}

pub fn ridden_unit(units: &[UnitStatus], mounted_on: Option<usize>) -> (r: Option<usize>)
    ensures
        r == ridden(units@, mounted_on),
{
    match mounted_on {
        Some(id) => if id < units.len() && units[id].alive {
            Some(id)
        } else {
            None
        },
        None => None,
    }
}

/// A unit takes the player's commands only while ridden and not berserk.
pub fn is_commandable(units: &[UnitStatus], mounted_on: Option<usize>, id: usize) -> (r: bool)
    ensures
        r == (ridden(units@, mounted_on) == Some(id) && !units@[id as int].berserk),
{
    match ridden_unit(units, mounted_on) {
        Some(r) => r == id && !units[id].berserk,
        None => false,
    }
}

/// The rider may start a hop only when not already in transit, toward a
/// standing friendly unit other than the current mount.
pub open spec fn hop_allowed(units: Seq<UnitStatus>, mounted_on: Option<usize>, in_transit: bool, to: usize) -> bool {
    !in_transit && to < units.len() && units[to as int].side == Side::Player && units[to as int].alive
        && mounted_on != Some(to)
}

pub fn can_hop(units: &[UnitStatus], mounted_on: Option<usize>, in_transit: bool, to: usize) -> (r: bool)
    ensures
        r == hop_allowed(units@, mounted_on, in_transit, to),
{
    if in_transit {
        return false;
    }
    let valid = to < units.len() && units[to].side == Side::Player && units[to].alive;
    valid && mounted_on != Some(to)
}

/// Friendly standing units the rider could hop to: all but the ridden one,
/// in field order.
pub fn hop_targets(units: &[UnitStatus], mounted_on: Option<usize>) -> (r: Vec<usize>)
    ensures
        forall|u: usize| r@.contains(u) <==> (standing(units@, Side::Player).contains(u)
            && Some(u) != ridden(units@, mounted_on)),
        forall|i: int, j: int| 0 <= i < j < r@.len() ==> r@[i] < r@[j],
{
    let current = ridden_unit(units, mounted_on);
    let mut r: Vec<usize> = Vec::new();
    let mut i: usize = 0;
    let count = units.len();
    proof {
        lemma_standing_members(units@, Side::Player);
    }
    while i < count
        invariant
            count == units@.len(),
            i <= units@.len(),
            current == ridden(units@, mounted_on),
            forall|u: usize| r@.contains(u) <==> (u < i && units@[u as int].side == Side::Player
                && units@[u as int].alive && Some(u) != current),
            forall|a: int, b: int| 0 <= a < b < r@.len() ==> r@[a] < r@[b],
            forall|a: int| 0 <= a < r@.len() ==> r@[a] < i,
        decreases units@.len() - i,
    {
        if units[i].side == Side::Player && units[i].alive && current != Some(i) {
            let ghost before = r@;
            r.push(i);
            assert forall|u: usize| r@.contains(u) <==> (u < i + 1 && units@[u as int].side == Side::Player
                && units@[u as int].alive && Some(u) != current) by {
                if before.contains(u) {
                    let k = choose|k: int| 0 <= k < before.len() && before[k] == u;
                    assert(r@[k] == u);
                }
                if u == i {
                    assert(r@[before.len() as int] == u);
                }
                if r@.contains(u) && u != i {
                    let k = choose|k: int| 0 <= k < r@.len() && r@[k] == u;
                    assert(k < before.len());
                    assert(before[k] == u);
                }
            }
        } else {
            assert forall|u: usize| r@.contains(u) <==> (u < i + 1 && units@[u as int].side == Side::Player
                && units@[u as int].alive && Some(u) != current) by {
                if r@.contains(u) {
                    let k = choose|k: int| 0 <= k < r@.len() && r@[k] == u;
                    assert(r@[k] < i);
                }
            }
        }
        i = i + 1;
    }
    proof {
        assert forall|u: usize| r@.contains(u) <==> (standing(units@, Side::Player).contains(u)
            && Some(u) != ridden(units@, mounted_on)) by {
            if r@.contains(u) {
                assert(u < i);
            }
        }
    }
    r
}

/// Scrip a victory pays: 10 plus half the power of each enemy.
pub open spec fn bounty(units: Seq<UnitStatus>) -> int
    decreases units.len(),
{
    if units.len() == 0 {
        0
    } else {
        bounty(units.drop_last()) + if units.last().side == Side::Enemy {
            10 + (units.last().power as int) / 2
        } else {
            0
        }
    }
}

/// Species ids of the enemy units, in order.
pub open spec fn enemy_species(units: Seq<UnitStatus>) -> Seq<Seq<char>>
    decreases units.len(),
{
    if units.len() == 0 {
        Seq::empty()
    } else {
        let rest = enemy_species(units.drop_last());
        if units.last().side == Side::Enemy {
            rest.push(units.last().species_id@)
        } else {
            rest
        }
    }
}

/// Whether no unit on a side still stands.
pub open spec fn wiped(units: Seq<UnitStatus>, side: Side) -> bool {
    forall|k: int| 0 <= k < units.len() ==> !(#[trigger] units[k].side == side && units[k].alive)
}

proof fn lemma_bounty_bound(units: Seq<UnitStatus>)
    ensures
        0 <= bounty(units) <= units.len() * 0x8000_0009,
    decreases units.len(),
{
    if units.len() > 0 {
        lemma_bounty_bound(units.drop_last());
    }
}

/// What one unit adds to a victory's bounty.
pub open spec fn unit_bounty(u: UnitStatus) -> int {
    if u.side == Side::Enemy {
        10 + (u.power as int) / 2
    } else {
        0
    }
}

/// A bounty is paid unit by unit: each enemy adds 10 plus half its power,
/// whatever stands beside it, and splitting the field anywhere splits the
/// bounty into the two parts' bounties.
pub proof fn lemma_bounty_adds_up(a: Seq<UnitStatus>, b: Seq<UnitStatus>)
    ensures
        bounty(a + b) == bounty(a) + bounty(b),
        bounty(seq![b.first()]) == unit_bounty(b.first()),
    decreases b.len(),
{
    let one = seq![b.first()];
    assert(one.drop_last() =~= Seq::<UnitStatus>::empty());
    assert(bounty(one) == bounty(one.drop_last()) + unit_bounty(one.last()));
    if b.len() == 0 {
        assert(a + b =~= a);
    } else {
        assert((a + b).drop_last() =~= a + b.drop_last());
        assert((a + b).last() == b.last());
        lemma_bounty_adds_up(a, b.drop_last());
    }
}

/// Taking any one unit off the field takes exactly its own share off the
/// bounty: every enemy pays 10 plus half its power, independently.
pub proof fn lemma_bounty_per_unit(units: Seq<UnitStatus>, k: int)
    requires
        0 <= k < units.len(),
    ensures
        bounty(units) == bounty(units.remove(k)) + unit_bounty(units[k]),
{
    let front = units.take(k);
    let back = units.skip(k + 1);
    let one = seq![units[k]];
    assert(units =~= front + one + back);
    assert(units.remove(k) =~= front + back);
    lemma_bounty_adds_up(front + one, back);
    lemma_bounty_adds_up(front, one);
    lemma_bounty_adds_up(front, back);
    lemma_bounty_adds_up(Seq::empty(), one);
    assert(one.first() == units[k]);
}

/// The captured species are the enemies' species, unit by unit: splitting
/// the field splits the list, and a lone enemy yields its own species.
pub proof fn lemma_enemy_species_adds_up(a: Seq<UnitStatus>, b: Seq<UnitStatus>)
    ensures
        enemy_species(a + b) == enemy_species(a) + enemy_species(b),
        b.len() > 0 ==> enemy_species(seq![b.first()]) == (if b.first().side == Side::Enemy {
            seq![b.first().species_id@]
        } else {
            Seq::<Seq<char>>::empty()
        }),
    decreases b.len(),
{
    if b.len() > 0 {
        let one = seq![b.first()];
        assert(one.drop_last() =~= Seq::<UnitStatus>::empty());
        assert(one.last() == b.first());
        assert(enemy_species(one.drop_last()) == Seq::<Seq<char>>::empty());
        if b.first().side == Side::Enemy {
            assert(enemy_species(one) == Seq::<Seq<char>>::empty().push(b.first().species_id@));
            assert(enemy_species(one) =~= seq![b.first().species_id@]);
        } else {
            assert(enemy_species(one) == Seq::<Seq<char>>::empty());
        }
    }
    if b.len() == 0 {
        assert(a + b =~= a);
        assert(enemy_species(a) + enemy_species(b) =~= enemy_species(a));
    } else {
        assert((a + b).drop_last() =~= a + b.drop_last());
        assert((a + b).last() == b.last());
        lemma_enemy_species_adds_up(a, b.drop_last());
        if b.last().side == Side::Enemy {
            assert(enemy_species(a) + enemy_species(b) =~= (enemy_species(a) + enemy_species(b.drop_last())).push(
                b.last().species_id@,
            ));
        } else {
            assert(enemy_species(a) + enemy_species(b) =~= enemy_species(a) + enemy_species(b.drop_last()));
        }
    }
}

/// How the field stands after a tick: cracking every enemy core is a
/// victory (a capture of each enemy core, except in duels, which end in a
/// yield), losing every friendly core is a retreat, never a game over.
pub fn check_victory(context: BattleContext, units: &[UnitStatus], salvage: &Vec<String>) -> (r: Option<BattleOutcome>)
    requires
        units@.len() < 0x8000_0000,
    ensures
        wiped(units@, Side::Enemy) ==> match r {
            Some(BattleOutcome::Victory(rw)) => {
                &&& (context == BattleContext::Duel ==> rw.captured_species@.len() == 0)
                &&& (context != BattleContext::Duel ==> rw.captured_species@.map_values(|s: String| s@)
                    == enemy_species(units@))
                &&& rw.salvage@ == salvage@
                &&& rw.scrip == bounty(units@)
            },
            _ => false,
        },
        !wiped(units@, Side::Enemy) && wiped(units@, Side::Player) ==> r matches Some(BattleOutcome::Fled),
        !wiped(units@, Side::Enemy) && !wiped(units@, Side::Player) ==> r.is_none(),
{
    proof {
        lemma_standing_members(units@, Side::Enemy);
        lemma_standing_members(units@, Side::Player);
    }
    if alive_on(units, Side::Enemy).len() == 0 {
        let mut captured: Vec<String> = Vec::new();
        let mut scrip: i64 = 0;
        let mut i: usize = 0;
        while i < units.len()
            invariant
                i <= units@.len(),
                units@.len() < 0x8000_0000,
                scrip == bounty(units@.take(i as int)),
                context == BattleContext::Duel ==> captured@.len() == 0,
                context != BattleContext::Duel ==> captured@.map_values(|s: String| s@)
                    == enemy_species(units@.take(i as int)),
            decreases units@.len() - i,
        {
            let ghost pre = units@.take(i as int);
            assert(units@.take(i as int + 1).drop_last() =~= pre);
            proof {
                lemma_bounty_bound(units@.take(i as int + 1));
                assert(units@.take(i as int + 1).last() == units@[i as int]);
            }
            if units[i].side == Side::Enemy {
                if context != BattleContext::Duel {
                    let ghost before = captured@;
                    captured.push(units[i].species_id.clone());
                    assert(captured@.map_values(|s: String| s@) =~= before.map_values(|s: String| s@).push(
                        units@[i as int].species_id@,
                    ));
                }
                scrip = scrip + 10 + (units[i].power / 2) as i64;
            }
            i = i + 1;
        }
        assert(units@.take(i as int) =~= units@);
        let mut drops: Vec<String> = Vec::new();
        let mut k: usize = 0;
        while k < salvage.len()
            invariant
                k <= salvage@.len(),
                drops@ == salvage@.take(k as int),
            decreases salvage@.len() - k,
        {
            drops.push(salvage[k].clone());
            assert(drops@ =~= salvage@.take(k as int + 1));
            k = k + 1;
        }
        assert(salvage@.take(k as int) =~= salvage@);
        Some(BattleOutcome::Victory(BattleRewards { captured_species: captured, salvage: drops, scrip }))
    } else if alive_on(units, Side::Player).len() == 0 {
        Some(BattleOutcome::Fled)
    } else {
        None
    }
}

/// Where a called shot aims: a bare limb, or a mounted graft.
#[derive(Debug, Clone, Copy, PartialEq, Eq, Structural)]
pub enum CalledTarget {
    Limb(usize),
    Mount(usize),
}

/// A hop under way: the destination, and the milliseconds of the crossing
/// that are left.
#[derive(Debug, Clone, Copy, PartialEq, Eq, Structural)]
pub struct Hop {
    pub to: usize,
    pub left_ms: u32,
}

/// Where the rider is: on a unit, or in transit toward one.
#[derive(Debug, Clone, Copy, PartialEq, Eq, Structural)]
pub struct RiderState {
    pub mounted_on: Option<usize>,
    pub hop: Option<Hop>,
}

/// What a tick of the clock did to a hop.
#[derive(Debug, Clone, Copy, PartialEq, Eq, Structural)]
pub enum HopEvent {
    /// No hop under way.
    Idle,
    /// Still crossing.
    InTransit,
    /// The destination's core cracked mid-transit: the rider lands exposed.
    Exposed,
    /// The rider mounted the destination.
    Landed(usize),
}

/// Starts a hop toward `to`, taking `transit_ms` to cross, unless the
/// battle is over or the hop is not allowed. The rider leaves the mount.
pub fn begin_hop(rider: &mut RiderState, units: &[UnitStatus], battle_over: bool, to: usize, transit_ms: u32) -> (r: bool)
    ensures
        r == (!battle_over && hop_allowed(units@, old(rider).mounted_on, old(rider).hop.is_some(), to)),
        r ==> *final(rider) == (RiderState { mounted_on: None, hop: Some(Hop { to, left_ms: transit_ms }) }),
        !r ==> *final(rider) == *old(rider),
{
    if battle_over {
        return false;
    }
    if !can_hop(units, rider.mounted_on, rider.hop.is_some(), to) {
        return false;
    }
    rider.mounted_on = None;
    rider.hop = Some(Hop { to, left_ms: transit_ms });
    true
}

/// Advances a hop by `elapsed_ms`: the rider lands once the crossing time
/// runs out, and lands exposed if the destination falls first.
pub fn update_hop(rider: &mut RiderState, units: &[UnitStatus], elapsed_ms: u32) -> (e: HopEvent)
    ensures
        match old(rider).hop {
            None => e == HopEvent::Idle && *final(rider) == *old(rider),
            Some(Hop { to, left_ms: left }) => if !(to < units@.len() && units@[to as int].alive) {
                e == HopEvent::Exposed && *final(rider) == (RiderState { hop: None, ..*old(rider) })
            } else if left <= elapsed_ms {
                e == HopEvent::Landed(to) && *final(rider) == (RiderState { mounted_on: Some(to), hop: None })
            } else {
                e == HopEvent::InTransit && *final(rider) == (RiderState {
                    hop: Some(Hop { to, left_ms: (left - elapsed_ms) as u32 }),
                    ..*old(rider)
                })
            },
        },
{
    match rider.hop {
        None => HopEvent::Idle,
        Some(Hop { to, left_ms: left }) => {
            if !(to < units.len() && units[to].alive) {
                rider.hop = None;
                HopEvent::Exposed
            } else if left <= elapsed_ms {
                rider.hop = None;
                rider.mounted_on = Some(to);
                HopEvent::Landed(to)
            } else {
                rider.hop = Some(Hop { to, left_ms: left - elapsed_ms });
                HopEvent::InTransit
            }
        },
    }
}

} // verus!
