//! The settlement economy: buying and selling graftware, funding a region's
//! watch, and passing a verdict at a silenced factory heart.

use vstd::prelude::*;
use vstd::string::*;
use crate::data::GameData;
use crate::data::settlement::{shop_grafts, SettlementDef};
use crate::model::journal::{capped, record, JournalEntry};
use crate::model::session::{item_index, GameSession, GraftCondition, GraftItem};
use crate::model::worldstate::{judged_count, verdict_name, FactoryState, Verdict, WorldState};
use crate::text::{first_match, join3};

verus! {

/// What a graft fetches when sold: two fifths of its value, at least 1.
pub open spec fn resale(value: i64) -> int {
    if value * 2 >= 5 {
        (value * 2) / 5
    } else {
        1
    }
}

/// Sale price of a graft worth `value`.
pub fn sell_price(value: i64) -> (p: i64)
    requires
        i64::MIN <= value * 2 <= i64::MAX,
    ensures
        p == resale(value),
{
    let doubled = value * 2;
    if doubled >= 5 {
        doubled / 5
    } else {
        1
    }
}

/// Selling never pays more than the graft is worth (for any graft worth at
/// least one scrip), so buying back and forth only drains scrip.
pub proof fn lemma_resale_below_value(value: i64)
    requires
        value >= 1,
        value * 2 <= i64::MAX,
    ensures
        1 <= resale(value) <= value,
        value >= 2 ==> resale(value) < value,
{
}

/// Resale pays two fifths of the value rounded down, and never less than
/// one scrip: the result is the largest whole number whose five-fold fits
/// in twice the value, or one when that is zero or less.
pub proof fn lemma_resale_is_two_fifths(value: i64)
    ensures
        resale(value) >= 1,
        2 * value >= 5 ==> 5 * resale(value) <= 2 * value < 5 * (resale(value) + 1),
        2 * value < 5 ==> resale(value) == 1,
{
}

/// Selling removes every item with the sold id and keeps all the others,
/// in their order.
pub proof fn lemma_without_item_keeps_the_rest(items: Seq<GraftItem>, id: u64)
    ensures
        without_item(items, id) == items.filter(|it: GraftItem| it.id != id),
    decreases items.len(),
{
    reveal(Seq::filter);
    if items.len() > 0 {
        lemma_without_item_keeps_the_rest(items.drop_last(), id);
    }
}

/// The price a settlement asks for a graft: its shop's override when the
/// shop lists one, else the catalogue value; none for an unknown graft.
pub open spec fn asking_price(data: GameData, settlement_id: Seq<char>, graft: Seq<char>) -> Option<i64> {
    let listed = match data.settlement_named(settlement_id) {
        Some(s) => match first_match(shop_grafts(s.shop@), graft) {
            Some(i) => s.shop@[i].price,
            None => None,
        },
        None => None,
    };
    match listed {
        Some(p) => Some(p),
        None => match data.graftware_named(graft) {
            Some(d) => Some(d.value),
            None => None,
        },
    }
}

/// A shop's own price for a graft always wins: when the settlement lists
/// the graft with a price, that is the asking price, whatever the
/// catalogue says.
pub proof fn lemma_shop_price_wins(
    data: GameData,
    settlement_id: Seq<char>,
    graft: Seq<char>,
    shop: SettlementDef,
    i: int,
    p: i64,
)
    requires
        data.settlement_named(settlement_id) == Some(shop),
        first_match(shop_grafts(shop.shop@), graft) == Some(i),
        shop.shop@[i].price == Some(p),
    ensures
        asking_price(data, settlement_id, graft) == Some(p),
{
}

/// Without a shop price (no such settlement, the graft not listed there,
/// or listed without a price) the catalogue value is asked, and a graft the
/// catalogue does not know has no price.
pub proof fn lemma_catalogue_price_otherwise(data: GameData, settlement_id: Seq<char>, graft: Seq<char>)
    requires
        forall|shop: SettlementDef, i: int|
            data.settlement_named(settlement_id) == Some(shop) && first_match(shop_grafts(shop.shop@), graft)
                == Some(i) ==> (#[trigger] shop.shop@[i]).price.is_none(),
    ensures
        asking_price(data, settlement_id, graft) == (match data.graftware_named(graft) {
            Some(d) => Some(d.value),
            None => None::<i64>,
        }),
{
    if let Some(shop) = data.settlement_named(settlement_id) {
        if let Some(i) = first_match(shop_grafts(shop.shop@), graft) {
            assert(shop.shop@[i].price.is_none());
        }
    }
}

/// The price a settlement asks for a graft.
pub fn price_of(data: &GameData, settlement_id: &str, def_id: &str) -> (r: Option<i64>)
    ensures
        r == asking_price(*data, settlement_id@, def_id@),
{
    let listed: Option<i64> = match data.find_settlement(settlement_id) {
        Some(s) => match s.shop_entry(def_id) {
            Some(e) => e.price,
            None => None,
        },
        None => None,
    };
    match listed {
        Some(p) => Some(p),
        None => match data.find_graftware(def_id) {
            Some(d) => Some(d.value),
            None => None,
        },
    }
}

/// How a purchase went.
#[derive(Debug, Clone, Copy, PartialEq, Eq, Structural)]
pub enum Purchase {
    /// Nothing prices this graft here.
    UnknownGraft,
    /// The rider cannot afford it.
    NotEnoughScrip,
    Bought,
}

/// Everything about a session except its bag of grafts and its scrip is
/// the same in both.
pub open spec fn same_but_inventory(a: GameSession, b: GameSession) -> bool {
    &&& a.profile.rider == b.profile.rider
    &&& a.world_state == b.world_state
    &&& a.story_flags == b.story_flags
    &&& a.journal == b.journal
    &&& a.steps == b.steps
    &&& a.battles_fought == b.battles_fought
    &&& a.location == b.location
}

/// Buys a graft at a settlement's shop: pays the asking price and adds an
/// intact copy to the bag.
pub fn buy_graft(session: &mut GameSession, data: &GameData, settlement_id: &str, def_id: &str) -> (r: Purchase)
    requires
        match asking_price(*data, settlement_id@, def_id@) {
            Some(p) => old(session).profile.inventory.scrip >= p ==> {
                &&& old(session).profile.inventory.scrip - p <= i64::MAX
                &&& old(session).profile.inventory.next_item_id < u64::MAX
            },
            None => true,
        },
    ensures
        match asking_price(*data, settlement_id@, def_id@) {
            None => r == Purchase::UnknownGraft && *final(session) == *old(session),
            Some(p) => if old(session).profile.inventory.scrip < p {
                r == Purchase::NotEnoughScrip && *final(session) == *old(session)
            } else {
                &&& r == Purchase::Bought
                &&& same_but_inventory(*old(session), *final(session))
                &&& final(session).profile.inventory.scrip == old(session).profile.inventory.scrip - p
                &&& final(session).profile.inventory.next_item_id == old(session).profile.inventory.next_item_id + 1
                &&& final(session).profile.inventory.items@.drop_last() == old(session).profile.inventory.items@
                &&& final(session).profile.inventory.items@.len() == old(session).profile.inventory.items@.len() + 1
                &&& final(session).profile.inventory.items@.last().id == old(session).profile.inventory.next_item_id
                &&& final(session).profile.inventory.items@.last().def_id@ == def_id@
                &&& final(session).profile.inventory.items@.last().condition == GraftCondition::Intact
            },
        },
{
    let price = match price_of(data, settlement_id, def_id) {
        Some(p) => p,
        None => return Purchase::UnknownGraft,
    };
    if session.profile.inventory.scrip < price {
        return Purchase::NotEnoughScrip;
    }
    session.profile.inventory.scrip = session.profile.inventory.scrip - price;
    session.profile.grant_graft(def_id, GraftCondition::Intact);
    Purchase::Bought
}

/// The bag with every item of the given id taken out, order kept.
pub open spec fn without_item(items: Seq<GraftItem>, id: u64) -> Seq<GraftItem>
    decreases items.len(),
{
    if items.len() == 0 {
        items
    } else {
        let rest = without_item(items.drop_last(), id);
        if items.last().id == id {
            rest
        } else {
            rest.push(items.last())
        }
    }
}

/// The resale value of the item with the given id, when it exists, is not
/// mounted, and the catalogue knows its graft.
pub open spec fn sale_value(data: GameData, items: Seq<GraftItem>, item_id: u64, equipped: Seq<u64>) -> Option<int> {
    if equipped.contains(item_id) {
        None
    } else {
        match item_index(items, item_id) {
            Some(i) => match data.graftware_named(items[i].def_id@) {
                Some(d) => Some(resale(d.value)),
                None => None,
            },
            None => None,
        }
    }
}

/// Sells an unmounted graft back for its resale price. Mounted grafts (those
/// whose ids are in `equipped`) and unknown items are refused.
#[verifier::spinoff_prover]
#[verifier::rlimit(40)]
pub fn sell_item(session: &mut GameSession, data: &GameData, item_id: u64, equipped: &[u64]) -> (r: Option<i64>)
    requires
        match item_index(old(session).profile.inventory.items@, item_id) {
            Some(i) => match data.graftware_named(old(session).profile.inventory.items@[i].def_id@) {
                Some(d) => {
                    &&& i64::MIN <= d.value * 2 <= i64::MAX
                    &&& old(session).profile.inventory.scrip + resale(d.value) <= i64::MAX
                },
                None => true,
            },
            None => true,
        },
    ensures
        match sale_value(*data, old(session).profile.inventory.items@, item_id, equipped@) {
            None => r.is_none() && *final(session) == *old(session),
            Some(p) => {
                &&& r == Some(p as i64)
                &&& same_but_inventory(*old(session), *final(session))
                &&& final(session).profile.inventory.scrip == old(session).profile.inventory.scrip + p
                &&& final(session).profile.inventory.items@ == without_item(old(session).profile.inventory.items@, item_id)
                &&& final(session).profile.inventory.next_item_id == old(session).profile.inventory.next_item_id
            },
        },
{
    let mut e: usize = 0;
    while e < equipped.len()
        invariant
            e <= equipped@.len(),
            forall|j: int| 0 <= j < e ==> equipped@[j] != item_id,
        decreases equipped@.len() - e,
    {
        if equipped[e] == item_id {
            assert(equipped@.contains(item_id)) by {
                assert(equipped@[e as int] == item_id);
            }
            return None;
        }
        e = e + 1;
    }
    assert(!equipped@.contains(item_id));
    let price = match session.profile.inventory.item(item_id) {
        Some(item) => match data.find_graftware(item.def_id.as_str()) {
            Some(d) => sell_price(d.value),
            None => return None,
        },
        None => return None,
    };
    let ghost orig = old(session).profile.inventory.items@;
    let ghost mut j: int = 0;
    let mut i: usize = 0;
    assert(orig.take(0) =~= Seq::<GraftItem>::empty());
    assert(session.profile.inventory.items@ =~= without_item(orig.take(0), item_id) + orig.skip(0));
    while i < session.profile.inventory.items.len()
        invariant
            0 <= j <= orig.len(),
            session.profile.inventory.items@ == without_item(orig.take(j), item_id) + orig.skip(j),
            i == without_item(orig.take(j), item_id).len(),
            same_but_inventory(*old(session), *session),
            session.profile.inventory.scrip == old(session).profile.inventory.scrip,
            session.profile.inventory.next_item_id == old(session).profile.inventory.next_item_id,
        decreases orig.len() - j,
    {
        let ghost before = session.profile.inventory.items@;
        proof {
            assert(orig.take(j + 1).drop_last() =~= orig.take(j));
            assert(orig.take(j + 1).last() == orig[j]);
            assert(before[i as int] == orig[j]);
        }
        if session.profile.inventory.items[i].id == item_id {
            session.profile.inventory.items.remove(i);
            proof {
                assert(session.profile.inventory.items@ =~= without_item(orig.take(j + 1), item_id) + orig.skip(j + 1));
                j = j + 1;
            }
        } else {
            proof {
                assert(session.profile.inventory.items@ =~= without_item(orig.take(j + 1), item_id) + orig.skip(j + 1));
                j = j + 1;
            }
            i = i + 1;
        }
    }
    proof {
        lemma_without_item_len(orig.take(j), item_id);
        if j < orig.len() {
            assert(session.profile.inventory.items@.len() > i);
        }
        assert(orig.take(j) =~= orig);
        assert(orig.skip(j) =~= Seq::<GraftItem>::empty());
        assert(session.profile.inventory.items@ =~= without_item(orig, item_id));
    }
    session.profile.inventory.scrip = session.profile.inventory.scrip + price;
    Some(price)
}

proof fn lemma_without_item_len(items: Seq<GraftItem>, id: u64)
    ensures
        without_item(items, id).len() <= items.len(),
    decreases items.len(),
{
    if items.len() > 0 {
        lemma_without_item_len(items.drop_last(), id);
    }
}

/// The factory anchoring a settlement's region.
pub open spec fn watched_factory(data: GameData, settlement_id: Seq<char>) -> Option<Seq<char>> {
    match data.settlement_named(settlement_id) {
        Some(s) => match data.world.region_named(s.region@) {
            Some(r) => Some(r.gestarium_id@),
            None => None,
        },
        None => None,
    }
}

/// A settlement offers to fund the watch while its region's factory is
/// reseeded, not yet watched, and has not relapsed.
pub open spec fn watch_on_offer(data: GameData, ws: WorldState, settlement_id: Seq<char>) -> bool {
    match watched_factory(data, settlement_id) {
        Some(fid) => {
            let f = ws.state_of(fid);
            f.verdict == Some(Verdict::Reseed) && !f.invested && !f.relapsed
        },
        None => false,
    }
}

/// Whether the settlement's hub offers to fund the watch.
pub fn watch_offered(data: &GameData, session: &GameSession, settlement_id: &str) -> (r: bool)
    ensures
        r == watch_on_offer(*data, session.world_state, settlement_id@),
{
    let factory_id: &str = match data.find_settlement(settlement_id) {
        Some(s) => match data.world.region(s.region.as_str()) {
            Some(r) => r.gestarium_id.as_str(),
            None => return false,
        },
        None => return false,
    };
    let f = session.world_state.factory(factory_id);
    matches!(f.verdict, Some(Verdict::Reseed)) && !f.invested && !f.relapsed
}

/// How funding a watch went.
#[derive(Debug, Clone, Copy, PartialEq, Eq, Structural)]
pub enum Funding {
    /// The settlement or its region is unknown.
    NoFactory,
    NotEnoughScrip,
    Funded,
}

/// Funds the watch of a settlement's region: stewardship against relapse.
pub fn fund_watch(session: &mut GameSession, data: &GameData, settlement_id: &str, cost: i64) -> (r: Funding)
    requires
        old(session).world_state.wf(),
        old(session).profile.inventory.scrip >= cost ==> old(session).profile.inventory.scrip - cost <= i64::MAX,
    ensures
        final(session).world_state.wf(),
        match watched_factory(*data, settlement_id@) {
            None => r == Funding::NoFactory && *final(session) == *old(session),
            Some(fid) => if old(session).profile.inventory.scrip < cost {
                r == Funding::NotEnoughScrip && *final(session) == *old(session)
            } else {
                &&& r == Funding::Funded
                &&& final(session).profile.inventory.scrip == old(session).profile.inventory.scrip - cost
                &&& final(session).profile.inventory.items == old(session).profile.inventory.items
                &&& final(session).profile.inventory.next_item_id == old(session).profile.inventory.next_item_id
                &&& final(session).profile.rider == old(session).profile.rider
                &&& final(session).world_state.state_of(fid)
                    == (FactoryState { invested: true, ..old(session).world_state.state_of(fid) })
                &&& forall|other: Seq<char>| other != fid ==> final(session).world_state.state_of(other)
                    == old(session).world_state.state_of(other)
                &&& final(session).story_flags == old(session).story_flags
                &&& final(session).journal == old(session).journal
                &&& final(session).steps == old(session).steps
                &&& final(session).battles_fought == old(session).battles_fought
                &&& final(session).location == old(session).location
            },
        },
{
    let factory_id: &str = match data.find_settlement(settlement_id) {
        Some(s) => match data.world.region(s.region.as_str()) {
            Some(r) => r.gestarium_id.as_str(),
            None => return Funding::NoFactory,
        },
        None => return Funding::NoFactory,
    };
    if session.profile.inventory.scrip < cost {
        return Funding::NotEnoughScrip;
    }
    session.profile.inventory.scrip = session.profile.inventory.scrip - cost;
    let ghost mid = session.world_state.factories@;
    let state = session.world_state.factory_mut(factory_id);
    state.invested = true;
    proof {
        crate::model::worldstate::lemma_factory_write_read(mid, session.world_state.factories@, factory_id@, *state);
        crate::model::worldstate::lemma_factory_mut_keeps_wf(mid, session.world_state.factories@, factory_id@);
    }
    Funding::Funded
}

/// The chronicle line for a verdict passed on the factory named `fname`.
pub open spec fn verdict_entry(v: Verdict, fname: Seq<char>) -> Seq<char> {
    "Passed "@ + verdict_name(v) + " on "@ + fname + "."@
}

/// The name a factory is chronicled under: its catalogue name, else its id.
pub open spec fn factory_label(data: GameData, factory_id: Seq<char>) -> Seq<char> {
    match data.factory_named(factory_id) {
        Some(f) => f.name@,
        None => factory_id,
    }
}

/// The word on the road after each verdict.
pub open spec fn verdict_message_text(v: Verdict) -> Seq<char> {
    match v {
        Verdict::Purge => "The wombs burn. The region is safe now — and it will never be alive again."@,
        Verdict::Reseed => "The vats hum a softer note. Green will come back here. Watch it closely."@,
        Verdict::Bind => "The machine acknowledges a new keeper. It does not ask what you'll grow."@,
    }
}

pub fn verdict_message(v: Verdict) -> (s: &'static str)
    ensures
        s@ == verdict_message_text(v),
{
    match v {
        Verdict::Purge => "The wombs burn. The region is safe now — and it will never be alive again.",
        Verdict::Reseed => "The vats hum a softer note. Green will come back here. Watch it closely.",
        Verdict::Bind => "The machine acknowledges a new keeper. It does not ask what you'll grow.",
    }
}

/// Passes a verdict on a factory and chronicles it. Returns whether every
/// factory in the world has now been judged (the closing reflection opens).
pub fn choose_verdict(session: &mut GameSession, data: &GameData, factory_id: &str, verdict: Verdict) -> (all_done: bool)
    requires
        old(session).world_state.wf(),
    ensures
        final(session).world_state.wf(),
        final(session).world_state.state_of(factory_id@)
            == (FactoryState { verdict: Some(verdict), ..old(session).world_state.state_of(factory_id@) }),
        forall|other: Seq<char>| other != factory_id@ ==> final(session).world_state.state_of(other)
            == old(session).world_state.state_of(other),
        exists|line: String| {
            &&& line@ == verdict_entry(verdict, factory_label(*data, factory_id@))
            &&& final(session).journal@ == capped(
                old(session).journal@.push(JournalEntry { step: old(session).steps, text: line }),
            )
        },
        final(session).profile == old(session).profile,
        final(session).story_flags == old(session).story_flags,
        final(session).steps == old(session).steps,
        final(session).battles_fought == old(session).battles_fought,
        final(session).location == old(session).location,
        all_done == (data.factories@.len() > 0
            && judged_count(final(session).world_state.factories@, data.factories@) == data.factories@.len()),
{
    let ghost mid = session.world_state.factories@;
    let state = session.world_state.factory_mut(factory_id);
    state.verdict = Some(verdict);
    proof {
        crate::model::worldstate::lemma_factory_write_read(mid, session.world_state.factories@, factory_id@, *state);
        crate::model::worldstate::lemma_factory_mut_keeps_wf(mid, session.world_state.factories@, factory_id@);
    }
    let fname: &str = match data.find_factory(factory_id) {
        Some(f) => f.name.as_str(),
        None => factory_id,
    };
    let head = join3("Passed ", verdict.display_name(), " on ");
    let line = join3(head.as_str(), fname, ".");
    record(session, line);
    session.world_state.all_judged(data)
}

} // verus!
