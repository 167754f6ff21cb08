//! The player's live session: where they stand, what they carry, which
//! story flags are set, the world's verdicts and the chronicle.

use vstd::prelude::*;
use crate::model::journal::JournalEntry;
use crate::model::rider::Rider;
use crate::model::worldstate::WorldState;
use crate::text::same_text;

verus! {

#[derive(Debug, Clone)]
pub struct Location {
    pub map_id: String,
    pub x: i32,
    pub y: i32,
}

/// Whether a carried graft can be mounted as it is.
#[derive(Debug, Clone, Copy, PartialEq, Eq, Structural)]
pub enum GraftCondition {
    Intact,
    Damaged,
}

/// One piece of graftware in the bag.
#[derive(Debug, Clone)]
pub struct GraftItem {
    pub id: u64,
    pub def_id: String,
    pub condition: GraftCondition,
}

impl GraftItem {
    pub fn is_usable(&self) -> (r: bool)
        ensures
            r == (self.condition == GraftCondition::Intact),
    {
        matches!(self.condition, GraftCondition::Intact)
    }
}

#[derive(Debug, Clone)]
pub struct Inventory {
    pub scrip: i64,
    pub items: Vec<GraftItem>,
    /// The id the next granted graft receives.
    pub next_item_id: u64,
}

/// Index of the first item with the given id.
pub open spec fn item_index(items: Seq<GraftItem>, id: u64) -> Option<int> {
    if exists|i: int| 0 <= i < items.len() && #[trigger] items[i].id == id {
        Some(choose|i: int| 0 <= i < items.len() && items[i].id == id
            && forall|j: int| 0 <= j < i ==> items[j].id != id)
    } else {
        None
    }
}

impl Inventory {
    /// The item with the given id.
    pub fn item(&self, id: u64) -> (r: Option<&GraftItem>)
        ensures
            match item_index(self.items@, id) {
                Some(i) => r == Some(&self.items@[i]),
                None => r.is_none(),
            },
    {
        let mut i: usize = 0;
        while i < self.items.len()
            invariant
                i <= self.items@.len(),
                forall|j: int| 0 <= j < i ==> self.items@[j].id != id,
            decreases self.items@.len() - i,
        {
            if self.items[i].id == id {
                proof {
                    let its = self.items@;
                    let k = choose|k: int| 0 <= k < its.len() && its[k].id == id
                        && forall|j: int| 0 <= j < k ==> its[j].id != id;
                    assert(its[i as int].id == id);
                    if k > i {
                        assert(its[i as int].id != id);
                    }
                }
                return Some(&self.items[i]);
            }
            i = i + 1;
        }
        None
    }
}

#[derive(Debug, Clone)]
pub struct Profile {
    pub rider: Rider,
    pub inventory: Inventory,
}

impl Profile {
    /// Adds a graft to the bag under a fresh id.
    pub fn grant_graft(&mut self, def_id: &str, condition: GraftCondition)
        requires
            old(self).inventory.next_item_id < u64::MAX,
        ensures
            final(self).rider == old(self).rider,
            final(self).inventory.scrip == old(self).inventory.scrip,
            final(self).inventory.next_item_id == old(self).inventory.next_item_id + 1,
            final(self).inventory.items@.len() == old(self).inventory.items@.len() + 1,
            final(self).inventory.items@.drop_last() == old(self).inventory.items@,
            final(self).inventory.items@.last().id == old(self).inventory.next_item_id,
            final(self).inventory.items@.last().def_id@ == def_id@,
            final(self).inventory.items@.last().condition == condition,
    {
        let id = self.inventory.next_item_id;
        self.inventory.items.push(GraftItem { id, def_id: def_id.to_owned(), condition });
        self.inventory.next_item_id = id + 1;
        assert(self.inventory.items@.drop_last() =~= old(self).inventory.items@);
    }
}

#[derive(Debug, Clone)]
pub struct GameSession {
    pub profile: Profile,
    pub world_state: WorldState,
    /// Story flags that are set, each once.
    pub story_flags: Vec<String>,
    pub journal: Vec<JournalEntry>,
    /// Overworld steps taken: a rough clock.
    pub steps: u64,
    pub battles_fought: u32,
    pub location: Location,
}

/// Whether `flag` is among `flags`.
pub open spec fn flag_set(flags: Seq<String>, flag: Seq<char>) -> bool {
    exists|i: int| 0 <= i < flags.len() && #[trigger] flags[i]@ == flag
}

/// Whether a list of flags is set.
pub fn has_flag(flags: &Vec<String>, flag: &str) -> (r: bool)
    ensures
        r == flag_set(flags@, flag@),
{
    let mut i: usize = 0;
    while i < flags.len()
        invariant
            i <= flags@.len(),
            forall|j: int| 0 <= j < i ==> flags@[j]@ != flag@,
        decreases flags@.len() - i,
    {
        if same_text(flags[i].as_str(), flag) {
            assert(flags@[i as int]@ == flag@);
            return true;
        }
        i = i + 1;
    }
    false
}

/// Sets a flag, keeping each flag once.
pub fn set_flag(flags: &mut Vec<String>, flag: &str)
    ensures
        forall|f: Seq<char>| flag_set(final(flags)@, f) <==> (flag_set(old(flags)@, f) || f == flag@),
{
    if !has_flag(flags, flag) {
        flags.push(flag.to_owned());
        assert forall|f: Seq<char>| flag_set(flags@, f) <==> (flag_set(old(flags)@, f) || f == flag@) by {
            let n = old(flags)@.len() as int;
            if flag_set(old(flags)@, f) {
                let i = choose|i: int| 0 <= i < old(flags)@.len() && #[trigger] old(flags)@[i]@ == f;
                assert(flags@[i] == old(flags)@[i]);
            }
            if f == flag@ {
                assert(flags@[n]@ == f);
            }
            if flag_set(flags@, f) {
                let i = choose|i: int| 0 <= i < flags@.len() && #[trigger] flags@[i]@ == f;
                if i < n {
                    assert(flags@[i] == old(flags)@[i]);
                }
            }
        }
    }
}

} // verus!
