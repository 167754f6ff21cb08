//! World definitions: regions and connected overworld tile maps.
//!
//! Maps are authored as text rows: `#` tree/wall, `.` ground, `,` path,
//! `g` tall grass (encounters), `~` water, `^` rocks, `s` settlement door,
//! `D` gestarium door; inside a factory, `=` deck plating, `%` vat spill,
//! `V` a gestation vat and `H` the factory's heart.

use vstd::prelude::*;
use vstd::string::*;
use crate::text::{Keyed, first_match, lemma_first_match, same_text};

verus! {

#[derive(Debug, Clone, Copy, PartialEq, Eq, Structural)]
pub enum TileKind {
    Ground,
    Path,
    Grass,
    Tree,
    Water,
    Rock,
    SettlementDoor,
    GestariumDoor,
    /// Factory floor plating.
    DeckPlate,
    /// Spilled gestation fluid on a factory floor.
    VatSpill,
    /// A gestation vat with a sleeping core inside: it blocks the way.
    Vat,
    /// The factory's heart: where the guardian waits and the verdict is passed.
    Heart,
}

/// The tile a map character stands for.
pub open spec fn char_tile(c: char) -> Option<TileKind> {
    if c == '.' {
        Some(TileKind::Ground)
    } else if c == ',' {
        Some(TileKind::Path)
    } else if c == 'g' {
        Some(TileKind::Grass)
    } else if c == '#' {
        Some(TileKind::Tree)
    } else if c == '~' {
        Some(TileKind::Water)
    } else if c == '^' {
        Some(TileKind::Rock)
    } else if c == 's' {
        Some(TileKind::SettlementDoor)
    } else if c == 'D' {
        Some(TileKind::GestariumDoor)
    } else if c == '=' {
        Some(TileKind::DeckPlate)
    } else if c == '%' {
        Some(TileKind::VatSpill)
    } else if c == 'V' {
        Some(TileKind::Vat)
    } else if c == 'H' {
        Some(TileKind::Heart)
    } else {
        None
    }
}

pub open spec fn tile_walkable(t: TileKind) -> bool {
    !(t == TileKind::Tree || t == TileKind::Water || t == TileKind::Rock || t == TileKind::Vat)
}

impl TileKind {
    pub fn from_char(c: char) -> (r: Option<TileKind>)
        ensures
            r == char_tile(c),
    {
        match c {
            '.' => Some(TileKind::Ground),
            ',' => Some(TileKind::Path),
            'g' => Some(TileKind::Grass),
            '#' => Some(TileKind::Tree),
            '~' => Some(TileKind::Water),
            '^' => Some(TileKind::Rock),
            's' => Some(TileKind::SettlementDoor),
            'D' => Some(TileKind::GestariumDoor),
            '=' => Some(TileKind::DeckPlate),
            '%' => Some(TileKind::VatSpill),
            'V' => Some(TileKind::Vat),
            'H' => Some(TileKind::Heart),
            _ => None,
        }
    }

    /// Trees, water, rocks and vats block movement; everything else,
    /// the heart included, can be walked.
    pub fn walkable(self) -> (r: bool)
        ensures
            r == tile_walkable(self),
    {
        !matches!(self, TileKind::Tree | TileKind::Water | TileKind::Rock | TileKind::Vat)
    }

    /// Only tall grass triggers wild encounters.
    pub fn encounter_prone(self) -> (r: bool)
        ensures
            r == (self == TileKind::Grass),
    {
        matches!(self, TileKind::Grass)
    }
}

/// How a region currently stands, as authored data.
#[derive(Debug, Clone, Copy, PartialEq, Eq, Structural)]
pub enum RegionMood {
    /// Factory still active: dangerous wilds, wary settlements.
    Threatened,
    /// Purged: safe but dead ground.
    Dead,
    /// Reseeded: reviving, lush, and quietly at risk.
    Reviving,
    /// Bound: the player runs the machine.
    Claimed,
    /// Relapsed: militarized, hostile again.
    Relapsed,
}

#[derive(Debug, Clone)]
pub struct RegionDef {
    pub id: String,
    pub name: String,
    pub description: String,
    /// Content tier band for wilds and factory output.
    pub tier: u32,
    pub gestarium_id: String,
    pub biomes: Vec<String>,
}

#[derive(Debug, Clone)]
pub struct EncounterEntry {
    pub species: String,
    pub weight: u32,
    /// Pack size bounds (inclusive).
    pub min: u32,
    pub max: u32,
}

/// Default pack bound of an encounter entry.
pub fn one() -> (r: u32)
    ensures
        r == 1,
{
    1
}

#[derive(Debug, Clone)]
pub struct WarpDef {
    pub x: i32,
    pub y: i32,
    pub to_map: String,
    pub to_x: i32,
    pub to_y: i32,
}

/// Story conditions that gate a dialogue rule.
#[derive(Debug, Clone)]
pub struct DialogueCond {
    /// Every one of these flags must be set.
    pub flags_all: Vec<String>,
    /// None of these flags may be set.
    pub flags_none: Vec<String>,
    /// This factory's heart must have been defeated.
    pub heart_defeated: Option<String>,
    /// (factory, verdict name): the factory must carry that verdict.
    pub verdict: Option<(String, String)>,
    /// (factory, wanted): the factory's relapse must equal `wanted`.
    pub relapsed: Option<(String, bool)>,
}

impl Default for DialogueCond {
    fn default() -> (c: DialogueCond)
        ensures
            c.flags_all@.len() == 0,
            c.flags_none@.len() == 0,
            c.heart_defeated.is_none(),
            c.verdict.is_none(),
            c.relapsed.is_none(),
    {
        DialogueCond {
            flags_all: Vec::new(),
            flags_none: Vec::new(),
            heart_defeated: None,
            verdict: None,
            relapsed: None,
        }
    }
}

/// A flag-gated block of NPC lines with one-shot effects.
#[derive(Debug, Clone)]
pub struct DialogueRule {
    pub when: Option<DialogueCond>,
    pub lines: Vec<String>,
    pub set_flags: Vec<String>,
    pub give_scrip: i64,
    pub give_grafts: Vec<String>,
}

#[derive(Debug, Clone)]
pub struct NpcDef {
    pub id: String,
    pub x: i32,
    pub y: i32,
    pub name: String,
    /// Dialogue lines shown in order on interaction.
    pub lines: Vec<String>,
    /// Conditional dialogue, first passing rule wins.
    pub dialogue: Vec<DialogueRule>,
}

/// Overworld map or a factory floor.
#[derive(Debug, Clone, Copy, PartialEq, Eq, Structural)]
pub enum MapKind {
    Overworld,
    Factory,
}

#[derive(Debug, Clone)]
pub struct MapDef {
    pub id: String,
    pub name: String,
    pub region: String,
    pub kind: MapKind,
    /// The factory a floor belongs to.
    pub factory_id: Option<String>,
    pub rows: Vec<String>,
    pub spawn_x: i32,
    pub spawn_y: i32,
    /// Chance per grass step of a wild encounter, in parts per million.
    pub encounter_rate: u32,
    pub encounters: Vec<EncounterEntry>,
    pub warps: Vec<WarpDef>,
    pub npcs: Vec<NpcDef>,
    /// Which settlement the `s` doors open.
    pub settlement: Option<String>,
}

/// Whether some NPC stands at `(x, y)`.
pub open spec fn npc_stands_at(npcs: Seq<NpcDef>, x: i32, y: i32) -> bool {
    exists|i: int| 0 <= i < npcs.len() && #[trigger] npcs[i].x == x && npcs[i].y == y
}

/// Index of the first NPC standing at `(x, y)`.
pub open spec fn first_npc_at(npcs: Seq<NpcDef>, x: i32, y: i32) -> Option<int> {
    if npc_stands_at(npcs, x, y) {
        Some(choose|i: int| 0 <= i < npcs.len() && npcs[i].x == x && npcs[i].y == y
            && forall|j: int| 0 <= j < i ==> !(npcs[j].x == x && npcs[j].y == y))
    } else {
        None
    }
}

/// Index of the first warp placed at `(x, y)`.
pub open spec fn first_warp_at(warps: Seq<WarpDef>, x: i32, y: i32) -> Option<int> {
    if exists|i: int| 0 <= i < warps.len() && #[trigger] warps[i].x == x && warps[i].y == y {
        Some(choose|i: int| 0 <= i < warps.len() && warps[i].x == x && warps[i].y == y
            && forall|j: int| 0 <= j < i ==> !(warps[j].x == x && warps[j].y == y))
    } else {
        None
    }
}

impl MapDef {
    /// Character count of the first row (0 for an empty map).
    pub open spec fn row_length(self) -> nat {
        if self.rows@.len() == 0 {
            0
        } else {
            self.rows@[0]@.len()
        }
    }

    /// The tile at `(x, y)`; everything off the map, and every character
    /// that names no tile, reads as a tree.
    pub open spec fn tile_at(self, x: i32, y: i32) -> TileKind {
        if x < 0 || y < 0 || y >= (self.rows@.len() as i32) {
            TileKind::Tree
        } else if (x as int) < self.rows@[y as int]@.len() {
            match char_tile(self.rows@[y as int]@[x as int]) {
                Some(t) => t,
                None => TileKind::Tree,
            }
        } else {
            TileKind::Tree
        }
    }

    pub open spec fn walkable_at(self, x: i32, y: i32) -> bool {
        tile_walkable(self.tile_at(x, y)) && !npc_stands_at(self.npcs@, x, y)
    }

    pub fn width(&self) -> (w: i32)
        ensures
            w == self.row_length() as i32,
    {
        let n: usize = if self.rows.len() == 0 {
            0
        } else {
            self.rows[0].as_str().unicode_len()
        };
        n as i32
    }

    pub fn height(&self) -> (h: i32)
        ensures
            h == self.rows@.len() as i32,
    {
        self.rows.len() as i32
    }

    pub fn tile(&self, x: i32, y: i32) -> (t: TileKind)
        ensures
            t == self.tile_at(x, y),
    {
        if x < 0 || y < 0 || y >= self.height() {
            return TileKind::Tree;
        }
        let n: usize = self.rows.len();
        proof {
            lemma_truncated_len_bound(n, y);
        }
        let row = self.rows[y as usize].as_str();
        let xi = x as usize;
        if xi < row.unicode_len() {
            match TileKind::from_char(row.get_char(xi)) {
                Some(t) => t,
                None => TileKind::Tree,
            }
        } else {
            TileKind::Tree
        }
    }

    /// Walkable terrain with no NPC standing on it.
    pub fn walkable(&self, x: i32, y: i32) -> (r: bool)
        ensures
            r == self.walkable_at(x, y),
    {
        let t = self.tile(x, y);
        if !t.walkable() {
            return false;
        }
        let mut i: usize = 0;
        while i < self.npcs.len()
            invariant
                i <= self.npcs@.len(),
                forall|j: int| 0 <= j < i ==> !(self.npcs@[j].x == x && self.npcs@[j].y == y),
            decreases self.npcs@.len() - i,
        {
            if self.npcs[i].x == x && self.npcs[i].y == y {
                assert(npc_stands_at(self.npcs@, x, y));
                return false;
            }
            i = i + 1;
        }
        true
    }

    pub fn warp_at(&self, x: i32, y: i32) -> (r: Option<&WarpDef>)
        ensures
            match first_warp_at(self.warps@, x, y) {
                Some(i) => r == Some(&self.warps@[i]),
                None => r.is_none(),
            },
    {
        let mut i: usize = 0;
        while i < self.warps.len()
            invariant
                i <= self.warps@.len(),
                forall|j: int| 0 <= j < i ==> !(self.warps@[j].x == x && self.warps@[j].y == y),
            decreases self.warps@.len() - i,
        {
            if self.warps[i].x == x && self.warps[i].y == y {
                proof {
                    let ws = self.warps@;
                    let k = choose|k: int| 0 <= k < ws.len() && ws[k].x == x && ws[k].y == y
                        && forall|j: int| 0 <= j < k ==> !(ws[j].x == x && ws[j].y == y);
                    assert(ws[i as int].x == x && ws[i as int].y == y);
                    if k > i {
                        assert(!(ws[i as int].x == x && ws[i as int].y == y));
                    }
                }
                return Some(&self.warps[i]);
            }
            i = i + 1;
        }
        None
    }

    pub fn npc_at(&self, x: i32, y: i32) -> (r: Option<&NpcDef>)
        ensures
            match first_npc_at(self.npcs@, x, y) {
                Some(i) => r == Some(&self.npcs@[i]),
                None => r.is_none(),
            },
    {
        let mut i: usize = 0;
        while i < self.npcs.len()
            invariant
                i <= self.npcs@.len(),
                forall|j: int| 0 <= j < i ==> !(self.npcs@[j].x == x && self.npcs@[j].y == y),
            decreases self.npcs@.len() - i,
        {
            if self.npcs[i].x == x && self.npcs[i].y == y {
                proof {
                    let ns = self.npcs@;
                    assert(npc_stands_at(ns, x, y));
                    let k = choose|k: int| 0 <= k < ns.len() && ns[k].x == x && ns[k].y == y
                        && forall|j: int| 0 <= j < k ==> !(ns[j].x == x && ns[j].y == y);
                    if k > i {
                        assert(!(ns[i as int].x == x && ns[i as int].y == y));
                    }
                }
                return Some(&self.npcs[i]);
            }
            i = i + 1;
        }
        None
    }
}

/// Everything off the map (left of it, above it, or below its last row, as
/// `height` counts rows) reads as a tree, and nobody walks there.
pub proof fn lemma_off_map_blocked(map: MapDef, x: i32, y: i32)
    requires
        x < 0 || y < 0 || y >= (map.rows@.len() as i32),
    ensures
        map.tile_at(x, y) == TileKind::Tree,
        !map.walkable_at(x, y),
{
}

/// A non-negative row index below the truncated row count is a real row.
proof fn lemma_truncated_len_bound(n: usize, y: i32)
    requires
        0 <= y,
        y < (n as i32),
    ensures
        (y as int) < (n as int),
{
    assert(0 <= y && y < (n as i32) ==> (y as usize) < n) by (bit_vector);
}

#[derive(Debug, Clone)]
pub struct WorldDef {
    pub start_map: String,
    pub regions: Vec<RegionDef>,
    pub maps: Vec<MapDef>,
}

pub open spec fn map_ids(maps: Seq<MapDef>) -> Seq<Seq<char>> {
    maps.map_values(|m: MapDef| m.id@)
}

pub open spec fn region_ids(regions: Seq<RegionDef>) -> Seq<Seq<char>> {
    regions.map_values(|r: RegionDef| r.id@)
}

impl WorldDef {
    /// The region with the given id, as a spec.
    pub open spec fn region_named(self, id: Seq<char>) -> Option<RegionDef> {
        match first_match(region_ids(self.regions@), id) {
            Some(i) => Some(self.regions@[i]),
            None => None,
        }
    }

    pub open spec fn map_named(self, id: Seq<char>) -> Option<MapDef> {
        match first_match(map_ids(self.maps@), id) {
            Some(i) => Some(self.maps@[i]),
            None => None,
        }
    }

    pub fn map(&self, id: &str) -> (r: Option<&MapDef>)
        ensures
            r == (match self.map_named(id@) {
                Some(m) => Some(&m),
                None => None::<&MapDef>,
            }),
    {
        let mut i: usize = 0;
        while i < self.maps.len()
            invariant
                i <= self.maps@.len(),
                forall|j: int| 0 <= j < i ==> map_ids(self.maps@)[j] != id@,
            decreases self.maps@.len() - i,
        {
            if same_text(self.maps[i].id.as_str(), id) {
                proof { lemma_first_match(map_ids(self.maps@), id@, i as int); }
                return Some(&self.maps[i]);
            }
            i = i + 1;
        }
        None
    }

    pub fn region(&self, id: &str) -> (r: Option<&RegionDef>)
        ensures
            r == (match self.region_named(id@) {
                Some(g) => Some(&g),
                None => None::<&RegionDef>,
            }),
    {
        let mut i: usize = 0;
        while i < self.regions.len()
            invariant
                i <= self.regions@.len(),
                forall|j: int| 0 <= j < i ==> region_ids(self.regions@)[j] != id@,
            decreases self.regions@.len() - i,
        {
            if same_text(self.regions[i].id.as_str(), id) {
                proof { lemma_first_match(region_ids(self.regions@), id@, i as int); }
                return Some(&self.regions[i]);
            }
            i = i + 1;
        }
        None
    }
}

impl Keyed for MapDef {
    open spec fn key(&self) -> Seq<char> {
        self.id@
    }

    fn key_text(&self) -> (r: &str) {
        self.id.as_str()
    }
}

impl Keyed for RegionDef {
    open spec fn key(&self) -> Seq<char> {
        self.id@
    }

    fn key_text(&self) -> (r: &str) {
        self.id.as_str()
    }
}

} // verus!
