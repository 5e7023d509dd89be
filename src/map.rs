//! Floor maps: a grid of tiles, each with terrain, an optional occupant and
//! an item list, plus the player's observed snapshot of each tile.
use vstd::prelude::*;
use crate::catalog::{Catalog, TileKind};
use crate::chara::CharaId;
use crate::geom::{Direction, Vec2d};
use crate::item::{Item, ItemList, stacks_appended, stacks_removed, total_units, units_of_idx};
use crate::rng::{Rng, xorshift, xorshift_n};

verus! {

/// The most items of one tile that the observed snapshot records.
pub const MAX_ITEM_FOR_DRAW: usize = 5;

/// The number of random draws before the empty-tile search scans the map.
pub const MAX_TRY: usize = 10;

#[derive(Clone, Copy, Debug, PartialEq, Eq, Structural)]
pub enum StairsKind {
    UpStairs,
    DownStairs,
}

/// A special marker on a tile.
#[derive(Clone, Copy, Debug, PartialEq, Eq, Structural)]
pub enum SpecialTileKind {
    /// Stairs that lead to floor `dest_floor` of the same site.
    Stairs { dest_floor: u32, kind: StairsKind },
    /// The symbol of a site on a region map.
    SiteSymbol { symbol: u32 },
}

/// Ground truth of one tile.
#[derive(Debug)]
pub struct TileInfo {
    /// Template index of the floor tile.
    pub main_tile: u32,
    pub wall: Option<u32>,
    pub deco: Option<u32>,
    pub special: Option<SpecialTileKind>,
    pub chara: Option<CharaId>,
    pub item_list: ItemList,
}

/// What the player last saw of a tile.
#[derive(Debug)]
pub struct ObservedTile {
    /// Whether the tile was ever seen.
    pub tile: bool,
    pub wall: Option<u32>,
    pub deco: Option<u32>,
    pub special: Option<SpecialTileKind>,
    /// (template index, image variation) of each item seen, in list order.
    pub items: Vec<(u32, u32)>,
}

/// A `w` × `h` grid of tiles stored row by row.
#[derive(Debug)]
pub struct FloorMap {
    pub w: u32,
    pub h: u32,
    pub tile: Vec<TileInfo>,
    pub observed_tile: Vec<ObservedTile>,
    /// Where characters arriving without stairs are put, first choice first.
    pub entrance: Vec<Vec2d>,
}

/// `special` marks stairs to floor `dest_floor`.
pub open spec fn is_stairs_to(special: Option<SpecialTileKind>, dest_floor: u32) -> bool {
    special matches Some(SpecialTileKind::Stairs { dest_floor: f, .. }) && f == dest_floor
}

/// A tile on which something can be placed: no wall, no occupant, no
/// special marker, and ground terrain.
pub open spec fn tile_is_empty(t: TileInfo, catalog: &Catalog) -> bool {
    &&& t.wall is None
    &&& t.chara is None
    &&& t.special is None
    &&& catalog.tile_kind_spec(t.main_tile) == TileKind::Ground
}

/// The number of empty tiles in `s`.
pub open spec fn count_empty(s: Seq<TileInfo>, catalog: &Catalog) -> int
    decreases s.len(),
{
    if s.len() == 0 {
        0
    } else {
        count_empty(s.drop_last(), catalog) + if tile_is_empty(s.last(), catalog) {
            1int
        } else {
            0
        }
    }
}

pub proof fn lemma_count_empty_bounds(s: Seq<TileInfo>, catalog: &Catalog)
    ensures
        0 <= count_empty(s, catalog) <= s.len(),
        count_empty(s, catalog) == 0 <==> forall|i: int| 0 <= i < s.len() ==> !tile_is_empty(#[trigger] s[i], catalog),
    decreases s.len(),
{
    if s.len() > 0 {
        lemma_count_empty_bounds(s.drop_last(), catalog);
        if count_empty(s, catalog) == 0 {
            assert forall|i: int| 0 <= i < s.len() implies !tile_is_empty(#[trigger] s[i], catalog) by {
                if i < s.len() - 1 {
                    assert(s[i] == s.drop_last()[i]);
                }
            }
        }
        if forall|i: int| 0 <= i < s.len() ==> !tile_is_empty(#[trigger] s[i], catalog) {
            assert forall|i: int| 0 <= i < s.drop_last().len() implies !tile_is_empty(#[trigger] s.drop_last()[i], catalog) by {
                assert(s.drop_last()[i] == s[i]);
            }
        }
    }
}

pub proof fn lemma_count_empty_take(s: Seq<TileInfo>, i: int, catalog: &Catalog)
    requires
        0 <= i < s.len(),
    ensures
        count_empty(s.take(i + 1), catalog) == count_empty(s.take(i), catalog) + if tile_is_empty(s[i], catalog) { 1int } else { 0 },
{
    assert(s.take(i + 1).drop_last() =~= s.take(i));
}

pub proof fn lemma_count_empty_update(s: Seq<TileInfo>, i: int, t: TileInfo, catalog: &Catalog)
    requires
        0 <= i < s.len(),
    ensures
        count_empty(s.update(i, t), catalog) == count_empty(s, catalog)
            - (if tile_is_empty(s[i], catalog) { 1int } else { 0 })
            + (if tile_is_empty(t, catalog) { 1int } else { 0 }),
    decreases s.len(),
{
    if i == s.len() - 1 {
        assert(s.update(i, t).drop_last() =~= s.drop_last());
    } else {
        assert(s.update(i, t).drop_last() =~= s.drop_last().update(i, t));
        lemma_count_empty_update(s.drop_last(), i, t, catalog);
    }
}

/// The (template index, image variation) pairs that a snapshot records of
/// an item list: those of its first `MAX_ITEM_FOR_DRAW` stacks.
pub open spec fn observed_items(s: Seq<(Item, u32)>) -> Seq<(u32, u32)> {
    let n = if s.len() < MAX_ITEM_FOR_DRAW { s.len() } else { MAX_ITEM_FOR_DRAW as nat };
    Seq::new(n, |j: int| (s[j].0.idx, s[j].0.image_variation))
}

/// The tile position at index `i` of a grid `w` tiles wide.
pub open spec fn index_pos(w: u32, i: int) -> Vec2d {
    Vec2d((i % w as int) as i32, (i / w as int) as i32)
}

/// The index of position `p` in a grid `w` tiles wide.
pub open spec fn pos_index(w: u32, p: Vec2d) -> int {
    p.1 as int * w as int + p.0 as int
}

/// The position that probe `t` of the empty-tile search draws, from
/// generator state `s`: two draws per probe, column then row.
pub open spec fn probe_pos(w: u32, h: u32, s: u64, t: nat) -> Vec2d {
    Vec2d((xorshift_n(s, 2 * t + 1) % (w as u64)) as i32, (xorshift_n(s, 2 * t + 2) % (h as u64)) as i32)
}

/// The first probe, from `t` on, that lands on an empty tile.
pub open spec fn first_hit(tiles: Seq<TileInfo>, w: u32, h: u32, catalog: &Catalog, s: u64, t: nat) -> Option<nat>
    decreases MAX_TRY - t,
{
    if t >= MAX_TRY {
        None
    } else if tile_is_empty(tiles[pos_index(w, probe_pos(w, h, s, t))], catalog) {
        Some(t)
    } else {
        first_hit(tiles, w, h, catalog, s, t + 1)
    }
}

/// The index of the empty tile that has `r` empty tiles before it.
pub open spec fn nth_empty(tiles: Seq<TileInfo>, catalog: &Catalog, r: int) -> int {
    choose|i: int| 0 <= i < tiles.len() && tile_is_empty(tiles[i], catalog) && count_empty(tiles.take(i), catalog) == r
}

/// The result of the empty-tile search on a `w` × `h` grid from generator
/// state `s`, and the generator state after it: the first of `MAX_TRY`
/// probes that hits an empty tile; failing that, the empty tile whose rank
/// is the next draw modulo the number of empty tiles.
pub open spec fn choose_spec(tiles: Seq<TileInfo>, w: u32, h: u32, catalog: &Catalog, s: u64) -> (Option<Vec2d>, u64) {
    if w == 0 || h == 0 {
        (None, s)
    } else {
        match first_hit(tiles, w, h, catalog, s, 0) {
            Some(t) => (Some(probe_pos(w, h, s, t)), xorshift_n(s, 2 * t + 2)),
            None => {
                let n = count_empty(tiles, catalog);
                if n == 0 {
                    (None, xorshift_n(s, 2 * MAX_TRY as nat))
                } else {
                    let r = xorshift_n(s, 2 * MAX_TRY as nat + 1) % (n as u64);
                    (Some(index_pos(w, nth_empty(tiles, catalog, r as int))), xorshift_n(s, 2 * MAX_TRY as nat + 1))
                }
            },
        }
    }
}

pub proof fn lemma_count_empty_prefix_mono(s: Seq<TileInfo>, a: int, b: int, catalog: &Catalog)
    requires
        0 <= a <= b <= s.len(),
    ensures
        count_empty(s.take(a), catalog) <= count_empty(s.take(b), catalog),
    decreases b - a,
{
    if a < b {
        lemma_count_empty_prefix_mono(s, a, b - 1, catalog);
        lemma_count_empty_take(s, b - 1, catalog);
    }
}

/// At most one tile has exactly `r` empty tiles before it and is empty.
pub proof fn lemma_nth_empty_unique(s: Seq<TileInfo>, i: int, r: int, catalog: &Catalog)
    requires
        0 <= i < s.len(),
        tile_is_empty(s[i], catalog),
        count_empty(s.take(i), catalog) == r,
    ensures
        nth_empty(s, catalog, r) == i,
{
    let k = nth_empty(s, catalog, r);
    if k != i {
        let (a, b) = if k < i { (k, i) } else { (i, k) };
        lemma_count_empty_take(s, a, catalog);
        lemma_count_empty_prefix_mono(s, a + 1, b, catalog);
    }
}

impl FloorMap {
    pub open spec fn wf(&self) -> bool {
        &&& self.tile@.len() == self.w as int * self.h as int
        &&& self.observed_tile@.len() == self.tile@.len()
        &&& self.w <= i32::MAX
        &&& self.h <= i32::MAX
        &&& forall|i: int| 0 <= i < self.tile@.len() ==> (#[trigger] self.tile@[i]).item_list.wf()
        &&& forall|i: int, j: int|
            0 <= i < j < self.tile@.len() && self.tile@[i].chara is Some ==> self.tile@[i].chara != self.tile@[j].chara
    }

    /// Every floor tile has a template in `catalog`.
    pub open spec fn tiles_known(&self, catalog: &Catalog) -> bool {
        forall|i: int| 0 <= i < self.tile@.len() ==> catalog.has_tile(#[trigger] self.tile@[i].main_tile)
    }

    /// Whether the map is well formed: `wf`.
    pub fn is_valid(&self) -> (r: bool)
        ensures
            r == self.wf(),
    {
        if self.w > 0x7FFF_FFFFu32 || self.h > 0x7FFF_FFFFu32 {
            return false;
        }
        proof {
            let (w, h) = (self.w as int, self.h as int);
            assert(w * h <= 0x7FFF_FFFF * 0x7FFF_FFFF) by (nonlinear_arith)
                requires 0 <= w <= 0x7FFF_FFFF, 0 <= h <= 0x7FFF_FFFF;
        }
        if self.tile.len() as u64 != self.w as u64 * self.h as u64 || self.observed_tile.len() != self.tile.len() {
            return false;
        }
        let mut i: usize = 0;
        while i < self.tile.len()
            invariant
                i <= self.tile@.len(),
                forall|a: int| 0 <= a < i ==> (#[trigger] self.tile@[a]).item_list.wf(),
                forall|a: int, b: int| 0 <= a < b < i && self.tile@[a].chara is Some ==> self.tile@[a].chara != self.tile@[b].chara,
            decreases self.tile@.len() - i,
        {
            if !self.tile[i].item_list.is_valid() {
                return false;
            }
            if self.tile[i].chara.is_some() {
                let mut j: usize = 0;
                while j < i
                    invariant
                        j <= i,
                        i < self.tile@.len(),
                        self.tile@[i as int].chara is Some,
                        forall|a: int| 0 <= a < j ==> self.tile@[a].chara != self.tile@[i as int].chara,
                    decreases i - j,
                {
                    if self.tile[j].chara == self.tile[i].chara {
                        proof {
                            assert(self.tile@[j as int].chara is Some);
                        }
                        return false;
                    }
                    j = j + 1;
                }
            }
            i = i + 1;
        }
        true
    }

    /// Whether every floor tile has a template in `catalog`: `tiles_known`.
    pub fn all_tiles_known(&self, catalog: &Catalog) -> (r: bool)
        ensures
            r == self.tiles_known(catalog),
    {
        let mut i: usize = 0;
        while i < self.tile.len()
            invariant
                i <= self.tile@.len(),
                forall|a: int| 0 <= a < i ==> catalog.has_tile(#[trigger] self.tile@[a].main_tile),
            decreases self.tile@.len() - i,
        {
            if self.tile[i].main_tile as usize >= catalog.tiles.len() {
                return false;
            }
            i = i + 1;
        }
        true
    }

    pub open spec fn in_bounds(&self, p: Vec2d) -> bool {
        0 <= p.0 < self.w && 0 <= p.1 < self.h
    }

    pub open spec fn index_of(&self, p: Vec2d) -> int {
        p.1 as int * self.w as int + p.0 as int
    }

    pub open spec fn pos_of(&self, i: int) -> Vec2d {
        Vec2d((i % self.w as int) as i32, (i / self.w as int) as i32)
    }

    pub open spec fn tile_at(&self, p: Vec2d) -> TileInfo {
        self.tile@[self.index_of(p)]
    }

    /// Whether character `cid` stands on some tile.
    pub open spec fn holds_chara(&self, cid: CharaId) -> bool {
        exists|i: int| 0 <= i < self.tile@.len() && self.tile@[i].chara == Some(cid)
    }

    /// A map of `w` × `h` tiles of floor template `main_tile`, with nothing on
    /// them and nothing observed.
    pub fn new(w: u32, h: u32, main_tile: u32) -> (r: FloorMap)
        requires
            w <= i32::MAX,
            h <= i32::MAX,
            w as int * h as int <= usize::MAX,
        ensures
            r.wf(),
            r.w == w,
            r.h == h,
            forall|i: int| 0 <= i < r.tile@.len() ==> {
                let t = #[trigger] r.tile@[i];
                &&& t.main_tile == main_tile
                &&& t.wall is None
                &&& t.deco is None
                &&& t.special is None
                &&& t.chara is None
                &&& t.item_list.items@.len() == 0
            },
            forall|i: int| 0 <= i < r.observed_tile@.len() ==> !(#[trigger] r.observed_tile@[i]).tile,
            r.entrance@.len() == 0,
    {
        let n: usize = w as usize * h as usize;
        let mut tile: Vec<TileInfo> = Vec::new();
        let mut observed_tile: Vec<ObservedTile> = Vec::new();
        let mut i: usize = 0;
        while i < n
            invariant
                i <= n,
                tile@.len() == i,
                observed_tile@.len() == i,
                forall|j: int| 0 <= j < i ==> {
                    let t = #[trigger] tile@[j];
                    &&& t.main_tile == main_tile
                    &&& t.wall is None
                    &&& t.deco is None
                    &&& t.special is None
                    &&& t.chara is None
                    &&& t.item_list.items@.len() == 0
                    &&& t.item_list.wf()
                },
                forall|j: int| 0 <= j < i ==> !(#[trigger] observed_tile@[j]).tile,
            decreases n - i,
        {
            tile.push(TileInfo {
                main_tile,
                wall: None,
                deco: None,
                special: None,
                chara: None,
                item_list: ItemList::new(),
            });
            observed_tile.push(ObservedTile {
                tile: false,
                wall: None,
                deco: None,
                special: None,
                items: Vec::new(),
            });
            i = i + 1;
        }
        FloorMap { w, h, tile, observed_tile, entrance: Vec::new() }
    }

    pub fn is_inside(&self, p: Vec2d) -> (r: bool)
        ensures
            r == self.in_bounds(p),
    {
        0 <= p.0 && (p.0 as i64) < self.w as i64 && 0 <= p.1 && (p.1 as i64) < self.h as i64
    }

    pub proof fn lemma_index_in_range(&self, p: Vec2d)
        requires
            self.wf(),
            self.in_bounds(p),
        ensures
            0 <= self.index_of(p) < self.tile@.len(),
            self.pos_of(self.index_of(p)) == p,
    {
        let w = self.w as int;
        let h = self.h as int;
        let x = p.0 as int;
        let y = p.1 as int;
        assert(0 <= y * w + x < w * h) by (nonlinear_arith)
            requires 0 <= x < w, 0 <= y < h;
        vstd::arithmetic::div_mod::lemma_fundamental_div_mod_converse(y * w + x, w, y, x);
    }

    pub proof fn lemma_pos_of_in_range(&self, i: int)
        requires
            self.wf(),
            0 <= i < self.tile@.len(),
        ensures
            self.in_bounds(self.pos_of(i)),
            self.index_of(self.pos_of(i)) == i,
    {
        let w = self.w as int;
        let h = self.h as int;
        assert(w > 0) by (nonlinear_arith)
            requires 0 <= i < w * h, w >= 0, h >= 0;
        vstd::arithmetic::div_mod::lemma_fundamental_div_mod(i, w);
        vstd::arithmetic::div_mod::lemma_div_pos_is_pos(i, w);
        assert(i / w < h) by (nonlinear_arith)
            requires 0 <= i < w * h, w > 0, i == w * (i / w) + i % w, 0 <= i % w < w;
        vstd::arithmetic::div_mod::lemma_mod_bound(i, w);
        assert((i / w) * w == w * (i / w)) by (nonlinear_arith);
    }

    /// The position in the tile vector of the tile at `p`.
    pub fn index(&self, p: Vec2d) -> (r: usize)
        requires
            self.wf(),
            self.in_bounds(p),
        ensures
            r == self.index_of(p),
            r < self.tile@.len(),
    {
        let n = self.tile.len();
        proof {
            self.lemma_index_in_range(p);
            let w = self.w as int;
            let y = p.1 as int;
            assert(0 <= y * w) by (nonlinear_arith)
                requires 0 <= y, 0 <= w;
        }
        let row = p.1 as usize * self.w as usize;
        row + p.0 as usize
    }

    /// The position of the tile at index `i` of the tile vector.
    pub fn pos(&self, i: usize) -> (r: Vec2d)
        requires
            self.wf(),
            i < self.tile@.len(),
        ensures
            r == self.pos_of(i as int),
            self.in_bounds(r),
            self.index_of(r) == i,
    {
        proof {
            self.lemma_pos_of_in_range(i as int);
        }
        Vec2d((i % self.w as usize) as i32, (i / self.w as usize) as i32)
    }

    /// Whether a character could stand on `pos`: inside the map, no wall,
    /// and ground terrain.
    pub open spec fn passable_spec(&self, pos: Vec2d, catalog: &Catalog) -> bool {
        &&& self.in_bounds(pos)
        &&& self.tile_at(pos).wall is None
        &&& catalog.tile_kind_spec(self.tile_at(pos).main_tile) == TileKind::Ground
    }

    pub fn is_passable(&self, pos: Vec2d, catalog: &Catalog) -> (r: bool)
        requires
            self.wf(),
            self.tiles_known(catalog),
        ensures
            r == self.passable_spec(pos, catalog),
    {
        if !self.is_inside(pos) {
            return false;
        }
        let i = self.index(pos);
        if self.tile[i].wall.is_none() {
            match catalog.tile_kind(self.tile[i].main_tile) {
                TileKind::Ground => true,
                TileKind::Water => false,
            }
        } else {
            false
        }
    }

    /// The occupant of the tile at `p`.
    pub fn get_chara(&self, p: Vec2d) -> (r: Option<CharaId>)
        requires
            self.wf(),
            self.in_bounds(p),
        ensures
            r == self.tile_at(p).chara,
    {
        let i = self.index(p);
        self.tile[i].chara
    }

    /// Where character `cid` stands.
    pub fn chara_pos(&self, cid: CharaId) -> (r: Option<Vec2d>)
        requires
            self.wf(),
        ensures
            match r {
                Some(p) => self.in_bounds(p) && self.tile_at(p).chara == Some(cid),
                None => !self.holds_chara(cid),
            },
    {
        let mut i: usize = 0;
        while i < self.tile.len()
            invariant
                self.wf(),
                i <= self.tile@.len(),
                forall|j: int| 0 <= j < i ==> self.tile@[j].chara != Some(cid),
            decreases self.tile@.len() - i,
        {
            if self.tile[i].chara == Some(cid) {
                return Some(self.pos(i));
            }
            i = i + 1;
        }
        None
    }

    /// Exchanges the occupants of the tiles at `a` and `b`.
    pub fn swap_chara(&mut self, a: Vec2d, b: Vec2d)
        requires
            old(self).wf(),
            old(self).in_bounds(a),
            old(self).in_bounds(b),
        ensures
            final(self).wf(),
            final(self).w == old(self).w,
            final(self).h == old(self).h,
            final(self).observed_tile@ == old(self).observed_tile@,
            final(self).entrance@ == old(self).entrance@,
            final(self).tile@ == old(self).tile@
                .update(old(self).index_of(a), TileInfo { chara: old(self).tile_at(b).chara, ..old(self).tile_at(a) })
                .update(old(self).index_of(b), TileInfo { chara: old(self).tile_at(a).chara, ..old(self).tile_at(b) }),
    {
        let ia = self.index(a);
        let ib = self.index(b);
        let ghost s = self.tile@;
        let ca = self.tile[ia].chara;
        let cb = self.tile[ib].chara;
        self.tile[ia].chara = cb;
        self.tile[ib].chara = ca;
        proof {
            let t = self.tile@;
            assert(t =~= s.update(ia as int, TileInfo { chara: cb, ..s[ia as int] })
                .update(ib as int, TileInfo { chara: ca, ..s[ib as int] }));
            assert forall|i: int, j: int|
                0 <= i < j < t.len() && t[i].chara is Some implies t[i].chara != t[j].chara by {
                let src_i = if i == ib as int { ia as int } else if i == ia as int { ib as int } else { i };
                let src_j = if j == ib as int { ia as int } else if j == ia as int { ib as int } else { j };
                assert(t[i].chara == s[src_i].chara);
                assert(t[j].chara == s[src_j].chara);
                if src_i < src_j {
                } else {
                    assert(src_j < src_i);
                }
            }
            assert forall|i: int| 0 <= i < t.len() implies (#[trigger] t[i]).item_list.wf() by {
                assert(t[i].item_list == s[i].item_list);
            }
        }
    }

    /// Moves character `cid` one step in direction `dir`, exchanging places
    /// with the destination's occupant. Fails when `cid` is not on the map or
    /// the destination is outside it.
    pub fn move_chara(&mut self, cid: CharaId, dir: Direction) -> (r: bool)
        requires
            old(self).wf(),
            dir.valid(),
        ensures
            final(self).wf(),
            final(self).w == old(self).w,
            final(self).h == old(self).h,
            final(self).observed_tile@ == old(self).observed_tile@,
            final(self).entrance@ == old(self).entrance@,
            match old(self).chara_pos_spec(cid) {
                Some(p) if old(self).in_bounds(p.step_spec(dir)) => {
                    &&& r
                    &&& final(self).tile@ == old(self).tile@
                        .update(old(self).index_of(p), TileInfo { chara: old(self).tile_at(p.step_spec(dir)).chara, ..old(self).tile_at(p) })
                        .update(old(self).index_of(p.step_spec(dir)), TileInfo { chara: Some(cid), ..old(self).tile_at(p.step_spec(dir)) })
                },
                _ => !r && final(self).tile@ == old(self).tile@,
            },
    {
        match self.chara_pos(cid) {
            Some(p) => {
                proof {
                    self.lemma_chara_pos_unique(cid, p);
                }
                let new_p = p.step(dir);
                if self.is_inside(new_p) {
                    self.swap_chara(p, new_p);
                    true
                } else {
                    false
                }
            },
            None => false,
        }
    }

    /// The position of `cid` on the map, if it stands on one.
    pub open spec fn chara_pos_spec(&self, cid: CharaId) -> Option<Vec2d> {
        if self.holds_chara(cid) {
            Some(self.pos_of(choose|i: int| 0 <= i < self.tile@.len() && self.tile@[i].chara == Some(cid)))
        } else {
            None
        }
    }

    /// Characters stand on one tile at most, so the one found is `chara_pos_spec`.
    pub proof fn lemma_chara_pos_unique(&self, cid: CharaId, p: Vec2d)
        requires
            self.wf(),
            self.in_bounds(p),
            self.tile_at(p).chara == Some(cid),
        ensures
            self.chara_pos_spec(cid) == Some(p),
            p.0 < i32::MAX && p.1 < i32::MAX && p.0 > i32::MIN && p.1 > i32::MIN,
    {
        self.lemma_index_in_range(p);
        let i = self.index_of(p);
        assert(0 <= i < self.tile@.len() && self.tile@[i].chara == Some(cid));
        let k = choose|k: int| 0 <= k < self.tile@.len() && self.tile@[k].chara == Some(cid);
        if k < i {
            assert(self.tile@[k].chara != self.tile@[i].chara);
        } else if k > i {
            assert(self.tile@[i].chara != self.tile@[k].chara);
        }
    }

    /// Puts character `cid`, which is not on the map, on the free tile at `p`.
    pub fn locate_chara(&mut self, cid: CharaId, p: Vec2d)
        requires
            old(self).wf(),
            old(self).in_bounds(p),
            old(self).tile_at(p).chara is None,
            !old(self).holds_chara(cid),
        ensures
            final(self).wf(),
            final(self).w == old(self).w,
            final(self).h == old(self).h,
            final(self).observed_tile@ == old(self).observed_tile@,
            final(self).entrance@ == old(self).entrance@,
            final(self).tile@ == old(self).tile@.update(old(self).index_of(p), TileInfo { chara: Some(cid), ..old(self).tile_at(p) }),
    {
        let i = self.index(p);
        let ghost s = self.tile@;
        self.tile[i].chara = Some(cid);
        proof {
            let t = self.tile@;
            assert(t =~= s.update(i as int, TileInfo { chara: Some(cid), ..s[i as int] }));
            assert forall|a: int, b: int|
                0 <= a < b < t.len() && t[a].chara is Some implies t[a].chara != t[b].chara by {
                if a == i as int {
                    assert(s[b].chara != Some(cid));
                } else if b == i as int {
                    assert(s[a].chara != Some(cid));
                } else {
                    assert(t[a] == s[a] && t[b] == s[b]);
                }
            }
            assert forall|j: int| 0 <= j < t.len() implies (#[trigger] t[j]).item_list.wf() by {
                assert(t[j].item_list == s[j].item_list);
            }
        }
    }

    /// Puts `n` units of `item` on the tile at `p`.
    pub fn locate_item(&mut self, item: Item, p: Vec2d, n: u32)
        requires
            old(self).wf(),
            old(self).in_bounds(p),
            n > 0,
            total_units(old(self).tile_at(p).item_list.items@) + n <= u32::MAX,
        ensures
            final(self).wf(),
            final(self).w == old(self).w,
            final(self).h == old(self).h,
            final(self).observed_tile@ == old(self).observed_tile@,
            final(self).entrance@ == old(self).entrance@,
            final(self).tile@.len() == old(self).tile@.len(),
            final(self).tile@[old(self).index_of(p)].item_list.items@ == stacks_appended(old(self).tile_at(p).item_list.items@, item, n),
            total_units(final(self).tile@[old(self).index_of(p)].item_list.items@)
                == total_units(old(self).tile_at(p).item_list.items@) + n,
            units_of_idx(final(self).tile@[old(self).index_of(p)].item_list.items@, item.idx)
                == units_of_idx(old(self).tile_at(p).item_list.items@, item.idx) + n,
            forall|j: int| 0 <= j < final(self).tile@.len() ==> {
                let (a, b) = (#[trigger] final(self).tile@[j], old(self).tile@[j]);
                &&& a.main_tile == b.main_tile
                &&& a.wall == b.wall
                &&& a.deco == b.deco
                &&& a.special == b.special
                &&& a.chara == b.chara
                &&& j != old(self).index_of(p) ==> a.item_list == b.item_list
            },
    {
        let i = self.index(p);
        let ghost s = self.tile@;
        self.tile[i].item_list.append(item, n);
        proof {
            let t = self.tile@;
            assert forall|a: int, b: int|
                0 <= a < b < t.len() && t[a].chara is Some implies t[a].chara != t[b].chara by {
                assert(t[a].chara == s[a].chara && t[b].chara == s[b].chara);
            }
        }
    }

    /// The first tile, in storage order, with stairs to floor `dest_floor`.
    pub open spec fn stairs_index(&self, dest_floor: u32) -> Option<int> {
        if exists|i: int| 0 <= i < self.tile@.len() && is_stairs_to(self.tile@[i].special, dest_floor) {
            Some(choose|i: int| 0 <= i < self.tile@.len() && is_stairs_to(self.tile@[i].special, dest_floor)
                && forall|j: int| 0 <= j < i ==> !is_stairs_to(self.tile@[j].special, dest_floor))
        } else {
            None
        }
    }

    /// The position of the first stairs to floor `dest_floor`.
    pub fn search_stairs(&self, dest_floor: u32) -> (r: Option<Vec2d>)
        requires
            self.wf(),
        ensures
            match self.stairs_index(dest_floor) {
                Some(i) => r == Some(self.pos_of(i)) && self.in_bounds(self.pos_of(i)),
                None => r is None,
            },
    {
        let mut i: usize = 0;
        while i < self.tile.len()
            invariant
                self.wf(),
                i <= self.tile@.len(),
                forall|j: int| 0 <= j < i ==> !is_stairs_to(self.tile@[j].special, dest_floor),
            decreases self.tile@.len() - i,
        {
            let found = match self.tile[i].special {
                Some(SpecialTileKind::Stairs { dest_floor: f, .. }) => f == dest_floor,
                _ => false,
            };
            if found {
                proof {
                    let w = i as int;
                    assert(0 <= w < self.tile@.len() && is_stairs_to(self.tile@[w].special, dest_floor)
                        && forall|j: int| 0 <= j < w ==> !is_stairs_to(self.tile@[j].special, dest_floor));
                    let k = choose|k: int| 0 <= k < self.tile@.len() && is_stairs_to(self.tile@[k].special, dest_floor)
                        && forall|j: int| 0 <= j < k ==> !is_stairs_to(self.tile@[j].special, dest_floor);
                    if k < w {
                    } else if k > w {
                        assert(!is_stairs_to(self.tile@[w].special, dest_floor));
                    }
                }
                return Some(self.pos(i));
            }
            i = i + 1;
        }
        None
    }

    /// Takes `n` units from stack `i` of the items on the tile at `p`.
    pub fn remove_item(&mut self, p: Vec2d, i: usize, n: u32) -> (r: Item)
        requires
            old(self).wf(),
            old(self).in_bounds(p),
            i < old(self).tile_at(p).item_list.items@.len(),
            0 < n <= old(self).tile_at(p).item_list.items@[i as int].1,
        ensures
            final(self).wf(),
            r == old(self).tile_at(p).item_list.items@[i as int].0,
            final(self).w == old(self).w,
            final(self).h == old(self).h,
            final(self).observed_tile@ == old(self).observed_tile@,
            final(self).entrance@ == old(self).entrance@,
            final(self).tile@ == old(self).tile@.update(
                old(self).index_of(p),
                TileInfo { item_list: final(self).tile_at(p).item_list, ..old(self).tile_at(p) },
            ),
            final(self).tile_at(p).item_list.items@ == stacks_removed(old(self).tile_at(p).item_list.items@, i as int, n),
            total_units(final(self).tile_at(p).item_list.items@) == total_units(old(self).tile_at(p).item_list.items@) - n,
            units_of_idx(final(self).tile_at(p).item_list.items@, r.idx)
                == units_of_idx(old(self).tile_at(p).item_list.items@, r.idx) - n,
    {
        let k = self.index(p);
        let ghost s = self.tile@;
        let r = self.tile[k].item_list.remove_and_get(i, n);
        proof {
            let t = self.tile@;
            assert(t =~= s.update(k as int, TileInfo { item_list: t[k as int].item_list, ..s[k as int] }));
            assert forall|a: int, b: int|
                0 <= a < b < t.len() && t[a].chara is Some implies t[a].chara != t[b].chara by {
                assert(t[a].chara == s[a].chara && t[b].chara == s[b].chara);
            }
        }
        r
    }

    /// Copies what is visible into the observed snapshot: for each tile
    /// marked in `visible`, its wall, decoration, special marker and the
    /// first `MAX_ITEM_FOR_DRAW` items. Other tiles keep their snapshot.
    pub fn update_observed_map(&mut self, visible: &Vec<bool>)
        requires
            old(self).wf(),
            visible@.len() == old(self).tile@.len(),
        ensures
            final(self).wf(),
            final(self).w == old(self).w,
            final(self).h == old(self).h,
            final(self).tile@ == old(self).tile@,
            final(self).entrance@ == old(self).entrance@,
            final(self).observed_tile@.len() == old(self).observed_tile@.len(),
            forall|i: int| 0 <= i < final(self).observed_tile@.len() ==> {
                let o = #[trigger] final(self).observed_tile@[i];
                let t = old(self).tile@[i];
                if visible@[i] {
                    &&& o.tile
                    &&& o.wall == t.wall
                    &&& o.deco == t.deco
                    &&& o.special == t.special
                    &&& o.items@ == observed_items(t.item_list.items@)
                } else {
                    o == old(self).observed_tile@[i]
                }
            },
    {
        let mut i: usize = 0;
        while i < self.tile.len()
            invariant
                self.wf(),
                self.w == old(self).w,
                self.h == old(self).h,
                self.tile@ == old(self).tile@,
                self.entrance@ == old(self).entrance@,
                visible@.len() == self.tile@.len(),
                self.observed_tile@.len() == old(self).observed_tile@.len(),
                i <= self.tile@.len(),
                forall|j: int| i <= j < self.observed_tile@.len() ==> self.observed_tile@[j] == old(self).observed_tile@[j],
                forall|j: int| 0 <= j < i ==> {
                    let o = #[trigger] self.observed_tile@[j];
                    let t = old(self).tile@[j];
                    if visible@[j] {
                        &&& o.tile
                        &&& o.wall == t.wall
                        &&& o.deco == t.deco
                        &&& o.special == t.special
                        &&& o.items@ == observed_items(t.item_list.items@)
                    } else {
                        o == old(self).observed_tile@[j]
                    }
                },
            decreases self.tile@.len() - i,
        {
            if visible[i] {
                let tile = &self.tile[i];
                let mut items: Vec<(u32, u32)> = Vec::new();
                let mut k: usize = 0;
                let list = &tile.item_list.items;
                while k < list.len() && k < MAX_ITEM_FOR_DRAW
                    invariant
                        k <= list@.len(),
                        k <= MAX_ITEM_FOR_DRAW,
                        items@ =~= observed_items(list@).take(k as int),
                    decreases list@.len() - k,
                {
                    let it = list[k].0;
                    items.push((it.idx, it.image_variation));
                    k = k + 1;
                }
                proof {
                    assert(items@ =~= observed_items(list@));
                }
                let obs = ObservedTile {
                    tile: true,
                    wall: tile.wall,
                    deco: tile.deco,
                    special: tile.special,
                    items,
                };
                self.observed_tile.set(i, obs);
            }
            i = i + 1;
        }
    }

    /// Chooses an empty tile at random: up to `MAX_TRY` uniform draws of a
    /// position, then a uniform choice among all empty tiles. Finds one
    /// whenever the map has one. The result and the generator's new state
    /// are those of `choose_spec`.
    pub fn choose_empty_tile(&self, catalog: &Catalog, rng: &mut Rng) -> (r: Option<Vec2d>)
        requires
            self.wf(),
            self.tiles_known(catalog),
        ensures
            r == choose_spec(self.tile@, self.w, self.h, catalog, old(rng).state()).0,
            final(rng).state() == choose_spec(self.tile@, self.w, self.h, catalog, old(rng).state()).1,
            match r {
                Some(p) => self.in_bounds(p) && tile_is_empty(self.tile_at(p), catalog),
                None => count_empty(self.tile@, catalog) == 0,
            },
            r is Some <==> exists|i: int| 0 <= i < self.tile@.len() && tile_is_empty(#[trigger] self.tile@[i], catalog),
    {
        let ghost s0 = rng.state();
        proof {
            lemma_count_empty_bounds(self.tile@, catalog);
        }
        if self.w == 0 || self.h == 0 {
            proof {
                assert(self.tile@.len() == 0) by (nonlinear_arith)
                    requires self.tile@.len() == self.w as int * self.h as int, self.w == 0 || self.h == 0;
            }
            return None;
        }
        let mut t: usize = 0;
        let mut found: Option<Vec2d> = None;
        while t < MAX_TRY && found.is_none()
            invariant
                self.wf(),
                self.tiles_known(catalog),
                self.w > 0,
                self.h > 0,
                t <= MAX_TRY,
                found is None ==> rng.state() == xorshift_n(s0, 2 * t as nat),
                found is None ==> first_hit(self.tile@, self.w, self.h, catalog, s0, 0)
                    == first_hit(self.tile@, self.w, self.h, catalog, s0, t as nat),
                found is Some ==> found == choose_spec(self.tile@, self.w, self.h, catalog, s0).0
                    && rng.state() == choose_spec(self.tile@, self.w, self.h, catalog, s0).1
                    && self.in_bounds(found.unwrap()) && tile_is_empty(self.tile_at(found.unwrap()), catalog),
            decreases 2 * (MAX_TRY - t) + if found is None { 1int } else { 0int },
        {
            let x = rng.gen_range(0, self.w as u64);
            let y = rng.gen_range(0, self.h as u64);
            let p = Vec2d(x as i32, y as i32);
            proof {
                assert(xorshift_n(s0, 2 * t as nat + 1) == xorshift(xorshift_n(s0, 2 * t as nat)));
                assert(xorshift_n(s0, 2 * t as nat + 2) == xorshift(xorshift_n(s0, 2 * t as nat + 1)));
                assert(p == probe_pos(self.w, self.h, s0, t as nat));
            }
            let i = self.index(p);
            if self.is_tile_empty(i, catalog) {
                found = Some(p);
            } else {
                t = t + 1;
                proof {
                    assert(xorshift_n(s0, 2 * t as nat) == xorshift_n(s0, 2 * (t - 1) as nat + 2));
                }
            }
        }
        if found.is_some() {
            proof {
                let p = found.unwrap();
                self.lemma_index_in_range(p);
                assert(tile_is_empty(self.tile@[self.index_of(p)], catalog));
            }
            return found;
        }
        let n_empty = self.count_empty_tiles(catalog);
        if n_empty == 0 {
            return None;
        }
        let r = rng.gen_range(0, n_empty as u64) as usize;
        proof {
            assert(xorshift_n(s0, 2 * MAX_TRY as nat + 1) == xorshift(xorshift_n(s0, 2 * MAX_TRY as nat)));
        }
        let mut k: usize = 0;
        let mut i: usize = 0;
        let mut found: Option<Vec2d> = None;
        while i < self.tile.len() && found.is_none()
            invariant
                self.wf(),
                self.tiles_known(catalog),
                self.w > 0,
                i <= self.tile@.len(),
                found is None ==> k == count_empty(self.tile@.take(i as int), catalog),
                k <= r,
                r < n_empty,
                n_empty == count_empty(self.tile@, catalog),
                found is Some ==> found == Some(index_pos(self.w, nth_empty(self.tile@, catalog, r as int)))
                    && self.in_bounds(found.unwrap()) && tile_is_empty(self.tile_at(found.unwrap()), catalog),
            decreases self.tile@.len() - i,
        {
            proof {
                lemma_count_empty_take(self.tile@, i as int, catalog);
            }
            if self.is_tile_empty(i, catalog) {
                if k == r {
                    let p = self.pos(i);
                    proof {
                        lemma_nth_empty_unique(self.tile@, i as int, r as int, catalog);
                    }
                    found = Some(p);
                } else {
                    k = k + 1;
                }
            }
            i = i + 1;
        }
        if found.is_none() {
            proof {
                assert(self.tile@.take(i as int) =~= self.tile@);
            }
        }
        found
    }

    fn is_tile_empty(&self, i: usize, catalog: &Catalog) -> (r: bool)
        requires
            self.wf(),
            self.tiles_known(catalog),
            i < self.tile@.len(),
        ensures
            r == tile_is_empty(self.tile@[i as int], catalog),
    {
        let tile = &self.tile[i];
        if tile.wall.is_none() && tile.chara.is_none() && tile.special.is_none() {
            catalog.tile_kind(tile.main_tile) == TileKind::Ground
        } else {
            false
        }
    }

    /// The number of empty tiles.
    pub fn count_empty_tiles(&self, catalog: &Catalog) -> (r: usize)
        requires
            self.wf(),
            self.tiles_known(catalog),
        ensures
            r == count_empty(self.tile@, catalog),
    {
        let mut n: usize = 0;
        let mut i: usize = 0;
        while i < self.tile.len()
            invariant
                self.wf(),
                self.tiles_known(catalog),
                i <= self.tile@.len(),
                n == count_empty(self.tile@.take(i as int), catalog),
            decreases self.tile@.len() - i,
        {
            proof {
                lemma_count_empty_take(self.tile@, i as int, catalog);
                lemma_count_empty_bounds(self.tile@.take(i as int), catalog);
            }
            if self.is_tile_empty(i, catalog) {
                n = n + 1;
            }
            i = i + 1;
        }
        proof {
            assert(self.tile@.take(i as int) =~= self.tile@);
        }
        n
    }
}

} // verus!
