//! The map populator: places monsters and items on a new floor.
use vstd::prelude::*;
use crate::catalog::Catalog;
use crate::chara::{Chara, CharaId};
use crate::game::{GameData, SiteContent};
use crate::geom::Vec2d;
use crate::item::{Item, stacks_appended, total_units};
use crate::map::{TileInfo, choose_spec, pos_index, tile_is_empty, count_empty, lemma_count_empty_bounds, lemma_count_empty_update};
use crate::rng::{Rng, xorshift_n};
use crate::rules::{DungeonKind, PROBABILITY_ONE, Rules};

verus! {

/// The dungeon kind whose tables populate a site: its own for a generated
/// dungeon, the ruin otherwise.
pub open spec fn site_dungeon_kind_spec(site: SiteContent) -> DungeonKind {
    match site {
        SiteContent::AutoGenDungeon { dungeon_kind } => dungeon_kind,
        _ => DungeonKind::Ruin,
    }
}

pub fn site_dungeon_kind(site: SiteContent) -> (r: DungeonKind)
    ensures
        r == site_dungeon_kind_spec(site),
{
    match site {
        SiteContent::AutoGenDungeon { dungeon_kind } => dungeon_kind,
        _ => DungeonKind::Ruin,
    }
}

/// NPC `j` of the roster stands on the map and was made by `create_npc`
/// from `kind` and `floor_level`.
pub open spec fn npc_placed<F: Fn(DungeonKind, u32) -> Chara>(
    gd: GameData,
    j: int,
    create_npc: F,
    kind: DungeonKind,
    floor_level: u32,
) -> bool {
    &&& gd.map.holds_chara(CharaId::Npc { n: j as u32 })
    &&& create_npc.ensures((kind, floor_level), gd.npcs@[j])
}

/// The tiles after NPC `id` is put on the tile at `p` of a grid `w` wide.
pub open spec fn with_npc(tiles: Seq<TileInfo>, w: u32, p: Vec2d, id: nat) -> Seq<TileInfo> {
    tiles.update(pos_index(w, p), TileInfo { chara: Some(CharaId::Npc { n: id as u32 }), ..tiles[pos_index(w, p)] })
}

/// The positions where up to `k` NPCs, numbered from `id`, are put on a
/// `w` × `h` grid by successive empty-tile searches from generator state
/// `s`, and the generator state after them. The searches stop at the first
/// that finds nothing.
pub open spec fn npc_places(tiles: Seq<TileInfo>, w: u32, h: u32, catalog: &Catalog, s: u64, id: nat, k: nat) -> (Seq<Vec2d>, u64)
    decreases k,
{
    if k == 0 {
        (Seq::empty(), s)
    } else {
        let c = choose_spec(tiles, w, h, catalog, s);
        match c.0 {
            None => (Seq::empty(), c.1),
            Some(p) => {
                let rest = npc_places(with_npc(tiles, w, p, id), w, h, catalog, c.1, id + 1, (k - 1) as nat);
                (seq![p] + rest.0, rest.1)
            },
        }
    }
}

/// Tile `new` is tile `old` except, maybe, for an NPC numbered from `base`
/// standing on it where `old` was empty.
pub open spec fn tile_after_npcs(old: TileInfo, new: TileInfo, catalog: &Catalog, base: nat) -> bool {
    &&& new == TileInfo { chara: new.chara, ..old }
    &&& new.chara == old.chara || (tile_is_empty(old, catalog) && (new.chara matches Some(CharaId::Npc { n }) && n >= base))
}

/// Generates up to `n` NPCs on the current floor: each goes to an empty
/// tile chosen by `FloorMap::choose_empty_tile`, is made by `create_npc` from
/// the site's dungeon kind and `floor_level`, and joins the roster. Stops
/// early, without failing, when no empty tile is left. Returns how many were
/// placed.
pub fn gen_npcs<F: Fn(DungeonKind, u32) -> Chara>(
    gd: &mut GameData,
    catalog: &Catalog,
    rng: &mut Rng,
    n: u32,
    floor_level: u32,
    create_npc: F,
) -> (placed: u32)
    requires
        old(gd).wf(),
        old(gd).map.tiles_known(catalog),
        old(gd).npcs@.len() + n <= u32::MAX,
        forall|k: DungeonKind, l: u32| create_npc.requires((k, l)),
        forall|k: DungeonKind, l: u32, c: Chara| create_npc.ensures((k, l), c) ==> c.wf(),
    ensures
        final(gd).wf(),
        final(gd).map.tiles_known(catalog),
        placed <= n,
        placed <= count_empty(old(gd).map.tile@, catalog),
        placed < n ==> count_empty(final(gd).map.tile@, catalog) == 0,
        count_empty(final(gd).map.tile@, catalog) == count_empty(old(gd).map.tile@, catalog) - placed,
        final(gd).npcs@.len() == old(gd).npcs@.len() + placed,
        final(gd).npcs@.subrange(0, old(gd).npcs@.len() as int) == old(gd).npcs@,
        forall|j: int| old(gd).npcs@.len() <= j < final(gd).npcs@.len() ==> #[trigger] npc_placed(
            *final(gd), j, create_npc, site_dungeon_kind_spec(old(gd).site), floor_level),
        final(gd).player == old(gd).player,
        final(gd).site == old(gd).site,
        final(gd).floor == old(gd).floor,
        final(gd).money == old(gd).money,
        final(gd).map.w == old(gd).map.w,
        final(gd).map.h == old(gd).map.h,
        final(gd).map.observed_tile@ == old(gd).map.observed_tile@,
        final(gd).map.entrance@ == old(gd).map.entrance@,
        ({
            let places = npc_places(old(gd).map.tile@, old(gd).map.w, old(gd).map.h, catalog, old(rng).state(),
                old(gd).npcs@.len(), n as nat);
            &&& placed == places.0.len()
            &&& final(rng).state() == places.1
            &&& forall|j: int| 0 <= j < placed ==> {
                &&& old(gd).map.in_bounds(#[trigger] places.0[j])
                &&& tile_is_empty(old(gd).map.tile_at(places.0[j]), catalog)
                &&& final(gd).map.tile_at(places.0[j]).chara == Some(CharaId::Npc { n: (old(gd).npcs@.len() + j) as u32 })
            }
        }),
        final(gd).map.tile@.len() == old(gd).map.tile@.len(),
        forall|i: int| 0 <= i < final(gd).map.tile@.len() ==> tile_after_npcs(
            old(gd).map.tile@[i], #[trigger] final(gd).map.tile@[i], catalog, old(gd).npcs@.len()),
{
    let ghost g0 = *gd;
    let ghost s0 = rng.state();
    let ghost base = g0.npcs@.len();
    let ghost places = npc_places(g0.map.tile@, g0.map.w, g0.map.h, catalog, s0, base, n as nat);
    let ghost mut done: Seq<Vec2d> = Seq::empty();
    let kind = site_dungeon_kind(gd.site);
    let mut placed: u32 = 0;
    let mut full = false;
    proof {
        assert(gd.npcs@.subrange(0, g0.npcs@.len() as int) =~= g0.npcs@);
        lemma_count_empty_bounds(g0.map.tile@, catalog);
    }
    proof {
        assert(places.0 =~= done + places.0);
    }
    while placed < n && !full
        invariant
            full ==> count_empty(gd.map.tile@, catalog) == 0,
            done.len() == placed,
            base == g0.npcs@.len(),
            places == npc_places(g0.map.tile@, g0.map.w, g0.map.h, catalog, s0, base, n as nat),
            !full ==> places.0 == done + npc_places(gd.map.tile@, gd.map.w, gd.map.h, catalog, rng.state(),
                (base + placed) as nat, (n - placed) as nat).0,
            !full ==> places.1 == npc_places(gd.map.tile@, gd.map.w, gd.map.h, catalog, rng.state(),
                (base + placed) as nat, (n - placed) as nat).1,
            full ==> places.0 == done && places.1 == rng.state(),
            forall|j: int| 0 <= j < done.len() ==> {
                &&& g0.map.in_bounds(#[trigger] done[j])
                &&& tile_is_empty(g0.map.tile_at(done[j]), catalog)
                &&& gd.map.tile_at(done[j]).chara == Some(CharaId::Npc { n: (base + j) as u32 })
            },
            gd.map.tile@.len() == g0.map.tile@.len(),
            forall|i: int| 0 <= i < gd.map.tile@.len() ==> tile_after_npcs(
                g0.map.tile@[i], #[trigger] gd.map.tile@[i], catalog, base),
            gd.wf(),
            gd.map.tiles_known(catalog),
            placed <= n,
            g0.npcs@.len() + n <= u32::MAX,
            forall|k: DungeonKind, l: u32| create_npc.requires((k, l)),
            forall|k: DungeonKind, l: u32, c: Chara| create_npc.ensures((k, l), c) ==> c.wf(),
            kind == site_dungeon_kind_spec(g0.site),
            count_empty(gd.map.tile@, catalog) == count_empty(g0.map.tile@, catalog) - placed,
            gd.npcs@.len() == g0.npcs@.len() + placed,
            gd.npcs@.subrange(0, g0.npcs@.len() as int) == g0.npcs@,
            forall|j: int| g0.npcs@.len() <= j < gd.npcs@.len() ==> #[trigger] npc_placed(*gd, j, create_npc, kind, floor_level),
            gd.player == g0.player,
            gd.site == g0.site,
            gd.floor == g0.floor,
            gd.money == g0.money,
            gd.map.w == g0.map.w,
            gd.map.h == g0.map.h,
            gd.map.observed_tile@ == g0.map.observed_tile@,
            gd.map.entrance@ == g0.map.entrance@,
        decreases n - placed + (if full { 0int } else { 1int }),
    {
        let ghost g1 = *gd;
        let ghost st = rng.state();
        match gd.map.choose_empty_tile(catalog, rng) {
            Some(p) => {
                let chara = create_npc(kind, floor_level);
                let id = gd.npcs.len() as u32;
                let cid = CharaId::Npc { n: id };
                gd.npcs.push(chara);
                proof {
                    assert forall|i: int| 0 <= i < g1.map.tile@.len() implies g1.map.tile@[i].chara != Some(cid) by {
                        if g1.map.tile@[i].chara is Some {
                            assert(g1.has_chara(g1.map.tile@[i].chara.unwrap()));
                        }
                    }
                    g1.map.lemma_index_in_range(p);
                }
                gd.map.locate_chara(cid, p);
                proof {
                    let k = g1.map.index_of(p);
                    let t = TileInfo { chara: Some(cid), ..g1.map.tile_at(p) };
                    lemma_count_empty_update(g1.map.tile@, k, t, catalog);
                    assert(gd.map.tile@[k].chara == Some(cid));
                    assert(gd.map.holds_chara(cid));
                    assert(create_npc.ensures((kind, floor_level), chara));
                    assert(gd.npcs@[gd.npcs@.len() - 1] == chara);
                    assert forall|j: int| g0.npcs@.len() <= j < gd.npcs@.len() implies
                        #[trigger] npc_placed(*gd, j, create_npc, kind, floor_level) by {
                        if j < gd.npcs@.len() - 1 {
                            assert(npc_placed(g1, j, create_npc, kind, floor_level));
                            assert(gd.npcs@[j] == g1.npcs@[j]);
                            let w = choose|w: int| 0 <= w < g1.map.tile@.len() && g1.map.tile@[w].chara == Some(CharaId::Npc { n: j as u32 });
                            assert(w != k);
                            assert(gd.map.tile@[w].chara == Some(CharaId::Npc { n: j as u32 }));
                        }
                    }
                    assert(gd.npcs@.subrange(0, g0.npcs@.len() as int) =~= g1.npcs@.subrange(0, g0.npcs@.len() as int));
                    assert forall|i: int| 0 <= i < gd.npcs@.len() implies (#[trigger] gd.npcs@[i]).wf() by {
                        if i < g1.npcs@.len() {
                            assert(gd.npcs@[i] == g1.npcs@[i]);
                        }
                    }
                    assert forall|i: int|
                        0 <= i < gd.map.tile@.len() && (#[trigger] gd.map.tile@[i]).chara is Some
                            implies gd.has_chara(gd.map.tile@[i].chara.unwrap()) by {
                        if i != k {
                            assert(gd.map.tile@[i] == g1.map.tile@[i]);
                            assert(g1.has_chara(g1.map.tile@[i].chara.unwrap()));
                        }
                    }
                    assert forall|i: int| 0 <= i < gd.map.tile@.len() implies catalog.has_tile(#[trigger] gd.map.tile@[i].main_tile) by {
                        assert(gd.map.tile@[i].main_tile == g1.map.tile@[i].main_tile);
                    }
                }
                proof {
                    let w = g0.map.w;
                    let k = g1.map.index_of(p);
                    let id = (base + placed) as nat;
                    assert(gd.map.tile@ =~= with_npc(g1.map.tile@, w, p, id));
                    let rest = npc_places(gd.map.tile@, w, g0.map.h, catalog, rng.state(), (id + 1) as nat, (n - placed - 1) as nat);
                    assert(npc_places(g1.map.tile@, w, g0.map.h, catalog, st, id, (n - placed) as nat).0 == seq![p] + rest.0);
                    assert(done + (seq![p] + rest.0) =~= done.push(p) + rest.0);
                    assert(tile_after_npcs(g0.map.tile@[k], g1.map.tile@[k], catalog, base));
                    assert(tile_is_empty(g0.map.tile@[k], catalog));
                    assert forall|j: int| 0 <= j < done.len() implies gd.map.tile_at(#[trigger] done[j]).chara
                        == Some(CharaId::Npc { n: (base + j) as u32 }) by {
                        g1.map.lemma_index_in_range(done[j]);
                        assert(g1.map.tile_at(done[j]).chara is Some);
                        assert(g1.map.index_of(done[j]) != k);
                    }
                    assert forall|i: int| 0 <= i < gd.map.tile@.len() implies tile_after_npcs(
                        g0.map.tile@[i], #[trigger] gd.map.tile@[i], catalog, base) by {
                        if i != k {
                            assert(gd.map.tile@[i] == g1.map.tile@[i]);
                        }
                    }
                    done = done.push(p);
                }
                placed = placed + 1;
            },
            None => {
                proof {
                    assert(done + Seq::<Vec2d>::empty() =~= done);
                }
                full = true;
            },
        }
    }
    proof {
        lemma_count_empty_bounds(gd.map.tile@, catalog);
        if !full {
            assert(done + Seq::<Vec2d>::empty() =~= done);
        }
    }
    placed
}

/// Why item generation did or did not run.
#[derive(Clone, Copy, Debug, PartialEq, Eq, Structural)]
pub enum ItemGenOutcome {
    /// The site is not a generated dungeon: nothing is generated.
    NotDungeon,
    /// The rule table has no entry for the dungeon kind.
    NoRule,
    /// The rule's probability lies outside `[0, 1]`.
    InvalidProbability,
    /// Every floor tile without a wall had its draw.
    Generated,
}

/// The outcome of item generation on a floor of `site`.
pub open spec fn item_gen_outcome(site: SiteContent, rules: &Rules) -> ItemGenOutcome {
    match site {
        SiteContent::AutoGenDungeon { dungeon_kind } => match rules.dungeon_gen_spec(dungeon_kind) {
            Some(params) => if params.item_gen_probability <= PROBABILITY_ONE {
                ItemGenOutcome::Generated
            } else {
                ItemGenOutcome::InvalidProbability
            },
            None => ItemGenOutcome::NoRule,
        },
        _ => ItemGenOutcome::NotDungeon,
    }
}

/// The number of tiles without a wall in `s`.
pub open spec fn count_open(s: Seq<TileInfo>) -> nat
    decreases s.len(),
{
    if s.len() == 0 {
        0
    } else {
        count_open(s.drop_last()) + if s.last().wall is None { 1nat } else { 0nat }
    }
}

/// The draw that decides tile `i` when generation starts from generator
/// state `s`: one draw is made for each tile without a wall, in storage order.
pub open spec fn item_draw(tiles: Seq<TileInfo>, s: u64, i: int) -> u64 {
    xorshift_n(s, count_open(tiles.take(i)) + 1)
}

/// Whether the draw of tile `i` succeeds at probability `prob` millionths.
pub open spec fn item_hit(tiles: Seq<TileInfo>, s: u64, i: int, prob: u64) -> bool {
    item_draw(tiles, s, i) % 1_000_000 < prob
}

/// What item generation does to a tile whose draw succeeded (`hit`) or not:
/// a walled tile, or one whose draw failed, keeps its items; otherwise the
/// tile gets one unit of the item that `gen_item` made, or keeps its items
/// when `gen_item` made nothing. The other fields are kept.
pub open spec fn tile_after_gen<F: Fn(u32, DungeonKind) -> Option<Item>>(
    old: TileInfo,
    new: TileInfo,
    gen_item: F,
    floor: u32,
    kind: DungeonKind,
    hit: bool,
) -> bool {
    &&& new.main_tile == old.main_tile
    &&& new.wall == old.wall
    &&& new.deco == old.deco
    &&& new.special == old.special
    &&& new.chara == old.chara
    &&& if old.wall is Some || !hit {
        new.item_list == old.item_list
    } else {
        ||| new.item_list == old.item_list && gen_item.ensures((floor, kind), None::<Item>)
        ||| exists|item: Item| {
            &&& #[trigger] gen_item.ensures((floor, kind), Some(item))
            &&& new.item_list.items@ == stacks_appended(old.item_list.items@, item, 1)
            &&& total_units(new.item_list.items@) == total_units(old.item_list.items@) + 1
        }
    }
}

/// Puts items on a new floor of a generated dungeon: each tile without a
/// wall, in storage order, takes one draw from `rng` and, when the draw
/// succeeds at the dungeon kind's probability, gets one item made by
/// `gen_item` from the floor level and dungeon kind; a tile is skipped when
/// `gen_item` makes nothing. Nothing happens, and no draw is made, on other
/// sites, without a rule for the kind, or when the rule's probability is
/// out of range.
pub fn gen_items<F: Fn(u32, DungeonKind) -> Option<Item>>(
    gd: &mut GameData,
    catalog: &Catalog,
    rules: &Rules,
    rng: &mut Rng,
    gen_item: F,
) -> (r: ItemGenOutcome)
    requires
        old(gd).wf(),
        forall|k: u32, d: DungeonKind| gen_item.requires((k, d)),
        forall|i: int| 0 <= i < old(gd).map.tile@.len() ==> total_units(
            (#[trigger] old(gd).map.tile@[i]).item_list.items@) < u32::MAX,
    ensures
        final(gd).wf(),
        r == item_gen_outcome(old(gd).site, rules),
        r != ItemGenOutcome::Generated ==> *final(gd) == *old(gd) && final(rng).state() == old(rng).state(),
        final(gd).player == old(gd).player,
        final(gd).npcs@ == old(gd).npcs@,
        final(gd).site == old(gd).site,
        final(gd).floor == old(gd).floor,
        final(gd).money == old(gd).money,
        final(gd).map.w == old(gd).map.w,
        final(gd).map.h == old(gd).map.h,
        final(gd).map.observed_tile@ == old(gd).map.observed_tile@,
        final(gd).map.entrance@ == old(gd).map.entrance@,
        final(gd).map.tile@.len() == old(gd).map.tile@.len(),
        ({
            let prob = rules.dungeon_gen_spec(site_dungeon_kind_spec(old(gd).site)).unwrap().item_gen_probability;
            r == ItemGenOutcome::Generated ==> {
                &&& final(rng).state() == xorshift_n(old(rng).state(), count_open(old(gd).map.tile@))
                &&& forall|i: int| 0 <= i < final(gd).map.tile@.len() ==> tile_after_gen(
                    old(gd).map.tile@[i], #[trigger] final(gd).map.tile@[i], gen_item, old(gd).floor,
                    site_dungeon_kind_spec(old(gd).site), item_hit(old(gd).map.tile@, old(rng).state(), i, prob))
            }
        }),
        ({
            let certain = r == ItemGenOutcome::Generated
                && rules.dungeon_gen_spec(site_dungeon_kind_spec(old(gd).site)).unwrap().item_gen_probability == PROBABILITY_ONE
                && forall|k: u32, d: DungeonKind, o: Option<Item>| gen_item.ensures((k, d), o) ==> o is Some;
            certain ==> forall|i: int| 0 <= i < final(gd).map.tile@.len() && (#[trigger] old(gd).map.tile@[i]).wall is None
                ==> total_units(final(gd).map.tile@[i].item_list.items@) == total_units(old(gd).map.tile@[i].item_list.items@) + 1
        }),
{
    let ghost g0 = *gd;
    let ghost s0 = rng.state();
    let kind = match gd.site {
        SiteContent::AutoGenDungeon { dungeon_kind } => dungeon_kind,
        _ => {
            return ItemGenOutcome::NotDungeon;
        },
    };
    let params = match rules.get_dungeon_gen(kind) {
        Some(params) => params,
        None => {
            return ItemGenOutcome::NoRule;
        },
    };
    let prob = params.item_gen_probability;
    if prob > PROBABILITY_ONE {
        return ItemGenOutcome::InvalidProbability;
    }
    let floor = gd.floor;
    let mut i: usize = 0;
    proof {
        assert(g0.map.tile@.take(0) =~= Seq::<TileInfo>::empty());
    }
    while i < gd.map.tile.len()
        invariant
            gd.wf(),
            forall|k: u32, d: DungeonKind| gen_item.requires((k, d)),
            kind == site_dungeon_kind_spec(g0.site),
            floor == g0.floor,
            prob == rules.dungeon_gen_spec(kind).unwrap().item_gen_probability,
            i <= gd.map.tile@.len(),
            rng.state() == xorshift_n(s0, count_open(g0.map.tile@.take(i as int))),
            gd.player == g0.player,
            gd.npcs@ == g0.npcs@,
            gd.site == g0.site,
            gd.floor == g0.floor,
            gd.money == g0.money,
            gd.map.w == g0.map.w,
            gd.map.h == g0.map.h,
            gd.map.observed_tile@ == g0.map.observed_tile@,
            gd.map.entrance@ == g0.map.entrance@,
            gd.map.tile@.len() == g0.map.tile@.len(),
            forall|j: int| i <= j < gd.map.tile@.len() ==> gd.map.tile@[j] == g0.map.tile@[j],
            forall|j: int| 0 <= j < g0.map.tile@.len() ==> total_units(
                (#[trigger] g0.map.tile@[j]).item_list.items@) < u32::MAX,
            forall|j: int| 0 <= j < i ==> tile_after_gen(g0.map.tile@[j], #[trigger] gd.map.tile@[j], gen_item, floor, kind,
                item_hit(g0.map.tile@, s0, j, prob)),
            (prob == PROBABILITY_ONE && forall|k: u32, d: DungeonKind, o: Option<Item>| gen_item.ensures((k, d), o) ==> o is Some)
                ==> forall|j: int| 0 <= j < i && (#[trigger] g0.map.tile@[j]).wall is None
                ==> total_units(gd.map.tile@[j].item_list.items@) == total_units(g0.map.tile@[j].item_list.items@) + 1,
        decreases gd.map.tile@.len() - i,
    {
        let ghost g1 = *gd;
        proof {
            let t = g0.map.tile@;
            assert(t.take(i as int + 1).drop_last() =~= t.take(i as int));
            assert(t.take(i as int + 1).last() == t[i as int]);
            assert(g1.map.tile@[i as int] == t[i as int]);
        }
        if gd.map.tile[i].wall.is_none() {
            let hit = rng.gen_ppm(prob);
            proof {
                assert(hit == item_hit(g0.map.tile@, s0, i as int, prob));
            }
            if hit {
                let made = gen_item(floor, kind);
                if let Some(item) = made {
                    let p = gd.map.pos(i);
                    gd.map.locate_item(item, p, 1);
                    proof {
                        assert(gen_item.ensures((floor, kind), Some(item)));
                        assert forall|j: int|
                            0 <= j < gd.map.tile@.len() && (#[trigger] gd.map.tile@[j]).chara is Some
                                implies gd.has_chara(gd.map.tile@[j].chara.unwrap()) by {
                            assert(gd.map.tile@[j].chara == g1.map.tile@[j].chara);
                            assert(g1.has_chara(g1.map.tile@[j].chara.unwrap()));
                        }
                        assert forall|j: int| 0 <= j < i implies tile_after_gen(g0.map.tile@[j], #[trigger] gd.map.tile@[j],
                            gen_item, floor, kind, item_hit(g0.map.tile@, s0, j, prob)) by {
                            assert(gd.map.tile@[j] == g1.map.tile@[j]) by {
                                assert(gd.map.tile@[j].item_list == g1.map.tile@[j].item_list);
                            }
                        }
                        assert forall|j: int| (i as int) < j < gd.map.tile@.len() implies gd.map.tile@[j] == g0.map.tile@[j] by {
                            assert(gd.map.tile@[j].item_list == g1.map.tile@[j].item_list);
                        }
                    }
                } else {
                    proof {
                        assert(gen_item.ensures((floor, kind), None::<Item>));
                    }
                }
            }
        }
        i = i + 1;
    }
    proof {
        assert(g0.map.tile@.take(i as int) =~= g0.map.tile@);
    }
    ItemGenOutcome::Generated
}

} // verus!
