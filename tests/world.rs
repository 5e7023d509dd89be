use rusted_ruins::active_skill::{ActiveSkill, ActiveSkillId, ActiveSkills};
use rusted_ruins::catalog::{Catalog, ItemKind, ItemObj, TileKind};
use rusted_ruins::chara::{Chara, CharaAttributes, CharaId, Faction};
use rusted_ruins::effect::{Effect, EffectAnimKind, EffectKind, ShapeKind, TargetMode};
use rusted_ruins::game::{Game, GameData, LogEntry, SiteContent};
use rusted_ruins::geom::Vec2d;
use rusted_ruins::item::{Item, ItemList};
use rusted_ruins::map::{FloorMap, SpecialTileKind, StairsKind};
use rusted_ruins::region::{arrival_pos, needs_new_floor, MapId};
use rusted_ruins::mapgen::{gen_items, gen_npcs, site_dungeon_kind, ItemGenOutcome};
use rusted_ruins::rng::Rng;
use rusted_ruins::rules::{DungeonGenParams, DungeonKind, Rules};
use rusted_ruins::window::{ChooseWindow, ItemWindowMode, WindowHPos, WindowPos, WindowVPos};

fn tiles_catalog() -> Catalog {
    Catalog {
        items: vec![ItemObj {
            kind: ItemKind::Object,
            eff: 1,
            w: 100,
            nutrition: 0,
            throw_effect: None,
            medical_effect: None,
            magical_effect: None,
        }],
        tiles: vec![TileKind::Ground, TileKind::Water],
    }
}

fn world_rules(probability: u64) -> Rules {
    Rules {
        skill_base: 8000,
        throw_weight_to_eff_factor: 100,
        item_drink_power_factor: 1000,
        item_eat_power_factor: 1000,
        sp_nutrition_factor: 1000,
        sp_max: 1_000_000,
        starve_damage: 1,
        magic_device_base_power: 1000,
        attack_exp: 1,
        dungeon_gen: vec![(DungeonKind::Cave, DungeonGenParams { item_gen_probability: probability })],
    }
}

fn plain_attrs() -> CharaAttributes {
    CharaAttributes { str: 10, vit: 10, dex: 10, int: 10, wil: 10, cha: 10, spd: 100 }
}

fn world(map: FloorMap, site: SiteContent) -> GameData {
    GameData {
        player: Chara::new(1, plain_attrs(), Faction::Player),
        npcs: Vec::new(),
        map,
        site,
        floor: 3,
        money: 0,
    }
}

/// A 4 x 3 map whose tiles are all walls except those listed.
fn walled_map(open: &[usize]) -> FloorMap {
    let mut map = FloorMap::new(4, 3, 0);
    for (i, t) in map.tile.iter_mut().enumerate() {
        if !open.contains(&i) {
            t.wall = Some(1);
        }
    }
    map
}

fn count_on_map(map: &FloorMap) -> usize {
    map.tile.iter().filter(|t| t.chara.is_some()).count()
}

#[test]
fn choose_empty_tile_finds_the_only_tile() {
    let map = walled_map(&[7]);
    let cat = tiles_catalog();
    for seed in 0..20 {
        let mut rng = Rng::new(seed);
        assert_eq!(map.choose_empty_tile(&cat, &mut rng), Some(Vec2d(3, 1)));
    }
}

#[test]
fn choose_empty_tile_none_without_candidates() {
    let mut map = walled_map(&[1, 2, 5]);
    map.tile[1].chara = Some(CharaId::Player);
    map.tile[2].special = Some(SpecialTileKind::SiteSymbol { symbol: 0 });
    map.tile[5].main_tile = 1;
    let cat = tiles_catalog();
    let mut rng = Rng::new(7);
    assert_eq!(map.choose_empty_tile(&cat, &mut rng), None);
    assert_eq!(map.count_empty_tiles(&cat), 0);
}

#[test]
fn choose_empty_tile_result_is_empty() {
    let map = FloorMap::new(6, 6, 0);
    let cat = tiles_catalog();
    let mut rng = Rng::new(42);
    for _ in 0..50 {
        let p = map.choose_empty_tile(&cat, &mut rng).unwrap();
        assert!(map.is_inside(p));
    }
}

#[test]
fn choose_empty_tile_is_deterministic() {
    let map = walled_map(&[0, 3, 5, 6, 11]);
    let cat = tiles_catalog();
    let mut a = Rng::new(99);
    let mut b = Rng::new(99);
    for _ in 0..10 {
        assert_eq!(map.choose_empty_tile(&cat, &mut a), map.choose_empty_tile(&cat, &mut b));
    }
}

#[test]
fn gen_npcs_stops_when_tiles_run_out() {
    let mut gd = world(walled_map(&[2, 9]), SiteContent::AutoGenDungeon { dungeon_kind: DungeonKind::Cave });
    let mut rng = Rng::new(5);
    let placed = gen_npcs(&mut gd, &tiles_catalog(), &mut rng, 5, 3, |_kind, lv| {
        Chara::new(lv, CharaAttributes { str: 1, vit: 1, dex: 1, int: 1, wil: 1, cha: 1, spd: 1 }, Faction::Hostile)
    });
    assert_eq!(placed, 2);
    assert_eq!(gd.npcs.len(), 2);
    assert_eq!(count_on_map(&gd.map), 2);
    assert_eq!(gd.npcs[0].level, 3);
    assert_eq!(gd.map.count_empty_tiles(&tiles_catalog()), 0);
}

#[test]
fn gen_npcs_places_all_when_room() {
    let mut gd = world(FloorMap::new(5, 5, 0), SiteContent::Town);
    let mut rng = Rng::new(11);
    let placed = gen_npcs(&mut gd, &tiles_catalog(), &mut rng, 4, 1, |kind, lv| {
        assert_eq!(kind, DungeonKind::Ruin);
        Chara::new(lv, plain_attrs(), Faction::Neutral)
    });
    assert_eq!(placed, 4);
    assert_eq!(count_on_map(&gd.map), 4);
    for n in 0..4u32 {
        assert!(gd.map.chara_pos(CharaId::Npc { n }).is_some());
    }
}

#[test]
fn site_kind_defaults_to_ruin() {
    assert_eq!(site_dungeon_kind(SiteContent::Base), DungeonKind::Ruin);
    assert_eq!(site_dungeon_kind(SiteContent::AutoGenDungeon { dungeon_kind: DungeonKind::Tower }), DungeonKind::Tower);
}

#[test]
fn gen_items_certain_fills_every_open_tile() {
    let mut gd = world(walled_map(&[0, 1, 4, 10]), SiteContent::AutoGenDungeon { dungeon_kind: DungeonKind::Cave });
    let mut rng = Rng::new(3);
    let r = gen_items(&mut gd, &tiles_catalog(), &world_rules(1_000_000), &mut rng, |floor, _kind| {
        assert_eq!(floor, 3);
        Some(Item::new(0))
    });
    assert_eq!(r, ItemGenOutcome::Generated);
    for (i, t) in gd.map.tile.iter().enumerate() {
        if [0, 1, 4, 10].contains(&i) {
            assert_eq!(t.item_list.items, vec![(Item::new(0), 1)]);
        } else {
            assert!(t.item_list.items.is_empty());
        }
    }
}

#[test]
fn gen_items_rejects_probability_above_one() {
    let mut gd = world(FloorMap::new(3, 3, 0), SiteContent::AutoGenDungeon { dungeon_kind: DungeonKind::Cave });
    let mut rng = Rng::new(3);
    let r = gen_items(&mut gd, &tiles_catalog(), &world_rules(1_500_000), &mut rng, |_, _| Some(Item::new(0)));
    assert_eq!(r, ItemGenOutcome::InvalidProbability);
    assert!(gd.map.tile.iter().all(|t| t.item_list.items.is_empty()));
}

#[test]
fn gen_items_zero_probability_places_nothing() {
    let mut gd = world(FloorMap::new(3, 3, 0), SiteContent::AutoGenDungeon { dungeon_kind: DungeonKind::Cave });
    let mut rng = Rng::new(3);
    let r = gen_items(&mut gd, &tiles_catalog(), &world_rules(0), &mut rng, |_, _| Some(Item::new(0)));
    assert_eq!(r, ItemGenOutcome::Generated);
    assert!(gd.map.tile.iter().all(|t| t.item_list.items.is_empty()));
}

#[test]
fn gen_items_skips_other_sites_and_missing_rules() {
    let mut gd = world(FloorMap::new(3, 3, 0), SiteContent::Town);
    let mut rng = Rng::new(3);
    assert_eq!(
        gen_items(&mut gd, &tiles_catalog(), &world_rules(1_000_000), &mut rng, |_, _| Some(Item::new(0))),
        ItemGenOutcome::NotDungeon
    );
    gd.site = SiteContent::AutoGenDungeon { dungeon_kind: DungeonKind::Forest };
    assert_eq!(
        gen_items(&mut gd, &tiles_catalog(), &world_rules(1_000_000), &mut rng, |_, _| Some(Item::new(0))),
        ItemGenOutcome::NoRule
    );
    assert!(gd.map.tile.iter().all(|t| t.item_list.items.is_empty()));
}

#[test]
fn gen_items_skips_when_nothing_made() {
    let mut gd = world(FloorMap::new(2, 2, 0), SiteContent::AutoGenDungeon { dungeon_kind: DungeonKind::Cave });
    let mut rng = Rng::new(3);
    let r = gen_items(&mut gd, &tiles_catalog(), &world_rules(1_000_000), &mut rng, |_, _| None);
    assert_eq!(r, ItemGenOutcome::Generated);
    assert!(gd.map.tile.iter().all(|t| t.item_list.items.is_empty()));
}

#[test]
fn observed_map_copies_visible_tiles() {
    let mut map = FloorMap::new(2, 1, 0);
    map.tile[0].wall = Some(4);
    map.tile[1].deco = Some(2);
    for k in 0..7u32 {
        let mut it = Item::new(k);
        it.image_variation = k + 10;
        map.tile[1].item_list.append(it, 1);
    }
    map.update_observed_map(&vec![false, true]);
    assert!(!map.observed_tile[0].tile);
    assert_eq!(map.observed_tile[0].wall, None);
    assert!(map.observed_tile[1].tile);
    assert_eq!(map.observed_tile[1].deco, Some(2));
    assert_eq!(map.observed_tile[1].items, vec![(0, 10), (1, 11), (2, 12), (3, 13), (4, 14)]);
    map.tile[1].item_list = ItemList::new();
    map.update_observed_map(&vec![false, false]);
    assert_eq!(map.observed_tile[1].items.len(), 5);
}

#[test]
fn item_list_merges_equal_items() {
    let mut list = ItemList::new();
    list.append(Item::new(1), 2);
    list.append(Item::new(2), 1);
    list.append(Item::new(1), 3);
    assert_eq!(list.items, vec![(Item::new(1), 5), (Item::new(2), 1)]);
    assert_eq!(list.total(), 6);
    assert_eq!(list.remove_and_get(0, 5), Item::new(1));
    assert_eq!(list.items, vec![(Item::new(2), 1)]);
}

#[test]
fn rng_is_deterministic_and_in_range() {
    let mut a = Rng::new(12345);
    let mut b = Rng::new(12345);
    for _ in 0..100 {
        let x = a.gen_range(3, 9);
        assert_eq!(x, b.gen_range(3, 9));
        assert!((3..9).contains(&x));
    }
    let mut z = Rng::new(0);
    assert_ne!(z.next_u64(), 0);
    assert!(a.gen_ppm(1_000_000));
    assert!(!a.gen_ppm(0));
}

fn skill(cost: u32) -> ActiveSkill {
    ActiveSkill {
        effect: Effect {
            kind: vec![EffectKind::RecoverHp],
            target_mode: TargetMode::Player,
            power_adjust: vec![],
            range: 0,
            shape: ShapeKind::OneTile,
            size: 0,
            anim_kind: EffectAnimKind::Hidden,
            anim_img: String::new(),
            anim_img_shot: String::new(),
            sound: String::new(),
        },
        cost_sp: cost,
        cost_mp: 0,
    }
}

#[test]
fn active_skills_get_and_join() {
    let mut a = ActiveSkills::new();
    a.insert(ActiveSkillId("heal".to_owned()), skill(1));
    a.insert(ActiveSkillId("fire".to_owned()), skill(2));
    let mut b = ActiveSkills::new();
    b.insert(ActiveSkillId("fire".to_owned()), skill(5));
    b.insert(ActiveSkillId("ice".to_owned()), skill(6));
    a.join(b);
    assert_eq!(a.get(&ActiveSkillId("heal".to_owned())).unwrap().cost_sp, 1);
    assert_eq!(a.get(&ActiveSkillId("fire".to_owned())).unwrap().cost_sp, 5);
    assert_eq!(a.get(&ActiveSkillId("ice".to_owned())).unwrap().cost_sp, 6);
    assert!(a.get(&ActiveSkillId("wind".to_owned())).is_none());
}

#[test]
fn choose_window_yes_no() {
    let pos = WindowPos { h: WindowHPos::Center, v: WindowVPos::TopMargin(10) };
    let mut w = ChooseWindow::with_yesno(pos, Some(false));
    assert_eq!(w.choices(), &vec!["Yes".to_owned(), "No".to_owned()]);
    assert_eq!(w.default_choose(), Some(1));
    assert_eq!(ChooseWindow::with_yesno(pos, Some(true)).default_choose(), Some(0));
    assert_eq!(ChooseWindow::with_yesno(pos, None).default_choose(), None);
    let other = WindowPos { h: WindowHPos::LeftX(3), v: WindowVPos::Center };
    w.set_winpos(other);
    assert_eq!(w.winpos(), other);
    let c = ChooseWindow::new(pos, vec!["a".to_owned()], None);
    assert_eq!(c.choices().len(), 1);
}

#[test]
fn main_modes_of_item_window() {
    assert!(ItemWindowMode::List.is_main_mode());
    assert!(ItemWindowMode::Read.is_main_mode());
    assert!(!ItemWindowMode::PickUp.is_main_mode());
    assert!(!ItemWindowMode::ShopSell.is_main_mode());
    assert!(!ItemWindowMode::ShopBuy { cid: CharaId::Npc { n: 1 } }.is_main_mode());
}

fn hook_game() -> Game {
    Game {
        gd: world(FloorMap::new(1, 1, 0), SiteContent::Other),
        anim_queue: Vec::new(),
        log: Vec::new(),
        dispatch: Vec::new(),
    }
}

#[test]
fn hooks_receive_and_remove_items() {
    let mut game = hook_game();
    assert!(!game.has_item(9));
    game.receive_item(9, 3);
    assert!(game.has_item(9));
    assert_eq!(game.log, vec![LogEntry::ReceiveItem { item: Item::new(9), n: 3 }]);
    assert_eq!(game.remove_item(9, 4), Err(()));
    assert_eq!(game.remove_item(9, 2), Ok(()));
    assert_eq!(game.gd.player.item_list.items, vec![(Item::new(9), 1)]);
    assert_eq!(game.remove_item(9, 1), Ok(()));
    assert!(!game.has_item(9));
    assert_eq!(game.remove_item(9, 1), Err(()));
}

#[test]
fn hooks_receive_money() {
    let mut game = hook_game();
    game.receive_money(250);
    game.receive_money(50);
    assert_eq!(game.gd.money, 300);
    assert_eq!(game.log, vec![LogEntry::ReceiveMoney { amount: 250 }, LogEntry::ReceiveMoney { amount: 50 }]);
}

#[test]
fn arrival_prefers_given_position() {
    let map = FloorMap::new(3, 3, 0);
    let mid = MapId::SiteMap { rid: 0, site: 1, floor: 2 };
    let prev = MapId::SiteMap { rid: 0, site: 1, floor: 1 };
    assert_eq!(arrival_pos(&map, mid, prev, Some(Vec2d(2, 1)), Vec2d(9, 9)), Vec2d(2, 1));
}

#[test]
fn arrival_on_region_map_at_site() {
    let map = FloorMap::new(3, 3, 0);
    let mid = MapId::RegionMap { rid: 4 };
    let prev = MapId::SiteMap { rid: 4, site: 1, floor: 0 };
    assert_eq!(arrival_pos(&map, mid, prev, None, Vec2d(7, 8)), Vec2d(7, 8));
}

#[test]
fn arrival_at_stairs_then_entrance_then_origin() {
    let mut map = FloorMap::new(3, 3, 0);
    let mid = MapId::SiteMap { rid: 0, site: 1, floor: 2 };
    let prev = MapId::SiteMap { rid: 0, site: 1, floor: 1 };
    assert_eq!(arrival_pos(&map, mid, prev, None, Vec2d(9, 9)), Vec2d(0, 0));
    map.entrance.push(Vec2d(1, 2));
    assert_eq!(arrival_pos(&map, mid, prev, None, Vec2d(9, 9)), Vec2d(1, 2));
    map.tile[5].special = Some(SpecialTileKind::Stairs { dest_floor: 3, kind: StairsKind::DownStairs });
    map.tile[7].special = Some(SpecialTileKind::Stairs { dest_floor: 1, kind: StairsKind::UpStairs });
    assert_eq!(map.search_stairs(1), Some(Vec2d(1, 2)));
    map.entrance.clear();
    assert_eq!(arrival_pos(&map, mid, prev, None, Vec2d(9, 9)), Vec2d(1, 2));
    assert_eq!(map.search_stairs(3), Some(Vec2d(2, 1)));
    assert_eq!(map.search_stairs(4), None);
}

#[test]
fn only_missing_site_floors_are_created() {
    assert!(needs_new_floor(MapId::SiteMap { rid: 0, site: 0, floor: 3 }, false));
    assert!(!needs_new_floor(MapId::SiteMap { rid: 0, site: 0, floor: 3 }, true));
    assert!(!needs_new_floor(MapId::RegionMap { rid: 0 }, false));
}

#[test]
fn choose_empty_tile_first_probe_decides_on_open_map() {
    let map = FloorMap::new(6, 4, 0);
    let cat = tiles_catalog();
    let mut rng = Rng::new(2024);
    let mut twin = Rng::new(2024);
    let x = twin.gen_range(0, 6);
    let y = twin.gen_range(0, 4);
    assert_eq!(map.choose_empty_tile(&cat, &mut rng), Some(Vec2d(x as i32, y as i32)));
    assert_eq!(rng.next_u64(), twin.next_u64());
}

#[test]
fn choose_empty_tile_fallback_takes_ranked_tile() {
    // 3 open tiles among 400: the ten probes very likely miss, and the
    // result must then be the open tile of the drawn rank.
    let open = [17usize, 200, 399];
    let mut map = FloorMap::new(20, 20, 0);
    for (i, t) in map.tile.iter_mut().enumerate() {
        if !open.contains(&i) {
            t.wall = Some(1);
        }
    }
    let cat = tiles_catalog();
    for seed in 1..30u64 {
        let mut rng = Rng::new(seed);
        let mut twin = Rng::new(seed);
        let mut expected = None;
        for _ in 0..10 {
            let x = twin.gen_range(0, 20) as usize;
            let y = twin.gen_range(0, 20) as usize;
            if expected.is_none() && open.contains(&(y * 20 + x)) {
                expected = Some(Vec2d(x as i32, y as i32));
                break;
            }
        }
        if expected.is_none() {
            let r = twin.gen_range(0, 3) as usize;
            let i = open[r];
            expected = Some(Vec2d((i % 20) as i32, (i / 20) as i32));
        }
        assert_eq!(map.choose_empty_tile(&cat, &mut rng), expected);
        assert_eq!(rng.next_u64(), twin.next_u64());
    }
}

#[test]
fn gen_items_follows_the_draws() {
    let open = [0usize, 1, 4, 5, 10, 11];
    let mut gd = world(walled_map(&open), SiteContent::AutoGenDungeon { dungeon_kind: DungeonKind::Cave });
    let mut rng = Rng::new(77);
    let mut twin = Rng::new(77);
    let r = gen_items(&mut gd, &tiles_catalog(), &world_rules(500_000), &mut rng, |_, _| Some(Item::new(0)));
    assert_eq!(r, ItemGenOutcome::Generated);
    for (i, t) in gd.map.tile.iter().enumerate() {
        if open.contains(&i) && twin.gen_ppm(500_000) {
            assert_eq!(t.item_list.items, vec![(Item::new(0), 1)]);
        } else {
            assert!(t.item_list.items.is_empty());
        }
    }
    assert_eq!(rng.next_u64(), twin.next_u64());
}

#[test]
fn gen_items_rejected_makes_no_draw() {
    let mut gd = world(FloorMap::new(2, 2, 0), SiteContent::AutoGenDungeon { dungeon_kind: DungeonKind::Cave });
    let mut rng = Rng::new(8);
    let mut twin = Rng::new(8);
    gen_items(&mut gd, &tiles_catalog(), &world_rules(2_000_000), &mut rng, |_, _| Some(Item::new(0)));
    assert_eq!(rng.next_u64(), twin.next_u64());
}

#[test]
fn gen_npcs_leaves_other_tiles_alone() {
    let mut map = FloorMap::new(4, 4, 0);
    map.tile[3].item_list.append(Item::new(0), 2);
    map.tile[6].wall = Some(2);
    let mut gd = world(map, SiteContent::Other);
    let mut rng = Rng::new(31);
    let placed = gen_npcs(&mut gd, &tiles_catalog(), &mut rng, 3, 1, |_, lv| Chara::new(lv, plain_attrs(), Faction::Hostile));
    assert_eq!(placed, 3);
    assert_eq!(gd.map.tile[3].item_list.items, vec![(Item::new(0), 2)]);
    assert_eq!(gd.map.tile[6].wall, Some(2));
    assert_eq!(gd.map.tile[6].chara, None);
    assert!(gd.is_valid());
}

#[test]
fn validity_checks() {
    let mut gd = world(FloorMap::new(2, 2, 0), SiteContent::Other);
    assert!(gd.is_valid());
    assert!(gd.map.all_tiles_known(&tiles_catalog()));
    gd.map.tile[0].main_tile = 9;
    assert!(!gd.map.all_tiles_known(&tiles_catalog()));
    gd.map.tile[1].chara = Some(CharaId::Npc { n: 0 });
    assert!(!gd.is_valid());
    gd.map.tile[1].chara = Some(CharaId::Player);
    gd.map.tile[2].chara = Some(CharaId::Player);
    assert!(!gd.map.is_valid());
    let mut list = ItemList::new();
    list.items.push((Item::new(1), 0));
    assert!(!list.is_valid());
    list.items[0].1 = 1;
    list.items.push((Item::new(1), 1));
    assert!(!list.is_valid());
    gd.player.skill_levels.pop();
    assert!(!gd.player.is_valid());
}
