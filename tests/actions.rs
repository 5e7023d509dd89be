use rusted_ruins::action::{drink_item, eat_item, melee_attack, release_item, shoot_target, throw_item, try_move};
use rusted_ruins::catalog::{Catalog, ItemKind, ItemObj, TileKind, WeaponKind};
use rusted_ruins::chara::{Chara, CharaAttributes, CharaId, EquipEntry, EquipSlotKind, Faction, SkillKind};
use rusted_ruins::effect::{punch_effect, CharaDamageKind, Dispatch, Effect, EffectAnimKind, EffectKind, EffectSource, Element, ShapeKind, Target, TargetMode};
use rusted_ruins::game::{preturn, Game, GameData, LogEntry, SiteContent};
use rusted_ruins::geom::{Direction, Vec2d};
use rusted_ruins::item::{Item, ItemListLocation, ItemLocation};
use rusted_ruins::map::FloorMap;
use rusted_ruins::power::{calc_power, CharaPowerKind, Power};
use rusted_ruins::rules::{DungeonGenParams, DungeonKind, Rules};
use rusted_ruins::status::CharaStatus;

fn some_effect() -> Effect {
    Effect {
        kind: vec![EffectKind::RecoverHp],
        target_mode: TargetMode::Ally,
        power_adjust: vec![],
        range: 1,
        shape: ShapeKind::OneTile,
        size: 0,
        anim_kind: EffectAnimKind::Hidden,
        anim_img: String::new(),
        anim_img_shot: String::new(),
        sound: String::new(),
    }
}

fn obj(kind: ItemKind, eff: u16, w: u32) -> ItemObj {
    ItemObj { kind, eff, w, nutrition: 0, throw_effect: None, medical_effect: None, magical_effect: None }
}

// Item templates: 0 sword, 1 potion, 2 food, 3 wand, 4 rock, 5 dart (own throw effect),
// 6 bow, 7 empty wand (no magical effect).
fn catalog() -> Catalog {
    let mut potion = obj(ItemKind::Potion, 3, 100);
    potion.medical_effect = Some(some_effect());
    let mut food = obj(ItemKind::Food, 2, 200);
    food.nutrition = 50;
    let mut wand = obj(ItemKind::MagicDevice, 4, 50);
    wand.magical_effect = Some(some_effect());
    let mut dart = obj(ItemKind::Object, 5, 10);
    dart.throw_effect = Some(some_effect());
    Catalog {
        items: vec![
            obj(ItemKind::Weapon(WeaponKind::Sword), 7, 1500),
            potion,
            food,
            wand,
            obj(ItemKind::Object, 1, 1000),
            dart,
            obj(ItemKind::Weapon(WeaponKind::Bow), 6, 800),
            obj(ItemKind::MagicDevice, 4, 50),
        ],
        tiles: vec![TileKind::Ground, TileKind::Water],
    }
}

fn rules() -> Rules {
    Rules {
        skill_base: 8000,
        throw_weight_to_eff_factor: 100,
        item_drink_power_factor: 1500,
        item_eat_power_factor: 500,
        sp_nutrition_factor: 2000,
        sp_max: 10_000_000,
        starve_damage: 7,
        magic_device_base_power: 2000,
        attack_exp: 3,
        dungeon_gen: vec![(DungeonKind::Cave, DungeonGenParams { item_gen_probability: 1_000_000 })],
    }
}

fn attrs(str: u16, dex: u16) -> CharaAttributes {
    CharaAttributes { str, vit: 10, dex, int: 10, wil: 10, cha: 10, spd: 100 }
}

fn game_with(player: Chara, npcs: Vec<Chara>, map: FloorMap) -> Game {
    Game {
        gd: GameData { player, npcs, map, site: SiteContent::Other, floor: 1, money: 0 },
        anim_queue: Vec::new(),
        log: Vec::new(),
        dispatch: Vec::new(),
    }
}

/// A 5 x 5 ground map with the player at (2, 2).
fn arena(npcs: Vec<Chara>) -> Game {
    let mut map = FloorMap::new(5, 5, 0);
    map.tile[2 * 5 + 2].chara = Some(CharaId::Player);
    game_with(Chara::new(3, attrs(10, 5), Faction::Player), npcs, map)
}

fn units(game: &Game, ill: ItemListLocation, idx: u32) -> u32 {
    let list = match ill {
        ItemListLocation::Chara { cid: CharaId::Player } => &game.gd.player.item_list,
        ItemListLocation::Chara { cid: CharaId::Npc { n } } => &game.gd.npcs[n as usize].item_list,
        ItemListLocation::OnMap { pos } => &game.gd.map.tile[(pos.1 * 5 + pos.0) as usize].item_list,
    };
    list.items.iter().filter(|(it, _)| it.idx == idx).map(|(_, n)| *n).sum()
}

#[test]
fn calc_power_melee_uses_strength_and_dexterity() {
    let mut c = Chara::new(1, attrs(10, 5), Faction::Player);
    c.set_skill_level(SkillKind::Sword, 2);
    let (p, h) = calc_power(&c, CharaPowerKind::MeleeAttack, Element::Physical, SkillKind::Sword, &rules());
    // 10^2 * (2 + 8)^1.5 = 100 * 10000 * sqrt(10_000_000) / 10^6
    assert_eq!(p, Power { num: 100 * 10_000, root: 10_000_000 });
    assert_eq!(h, 5 * 10_000);
}

#[test]
fn calc_power_ranged_uses_dexterity_twice() {
    let mut c = Chara::new(1, attrs(10, 5), Faction::Player);
    c.set_skill_level(SkillKind::Bow, 1);
    let (p, h) = calc_power(&c, CharaPowerKind::RangedAttack, Element::Physical, SkillKind::Bow, &rules());
    assert_eq!(p, Power { num: 25 * 9000, root: 9_000_000 });
    assert_eq!(h, 45_000);
}

#[test]
fn calc_power_grows_with_each_input() {
    let r = rules();
    let value = |p: Power| (p.num as f64) * (p.root as f64).sqrt();
    let base = Chara::new(1, attrs(10, 5), Faction::Player);
    let (pw_base, hit_base) = calc_power(&base, CharaPowerKind::MeleeAttack, Element::Physical, SkillKind::Axe, &r);
    let stronger = Chara::new(1, attrs(11, 5), Faction::Player);
    let (pw_str, hit_str) = calc_power(&stronger, CharaPowerKind::MeleeAttack, Element::Physical, SkillKind::Axe, &r);
    assert!(value(pw_str) >= value(pw_base));
    assert_eq!(hit_str, hit_base);
    let deft = Chara::new(1, attrs(10, 6), Faction::Player);
    let (pw_dex, hit_dex) = calc_power(&deft, CharaPowerKind::MeleeAttack, Element::Physical, SkillKind::Axe, &r);
    assert!(value(pw_dex) >= value(pw_base));
    assert!(hit_dex >= hit_base);
    let mut skilled = Chara::new(1, attrs(10, 5), Faction::Player);
    skilled.set_skill_level(SkillKind::Axe, 4);
    let (pw_skill, hit_skill) = calc_power(&skilled, CharaPowerKind::MeleeAttack, Element::Physical, SkillKind::Axe, &r);
    assert!(value(pw_skill) > value(pw_base));
    assert!(hit_skill > hit_base);
}

#[test]
fn punch_effect_is_physical_melee() {
    let e = punch_effect();
    assert_eq!(e.kind, vec![EffectKind::Melee { element: Element::Physical }]);
    assert_eq!(e.target_mode, TargetMode::Enemy);
    assert_eq!(e.range, 1);
    assert_eq!(e.sound, "punch");
    assert_eq!(e.anim_img, "!damage-blunt");
}

#[test]
fn melee_attack_bare_hands() {
    let mut foe = Chara::new(4, attrs(8, 8), Faction::Hostile);
    foe.level = 4;
    let mut game = arena(vec![foe]);
    game.gd.player.set_skill_level(SkillKind::BareHands, 2);
    melee_attack(&mut game, &catalog(), &rules(), CharaId::Player, CharaId::Npc { n: 0 });
    assert_eq!(
        game.dispatch,
        vec![Dispatch::Effect {
            effect: EffectSource::Punch,
            attacker: Some(CharaId::Player),
            target: Target::Chara(CharaId::Npc { n: 0 }),
            power: Power { num: 100 * 10_000, root: 10_000_000 },
            hit_power: 50_000,
        }]
    );
    // 3 experience per target level, target level 4
    assert_eq!(game.gd.player.skill_exp[SkillKind::BareHands.index()], 12);
    assert_eq!(game.gd.player.skill_exp[SkillKind::Sword.index()], 0);
}

#[test]
fn melee_attack_with_weapon_scales_by_efficiency() {
    let foe = Chara::new(2, attrs(8, 8), Faction::Hostile);
    let mut game = arena(vec![foe]);
    let mut sword = Item::new(0);
    sword.quality = 1;
    game.gd.player.equip.push(EquipEntry { slot: EquipSlotKind::MeleeWeapon, n: 0, item: sword });
    melee_attack(&mut game, &catalog(), &rules(), CharaId::Player, CharaId::Npc { n: 0 });
    // efficiency 7 + quality 1; sword skill 0, so (0 + 8)^1.5
    assert_eq!(
        game.dispatch,
        vec![Dispatch::Effect {
            effect: EffectSource::Weapon { idx: 0 },
            attacker: Some(CharaId::Player),
            target: Target::Chara(CharaId::Npc { n: 0 }),
            power: Power { num: 100 * 8000 * 8, root: 8_000_000 },
            hit_power: 40_000,
        }]
    );
    assert_eq!(game.gd.player.skill_exp[SkillKind::Sword.index()], 6);
}

#[test]
fn shoot_without_ranged_weapon_fails() {
    let foe = Chara::new(2, attrs(8, 8), Faction::Hostile);
    let mut game = arena(vec![foe]);
    assert!(!shoot_target(&mut game, &catalog(), &rules(), CharaId::Player, CharaId::Npc { n: 0 }));
    assert!(game.dispatch.is_empty());
    assert_eq!(game.gd.player.skill_exp[SkillKind::Bow.index()], 0);
}

#[test]
fn shoot_with_bow() {
    let foe = Chara::new(2, attrs(8, 8), Faction::Hostile);
    let mut game = arena(vec![foe]);
    game.gd.player.equip.push(EquipEntry { slot: EquipSlotKind::RangedWeapon, n: 0, item: Item::new(6) });
    assert!(shoot_target(&mut game, &catalog(), &rules(), CharaId::Player, CharaId::Npc { n: 0 }));
    assert_eq!(
        game.dispatch,
        vec![Dispatch::Effect {
            effect: EffectSource::Weapon { idx: 6 },
            attacker: Some(CharaId::Player),
            target: Target::Chara(CharaId::Npc { n: 0 }),
            power: Power { num: 25 * 8000 * 6, root: 8_000_000 },
            hit_power: 40_000,
        }]
    );
    assert_eq!(game.gd.player.skill_exp[SkillKind::Bow.index()], 6);
}

#[test]
fn throw_item_by_weight() {
    let mut game = arena(vec![]);
    game.gd.player.item_list.append(Item::new(4), 3);
    let il = ItemLocation(ItemListLocation::Chara { cid: CharaId::Player }, 0);
    throw_item(&mut game, &catalog(), &rules(), il, CharaId::Player, Target::Tile(Vec2d(0, 0)));
    assert_eq!(units(&game, il.0, 4), 2);
    assert_eq!(game.log, vec![LogEntry::ThrowItem { cid: CharaId::Player, item: Item::new(4) }]);
    // 1000 g * 0.1 * strength 10 = 1000
    assert_eq!(
        game.dispatch,
        vec![Dispatch::Effect {
            effect: EffectSource::Throw { idx: 4 },
            attacker: Some(CharaId::Player),
            target: Target::Tile(Vec2d(0, 0)),
            power: Power { num: 1000 * 1_000_000, root: 1 },
            hit_power: 1000,
        }]
    );
    // target level one for a tile
    assert_eq!(game.gd.player.skill_exp[SkillKind::Throwing.index()], 3);
}

#[test]
fn throw_item_with_own_effect() {
    let foe = Chara::new(5, attrs(8, 8), Faction::Hostile);
    let mut game = arena(vec![foe]);
    game.gd.player.set_skill_level(SkillKind::Throwing, 2);
    game.gd.player.item_list.append(Item::new(5), 1);
    let il = ItemLocation(ItemListLocation::Chara { cid: CharaId::Player }, 0);
    throw_item(&mut game, &catalog(), &rules(), il, CharaId::Player, Target::Chara(CharaId::Npc { n: 0 }));
    assert!(game.gd.player.item_list.items.is_empty());
    // 5 * 10 * 5 * (2 + 8)
    match game.dispatch[0] {
        Dispatch::Effect { power, .. } => assert_eq!(power, Power { num: 2500 * 1_000_000, root: 1 }),
        _ => panic!("expected an effect"),
    }
    assert_eq!(game.gd.player.skill_exp[SkillKind::Throwing.index()], 15);
}

#[test]
fn drink_item_takes_one_unit() {
    let mut game = arena(vec![]);
    game.gd.player.item_list.append(Item::new(1), 2);
    let il = ItemLocation(ItemListLocation::Chara { cid: CharaId::Player }, 0);
    drink_item(&mut game, &catalog(), &rules(), il, CharaId::Player);
    assert_eq!(units(&game, il.0, 1), 1);
    assert_eq!(game.log, vec![LogEntry::DrinkItem { cid: CharaId::Player, item: Item::new(1) }]);
    // efficiency 3 * 1.5
    assert_eq!(
        game.dispatch,
        vec![Dispatch::Effect {
            effect: EffectSource::Medical { idx: 1 },
            attacker: None,
            target: Target::Chara(CharaId::Player),
            power: Power { num: 4_500_000, root: 1 },
            hit_power: 1000,
        }]
    );
}

#[test]
fn drink_from_the_ground() {
    let mut game = arena(vec![]);
    let pos = Vec2d(2, 2);
    game.gd.map.locate_item(Item::new(1), pos, 1);
    let il = ItemLocation(ItemListLocation::OnMap { pos }, 0);
    drink_item(&mut game, &catalog(), &rules(), il, CharaId::Player);
    assert_eq!(units(&game, il.0, 1), 0);
    assert!(game.gd.map.tile[12].item_list.items.is_empty());
}

#[test]
fn eat_item_restores_satiety() {
    let mut game = arena(vec![]);
    game.gd.player.item_list.append(Item::new(2), 1);
    game.gd.player.sp = 1000;
    let il = ItemLocation(ItemListLocation::Chara { cid: CharaId::Player }, 0);
    eat_item(&mut game, &catalog(), &rules(), il, CharaId::Player);
    assert_eq!(units(&game, il.0, 2), 0);
    assert_eq!(game.gd.player.sp, 1000 + 50 * 2000);
    assert_eq!(game.log, vec![LogEntry::EatItem { cid: CharaId::Player, item: Item::new(2) }]);
    assert!(game.dispatch.is_empty());
}

#[test]
fn eat_item_while_starving_damages() {
    let mut game = arena(vec![]);
    game.gd.player.item_list.append(Item::new(2), 1);
    game.gd.player.sp = -500_000;
    let il = ItemLocation(ItemListLocation::Chara { cid: CharaId::Player }, 0);
    eat_item(&mut game, &catalog(), &rules(), il, CharaId::Player);
    assert_eq!(game.gd.player.sp, -400_000);
    assert_eq!(
        game.dispatch,
        vec![Dispatch::Damage { cid: CharaId::Player, amount: 7, kind: CharaDamageKind::Starve }]
    );
}

#[test]
fn eat_item_caps_satiety() {
    let mut game = arena(vec![]);
    game.gd.player.item_list.append(Item::new(2), 1);
    game.gd.player.sp = 9_990_000;
    let il = ItemLocation(ItemListLocation::Chara { cid: CharaId::Player }, 0);
    eat_item(&mut game, &catalog(), &rules(), il, CharaId::Player);
    assert_eq!(game.gd.player.sp, 10_000_000);
}

#[test]
fn release_item_uses_a_charge() {
    let mut game = arena(vec![]);
    game.gd.player.set_skill_level(SkillKind::MagicDevice, 20);
    let mut wand = Item::new(3);
    wand.charge = Some(2);
    game.gd.player.item_list.append(wand, 1);
    let il = ItemLocation(ItemListLocation::Chara { cid: CharaId::Player }, 0);
    release_item(&mut game, &catalog(), &rules(), il, CharaId::Player, Target::Tile(Vec2d(1, 1)));
    assert_eq!(units(&game, il.0, 3), 1);
    assert_eq!(game.gd.player.item_list.items[0].0.charge, Some(1));
    // (20 / 10 + 1) * 4 * 2.0 = 24
    assert_eq!(
        game.dispatch,
        vec![Dispatch::Effect {
            effect: EffectSource::Magical { idx: 3 },
            attacker: Some(CharaId::Player),
            target: Target::Tile(Vec2d(1, 1)),
            power: Power { num: 24_000_000, root: 1 },
            hit_power: 1000,
        }]
    );
}

#[test]
fn release_item_stack_keeps_units() {
    let mut game = arena(vec![]);
    let mut wand = Item::new(3);
    wand.charge = Some(2);
    game.gd.player.item_list.append(wand, 3);
    let il = ItemLocation(ItemListLocation::Chara { cid: CharaId::Player }, 0);
    release_item(&mut game, &catalog(), &rules(), il, CharaId::Player, Target::Nothing);
    assert_eq!(units(&game, il.0, 3), 3);
    assert_eq!(game.gd.player.item_list.items[0], (wand, 2));
    let mut used = wand;
    used.charge = Some(1);
    assert_eq!(game.gd.player.item_list.items[1], (used, 1));
}

#[test]
fn release_item_without_charge_changes_nothing() {
    let mut game = arena(vec![]);
    let mut wand = Item::new(3);
    wand.charge = Some(0);
    game.gd.player.item_list.append(wand, 2);
    let il = ItemLocation(ItemListLocation::Chara { cid: CharaId::Player }, 0);
    release_item(&mut game, &catalog(), &rules(), il, CharaId::Player, Target::Nothing);
    assert_eq!(game.gd.player.item_list.items, vec![(wand, 2)]);
    assert!(game.dispatch.is_empty());
}

#[test]
fn release_item_without_magical_effect_returns_it() {
    let mut game = arena(vec![]);
    let mut wand = Item::new(7);
    wand.charge = Some(3);
    game.gd.player.item_list.append(wand, 1);
    let il = ItemLocation(ItemListLocation::Chara { cid: CharaId::Player }, 0);
    release_item(&mut game, &catalog(), &rules(), il, CharaId::Player, Target::Nothing);
    assert_eq!(game.gd.player.item_list.items, vec![(wand, 1)]);
    assert!(game.dispatch.is_empty());
}

#[test]
fn preturn_asleep_expires() {
    let mut game = arena(vec![]);
    game.gd.player.status.push(CharaStatus::Asleep { turn_left: 1 });
    assert!(!rusted_ruins::game::can_act(&mut game, CharaId::Player));
    assert_eq!(game.log, vec![LogEntry::Asleep { cid: CharaId::Player }]);
    game.log.clear();
    assert!(preturn(&mut game, CharaId::Player));
    assert!(game.gd.player.status.is_empty());
    assert!(preturn(&mut game, CharaId::Player));
    assert!(game.log.is_empty());
}

#[test]
fn preturn_long_sleep_blocks_and_logs() {
    let mut game = arena(vec![]);
    game.gd.player.status.push(CharaStatus::Hungry);
    game.gd.player.status.push(CharaStatus::Asleep { turn_left: 3 });
    game.gd.player.status.push(CharaStatus::Poisoned { turn_left: 1 });
    assert!(!preturn(&mut game, CharaId::Player));
    assert_eq!(game.gd.player.status, vec![CharaStatus::Hungry, CharaStatus::Asleep { turn_left: 2 }]);
    assert_eq!(game.log, vec![LogEntry::Asleep { cid: CharaId::Player }]);
}

#[test]
fn move_zero_step_succeeds() {
    let mut game = arena(vec![]);
    assert!(try_move(&mut game, &catalog(), &rules(), CharaId::Player, Direction::none()));
    assert_eq!(game.gd.map.tile[12].chara, Some(CharaId::Player));
    assert!(game.anim_queue.is_empty());
}

#[test]
fn move_to_free_tile() {
    let mut game = arena(vec![]);
    let dir = Direction::new(1, 0);
    assert!(try_move(&mut game, &catalog(), &rules(), CharaId::Player, dir));
    assert_eq!(game.gd.map.tile[12].chara, None);
    assert_eq!(game.gd.map.tile[13].chara, Some(CharaId::Player));
    assert_eq!(game.anim_queue, vec![dir]);
}

#[test]
fn move_blocked_by_wall_water_and_edge() {
    let mut game = arena(vec![]);
    game.gd.map.tile[13].wall = Some(0);
    game.gd.map.tile[7].main_tile = 1;
    assert!(!try_move(&mut game, &catalog(), &rules(), CharaId::Player, Direction::new(1, 0)));
    assert!(!try_move(&mut game, &catalog(), &rules(), CharaId::Player, Direction::new(0, -1)));
    game.gd.map.tile[12].chara = None;
    game.gd.map.tile[0].chara = Some(CharaId::Player);
    assert!(!try_move(&mut game, &catalog(), &rules(), CharaId::Player, Direction::new(-1, -1)));
    assert_eq!(game.gd.map.tile[0].chara, Some(CharaId::Player));
    assert!(game.anim_queue.is_empty());
}

#[test]
fn move_into_hostile_attacks() {
    let foe = Chara::new(2, attrs(8, 8), Faction::Hostile);
    let mut game = arena(vec![foe]);
    game.gd.map.tile[13].chara = Some(CharaId::Npc { n: 0 });
    assert!(try_move(&mut game, &catalog(), &rules(), CharaId::Player, Direction::new(1, 0)));
    assert_eq!(game.gd.map.tile[12].chara, Some(CharaId::Player));
    assert_eq!(game.gd.map.tile[13].chara, Some(CharaId::Npc { n: 0 }));
    assert_eq!(game.dispatch.len(), 1);
    assert!(game.anim_queue.is_empty());
}

#[test]
fn move_into_friend_swaps() {
    let friend = Chara::new(2, attrs(8, 8), Faction::Friendly);
    let mut game = arena(vec![friend]);
    game.gd.map.tile[13].chara = Some(CharaId::Npc { n: 0 });
    assert!(try_move(&mut game, &catalog(), &rules(), CharaId::Player, Direction::new(1, 0)));
    assert_eq!(game.gd.map.tile[12].chara, Some(CharaId::Npc { n: 0 }));
    assert_eq!(game.gd.map.tile[13].chara, Some(CharaId::Player));
    assert!(game.dispatch.is_empty());
}

#[test]
fn npc_never_displaces_player() {
    let friend = Chara::new(2, attrs(8, 8), Faction::Friendly);
    let mut game = arena(vec![friend]);
    game.gd.map.tile[13].chara = Some(CharaId::Npc { n: 0 });
    assert!(try_move(&mut game, &catalog(), &rules(), CharaId::Npc { n: 0 }, Direction::new(-1, 0)));
    assert_eq!(game.gd.map.tile[12].chara, Some(CharaId::Player));
    assert_eq!(game.gd.map.tile[13].chara, Some(CharaId::Npc { n: 0 }));
    assert!(game.anim_queue.is_empty());
}

#[test]
fn calc_power_keeps_fractional_skill_base() {
    let mut r = rules();
    r.skill_base = 8500;
    let c = Chara::new(1, attrs(10, 4), Faction::Player);
    let (p, h) = calc_power(&c, CharaPowerKind::MeleeAttack, Element::Physical, SkillKind::Spear, &r);
    assert_eq!(p, Power { num: 100 * 8500, root: 8_500_000 });
    assert_eq!(h, 4 * 8500);
    let value = p.num as f64 * (p.root as f64).sqrt() / 1_000_000.0;
    assert!((value - 100.0 * 8.5f64.powf(1.5)).abs() < 1e-6);
}
