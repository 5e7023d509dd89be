//! The action resolver: moves, attacks, and the use of items.
use vstd::prelude::*;
use crate::catalog::{Catalog, ItemKind, weapon_skill, weapon_skill_spec};
use crate::chara::{CharaId, EquipSlotKind, Relationship, SkillKind, equip_item_spec, relation, relation_spec, sp_after};
use crate::effect::{CharaDamageKind, Dispatch, EffectSource, Element, Target};
use crate::game::{Game, GameData, LogEntry, same_but_exp, same_but_sp};
use crate::geom::Direction;
use crate::item::{Item, ItemLocation, stacks_appended, stacks_removed, total_units, units_of_idx};
use crate::map::TileInfo;
use crate::power::{CharaPowerKind, HIT_ONE, PER_MILLE, Power, calc_power, hit_power_spec, lemma_mul_mono, power_spec, skill_term};
use crate::rules::Rules;

verus! {

/// The skill trained by attacking with `item`: the weapon kind's skill, or
/// bare hands for an item that is not a weapon.
pub open spec fn weapon_skill_of(item: Item, catalog: &Catalog) -> SkillKind {
    match catalog.item_spec(item.idx).kind {
        ItemKind::Weapon(kind) => weapon_skill_spec(kind),
        _ => SkillKind::BareHands,
    }
}

fn get_skill_kind_from_weapon(item: &Item, catalog: &Catalog) -> (r: SkillKind)
    requires
        catalog.has_item(item.idx),
    ensures
        r == weapon_skill_of(*item, catalog),
{
    match catalog.item_obj(item.idx).kind {
        ItemKind::Weapon(kind) => weapon_skill(kind),
        _ => SkillKind::BareHands,
    }
}

/// The weapon in `slot` of character `cid`, if any, has a template.
pub open spec fn weapon_known(gd: GameData, cid: CharaId, slot: EquipSlotKind, catalog: &Catalog) -> bool {
    match equip_item_spec(gd.chara_spec(cid).equip@, slot, 0) {
        Some(w) => catalog.has_item(w.idx),
        None => true,
    }
}

/// How character `cid` attacks from `slot`: the effect, the skill used and
/// the efficiency. Without a weapon: the punch, bare hands, efficiency one.
pub open spec fn attack_plan(gd: GameData, cid: CharaId, slot: EquipSlotKind, catalog: &Catalog) -> (EffectSource, SkillKind, int) {
    match equip_item_spec(gd.chara_spec(cid).equip@, slot, 0) {
        Some(w) => (EffectSource::Weapon { idx: w.idx }, weapon_skill_of(w, catalog), w.eff_spec(catalog)),
        None => (EffectSource::Punch, SkillKind::BareHands, 1),
    }
}

/// `new` is `old` after `cid` attacked `target` with plan `plan`: one
/// effect request with the attack's power scaled by the plan's efficiency,
/// and experience in the plan's skill scaled by the target's level.
pub open spec fn attack_post(
    old: Game,
    new: Game,
    rules: &Rules,
    cid: CharaId,
    target: CharaId,
    kind: CharaPowerKind,
    plan: (EffectSource, SkillKind, int),
) -> bool {
    let c = old.gd.chara_spec(cid);
    let lv = c.skill_level_spec(plan.1);
    let p = power_spec(kind, c.attr.str, c.attr.dex, lv, rules.skill_base);
    let h = hit_power_spec(kind, c.attr.str, c.attr.dex, lv, rules.skill_base);
    &&& new.dispatch@ == old.dispatch@.push(
        Dispatch::Effect {
            effect: plan.0,
            attacker: Some(cid),
            target: Target::Chara(target),
            power: Power { num: (p.num * plan.2) as u128, root: p.root },
            hit_power: h as u64,
        },
    )
    &&& new.gd.chara_spec(cid).skill_exp@ == c.exp_after_attack(plan.1, old.gd.chara_spec(target).level, rules)
    &&& same_but_exp(new.gd.chara_spec(cid), c)
    &&& old.gd.chara_replaced(new.gd, cid, new.gd.chara_spec(cid))
    &&& new.log@ == old.log@
    &&& new.anim_queue@ == old.anim_queue@
}

fn attack(
    game: &mut Game,
    catalog: &Catalog,
    rules: &Rules,
    cid: CharaId,
    target: CharaId,
    kind: CharaPowerKind,
    effect: EffectSource,
    skill_kind: SkillKind,
    eff: u32,
)
    requires
        old(game).gd.wf(),
        old(game).gd.has_chara(cid),
        old(game).gd.has_chara(target),
    ensures
        final(game).gd.wf(),
        attack_post(*old(game), *final(game), rules, cid, target, kind, (effect, skill_kind, eff as int)),
{
    let ghost g0 = game.gd;
    let (power, hit_power) = calc_power(game.gd.chara(cid), kind, Element::Physical, skill_kind, rules);
    proof {
        let n = power.num;
        assert(n * eff <= 0x1_0000_0000_0000_0000_0000u128 * 0xFFFF_FFFFu128) by (nonlinear_arith)
            requires n <= 0x1_0000_0000_0000_0000_0000u128, eff <= 0xFFFF_FFFFu32;
    }
    let power = power.scaled(eff);
    game.dispatch.push(Dispatch::Effect { effect, attacker: Some(cid), target: Target::Chara(target), power, hit_power });
    let target_level = game.gd.chara(target).level;
    let attacker = game.gd.chara_mut(cid);
    attacker.add_attack_exp(skill_kind, target_level, rules);
    proof {
        g0.lemma_chara_replaced_wf(game.gd, cid, game.gd.chara_spec(cid));
    }
}

/// Melee attack of `cid` on `target`, with the equipped melee weapon or,
/// without one, with bare hands.
pub fn melee_attack(game: &mut Game, catalog: &Catalog, rules: &Rules, cid: CharaId, target: CharaId)
    requires
        old(game).gd.wf(),
        old(game).gd.has_chara(cid),
        old(game).gd.has_chara(target),
        weapon_known(old(game).gd, cid, EquipSlotKind::MeleeWeapon, catalog),
    ensures
        final(game).gd.wf(),
        attack_post(*old(game), *final(game), rules, cid, target, CharaPowerKind::MeleeAttack,
            attack_plan(old(game).gd, cid, EquipSlotKind::MeleeWeapon, catalog)),
{
    let (effect, skill_kind, eff) = match game.gd.chara(cid).equip_item(EquipSlotKind::MeleeWeapon, 0) {
        Some(weapon) => {
            let skill_kind = get_skill_kind_from_weapon(&weapon, catalog);
            let eff = weapon.calc_eff(catalog);
            (EffectSource::Weapon { idx: weapon.idx }, skill_kind, eff)
        },
        None => (EffectSource::Punch, SkillKind::BareHands, 1u32),
    };
    attack(game, catalog, rules, cid, target, CharaPowerKind::MeleeAttack, effect, skill_kind, eff);
}

/// Ranged attack of `cid` on `target` with the equipped ranged weapon.
/// Without one nothing happens and the result is false.
pub fn shoot_target(game: &mut Game, catalog: &Catalog, rules: &Rules, cid: CharaId, target: CharaId) -> (r: bool)
    requires
        old(game).gd.wf(),
        old(game).gd.has_chara(cid),
        old(game).gd.has_chara(target),
        weapon_known(old(game).gd, cid, EquipSlotKind::RangedWeapon, catalog),
    ensures
        final(game).gd.wf(),
        r == equip_item_spec(old(game).gd.chara_spec(cid).equip@, EquipSlotKind::RangedWeapon, 0) is Some,
        r ==> attack_post(*old(game), *final(game), rules, cid, target, CharaPowerKind::RangedAttack,
            attack_plan(old(game).gd, cid, EquipSlotKind::RangedWeapon, catalog)),
        !r ==> final(game).gd == old(game).gd && final(game).dispatch@ == old(game).dispatch@
            && final(game).log@ == old(game).log@ && final(game).anim_queue@ == old(game).anim_queue@,
{
    let (effect, skill_kind, eff) = match game.gd.chara(cid).equip_item(EquipSlotKind::RangedWeapon, 0) {
        Some(weapon) => {
            let skill_kind = get_skill_kind_from_weapon(&weapon, catalog);
            let eff = weapon.calc_eff(catalog);
            (EffectSource::Weapon { idx: weapon.idx }, skill_kind, eff)
        },
        None => {
            return false;
        },
    };
    attack(game, catalog, rules, cid, target, CharaPowerKind::RangedAttack, effect, skill_kind, eff);
    true
}

} // verus!

verus! {

/// The level that experience for hitting `target` is scaled by: a
/// character's level, or one for anything else.
pub open spec fn target_level_spec(gd: GameData, target: Target) -> u32 {
    match target {
        Target::Chara(t) => gd.chara_spec(t).level,
        _ => 1,
    }
}

/// The power of a throw, in units of `1 / POWER_SCALE`: with the item's own
/// throw effect, `efficiency × strength × dexterity × (throwing + skill_base)`;
/// otherwise `weight × throw_weight_to_eff_factor × strength`.
pub open spec fn throw_power(gd: GameData, cid: CharaId, item: Item, catalog: &Catalog, rules: &Rules) -> int {
    let c = gd.chara_spec(cid);
    let obj = catalog.item_spec(item.idx);
    if obj.throw_effect is Some {
        item.eff_spec(catalog) * c.attr.str * c.attr.dex * skill_term(c.skill_level_spec(SkillKind::Throwing), rules.skill_base)
            * PER_MILLE
    } else {
        obj.w * rules.throw_weight_to_eff_factor * c.attr.str * PER_MILLE
    }
}

/// The requests for the medical effect of template `idx` on `cid`: one if
/// the template has such an effect, none otherwise. No one is its attacker.
pub open spec fn medical_requests(catalog: &Catalog, cid: CharaId, idx: u32, num: int) -> Seq<Dispatch> {
    if catalog.item_spec(idx).medical_effect is Some {
        seq![Dispatch::Effect {
            effect: EffectSource::Medical { idx },
            attacker: None,
            target: Target::Chara(cid),
            power: Power { num: num as u128, root: 1 },
            hit_power: HIT_ONE,
        }]
    } else {
        Seq::empty()
    }
}

/// The inputs of an item action: the stack holds a unit whose template is
/// known, and the actor exists.
pub open spec fn item_action_ok(gd: GameData, il: ItemLocation, cid: CharaId, catalog: &Catalog) -> bool {
    &&& gd.wf()
    &&& gd.has_units(il, 1)
    &&& gd.has_chara(cid)
    &&& catalog.has_item(gd.item_at(il).idx)
}

/// `new` is `old` with one unit taken from stack `il`, and nothing else changed.
pub open spec fn one_unit_taken(old: GameData, new: GameData, il: ItemLocation) -> bool {
    &&& old.list_replaced(new, il.0, new.item_list_spec(il.0))
    &&& new.item_list_spec(il.0).items@ == stacks_removed(old.item_list_spec(il.0).items@, il.1 as int, 1)
}

/// Throws one unit of stack `il`, held by or lying next to `cid`, at `target`.
pub fn throw_item(game: &mut Game, catalog: &Catalog, rules: &Rules, il: ItemLocation, cid: CharaId, target: Target)
    requires
        item_action_ok(old(game).gd, il, cid, catalog),
        target matches Target::Chara(t) ==> old(game).gd.has_chara(t),
    ensures
        final(game).gd.wf(),
        ({
            let item = old(game).gd.item_at(il);
            &&& units_of_idx(final(game).gd.item_list_spec(il.0).items@, item.idx)
                == units_of_idx(old(game).gd.item_list_spec(il.0).items@, item.idx) - 1
            &&& final(game).log@ == old(game).log@.push(LogEntry::ThrowItem { cid, item })
            &&& final(game).dispatch@ == old(game).dispatch@.push(Dispatch::Effect {
                effect: EffectSource::Throw { idx: item.idx },
                attacker: Some(cid),
                target,
                power: Power { num: throw_power(old(game).gd, cid, item, catalog, rules) as u128, root: 1 },
                hit_power: HIT_ONE,
            })
            &&& exists|mid: GameData| {
                &&& #[trigger] one_unit_taken(old(game).gd, mid, il)
                &&& mid.chara_replaced(final(game).gd, cid, final(game).gd.chara_spec(cid))
                &&& same_but_exp(final(game).gd.chara_spec(cid), mid.chara_spec(cid))
            }
            &&& final(game).gd.item_list_spec(il.0).items@ == stacks_removed(old(game).gd.item_list_spec(il.0).items@, il.1 as int, 1)
            &&& final(game).gd.chara_spec(cid).skill_exp@ == old(game).gd.chara_spec(cid).exp_after_attack(
                SkillKind::Throwing, target_level_spec(old(game).gd, target), rules)
            &&& final(game).anim_queue@ == old(game).anim_queue@
        }),
{
    let ghost g0 = game.gd;
    let item = game.gd.remove_item_and_get(il, 1);
    let ghost g1 = game.gd;
    proof {
        g0.lemma_list_replaced_keeps(g1, il.0, g1.item_list_spec(il.0));
    }
    let chara = game.gd.chara(cid);
    let obj = catalog.item_obj(item.idx);
    let num: u128 = if obj.throw_effect.is_some() {
        let e = item.calc_eff(catalog) as u128;
        let s = chara.attr.str as u128;
        let d = chara.attr.dex as u128;
        let x = 1000 * chara.skill_level(SkillKind::Throwing) as u128 + rules.skill_base as u128;
        proof {
            lemma_mul_mono(e as int, 0xFFFF_FFFF, s as int, 0xFFFF);
            lemma_mul_mono((e * s) as int, (0xFFFF_FFFF * 0xFFFF) as int, d as int, 0xFFFF);
            lemma_mul_mono((e * s * d) as int, (0xFFFF_FFFF * 0xFFFF * 0xFFFF) as int, x as int, 0x400_0000_0000);
            lemma_mul_mono((e * s * d * x) as int, (0xFFFF_FFFF * 0xFFFF * 0xFFFF * 0x400_0000_0000) as int, PER_MILLE as int, 1000);
        }
        e * s * d * x * PER_MILLE
    } else {
        let w = item.w(catalog) as u128;
        let f = rules.throw_weight_to_eff_factor as u128;
        let s = chara.attr.str as u128;
        proof {
            lemma_mul_mono(w as int, 0xFFFF_FFFF, f as int, 0xFFFF_FFFF);
            lemma_mul_mono((w * f) as int, (0xFFFF_FFFF * 0xFFFF_FFFF) as int, s as int, 0xFFFF);
            lemma_mul_mono((w * f * s) as int, (0xFFFF_FFFF * 0xFFFF_FFFF * 0xFFFF) as int, PER_MILLE as int, 1000);
        }
        w * f * s * PER_MILLE
    };
    game.log.push(LogEntry::ThrowItem { cid, item });
    game.dispatch.push(Dispatch::Effect {
        effect: EffectSource::Throw { idx: item.idx },
        attacker: Some(cid),
        target,
        power: Power { num, root: 1 },
        hit_power: HIT_ONE,
    });
    let target_level = match target {
        Target::Chara(t) => game.gd.chara(t).level,
        _ => 1,
    };
    let attacker = game.gd.chara_mut(cid);
    attacker.add_attack_exp(SkillKind::Throwing, target_level, rules);
    proof {
        g1.lemma_chara_replaced_wf(game.gd, cid, game.gd.chara_spec(cid));
        assert(one_unit_taken(g0, g1, il));
        g1.lemma_chara_replaced_keeps_lists(game.gd, cid, game.gd.chara_spec(cid), il.0);
    }
}

fn apply_medical_effect(game: &mut Game, catalog: &Catalog, cid: CharaId, idx: u32, num: u128)
    requires
        catalog.has_item(idx),
    ensures
        final(game).gd == old(game).gd,
        final(game).log@ == old(game).log@,
        final(game).anim_queue@ == old(game).anim_queue@,
        final(game).dispatch@ == old(game).dispatch@ + medical_requests(catalog, cid, idx, num as int),
{
    if catalog.item_obj(idx).medical_effect.is_none() {
        proof {
            assert(old(game).dispatch@ + Seq::<Dispatch>::empty() =~= old(game).dispatch@);
        }
        return;
    }
    let ghost d0 = game.dispatch@;
    game.dispatch.push(Dispatch::Effect {
        effect: EffectSource::Medical { idx },
        attacker: None,
        target: Target::Chara(cid),
        power: Power { num, root: 1 },
        hit_power: HIT_ONE,
    });
    proof {
        assert(game.dispatch@ =~= d0 + medical_requests(catalog, cid, idx, num as int));
    }
}

/// Drinks one unit of stack `il`: the drinker receives the item's medical
/// effect, if any, with power `efficiency × item_drink_power_factor`.
pub fn drink_item(game: &mut Game, catalog: &Catalog, rules: &Rules, il: ItemLocation, cid: CharaId)
    requires
        item_action_ok(old(game).gd, il, cid, catalog),
    ensures
        final(game).gd.wf(),
        ({
            let item = old(game).gd.item_at(il);
            &&& one_unit_taken(old(game).gd, final(game).gd, il)
            &&& units_of_idx(final(game).gd.item_list_spec(il.0).items@, item.idx)
                == units_of_idx(old(game).gd.item_list_spec(il.0).items@, item.idx) - 1
            &&& final(game).log@ == old(game).log@.push(LogEntry::DrinkItem { cid, item })
            &&& final(game).dispatch@ == old(game).dispatch@ + medical_requests(catalog, cid, item.idx,
                item.eff_spec(catalog) * rules.item_drink_power_factor * PER_MILLE)
            &&& final(game).anim_queue@ == old(game).anim_queue@
        }),
{
    let item = game.gd.remove_item_and_get(il, 1);
    game.log.push(LogEntry::DrinkItem { cid, item });
    let e = item.calc_eff(catalog) as u128;
    let f = rules.item_drink_power_factor as u128;
    proof {
        assert(e * f * PER_MILLE <= 0xFFFF_FFFFu128 * 0xFFFF_FFFFu128 * 1000u128) by (nonlinear_arith)
            requires e <= 0xFFFF_FFFFu128, f <= 0xFFFF_FFFFu128, PER_MILLE == 1000u128;
    }
    apply_medical_effect(game, catalog, cid, item.idx, e * f * PER_MILLE);
}

/// The satiety that eating `item` adds: `nutrition × sp_nutrition_factor`,
/// in thousandths of a point.
pub open spec fn nutrition_sp(item: Item, catalog: &Catalog, rules: &Rules) -> int {
    catalog.item_spec(item.idx).nutrition * rules.sp_nutrition_factor
}

/// Eats one unit of stack `il`: the eater gains satiety from the item's
/// nutrition, takes starvation damage if satiety stays below zero, then
/// receives the item's medical effect, if any, with power
/// `efficiency × item_eat_power_factor`.
pub fn eat_item(game: &mut Game, catalog: &Catalog, rules: &Rules, il: ItemLocation, cid: CharaId)
    requires
        item_action_ok(old(game).gd, il, cid, catalog),
    ensures
        final(game).gd.wf(),
        ({
            let item = old(game).gd.item_at(il);
            let sp = sp_after(old(game).gd.chara_spec(cid).sp as int, nutrition_sp(item, catalog, rules), rules);
            let damage: Seq<Dispatch> = if sp < 0 {
                seq![Dispatch::Damage { cid, amount: rules.starve_damage, kind: CharaDamageKind::Starve }]
            } else {
                Seq::empty()
            };
            &&& units_of_idx(final(game).gd.item_list_spec(il.0).items@, item.idx)
                == units_of_idx(old(game).gd.item_list_spec(il.0).items@, item.idx) - 1
            &&& final(game).gd.item_list_spec(il.0).items@ == stacks_removed(old(game).gd.item_list_spec(il.0).items@, il.1 as int, 1)
            &&& final(game).gd.chara_spec(cid).sp == sp
            &&& exists|mid: GameData| {
                &&& #[trigger] one_unit_taken(old(game).gd, mid, il)
                &&& mid.chara_replaced(final(game).gd, cid, final(game).gd.chara_spec(cid))
                &&& same_but_sp(final(game).gd.chara_spec(cid), mid.chara_spec(cid))
            }
            &&& final(game).log@ == old(game).log@.push(LogEntry::EatItem { cid, item })
            &&& final(game).dispatch@ == old(game).dispatch@ + damage + medical_requests(catalog, cid, item.idx,
                item.eff_spec(catalog) * rules.item_eat_power_factor * PER_MILLE)
            &&& final(game).anim_queue@ == old(game).anim_queue@
        }),
{
    let ghost g0 = game.gd;
    let ghost d0 = game.dispatch@;
    let item = game.gd.remove_item_and_get(il, 1);
    let ghost g1 = game.gd;
    proof {
        g0.lemma_list_replaced_keeps(g1, il.0, g1.item_list_spec(il.0));
    }
    game.log.push(LogEntry::EatItem { cid, item });
    let nutrition = catalog.item_obj(item.idx).nutrition as i64;
    proof {
        let a = nutrition;
        let b = rules.sp_nutrition_factor as i64;
        assert(a * b <= 0xFFFFi64 * 0xFFFF_FFFFi64) by (nonlinear_arith)
            requires 0 <= a <= 0xFFFF, 0 <= b <= 0xFFFF_FFFF;
        assert(0 <= a * b) by (nonlinear_arith)
            requires 0 <= a, 0 <= b;
    }
    let v: i64 = nutrition * rules.sp_nutrition_factor as i64;
    let chara = game.gd.chara_mut(cid);
    let damage = chara.add_sp(v, rules);
    proof {
        g1.lemma_chara_replaced_wf(game.gd, cid, game.gd.chara_spec(cid));
        g1.lemma_chara_replaced_keeps_lists(game.gd, cid, game.gd.chara_spec(cid), il.0);
        assert(one_unit_taken(g0, g1, il));
    }
    if let Some(d) = damage {
        game.dispatch.push(Dispatch::Damage { cid, amount: d, kind: CharaDamageKind::Starve });
    }
    let ghost d1 = game.dispatch@;
    let e = item.calc_eff(catalog) as u128;
    let f = rules.item_eat_power_factor as u128;
    proof {
        assert(e * f * PER_MILLE <= 0xFFFF_FFFFu128 * 0xFFFF_FFFFu128 * 1000u128) by (nonlinear_arith)
            requires e <= 0xFFFF_FFFFu128, f <= 0xFFFF_FFFFu128, PER_MILLE == 1000u128;
    }
    apply_medical_effect(game, catalog, cid, item.idx, e * f * PER_MILLE);
    proof {
        let sp = game.gd.chara_spec(cid).sp;
        let damage_seq: Seq<Dispatch> = if sp < 0 {
            seq![Dispatch::Damage { cid, amount: rules.starve_damage, kind: CharaDamageKind::Starve }]
        } else {
            Seq::empty()
        };
        assert(d1 =~= d0 + damage_seq);
    }
}

/// The item as it goes back after a release: one charge fewer when the
/// device fired, unchanged otherwise.
pub open spec fn released_item(item: Item, catalog: &Catalog) -> Item {
    if release_fires(item, catalog) {
        Item { charge: Some((item.charge.unwrap() - 1) as u32), ..item }
    } else {
        item
    }
}

/// A device fires when it has a charge left and a magical effect.
pub open spec fn release_fires(item: Item, catalog: &Catalog) -> bool {
    &&& item.charge matches Some(n) && n >= 1
    &&& catalog.item_spec(item.idx).magical_effect is Some
}

/// The power of a release, in units of `1 / POWER_SCALE`:
/// `(magic_device / 10 + 1) × efficiency × magic_device_base_power`, that is
/// `(magic_device + 10) × efficiency × base_power_thousandths × 100`.
pub open spec fn release_power(gd: GameData, cid: CharaId, item: Item, catalog: &Catalog, rules: &Rules) -> int {
    (gd.chara_spec(cid).skill_level_spec(SkillKind::MagicDevice) + 10) * item.eff_spec(catalog)
        * rules.magic_device_base_power * (PER_MILLE / 10)
}

/// Releases one charge of the device in stack `il` at `target`. The device
/// fires when it has a charge and a magical effect; it then goes back to its
/// list with one charge fewer. Otherwise nothing is released and it goes
/// back unchanged. Either way the number of units in the list is kept.
pub fn release_item(game: &mut Game, catalog: &Catalog, rules: &Rules, il: ItemLocation, cid: CharaId, target: Target)
    requires
        item_action_ok(old(game).gd, il, cid, catalog),
    ensures
        final(game).gd.wf(),
        ({
            let item = old(game).gd.item_at(il);
            let s = old(game).gd.item_list_spec(il.0).items@;
            &&& old(game).gd.list_replaced(final(game).gd, il.0, final(game).gd.item_list_spec(il.0))
            &&& final(game).gd.item_list_spec(il.0).items@
                == stacks_appended(stacks_removed(s, il.1 as int, 1), released_item(item, catalog), 1)
            &&& units_of_idx(final(game).gd.item_list_spec(il.0).items@, item.idx) == units_of_idx(s, item.idx)
            &&& total_units(final(game).gd.item_list_spec(il.0).items@) == total_units(s)
            &&& final(game).dispatch@ == if release_fires(item, catalog) {
                old(game).dispatch@.push(Dispatch::Effect {
                    effect: EffectSource::Magical { idx: item.idx },
                    attacker: Some(cid),
                    target,
                    power: Power { num: release_power(old(game).gd, cid, item, catalog, rules) as u128, root: 1 },
                    hit_power: HIT_ONE,
                })
            } else {
                old(game).dispatch@
            }
            &&& final(game).log@ == old(game).log@
            &&& final(game).anim_queue@ == old(game).anim_queue@
        }),
{
    let ghost g0 = game.gd;
    let mut item = game.gd.remove_item_and_get(il, 1);
    let ghost g1 = game.gd;
    proof {
        g0.lemma_list_replaced_keeps(g1, il.0, g1.item_list_spec(il.0));
        g0.lemma_item_list_wf(il.0);
    }
    let eff = item.calc_eff(catalog) as u128;
    match item.charge {
        Some(n) => {
            if n >= 1 {
                let skill_level = game.gd.chara(cid).skill_level(SkillKind::MagicDevice) as u128;
                let bp = rules.magic_device_base_power as u128;
                proof {
                    lemma_mul_mono((skill_level + 10) as int, 0x2_0000_0000, eff as int, 0xFFFF_FFFF);
                    lemma_mul_mono(((skill_level + 10) * eff) as int, (0x2_0000_0000 * 0xFFFF_FFFF) as int, bp as int, 0xFFFF_FFFF);
                    lemma_mul_mono(((skill_level + 10) * eff * bp) as int, (0x2_0000_0000 * 0xFFFF_FFFF * 0xFFFF_FFFF) as int,
                        (PER_MILLE / 10) as int, 100);
                }
                let num = (skill_level + 10) * eff * bp * (PER_MILLE / 10);
                if catalog.item_obj(item.idx).magical_effect.is_some() {
                    game.dispatch.push(Dispatch::Effect {
                        effect: EffectSource::Magical { idx: item.idx },
                        attacker: Some(cid),
                        target,
                        power: Power { num, root: 1 },
                        hit_power: HIT_ONE,
                    });
                    item.charge = Some(n - 1);
                }
            }
        },
        None => {},
    }
    game.gd.append_item(il.0, item, 1);
    proof {
        g1.lemma_list_replaced_keeps(game.gd, il.0, game.gd.item_list_spec(il.0));
        g0.lemma_list_replaced_twice(g1, game.gd, il.0, g1.item_list_spec(il.0), game.gd.item_list_spec(il.0));
    }
}

} // verus!

verus! {

/// `new` is `old` with nothing changed.
pub open spec fn game_unchanged(old: Game, new: Game) -> bool {
    &&& new.gd == old.gd
    &&& new.log@ == old.log@
    &&& new.dispatch@ == old.dispatch@
    &&& new.anim_queue@ == old.anim_queue@
}

/// `new` is `old` with character `cid` moved one step in `dir`, exchanging
/// places with the occupant of the destination.
pub open spec fn stepped(old: GameData, new: GameData, cid: CharaId, dir: Direction) -> bool {
    let p = old.map.chara_pos_spec(cid).unwrap();
    let d = p.step_spec(dir);
    &&& new.player == old.player
    &&& new.npcs@ == old.npcs@
    &&& new.site == old.site
    &&& new.floor == old.floor
    &&& new.money == old.money
    &&& new.map.w == old.map.w
    &&& new.map.h == old.map.h
    &&& new.map.observed_tile@ == old.map.observed_tile@
    &&& new.map.entrance@ == old.map.entrance@
    &&& new.map.tile@ == old.map.tile@
        .update(old.map.index_of(p), TileInfo { chara: old.map.tile_at(d).chara, ..old.map.tile_at(p) })
        .update(old.map.index_of(d), TileInfo { chara: Some(cid), ..old.map.tile_at(d) })
}

/// Tries to move `cid` one step in `dir`. A zero step succeeds at once. A
/// step outside the map or onto impassable terrain fails. Onto a free tile
/// the character moves. Onto a hostile character it attacks instead; onto
/// any other it exchanges places, unless that one is the player, who is
/// never displaced. Each move of the player is queued for animation.
pub fn try_move(game: &mut Game, catalog: &Catalog, rules: &Rules, cid: CharaId, dir: Direction) -> (r: bool)
    requires
        old(game).gd.wf(),
        old(game).gd.has_chara(cid),
        old(game).gd.map.holds_chara(cid),
        old(game).gd.map.tiles_known(catalog),
        weapon_known(old(game).gd, cid, EquipSlotKind::MeleeWeapon, catalog),
        dir.valid(),
    ensures
        final(game).gd.wf(),
        ({
            let g = *old(game);
            let p = g.gd.map.chara_pos_spec(cid).unwrap();
            let d = p.step_spec(dir);
            let anim = if cid == CharaId::Player { g.anim_queue@.push(dir) } else { g.anim_queue@ };
            if dir.hdir == 0 && dir.vdir == 0 {
                r && game_unchanged(g, *final(game))
            } else if !g.gd.map.passable_spec(d, catalog) {
                !r && game_unchanged(g, *final(game))
            } else {
                match g.gd.map.tile_at(d).chara {
                    None => {
                        &&& r
                        &&& stepped(g.gd, final(game).gd, cid, dir)
                        &&& final(game).anim_queue@ == anim
                        &&& final(game).log@ == g.log@
                        &&& final(game).dispatch@ == g.dispatch@
                    },
                    Some(o) => if relation_spec(g.gd.chara_spec(cid).faction, g.gd.chara_spec(o).faction)
                        == Relationship::Hostile {
                        &&& r
                        &&& attack_post(g, *final(game), rules, cid, o, CharaPowerKind::MeleeAttack,
                            attack_plan(g.gd, cid, EquipSlotKind::MeleeWeapon, catalog))
                    } else {
                        &&& r
                        &&& if o == CharaId::Player { final(game).gd == g.gd } else { stepped(g.gd, final(game).gd, cid, dir) }
                        &&& final(game).anim_queue@ == anim
                        &&& final(game).log@ == g.log@
                        &&& final(game).dispatch@ == g.dispatch@
                    },
                }
            }
        }),
{
    if dir.hdir == 0 && dir.vdir == 0 {
        return true;
    }
    let ghost g0 = game.gd;
    let p = match game.gd.map.chara_pos(cid) {
        Some(p) => p,
        None => {
            return false;
        },
    };
    proof {
        g0.map.lemma_chara_pos_unique(cid, p);
    }
    let dest = p.step(dir);
    if !game.gd.map.is_passable(dest, catalog) {
        return false;
    }
    match game.gd.map.get_chara(dest) {
        None => {
            game.gd.map.move_chara(cid, dir);
            proof {
                lemma_stepped_wf(g0, game.gd, cid, dir);
            }
            if cid == CharaId::Player {
                game.anim_queue.push(dir);
            }
        },
        Some(other) => {
            proof {
                g0.map.lemma_index_in_range(dest);
                assert(g0.map.tile@[g0.map.index_of(dest)].chara is Some);
            }
            let rel = relation(game.gd.chara(cid).faction, game.gd.chara(other).faction);
            match rel {
                Relationship::Hostile => {
                    melee_attack(game, catalog, rules, cid, other);
                },
                _ => {
                    if other != CharaId::Player {
                        game.gd.map.move_chara(cid, dir);
                        proof {
                            lemma_stepped_wf(g0, game.gd, cid, dir);
                        }
                    }
                    if cid == CharaId::Player {
                        game.anim_queue.push(dir);
                    }
                },
            }
        },
    }
    true
}

proof fn lemma_stepped_wf(old: GameData, new: GameData, cid: CharaId, dir: Direction)
    requires
        old.wf(),
        old.has_chara(cid),
        old.map.chara_pos_spec(cid) is Some,
        old.map.in_bounds(old.map.chara_pos_spec(cid).unwrap()),
        old.map.in_bounds(old.map.chara_pos_spec(cid).unwrap().step_spec(dir)),
        stepped(old, new, cid, dir),
        new.map.wf(),
    ensures
        new.wf(),
{
    let p = old.map.chara_pos_spec(cid).unwrap();
    let d = p.step_spec(dir);
    old.map.lemma_index_in_range(p);
    old.map.lemma_index_in_range(d);
    let ip = old.map.index_of(p);
    let id = old.map.index_of(d);
    assert forall|i: int|
        0 <= i < new.map.tile@.len() && (#[trigger] new.map.tile@[i]).chara is Some
            implies new.has_chara(new.map.tile@[i].chara.unwrap()) by {
        if i == id {
        } else if i == ip {
            assert(old.map.tile@[id].chara is Some);
        } else {
            assert(new.map.tile@[i] == old.map.tile@[i]);
        }
    }
}

} // verus!
