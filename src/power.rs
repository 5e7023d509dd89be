//! The power model: damage power and hit power of an attack, from the
//! attacker's attributes and skill.
use vstd::prelude::*;
use crate::chara::{Chara, SkillKind};
use crate::effect::Element;
use crate::rules::Rules;

verus! {

/// Powers are exact values of the form `num * sqrt(root) / POWER_SCALE`.
pub const POWER_SCALE: u128 = 1_000_000;

/// A thousandth, in units of `1 / POWER_SCALE`: rule factors given in
/// thousandths are multiplied by this to make powers.
pub const PER_MILLE: u128 = 1000;

/// A hit power of one, in thousandths: hit powers are given in thousandths.
pub const HIT_ONE: u64 = 1000;

/// A power `num * sqrt(root) / POWER_SCALE`. Attack powers grow with the
/// 1.5th power of a skill term, so the square root is kept exact.
#[derive(Clone, Copy, Debug, PartialEq, Eq, Structural)]
pub struct Power {
    pub num: u128,
    pub root: u64,
}

impl Power {
    /// The square of the value, times `POWER_SCALE²`: powers compare as this does.
    pub open spec fn sq(self) -> int {
        self.num * self.num * self.root
    }

    /// This power multiplied by `k`.
    pub fn scaled(self, k: u32) -> (r: Power)
        requires
            self.num * k <= u128::MAX,
        ensures
            r.num == self.num * k,
            r.root == self.root,
    {
        Power { num: self.num * k as u128, root: self.root }
    }
}

/// `a` is at most `b` as a value.
pub open spec fn power_le(a: Power, b: Power) -> bool {
    a.sq() <= b.sq()
}

#[derive(Clone, Copy, Debug, PartialEq, Eq, Structural)]
pub enum CharaPowerKind {
    MeleeAttack,
    RangedAttack,
}

/// The attribute that drives damage: strength in melee, dexterity at range.
pub open spec fn primary_attr(kind: CharaPowerKind, str: u16, dex: u16) -> u16 {
    match kind {
        CharaPowerKind::MeleeAttack => str,
        CharaPowerKind::RangedAttack => dex,
    }
}

/// The attribute that drives accuracy: dexterity.
pub open spec fn secondary_attr(kind: CharaPowerKind, str: u16, dex: u16) -> u16 {
    dex
}

/// `skill_lv + skill_base`, in thousandths (`skill_base` is in thousandths).
pub open spec fn skill_term(skill_lv: u32, skill_base: u32) -> int {
    1000 * skill_lv as int + skill_base as int
}

/// `primary² × (skill_lv + skill_base)^1.5`: with `x` the skill term in
/// thousandths, `(x / 1000)^1.5 = x × sqrt(1000 x) / 10^6`.
pub open spec fn power_spec(kind: CharaPowerKind, str: u16, dex: u16, skill_lv: u32, skill_base: u32) -> Power {
    let p = primary_attr(kind, str, dex) as int;
    let x = skill_term(skill_lv, skill_base);
    Power { num: (p * p * x) as u128, root: (1000 * x) as u64 }
}

/// `secondary × (skill_lv + skill_base)`, in thousandths.
pub open spec fn hit_power_spec(kind: CharaPowerKind, str: u16, dex: u16, skill_lv: u32, skill_base: u32) -> int {
    secondary_attr(kind, str, dex) as int * skill_term(skill_lv, skill_base)
}

/// Calculates a character's `(power, hit_power)` for an attack of kind
/// `power_kind` trained by `skill_kind`.
pub fn calc_power(
    chara: &Chara,
    power_kind: CharaPowerKind,
    _element: Element,
    skill_kind: SkillKind,
    rules: &Rules,
) -> (r: (Power, u64))
    requires
        chara.wf(),
    ensures
        r.0 == power_spec(power_kind, chara.attr.str, chara.attr.dex, chara.skill_level_spec(skill_kind), rules.skill_base),
        r.1 == hit_power_spec(power_kind, chara.attr.str, chara.attr.dex, chara.skill_level_spec(skill_kind), rules.skill_base),
        r.0.num <= 0x1_0000_0000_0000_0000_0000u128,
{
    let skill_lv = chara.skill_level(skill_kind);
    let (attr, hit_attr) = match power_kind {
        CharaPowerKind::MeleeAttack => (chara.attr.str, chara.attr.dex),
        CharaPowerKind::RangedAttack => (chara.attr.dex, chara.attr.dex),
    };
    let x: u64 = 1000 * skill_lv as u64 + rules.skill_base as u64;
    let a: u128 = attr as u128;
    proof {
        assert(a * a <= 0xFFFF * 0xFFFF) by (nonlinear_arith)
            requires a <= 0xFFFF;
        assert(a * a * x <= 0xFFFF * 0xFFFF * 0x400_0000_0000) by (nonlinear_arith)
            requires a * a <= 0xFFFF * 0xFFFF, x <= 0x400_0000_0000, a * a >= 0;
        assert((hit_attr as int) * (x as int) <= 0xFFFF * 0x400_0000_0000) by (nonlinear_arith)
            requires hit_attr <= 0xFFFF, x <= 0x400_0000_0000;
    }
    let power = Power { num: a * a * x as u128, root: 1000 * x };
    let hit_power: u64 = hit_attr as u64 * x;
    (power, hit_power)
}

/// Products of non-negative numbers grow with their factors.
pub proof fn lemma_mul_mono(a: int, b: int, c: int, d: int)
    requires
        0 <= a <= b,
        0 <= c <= d,
    ensures
        0 <= a * c <= b * d,
{
    assert(0 <= a * c <= b * d) by (nonlinear_arith)
        requires 0 <= a <= b, 0 <= c <= d;
}

/// Power and hit power never decrease when strength, dexterity or skill
/// level grows, for either kind of attack; and hit power is the same
/// whatever the strength.
pub proof fn lemma_calc_power_monotone(
    kind: CharaPowerKind,
    str1: u16,
    dex1: u16,
    lv1: u32,
    str2: u16,
    dex2: u16,
    lv2: u32,
    skill_base: u32,
)
    requires
        str1 <= str2,
        dex1 <= dex2,
        lv1 <= lv2,
    ensures
        power_le(power_spec(kind, str1, dex1, lv1, skill_base), power_spec(kind, str2, dex2, lv2, skill_base)),
        hit_power_spec(kind, str1, dex1, lv1, skill_base) <= hit_power_spec(kind, str2, dex2, lv2, skill_base),
        hit_power_spec(kind, str1, dex1, lv1, skill_base) == hit_power_spec(kind, str2, dex1, lv1, skill_base),
{
    let pa = primary_attr(kind, str1, dex1) as int;
    let pb = primary_attr(kind, str2, dex2) as int;
    let x1 = skill_term(lv1, skill_base);
    let x2 = skill_term(lv2, skill_base);
    lemma_mul_mono(pa, pb, pa, pb);
    lemma_mul_mono(pa * pa, pb * pb, x1, x2);
    let n1 = pa * pa * x1;
    let n2 = pb * pb * x2;
    let a = power_spec(kind, str1, dex1, lv1, skill_base);
    let b = power_spec(kind, str2, dex2, lv2, skill_base);
    assert(pa * pa <= 0xFFFF_FFFF) by (nonlinear_arith)
        requires 0 <= pa <= 0xFFFF;
    assert(pb * pb <= 0xFFFF_FFFF) by (nonlinear_arith)
        requires 0 <= pb <= 0xFFFF;
    lemma_mul_mono(pa * pa, 0xFFFF_FFFF, x1, 0x400_0000_0000);
    lemma_mul_mono(pb * pb, 0xFFFF_FFFF, x2, 0x400_0000_0000);
    assert(a.num == n1 && a.root == 1000 * x1);
    assert(b.num == n2 && b.root == 1000 * x2);
    lemma_mul_mono(n1, n2, n1, n2);
    lemma_mul_mono(n1 * n1, n2 * n2, 1000 * x1, 1000 * x2);
    lemma_mul_mono(dex1 as int, dex2 as int, x1, x2);
}

} // verus!
