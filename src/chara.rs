//! Characters: attributes, skills, equipment, statuses and resources.
use vstd::prelude::*;
use crate::item::{Item, ItemList};
use crate::rules::Rules;
use crate::status::CharaStatus;

verus! {

/// Identity of a character: the player, or the NPC at index `n` of the roster.
#[derive(Clone, Copy, Debug, PartialEq, Eq, Structural)]
pub enum CharaId {
    Player,
    Npc { n: u32 },
}

#[derive(Clone, Copy, Debug, PartialEq, Eq, Structural)]
pub enum SkillKind {
    BareHands,
    Throwing,
    MagicDevice,
    Sword,
    Axe,
    Spear,
    Bow,
    Crossbow,
    Gun,
}

/// The number of skill kinds.
pub const SKILL_COUNT: usize = 9;

impl SkillKind {
    pub open spec fn index_spec(self) -> int {
        match self {
            SkillKind::BareHands => 0,
            SkillKind::Throwing => 1,
            SkillKind::MagicDevice => 2,
            SkillKind::Sword => 3,
            SkillKind::Axe => 4,
            SkillKind::Spear => 5,
            SkillKind::Bow => 6,
            SkillKind::Crossbow => 7,
            SkillKind::Gun => 8,
        }
    }

    /// The slot of this skill in per-skill tables.
    pub fn index(&self) -> (r: usize)
        ensures
            r == self.index_spec(),
            r < SKILL_COUNT,
    {
        match self {
            SkillKind::BareHands => 0,
            SkillKind::Throwing => 1,
            SkillKind::MagicDevice => 2,
            SkillKind::Sword => 3,
            SkillKind::Axe => 4,
            SkillKind::Spear => 5,
            SkillKind::Bow => 6,
            SkillKind::Crossbow => 7,
            SkillKind::Gun => 8,
        }
    }
}

#[derive(Clone, Copy, Debug, PartialEq, Eq, Structural)]
pub struct CharaAttributes {
    pub str: u16,
    pub vit: u16,
    pub dex: u16,
    pub int: u16,
    pub wil: u16,
    pub cha: u16,
    pub spd: u16,
}

#[derive(Clone, Copy, Debug, PartialEq, Eq, Structural)]
pub enum EquipSlotKind {
    MeleeWeapon,
    RangedWeapon,
    BodyArmor,
    Shield,
}

/// An equipped item, keyed by slot kind and sub-index.
#[derive(Clone, Copy, Debug, PartialEq, Eq, Structural)]
pub struct EquipEntry {
    pub slot: EquipSlotKind,
    pub n: u8,
    pub item: Item,
}

#[derive(Clone, Copy, Debug, PartialEq, Eq, Structural)]
pub enum Faction {
    Player,
    Friendly,
    Neutral,
    Hostile,
}

#[derive(Clone, Copy, Debug, PartialEq, Eq, Structural)]
pub enum Relationship {
    Ally,
    Friendly,
    Neutral,
    Hostile,
}

/// How a member of faction `a` stands to a member of faction `b`: members of
/// one faction are allies; a hostile faction is hostile to every other; a
/// neutral one is neutral to the rest; the player and friendly factions are
/// friends.
pub open spec fn relation_spec(a: Faction, b: Faction) -> Relationship {
    if a == b {
        Relationship::Ally
    } else if a == Faction::Hostile || b == Faction::Hostile {
        Relationship::Hostile
    } else if a == Faction::Neutral || b == Faction::Neutral {
        Relationship::Neutral
    } else {
        Relationship::Friendly
    }
}

pub fn relation(a: Faction, b: Faction) -> (r: Relationship)
    ensures
        r == relation_spec(a, b),
{
    if a == b {
        Relationship::Ally
    } else if a == Faction::Hostile || b == Faction::Hostile {
        Relationship::Hostile
    } else if a == Faction::Neutral || b == Faction::Neutral {
        Relationship::Neutral
    } else {
        Relationship::Friendly
    }
}

/// A character.
#[derive(Debug)]
pub struct Chara {
    pub level: u32,
    pub attr: CharaAttributes,
    /// Proficiency by skill, indexed by `SkillKind::index`.
    pub skill_levels: Vec<u32>,
    /// Experience by skill, indexed by `SkillKind::index`.
    pub skill_exp: Vec<u64>,
    pub equip: Vec<EquipEntry>,
    /// Active statuses, in the order they were put on.
    pub status: Vec<CharaStatus>,
    /// Satiety, in thousandths of a point.
    pub sp: i64,
    pub faction: Faction,
    pub item_list: ItemList,
}

/// The equipped item in slot `(slot, n)`: the first entry with that key.
pub open spec fn equip_item_spec(equip: Seq<EquipEntry>, slot: EquipSlotKind, n: u8) -> Option<Item>
    decreases equip.len(),
{
    if equip.len() == 0 {
        None
    } else if equip[0].slot == slot && equip[0].n == n {
        Some(equip[0].item)
    } else {
        equip_item_spec(equip.drop_first(), slot, n)
    }
}

/// The satiety after `v` is added, capped at the rule's maximum.
pub open spec fn sp_after(sp: int, v: int, rules: &Rules) -> int {
    if sp + v > rules.sp_max {
        rules.sp_max as int
    } else {
        sp + v
    }
}

impl Chara {
    pub open spec fn wf(&self) -> bool {
        &&& self.skill_levels@.len() == SKILL_COUNT
        &&& self.skill_exp@.len() == SKILL_COUNT
        &&& self.item_list.wf()
    }

    /// Whether the character is well formed: `wf`.
    pub fn is_valid(&self) -> (r: bool)
        ensures
            r == self.wf(),
    {
        self.skill_levels.len() == SKILL_COUNT && self.skill_exp.len() == SKILL_COUNT && self.item_list.is_valid()
    }

    pub open spec fn skill_level_spec(&self, kind: SkillKind) -> u32 {
        self.skill_levels@[kind.index_spec()]
    }

    pub open spec fn skill_exp_spec(&self, kind: SkillKind) -> u64 {
        self.skill_exp@[kind.index_spec()]
    }

    /// A character with no skill, experience, equipment, status or item.
    pub fn new(level: u32, attr: CharaAttributes, faction: Faction) -> (r: Chara)
        ensures
            r.wf(),
            r.level == level,
            r.attr == attr,
            r.faction == faction,
            forall|i: int| 0 <= i < SKILL_COUNT ==> r.skill_levels@[i] == 0 && r.skill_exp@[i] == 0,
            r.equip@.len() == 0,
            r.status@.len() == 0,
            r.sp == 0,
            r.item_list.items@.len() == 0,
    {
        let mut skill_levels: Vec<u32> = Vec::new();
        let mut skill_exp: Vec<u64> = Vec::new();
        let mut i: usize = 0;
        while i < SKILL_COUNT
            invariant
                i <= SKILL_COUNT,
                skill_levels@.len() == i,
                skill_exp@.len() == i,
                forall|j: int| 0 <= j < i ==> skill_levels@[j] == 0 && skill_exp@[j] == 0,
            decreases SKILL_COUNT - i,
        {
            skill_levels.push(0);
            skill_exp.push(0);
            i = i + 1;
        }
        Chara {
            level,
            attr,
            skill_levels,
            skill_exp,
            equip: Vec::new(),
            status: Vec::new(),
            sp: 0,
            faction,
            item_list: ItemList::new(),
        }
    }

    pub fn skill_level(&self, kind: SkillKind) -> (r: u32)
        requires
            self.wf(),
        ensures
            r == self.skill_level_spec(kind),
    {
        self.skill_levels[kind.index()]
    }

    pub fn set_skill_level(&mut self, kind: SkillKind, lv: u32)
        requires
            old(self).wf(),
        ensures
            final(self).wf(),
            final(self).skill_levels@ == old(self).skill_levels@.update(kind.index_spec(), lv),
            final(self).skill_exp@ == old(self).skill_exp@,
            final(self).level == old(self).level,
            final(self).attr == old(self).attr,
            final(self).equip@ == old(self).equip@,
            final(self).status@ == old(self).status@,
            final(self).sp == old(self).sp,
            final(self).faction == old(self).faction,
            final(self).item_list == old(self).item_list,
    {
        let i = kind.index();
        self.skill_levels.set(i, lv);
    }

    /// The item equipped in slot `(slot, n)`, if any.
    pub fn equip_item(&self, slot: EquipSlotKind, n: u8) -> (r: Option<Item>)
        ensures
            r == equip_item_spec(self.equip@, slot, n),
    {
        let mut i: usize = 0;
        proof {
            assert(self.equip@.skip(0) =~= self.equip@);
        }
        while i < self.equip.len()
            invariant
                i <= self.equip@.len(),
                equip_item_spec(self.equip@, slot, n) == equip_item_spec(self.equip@.skip(i as int), slot, n),
            decreases self.equip@.len() - i,
        {
            let e = self.equip[i];
            proof {
                assert(self.equip@.skip(i as int).drop_first() =~= self.equip@.skip(i as int + 1));
            }
            if e.slot == slot && e.n == n {
                return Some(e.item);
            }
            i = i + 1;
        }
        None
    }

    /// The experience that an attack grants: the rule's amount per target
    /// level, times the target's level.
    pub open spec fn attack_exp_gain(target_level: u32, rules: &Rules) -> int {
        target_level as int * rules.attack_exp as int
    }

    /// Skill experience after an attack with skill `kind` on a target of
    /// level `target_level`: the gain is added to that skill's accumulator,
    /// which saturates.
    pub open spec fn exp_after_attack(&self, kind: SkillKind, target_level: u32, rules: &Rules) -> Seq<u64> {
        let e = self.skill_exp_spec(kind) + Self::attack_exp_gain(target_level, rules);
        self.skill_exp@.update(kind.index_spec(), if e > u64::MAX { u64::MAX } else { e as u64 })
    }

    /// Grants experience in `kind` for an attack on a target of level
    /// `target_level`; the accumulator saturates.
    pub fn add_attack_exp(&mut self, kind: SkillKind, target_level: u32, rules: &Rules)
        requires
            old(self).wf(),
        ensures
            final(self).wf(),
            final(self).skill_exp@ == old(self).exp_after_attack(kind, target_level, rules),
            final(self).skill_levels@ == old(self).skill_levels@,
            final(self).level == old(self).level,
            final(self).attr == old(self).attr,
            final(self).equip@ == old(self).equip@,
            final(self).status@ == old(self).status@,
            final(self).sp == old(self).sp,
            final(self).faction == old(self).faction,
            final(self).item_list == old(self).item_list,
    {
        let i = kind.index();
        proof {
            let a = target_level as u64;
            let b = rules.attack_exp as u64;
            assert(a * b <= 0xFFFF_FFFF * 0xFFFF_FFFF) by (nonlinear_arith)
                requires a <= 0xFFFF_FFFF, b <= 0xFFFF_FFFF;
        }
        let gain: u64 = target_level as u64 * rules.attack_exp as u64;
        let e = self.skill_exp[i].saturating_add(gain);
        self.skill_exp.set(i, e);
    }

    /// Adds `v` thousandths of satiety, capped at the rule's maximum. Returns
    /// the starvation damage to take when satiety is still below zero.
    pub fn add_sp(&mut self, v: i64, rules: &Rules) -> (r: Option<u32>)
        requires
            old(self).wf(),
            0 <= v,
        ensures
            final(self).wf(),
            final(self).sp == sp_after(old(self).sp as int, v as int, rules),
            r == (if final(self).sp < 0 { Some(rules.starve_damage) } else { None::<u32> }),
            final(self).skill_levels@ == old(self).skill_levels@,
            final(self).skill_exp@ == old(self).skill_exp@,
            final(self).level == old(self).level,
            final(self).attr == old(self).attr,
            final(self).equip@ == old(self).equip@,
            final(self).status@ == old(self).status@,
            final(self).faction == old(self).faction,
            final(self).item_list == old(self).item_list,
    {
        let s: i128 = self.sp as i128 + v as i128;
        self.sp = if s > rules.sp_max as i128 {
            rules.sp_max
        } else {
            s as i64
        };
        if self.sp < 0 {
            Some(rules.starve_damage)
        } else {
            None
        }
    }
}

} // verus!
