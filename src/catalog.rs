//! The object catalog: read-only template data that items and tiles refer
//! to by index.
use vstd::prelude::*;
use crate::chara::SkillKind;
use crate::effect::Effect;

verus! {

/// Walkability class of a floor tile.
#[derive(Clone, Copy, Debug, PartialEq, Eq, Structural)]
pub enum TileKind {
    Ground,
    Water,
}

#[derive(Clone, Copy, Debug, PartialEq, Eq, Structural)]
pub enum WeaponKind {
    Sword,
    Axe,
    Spear,
    Bow,
    Crossbow,
    Gun,
}

#[derive(Clone, Copy, Debug, PartialEq, Eq, Structural)]
pub enum ItemKind {
    Potion,
    Food,
    MagicDevice,
    Weapon(WeaponKind),
    Armor,
    Tool,
    Object,
}

/// The skill that trains with a weapon kind.
pub open spec fn weapon_skill_spec(kind: WeaponKind) -> SkillKind {
    match kind {
        WeaponKind::Sword => SkillKind::Sword,
        WeaponKind::Axe => SkillKind::Axe,
        WeaponKind::Spear => SkillKind::Spear,
        WeaponKind::Bow => SkillKind::Bow,
        WeaponKind::Crossbow => SkillKind::Crossbow,
        WeaponKind::Gun => SkillKind::Gun,
    }
}

pub fn weapon_skill(kind: WeaponKind) -> (r: SkillKind)
    ensures
        r == weapon_skill_spec(kind),
{
    match kind {
        WeaponKind::Sword => SkillKind::Sword,
        WeaponKind::Axe => SkillKind::Axe,
        WeaponKind::Spear => SkillKind::Spear,
        WeaponKind::Bow => SkillKind::Bow,
        WeaponKind::Crossbow => SkillKind::Crossbow,
        WeaponKind::Gun => SkillKind::Gun,
    }
}

/// Static data of an item template.
#[derive(Debug)]
pub struct ItemObj {
    pub kind: ItemKind,
    /// Base efficiency.
    pub eff: u16,
    /// Weight in grams.
    pub w: u32,
    /// Nutrition value of food.
    pub nutrition: u16,
    pub throw_effect: Option<Effect>,
    pub medical_effect: Option<Effect>,
    pub magical_effect: Option<Effect>,
}

/// Template data of items and floor tiles, indexed by template index.
#[derive(Debug)]
pub struct Catalog {
    pub items: Vec<ItemObj>,
    pub tiles: Vec<TileKind>,
}

impl Catalog {
    pub open spec fn has_item(&self, idx: u32) -> bool {
        idx < self.items@.len()
    }

    pub open spec fn has_tile(&self, idx: u32) -> bool {
        idx < self.tiles@.len()
    }

    pub open spec fn item_spec(&self, idx: u32) -> ItemObj {
        self.items@[idx as int]
    }

    pub open spec fn tile_kind_spec(&self, idx: u32) -> TileKind {
        self.tiles@[idx as int]
    }

    pub fn item_obj(&self, idx: u32) -> (r: &ItemObj)
        requires
            self.has_item(idx),
        ensures
            *r == self.item_spec(idx),
    {
        &self.items[idx as usize]
    }

    pub fn tile_kind(&self, idx: u32) -> (r: TileKind)
        requires
            self.has_tile(idx),
        ensures
            r == self.tile_kind_spec(idx),
    {
        self.tiles[idx as usize]
    }
}

} // verus!
