//! The rule table: read-only constants of combat, item effects and floor
//! generation. Fractional factors are given in thousandths.
use vstd::prelude::*;

verus! {

#[derive(Clone, Copy, Debug, PartialEq, Eq, Structural)]
pub enum DungeonKind {
    Cave,
    Ruin,
    Tower,
    Forest,
}

/// Generation parameters of one dungeon kind.
#[derive(Clone, Copy, Debug, PartialEq, Eq, Structural)]
pub struct DungeonGenParams {
    /// Probability that a floor tile gets an item, in millionths; valid
    /// values lie in `[0, 1_000_000]`.
    pub item_gen_probability: u64,
}

/// One million: the probability one, in millionths.
pub const PROBABILITY_ONE: u64 = 1_000_000;

#[derive(Debug)]
pub struct Rules {
    /// Added to every skill level in power formulas, in thousandths.
    pub skill_base: u32,
    /// Power per gram and point of strength of a thrown item without its own
    /// throw effect, in thousandths.
    pub throw_weight_to_eff_factor: u32,
    /// Power per point of efficiency of a drunk item, in thousandths.
    pub item_drink_power_factor: u32,
    /// Power per point of efficiency of an eaten item, in thousandths.
    pub item_eat_power_factor: u32,
    /// Satiety per point of nutrition, in thousandths of a satiety point.
    pub sp_nutrition_factor: u32,
    /// Upper bound of satiety, in thousandths of a satiety point.
    pub sp_max: i64,
    /// Damage taken by a character whose satiety stays below zero after eating.
    pub starve_damage: u32,
    /// Power of a magic device per point of efficiency, in thousandths.
    pub magic_device_base_power: u32,
    /// Experience of an attack per level of the target.
    pub attack_exp: u32,
    /// Generation parameters by dungeon kind.
    pub dungeon_gen: Vec<(DungeonKind, DungeonGenParams)>,
}

impl Rules {
    /// The parameters of `kind`: those of its first entry.
    pub open spec fn dungeon_gen_spec(&self, kind: DungeonKind) -> Option<DungeonGenParams> {
        if exists|i: int| 0 <= i < self.dungeon_gen@.len() && self.dungeon_gen@[i].0 == kind {
            let i = choose|i: int|
                0 <= i < self.dungeon_gen@.len() && self.dungeon_gen@[i].0 == kind
                    && forall|j: int| 0 <= j < i ==> self.dungeon_gen@[j].0 != kind;
            Some(self.dungeon_gen@[i].1)
        } else {
            None
        }
    }

    pub fn get_dungeon_gen(&self, kind: DungeonKind) -> (r: Option<DungeonGenParams>)
        ensures
            r == self.dungeon_gen_spec(kind),
    {
        let mut i: usize = 0;
        while i < self.dungeon_gen.len()
            invariant
                i <= self.dungeon_gen@.len(),
                forall|j: int| 0 <= j < i ==> self.dungeon_gen@[j].0 != kind,
            decreases self.dungeon_gen@.len() - i,
        {
            if self.dungeon_gen[i].0 == kind {
                proof {
                    let k = choose|k: int|
                        0 <= k < self.dungeon_gen@.len() && self.dungeon_gen@[k].0 == kind
                            && forall|j: int| 0 <= j < k ==> self.dungeon_gen@[j].0 != kind;
                    assert(0 <= i < self.dungeon_gen@.len() && self.dungeon_gen@[i as int].0 == kind
                        && forall|j: int| 0 <= j < i ==> self.dungeon_gen@[j].0 != kind);
                    if k < i {
                    } else if k > i {
                        assert(self.dungeon_gen@[i as int].0 != kind);
                    }
                }
                return Some(self.dungeon_gen[i].1);
            }
            i = i + 1;
        }
        None
    }
}

} // verus!
