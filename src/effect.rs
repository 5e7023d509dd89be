//! Effects: declarative descriptions of what an action does to a target,
//! and the requests that actions hand to the effect dispatcher.
use vstd::prelude::*;
use crate::chara::CharaId;
use crate::geom::Vec2d;
use crate::power::Power;

verus! {

#[derive(Clone, Copy, Debug, PartialEq, Eq, Structural)]
pub enum Element {
    Neutral,
    Physical,
    Fire,
    Cold,
    Shock,
    Poison,
    Spirit,
}

#[derive(Clone, Copy, Debug, PartialEq, Eq, Structural)]
pub enum EffectKind {
    Inert,
    RecoverHp,
    RecoverMp,
    Melee { element: Element },
    Ranged { element: Element },
    Explosion { element: Element },
    Direct { element: Element },
    Status { status: StatusEffectKind },
}

#[derive(Clone, Copy, Debug, PartialEq, Eq, Structural)]
pub enum StatusEffectKind {
    Asleep,
    Poison,
}

#[derive(Clone, Copy, Debug, PartialEq, Eq, Structural)]
pub enum TargetMode {
    Any,
    Player,
    Ally,
    Enemy,
}

#[derive(Clone, Copy, Debug, PartialEq, Eq, Structural)]
pub enum ShapeKind {
    OneTile,
    Line,
    Circle,
}

#[derive(Clone, Copy, Debug, PartialEq, Eq, Structural)]
pub enum EffectAnimKind {
    Hidden,
    Tile,
    Chara,
    Shot,
}

/// One resolved game action: what it does, whom it aims at, its area, and
/// presentation hints that the simulation never reads.
#[derive(Debug)]
pub struct Effect {
    pub kind: Vec<EffectKind>,
    pub target_mode: TargetMode,
    /// Multipliers of the power by kind of target, in thousandths.
    pub power_adjust: Vec<u32>,
    pub range: u32,
    pub shape: ShapeKind,
    pub size: u32,
    pub anim_kind: EffectAnimKind,
    pub anim_img: String,
    pub anim_img_shot: String,
    pub sound: String,
}

/// The fixed effect of an attack with bare hands: physical melee damage
/// on one adjacent enemy, with the punch sound.
pub fn punch_effect() -> (r: Effect)
    ensures
        r.kind@ == seq![EffectKind::Melee { element: Element::Physical }],
        r.target_mode == TargetMode::Enemy,
        r.power_adjust@.len() == 0,
        r.range == 1,
        r.shape == ShapeKind::OneTile,
        r.size == 0,
        r.anim_kind == EffectAnimKind::Chara,
        r.anim_img@ == "!damage-blunt"@,
        r.anim_img_shot@ == Seq::<char>::empty(),
        r.sound@ == "punch"@,
{
    let mut kind: Vec<EffectKind> = Vec::new();
    kind.push(EffectKind::Melee { element: Element::Physical });
    let r = Effect {
        kind,
        target_mode: TargetMode::Enemy,
        power_adjust: Vec::new(),
        range: 1,
        shape: ShapeKind::OneTile,
        size: 0,
        anim_kind: EffectAnimKind::Chara,
        anim_img: "!damage-blunt".to_owned(),
        anim_img_shot: String::new(),
        sound: "punch".to_owned(),
    };
    proof {
        assert(r.kind@ =~= seq![EffectKind::Melee { element: Element::Physical }]);
    }
    r
}

/// Which effect a request carries. Effects that belong to an item are named
/// by the item's template index and looked up in the catalog by the
/// dispatcher.
#[derive(Clone, Copy, Debug, PartialEq, Eq, Structural)]
pub enum EffectSource {
    /// The fixed bare-hands attack of `punch_effect`.
    Punch,
    /// The attack effect of a weapon.
    Weapon { idx: u32 },
    /// The effect of throwing an item.
    Throw { idx: u32 },
    /// The medical effect of a drunk or eaten item.
    Medical { idx: u32 },
    /// The magical effect released from a charged device.
    Magical { idx: u32 },
}

/// What an effect is aimed at.
#[derive(Clone, Copy, Debug, PartialEq, Eq, Structural)]
pub enum Target {
    Nothing,
    Tile(Vec2d),
    Chara(CharaId),
}

#[derive(Clone, Copy, Debug, PartialEq, Eq, Structural)]
pub enum CharaDamageKind {
    MeleeAttack,
    RangedAttack,
    Poison,
    Starve,
}

/// A request for the effect dispatcher, appended by actions and consumed
/// outside the simulation core.
#[derive(Clone, Copy, Debug, PartialEq, Eq, Structural)]
pub enum Dispatch {
    /// Apply an effect with the given power and hit power (in thousandths).
    Effect {
        effect: EffectSource,
        attacker: Option<CharaId>,
        target: Target,
        power: Power,
        hit_power: u64,
    },
    /// Damage a character directly.
    Damage { cid: CharaId, amount: u32, kind: CharaDamageKind },
}

} // verus!
