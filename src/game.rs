//! The game state: the characters, the current floor, and the outbound
//! queues of log entries, animations and effect requests.
use vstd::prelude::*;
use crate::chara::{Chara, CharaId};
use crate::effect::Dispatch;
use crate::geom::Direction;
use crate::item::{Item, ItemList, ItemListLocation, ItemLocation, stacks_appended, stacks_removed, total_units, units_of_idx};
use crate::map::{FloorMap, TileInfo};
use crate::rules::DungeonKind;
use crate::status::{CharaStatus, after_turn};

verus! {

/// What a site holds; it decides which generation rules apply to its floors.
#[derive(Clone, Copy, Debug, PartialEq, Eq, Structural)]
pub enum SiteContent {
    AutoGenDungeon { dungeon_kind: DungeonKind },
    Town,
    Base,
    Temp,
    Other,
}

/// A request for one line of the message log.
#[derive(Clone, Copy, Debug, PartialEq, Eq, Structural)]
pub enum LogEntry {
    Asleep { cid: CharaId },
    ThrowItem { cid: CharaId, item: Item },
    DrinkItem { cid: CharaId, item: Item },
    EatItem { cid: CharaId, item: Item },
    ReceiveItem { item: Item, n: u32 },
    ReceiveMoney { amount: u32 },
}

/// The characters and the current floor.
#[derive(Debug)]
pub struct GameData {
    pub player: Chara,
    /// The NPC roster: `CharaId::Npc { n }` is `npcs[n]`.
    pub npcs: Vec<Chara>,
    /// The current floor.
    pub map: FloorMap,
    /// The site that the current floor belongs to.
    pub site: SiteContent,
    /// The level of the current floor.
    pub floor: u32,
    /// The player's money.
    pub money: u64,
}

/// The game state with its outbound queues, which the simulation only appends to.
#[derive(Debug)]
pub struct Game {
    pub gd: GameData,
    /// Player moves for the animation layer.
    pub anim_queue: Vec<Direction>,
    pub log: Vec<LogEntry>,
    /// Effects and damage for the effect dispatcher.
    pub dispatch: Vec<Dispatch>,
}

/// `a` and `b` agree on every field but the statuses.
pub open spec fn same_but_status(a: Chara, b: Chara) -> bool {
    &&& a.level == b.level
    &&& a.attr == b.attr
    &&& a.skill_levels@ == b.skill_levels@
    &&& a.skill_exp@ == b.skill_exp@
    &&& a.equip@ == b.equip@
    &&& a.sp == b.sp
    &&& a.faction == b.faction
    &&& a.item_list == b.item_list
}

/// `a` and `b` agree on every field but skill experience.
pub open spec fn same_but_exp(a: Chara, b: Chara) -> bool {
    &&& a.level == b.level
    &&& a.attr == b.attr
    &&& a.skill_levels@ == b.skill_levels@
    &&& a.equip@ == b.equip@
    &&& a.status@ == b.status@
    &&& a.sp == b.sp
    &&& a.faction == b.faction
    &&& a.item_list == b.item_list
}

/// `a` and `b` agree on every field but satiety.
pub open spec fn same_but_sp(a: Chara, b: Chara) -> bool {
    &&& a.level == b.level
    &&& a.attr == b.attr
    &&& a.skill_levels@ == b.skill_levels@
    &&& a.skill_exp@ == b.skill_exp@
    &&& a.equip@ == b.equip@
    &&& a.status@ == b.status@
    &&& a.faction == b.faction
    &&& a.item_list == b.item_list
}

/// `a` and `b` agree on every field but the inventory.
pub open spec fn same_but_items(a: Chara, b: Chara) -> bool {
    &&& a.level == b.level
    &&& a.attr == b.attr
    &&& a.skill_levels@ == b.skill_levels@
    &&& a.skill_exp@ == b.skill_exp@
    &&& a.equip@ == b.equip@
    &&& a.status@ == b.status@
    &&& a.sp == b.sp
    &&& a.faction == b.faction
}

impl GameData {
    pub open spec fn has_chara(&self, cid: CharaId) -> bool {
        match cid {
            CharaId::Player => true,
            CharaId::Npc { n } => n < self.npcs@.len(),
        }
    }

    pub open spec fn chara_spec(&self, cid: CharaId) -> Chara {
        match cid {
            CharaId::Player => self.player,
            CharaId::Npc { n } => self.npcs@[n as int],
        }
    }

    pub open spec fn wf(&self) -> bool {
        &&& self.player.wf()
        &&& forall|i: int| 0 <= i < self.npcs@.len() ==> (#[trigger] self.npcs@[i]).wf()
        &&& self.npcs@.len() <= u32::MAX
        &&& self.map.wf()
        &&& forall|i: int|
            0 <= i < self.map.tile@.len() && (#[trigger] self.map.tile@[i]).chara is Some
                ==> self.has_chara(self.map.tile@[i].chara.unwrap())
    }

    /// Whether the state is well formed: `wf`.
    pub fn is_valid(&self) -> (r: bool)
        ensures
            r == self.wf(),
    {
        if !self.player.is_valid() || self.npcs.len() > 0xFFFF_FFFFusize || !self.map.is_valid() {
            return false;
        }
        let mut i: usize = 0;
        while i < self.npcs.len()
            invariant
                i <= self.npcs@.len(),
                forall|a: int| 0 <= a < i ==> (#[trigger] self.npcs@[a]).wf(),
            decreases self.npcs@.len() - i,
        {
            if !self.npcs[i].is_valid() {
                return false;
            }
            i = i + 1;
        }
        let mut k: usize = 0;
        while k < self.map.tile.len()
            invariant
                k <= self.map.tile@.len(),
                forall|a: int|
                    0 <= a < k && (#[trigger] self.map.tile@[a]).chara is Some ==> self.has_chara(self.map.tile@[a].chara.unwrap()),
            decreases self.map.tile@.len() - k,
        {
            match self.map.tile[k].chara {
                Some(CharaId::Npc { n }) => {
                    if n as usize >= self.npcs.len() {
                        proof {
                            assert(self.map.tile@[k as int].chara is Some);
                        }
                        return false;
                    }
                },
                _ => {},
            }
            k = k + 1;
        }
        true
    }

    /// `new` is this state with character `cid` replaced by `c`.
    pub open spec fn chara_replaced(&self, new: GameData, cid: CharaId, c: Chara) -> bool {
        &&& new.map == self.map
        &&& new.site == self.site
        &&& new.floor == self.floor
        &&& new.money == self.money
        &&& match cid {
            CharaId::Player => new.player == c && new.npcs@ == self.npcs@,
            CharaId::Npc { n } => new.player == self.player && new.npcs@ == self.npcs@.update(n as int, c),
        }
    }

    pub open spec fn has_item_list(&self, ill: ItemListLocation) -> bool {
        match ill {
            ItemListLocation::Chara { cid } => self.has_chara(cid),
            ItemListLocation::OnMap { pos } => self.map.in_bounds(pos),
        }
    }

    pub open spec fn item_list_spec(&self, ill: ItemListLocation) -> ItemList {
        match ill {
            ItemListLocation::Chara { cid } => self.chara_spec(cid).item_list,
            ItemListLocation::OnMap { pos } => self.map.tile_at(pos).item_list,
        }
    }

    /// `il` names a stack that holds at least `n` units.
    pub open spec fn has_units(&self, il: ItemLocation, n: u32) -> bool {
        &&& self.has_item_list(il.0)
        &&& il.1 < self.item_list_spec(il.0).items@.len()
        &&& 0 < n <= self.item_list_spec(il.0).items@[il.1 as int].1
    }

    /// The item of stack `il`.
    pub open spec fn item_at(&self, il: ItemLocation) -> Item {
        self.item_list_spec(il.0).items@[il.1 as int].0
    }

    /// `new` is this state with item list `ill` replaced by `l`.
    pub open spec fn list_replaced(&self, new: GameData, ill: ItemListLocation, l: ItemList) -> bool {
        match ill {
            ItemListLocation::Chara { cid } => self.chara_replaced(new, cid, Chara { item_list: l, ..self.chara_spec(cid) }),
            ItemListLocation::OnMap { pos } => {
                &&& new.player == self.player
                &&& new.npcs@ == self.npcs@
                &&& new.site == self.site
                &&& new.floor == self.floor
                &&& new.money == self.money
                &&& new.map.w == self.map.w
                &&& new.map.h == self.map.h
                &&& new.map.observed_tile@ == self.map.observed_tile@
                &&& new.map.entrance@ == self.map.entrance@
                &&& new.map.tile@ == self.map.tile@.update(
                    self.map.index_of(pos),
                    TileInfo { item_list: l, ..self.map.tile_at(pos) },
                )
            },
        }
    }

    pub fn chara(&self, cid: CharaId) -> (r: &Chara)
        requires
            self.has_chara(cid),
        ensures
            *r == self.chara_spec(cid),
    {
        match cid {
            CharaId::Player => &self.player,
            CharaId::Npc { n } => &self.npcs[n as usize],
        }
    }

    pub fn chara_mut(&mut self, cid: CharaId) -> (r: &mut Chara)
        requires
            old(self).has_chara(cid),
        ensures
            *r == old(self).chara_spec(cid),
            old(self).chara_replaced(*final(self), cid, *final(r)),
    {
        match cid {
            CharaId::Player => &mut self.player,
            CharaId::Npc { n } => &mut self.npcs[n as usize],
        }
    }

    pub proof fn lemma_chara_replaced_wf(&self, new: GameData, cid: CharaId, c: Chara)
        requires
            self.wf(),
            self.has_chara(cid),
            self.chara_replaced(new, cid, c),
            c.wf(),
        ensures
            new.wf(),
            forall|id: CharaId| #[trigger] new.has_chara(id) == self.has_chara(id),
            forall|id: CharaId| id != cid && self.has_chara(id) ==> #[trigger] new.chara_spec(id) == self.chara_spec(id),
            new.chara_spec(cid) == c,
    {
        assert forall|i: int| 0 <= i < new.npcs@.len() implies (#[trigger] new.npcs@[i]).wf() by {
            match cid {
                CharaId::Player => {},
                CharaId::Npc { n } => {
                    if i != n as int {
                        assert(new.npcs@[i] == self.npcs@[i]);
                    }
                },
            }
        }
        assert forall|id: CharaId| #[trigger] new.has_chara(id) == self.has_chara(id) by {}
        assert forall|i: int|
            0 <= i < new.map.tile@.len() && (#[trigger] new.map.tile@[i]).chara is Some
                implies new.has_chara(new.map.tile@[i].chara.unwrap()) by {
            assert(self.has_chara(self.map.tile@[i].chara.unwrap()));
        }
    }

    pub proof fn lemma_item_list_wf(&self, ill: ItemListLocation)
        requires
            self.wf(),
            self.has_item_list(ill),
        ensures
            self.item_list_spec(ill).wf(),
    {
        match ill {
            ItemListLocation::Chara { cid } => {
                if let CharaId::Npc { n } = cid {
                    assert(self.npcs@[n as int].wf());
                }
            },
            ItemListLocation::OnMap { pos } => {
                self.map.lemma_index_in_range(pos);
                assert(self.map.tile@[self.map.index_of(pos)].item_list.wf());
            },
        }
    }

    /// Replacing an item list keeps every character but its inventory,
    /// and every list location.
    pub proof fn lemma_list_replaced_keeps(&self, new: GameData, ill: ItemListLocation, l: ItemList)
        requires
            self.wf(),
            self.has_item_list(ill),
            self.list_replaced(new, ill, l),
        ensures
            forall|id: CharaId| #[trigger] new.has_chara(id) == self.has_chara(id),
            forall|id: CharaId| self.has_chara(id) ==> same_but_items(#[trigger] new.chara_spec(id), self.chara_spec(id)),
            forall|x: ItemListLocation| #[trigger] new.has_item_list(x) == self.has_item_list(x),
            new.item_list_spec(ill) == l,
            new.map.w == self.map.w,
            new.map.h == self.map.h,
            new.site == self.site,
            new.floor == self.floor,
            new.money == self.money,
    {
        match ill {
            ItemListLocation::Chara { cid } => {
                assert forall|id: CharaId| self.has_chara(id) implies same_but_items(#[trigger] new.chara_spec(id), self.chara_spec(id)) by {
                    match id {
                        CharaId::Player => {},
                        CharaId::Npc { n } => {},
                    }
                }
            },
            ItemListLocation::OnMap { pos } => {
                self.map.lemma_index_in_range(pos);
            },
        }
    }

    pub proof fn lemma_chara_replaced_keeps_lists(&self, new: GameData, cid: CharaId, c: Chara, ill: ItemListLocation)
        requires
            self.has_chara(cid),
            self.has_item_list(ill),
            self.chara_replaced(new, cid, c),
            c.item_list == self.chara_spec(cid).item_list,
        ensures
            new.item_list_spec(ill) == self.item_list_spec(ill),
            new.has_item_list(ill),
    {
        match ill {
            ItemListLocation::Chara { cid: id } => {
                match id {
                    CharaId::Player => {},
                    CharaId::Npc { n } => {},
                }
            },
            ItemListLocation::OnMap { pos } => {},
        }
    }

    pub proof fn lemma_list_replaced_twice(&self, mid: GameData, new: GameData, ill: ItemListLocation, l1: ItemList, l2: ItemList)
        requires
            self.wf(),
            self.has_item_list(ill),
            self.list_replaced(mid, ill, l1),
            mid.list_replaced(new, ill, l2),
        ensures
            self.list_replaced(new, ill, l2),
    {
        match ill {
            ItemListLocation::Chara { cid } => {
                match cid {
                    CharaId::Player => {},
                    CharaId::Npc { n } => {
                        assert(new.npcs@ =~= self.npcs@.update(n as int, Chara { item_list: l2, ..self.chara_spec(cid) }));
                    },
                }
            },
            ItemListLocation::OnMap { pos } => {
                let k = self.map.index_of(pos);
                self.map.lemma_index_in_range(pos);
                assert(new.map.tile@ =~= self.map.tile@.update(k, TileInfo { item_list: l2, ..self.map.tile_at(pos) }));
            },
        }
    }

    /// Takes `n` units from stack `il` and returns their item.
    pub fn remove_item_and_get(&mut self, il: ItemLocation, n: u32) -> (r: Item)
        requires
            old(self).wf(),
            old(self).has_units(il, n),
        ensures
            final(self).wf(),
            r == old(self).item_at(il),
            old(self).list_replaced(*final(self), il.0, final(self).item_list_spec(il.0)),
            final(self).item_list_spec(il.0).items@ == stacks_removed(old(self).item_list_spec(il.0).items@, il.1 as int, n),
            total_units(final(self).item_list_spec(il.0).items@) == total_units(old(self).item_list_spec(il.0).items@) - n,
            units_of_idx(final(self).item_list_spec(il.0).items@, r.idx)
                == units_of_idx(old(self).item_list_spec(il.0).items@, r.idx) - n,
    {
        let ghost g0 = *self;
        match il.0 {
            ItemListLocation::Chara { cid } => {
                let c = self.chara_mut(cid);
                let r = c.item_list.remove_and_get(il.1 as usize, n);
                proof {
                    g0.lemma_chara_replaced_wf(*self, cid, self.chara_spec(cid));
                }
                r
            },
            ItemListLocation::OnMap { pos } => {
                let r = self.map.remove_item(pos, il.1 as usize, n);
                proof {
                    self.map.lemma_index_in_range(pos);
                    assert forall|i: int|
                        0 <= i < self.map.tile@.len() && (#[trigger] self.map.tile@[i]).chara is Some
                            implies self.has_chara(self.map.tile@[i].chara.unwrap()) by {
                        assert(self.map.tile@[i].chara == g0.map.tile@[i].chara);
                    }
                }
                r
            },
        }
    }

    /// Adds `n` units of `item` to item list `ill`.
    pub fn append_item(&mut self, ill: ItemListLocation, item: Item, n: u32)
        requires
            old(self).wf(),
            old(self).has_item_list(ill),
            n > 0,
            total_units(old(self).item_list_spec(ill).items@) + n <= u32::MAX,
        ensures
            final(self).wf(),
            old(self).list_replaced(*final(self), ill, final(self).item_list_spec(ill)),
            final(self).item_list_spec(ill).items@ == stacks_appended(old(self).item_list_spec(ill).items@, item, n),
            total_units(final(self).item_list_spec(ill).items@) == total_units(old(self).item_list_spec(ill).items@) + n,
            units_of_idx(final(self).item_list_spec(ill).items@, item.idx)
                == units_of_idx(old(self).item_list_spec(ill).items@, item.idx) + n,
    {
        let ghost g0 = *self;
        match ill {
            ItemListLocation::Chara { cid } => {
                let c = self.chara_mut(cid);
                c.item_list.append(item, n);
                proof {
                    g0.lemma_chara_replaced_wf(*self, cid, self.chara_spec(cid));
                }
            },
            ItemListLocation::OnMap { pos } => {
                self.map.locate_item(item, pos, n);
                proof {
                    g0.map.lemma_index_in_range(pos);
                    let k = g0.map.index_of(pos);
                    assert(self.map.tile@ =~= g0.map.tile@.update(k, TileInfo { item_list: self.map.tile@[k].item_list, ..g0.map.tile@[k] }));
                    assert forall|i: int|
                        0 <= i < self.map.tile@.len() && (#[trigger] self.map.tile@[i]).chara is Some
                            implies self.has_chara(self.map.tile@[i].chara.unwrap()) by {
                        assert(self.map.tile@[i].chara == g0.map.tile@[i].chara);
                    }
                }
            },
        }
    }
}

/// Whether none of `status` keeps its character from acting.
pub open spec fn can_act_spec(status: Seq<CharaStatus>) -> bool {
    forall|i: int| 0 <= i < status.len() ==> !(#[trigger] status[i]).blocks_action()
}

fn no_blocking_status(chara: &Chara) -> (r: bool)
    ensures
        r == can_act_spec(chara.status@),
{
    let mut i: usize = 0;
    while i < chara.status.len()
        invariant
            i <= chara.status@.len(),
            forall|j: int| 0 <= j < i ==> !(#[trigger] chara.status@[j]).blocks_action(),
        decreases chara.status@.len() - i,
    {
        match chara.status[i] {
            CharaStatus::Asleep { .. } => {
                return false;
            },
            _ => {},
        }
        i = i + 1;
    }
    true
}

/// Judges whether character `cid` can act: not while any of its statuses
/// forbids it. Each blocked attempt writes one log entry.
pub fn can_act(game: &mut Game, cid: CharaId) -> (r: bool)
    requires
        old(game).gd.has_chara(cid),
    ensures
        r == can_act_spec(old(game).gd.chara_spec(cid).status@),
        final(game).gd == old(game).gd,
        final(game).log@ == (if r { old(game).log@ } else { old(game).log@.push(LogEntry::Asleep { cid }) }),
        final(game).anim_queue@ == old(game).anim_queue@,
        final(game).dispatch@ == old(game).dispatch@,
{
    let r = no_blocking_status(game.gd.chara(cid));
    if !r {
        game.log.push(LogEntry::Asleep { cid });
    }
    r
}

fn advance_statuses(status: &mut Vec<CharaStatus>)
    ensures
        final(status)@ == after_turn(old(status)@),
{
    let mut kept: Vec<CharaStatus> = Vec::new();
    let mut i: usize = 0;
    while i < status.len()
        invariant
            i <= status@.len(),
            status@ == old(status)@,
            kept@ == after_turn(status@.take(i as int)),
        decreases status@.len() - i,
    {
        let mut s = status[i];
        s.advance_turn(1);
        proof {
            assert(status@.take(i as int + 1).drop_last() =~= status@.take(i as int));
        }
        if !s.is_expired() {
            kept.push(s);
        }
        i = i + 1;
    }
    proof {
        assert(status@.take(i as int) =~= status@);
    }
    *status = kept;
}

/// Runs before character `cid`'s turn: advances each of its statuses by one
/// turn, drops the expired ones, and tells whether it can act. A character
/// that cannot act gets a log entry.
pub fn preturn(game: &mut Game, cid: CharaId) -> (r: bool)
    requires
        old(game).gd.wf(),
        old(game).gd.has_chara(cid),
    ensures
        final(game).gd.wf(),
        final(game).gd.chara_spec(cid).status@ == after_turn(old(game).gd.chara_spec(cid).status@),
        same_but_status(final(game).gd.chara_spec(cid), old(game).gd.chara_spec(cid)),
        old(game).gd.chara_replaced(final(game).gd, cid, final(game).gd.chara_spec(cid)),
        r == can_act_spec(final(game).gd.chara_spec(cid).status@),
        final(game).log@ == (if r { old(game).log@ } else { old(game).log@.push(LogEntry::Asleep { cid }) }),
        final(game).anim_queue@ == old(game).anim_queue@,
        final(game).dispatch@ == old(game).dispatch@,
{
    let ghost g0 = game.gd;
    let chara = game.gd.chara_mut(cid);
    advance_statuses(&mut chara.status);
    proof {
        g0.lemma_chara_replaced_wf(game.gd, cid, game.gd.chara_spec(cid));
    }
    can_act(game, cid)
}

} // verus!
