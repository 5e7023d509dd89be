//! Operations that scripted events may call on the game state.
use vstd::prelude::*;
use crate::chara::CharaId;
use crate::game::{Game, LogEntry};
use crate::item::{Item, ItemListLocation, ItemLocation, lemma_len_le_total, stacks_appended, stacks_removed, total_units};

verus! {

/// The first stack of template `idx` in `s`.
pub open spec fn first_stack_of(s: Seq<(Item, u32)>, idx: u32) -> Option<int> {
    if exists|i: int| 0 <= i < s.len() && s[i].0.idx == idx {
        Some(choose|i: int| 0 <= i < s.len() && s[i].0.idx == idx && forall|j: int| 0 <= j < i ==> s[j].0.idx != idx)
    } else {
        None
    }
}

fn find_stack(s: &Vec<(Item, u32)>, idx: u32) -> (r: Option<usize>)
    ensures
        match r {
            Some(i) => first_stack_of(s@, idx) == Some(i as int) && i < s@.len(),
            None => first_stack_of(s@, idx) == None::<int>,
        },
{
    let mut i: usize = 0;
    while i < s.len()
        invariant
            i <= s@.len(),
            forall|j: int| 0 <= j < i ==> s@[j].0.idx != idx,
        decreases s@.len() - i,
    {
        if s[i].0.idx == idx {
            proof {
                assert(0 <= i < s@.len() && s@[i as int].0.idx == idx
                    && forall|j: int| 0 <= j < i ==> s@[j].0.idx != idx);
                let k = choose|k: int| 0 <= k < s@.len() && s@[k].0.idx == idx
                    && forall|j: int| 0 <= j < k ==> s@[j].0.idx != idx;
                if k < i {
                } else if k > i {
                    assert(s@[i as int].0.idx != idx);
                }
            }
            return Some(i);
        }
        i = i + 1;
    }
    None
}

impl Game {
    /// Whether the player holds an item of template `idx`.
    pub fn has_item(&self, idx: u32) -> (r: bool)
        ensures
            r == (first_stack_of(self.gd.player.item_list.items@, idx) is Some),
    {
        find_stack(&self.gd.player.item_list.items, idx).is_some()
    }

    /// Gives the player `n` new units of template `idx`, and logs it.
    pub fn receive_item(&mut self, idx: u32, n: u32)
        requires
            old(self).gd.wf(),
            n > 0,
            total_units(old(self).gd.player.item_list.items@) + n <= u32::MAX,
        ensures
            final(self).gd.wf(),
            old(self).gd.list_replaced(final(self).gd, ItemListLocation::Chara { cid: CharaId::Player },
                final(self).gd.player.item_list),
            final(self).gd.player.item_list.items@ == stacks_appended(old(self).gd.player.item_list.items@,
                Item { idx, quality: 0, charge: None, image_variation: 0, skill_learning: None }, n),
            final(self).log@ == old(self).log@.push(LogEntry::ReceiveItem {
                item: Item { idx, quality: 0, charge: None, image_variation: 0, skill_learning: None },
                n,
            }),
            final(self).dispatch@ == old(self).dispatch@,
            final(self).anim_queue@ == old(self).anim_queue@,
    {
        let item = Item::new(idx);
        self.gd.append_item(ItemListLocation::Chara { cid: CharaId::Player }, item, n);
        self.log.push(LogEntry::ReceiveItem { item, n });
    }

    /// Gives the player `amount` money, and logs it.
    pub fn receive_money(&mut self, amount: u32)
        requires
            old(self).gd.money + amount <= u64::MAX,
        ensures
            final(self).gd.money == old(self).gd.money + amount,
            final(self).gd.player == old(self).gd.player,
            final(self).gd.npcs@ == old(self).gd.npcs@,
            final(self).gd.map == old(self).gd.map,
            final(self).gd.site == old(self).gd.site,
            final(self).gd.floor == old(self).gd.floor,
            final(self).log@ == old(self).log@.push(LogEntry::ReceiveMoney { amount }),
            final(self).dispatch@ == old(self).dispatch@,
            final(self).anim_queue@ == old(self).anim_queue@,
    {
        self.gd.money = self.gd.money + amount as u64;
        self.log.push(LogEntry::ReceiveMoney { amount });
    }

    /// Takes `n` units of template `idx` from the player's first stack of
    /// that template. Fails, changing nothing, when there is no such stack or
    /// it holds fewer than `n` units.
    pub fn remove_item(&mut self, idx: u32, n: u32) -> (r: Result<(), ()>)
        requires
            old(self).gd.wf(),
            n > 0,
        ensures
            final(self).gd.wf(),
            r is Ok <==> (first_stack_of(old(self).gd.player.item_list.items@, idx) matches Some(i)
                && n <= old(self).gd.player.item_list.items@[i].1),
            r is Ok ==> {
                let i = first_stack_of(old(self).gd.player.item_list.items@, idx).unwrap();
                &&& old(self).gd.list_replaced(final(self).gd, ItemListLocation::Chara { cid: CharaId::Player },
                    final(self).gd.player.item_list)
                &&& final(self).gd.player.item_list.items@ == stacks_removed(old(self).gd.player.item_list.items@, i, n)
            },
            r is Err ==> final(self).gd == old(self).gd,
            final(self).log@ == old(self).log@,
            final(self).dispatch@ == old(self).dispatch@,
            final(self).anim_queue@ == old(self).anim_queue@,
    {
        match find_stack(&self.gd.player.item_list.items, idx) {
            Some(i) => {
                if self.gd.player.item_list.items[i].1 < n {
                    return Err(());
                }
                proof {
                    lemma_len_le_total(self.gd.player.item_list.items@);
                }
                let il = ItemLocation(ItemListLocation::Chara { cid: CharaId::Player }, i as u32);
                proof {
                    assert(self.gd.has_units(il, n));
                }
                self.gd.remove_item_and_get(il, n);
                Ok(())
            },
            None => Err(()),
        }
    }
}

} // verus!
