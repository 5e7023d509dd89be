//! Items and item lists: stacks of equal items with their counts.
use vstd::prelude::*;
use crate::catalog::Catalog;
use crate::chara::{CharaId, SkillKind};
use crate::geom::Vec2d;

verus! {

/// One item: a template reference plus instance state.
#[derive(Clone, Copy, Debug, PartialEq, Eq, Structural)]
pub struct Item {
    /// Template index in the catalog.
    pub idx: u32,
    /// Signed quality modifier.
    pub quality: i32,
    /// Remaining charges of a device.
    pub charge: Option<u32>,
    /// Image variation tag (zero when untagged).
    pub image_variation: u32,
    /// Skill-learning tag of a book.
    pub skill_learning: Option<SkillKind>,
}

impl Item {
    /// An untagged item of quality zero.
    pub fn new(idx: u32) -> (r: Item)
        ensures
            r == (Item { idx, quality: 0, charge: None, image_variation: 0, skill_learning: None }),
    {
        Item { idx, quality: 0, charge: None, image_variation: 0, skill_learning: None }
    }

    /// Efficiency: the template's base efficiency plus quality, never below zero.
    pub open spec fn eff_spec(self, catalog: &Catalog) -> int {
        let e = catalog.item_spec(self.idx).eff as int + self.quality as int;
        if e < 0 { 0 } else { e }
    }

    pub fn calc_eff(&self, catalog: &Catalog) -> (r: u32)
        requires
            catalog.has_item(self.idx),
        ensures
            r == self.eff_spec(catalog),
    {
        let e: i64 = catalog.item_obj(self.idx).eff as i64 + self.quality as i64;
        if e < 0 {
            0
        } else {
            e as u32
        }
    }

    /// Weight in grams.
    pub fn w(&self, catalog: &Catalog) -> (r: u32)
        requires
            catalog.has_item(self.idx),
        ensures
            r == catalog.item_spec(self.idx).w,
    {
        catalog.item_obj(self.idx).w
    }
}

/// The sum of the counts of the entries whose item satisfies `f`.
pub open spec fn units_where(s: Seq<(Item, u32)>, f: spec_fn(Item) -> bool) -> int
    decreases s.len(),
{
    if s.len() == 0 {
        0
    } else {
        units_where(s.drop_last(), f) + if f(s.last().0) {
            s.last().1 as int
        } else {
            0
        }
    }
}

/// The number of units in a list of stacks.
pub open spec fn total_units(s: Seq<(Item, u32)>) -> int {
    units_where(s, |it: Item| true)
}

/// The number of units of template `idx` in a list of stacks.
pub open spec fn units_of_idx(s: Seq<(Item, u32)>, idx: u32) -> int {
    units_where(s, |it: Item| it.idx == idx)
}

pub open spec fn entry_units(e: (Item, u32), f: spec_fn(Item) -> bool) -> int {
    if f(e.0) {
        e.1 as int
    } else {
        0
    }
}

pub proof fn lemma_units_push(s: Seq<(Item, u32)>, e: (Item, u32), f: spec_fn(Item) -> bool)
    ensures
        units_where(s.push(e), f) == units_where(s, f) + entry_units(e, f),
{
    assert(s.push(e).drop_last() =~= s);
}

pub proof fn lemma_units_nonneg(s: Seq<(Item, u32)>, f: spec_fn(Item) -> bool)
    ensures
        units_where(s, f) >= 0,
    decreases s.len(),
{
    if s.len() > 0 {
        lemma_units_nonneg(s.drop_last(), f);
    }
}

pub proof fn lemma_units_entry_le(s: Seq<(Item, u32)>, i: int, f: spec_fn(Item) -> bool)
    requires
        0 <= i < s.len(),
    ensures
        entry_units(s[i], f) <= units_where(s, f),
    decreases s.len(),
{
    if i == s.len() - 1 {
        lemma_units_nonneg(s.drop_last(), f);
    } else {
        lemma_units_entry_le(s.drop_last(), i, f);
    }
}

pub proof fn lemma_units_update(s: Seq<(Item, u32)>, i: int, e: (Item, u32), f: spec_fn(Item) -> bool)
    requires
        0 <= i < s.len(),
    ensures
        units_where(s.update(i, e), f) == units_where(s, f) - entry_units(s[i], f) + entry_units(e, f),
    decreases s.len(),
{
    if i == s.len() - 1 {
        assert(s.update(i, e).drop_last() =~= s.drop_last());
    } else {
        assert(s.update(i, e).drop_last() =~= s.drop_last().update(i, e));
        lemma_units_update(s.drop_last(), i, e, f);
    }
}

pub proof fn lemma_units_remove(s: Seq<(Item, u32)>, i: int, f: spec_fn(Item) -> bool)
    requires
        0 <= i < s.len(),
    ensures
        units_where(s.remove(i), f) == units_where(s, f) - entry_units(s[i], f),
    decreases s.len(),
{
    if i == s.len() - 1 {
        assert(s.remove(i) =~= s.drop_last());
    } else {
        assert(s.remove(i).drop_last() =~= s.drop_last().remove(i));
        lemma_units_remove(s.drop_last(), i, f);
    }
}

/// The position of the stack holding `item`, if any.
pub open spec fn stack_position(s: Seq<(Item, u32)>, item: Item) -> Option<int> {
    if exists|i: int| 0 <= i < s.len() && s[i].0 == item {
        Some(choose|i: int| 0 <= i < s.len() && s[i].0 == item)
    } else {
        None
    }
}

/// The stacks after `n` units of `item` are added: the stack of an equal
/// item grows, or a new stack is put at the end.
pub open spec fn stacks_appended(s: Seq<(Item, u32)>, item: Item, n: u32) -> Seq<(Item, u32)> {
    match stack_position(s, item) {
        Some(i) => s.update(i, (item, (s[i].1 + n) as u32)),
        None => s.push((item, n)),
    }
}

/// The stacks after `n` units are taken from stack `i`: a stack left
/// empty is removed.
pub open spec fn stacks_removed(s: Seq<(Item, u32)>, i: int, n: u32) -> Seq<(Item, u32)> {
    if s[i].1 == n {
        s.remove(i)
    } else {
        s.update(i, (s[i].0, (s[i].1 - n) as u32))
    }
}

/// An ordered list of item stacks. Each stack holds at least one unit, no
/// two stacks hold equal items, and the units in all fit in a `u32`.
#[derive(Debug)]
pub struct ItemList {
    pub items: Vec<(Item, u32)>,
}

impl ItemList {
    pub open spec fn wf(&self) -> bool {
        &&& forall|i: int| 0 <= i < self.items@.len() ==> self.items@[i].1 > 0
        &&& forall|i: int, j: int|
            0 <= i < j < self.items@.len() ==> self.items@[i].0 != self.items@[j].0
        &&& total_units(self.items@) <= u32::MAX
    }

    pub fn new() -> (r: ItemList)
        ensures
            r.items@ == Seq::<(Item, u32)>::empty(),
            r.wf(),
    {
        ItemList { items: Vec::new() }
    }

    pub fn len(&self) -> (r: usize)
        ensures
            r == self.items@.len(),
    {
        self.items.len()
    }

    /// Whether the list is well formed: `wf`.
    pub fn is_valid(&self) -> (r: bool)
        ensures
            r == self.wf(),
    {
        let mut t: u64 = 0;
        let mut i: usize = 0;
        while i < self.items.len()
            invariant
                i <= self.items@.len(),
                t == total_units(self.items@.take(i as int)),
                t <= u32::MAX,
                forall|a: int| 0 <= a < i ==> self.items@[a].1 > 0,
                forall|a: int, b: int| 0 <= a < b < i ==> self.items@[a].0 != self.items@[b].0,
            decreases self.items@.len() - i,
        {
            if self.items[i].1 == 0 {
                proof {
                    assert(!(self.items@[i as int].1 > 0));
                }
                return false;
            }
            let mut j: usize = 0;
            while j < i
                invariant
                    j <= i,
                    i < self.items@.len(),
                    forall|a: int| 0 <= a < j ==> self.items@[a].0 != self.items@[i as int].0,
                decreases i - j,
            {
                if self.items[j].0 == self.items[i].0 {
                    proof {
                        assert(0 <= j < i < self.items@.len() && self.items@[j as int].0 == self.items@[i as int].0);
                    }
                    return false;
                }
                j = j + 1;
            }
            proof {
                assert(self.items@.take(i as int + 1).drop_last() =~= self.items@.take(i as int));
                assert(self.items@.take(i as int + 1).last() == self.items@[i as int]);
            }
            t = t + self.items[i].1 as u64;
            if t > 0xFFFF_FFFFu64 {
                proof {
                    lemma_units_prefix_le(self.items@, i as int + 1, |it: Item| true);
                    assert(total_units(self.items@) > u32::MAX);
                }
                return false;
            }
            i = i + 1;
        }
        proof {
            assert(self.items@.take(i as int) =~= self.items@);
        }
        true
    }

    /// The number of units in all stacks.
    pub fn total(&self) -> (r: u64)
        requires
            self.wf(),
        ensures
            r == total_units(self.items@),
    {
        let mut t: u64 = 0;
        let mut i: usize = 0;
        while i < self.items.len()
            invariant
                self.wf(),
                i <= self.items@.len(),
                t == total_units(self.items@.take(i as int)),
            decreases self.items@.len() - i,
        {
            proof {
                let s = self.items@;
                assert(s.take(i as int + 1).drop_last() =~= s.take(i as int));
                assert(s.take(i as int + 1).last() == s[i as int]);
                lemma_units_entry_le(s, i as int, |it: Item| true);
                lemma_units_nonneg(s.take(i as int), |it: Item| true);
                assert(s =~= s.take(i as int + 1) + s.skip(i as int + 1));
                lemma_units_prefix_le(s, i as int + 1, |it: Item| true);
            }
            t = t + self.items[i].1 as u64;
            i = i + 1;
        }
        proof {
            assert(self.items@.take(i as int) =~= self.items@);
        }
        t
    }

    fn find(&self, item: &Item) -> (r: Option<usize>)
        requires
            self.wf(),
        ensures
            match r {
                Some(i) => stack_position(self.items@, *item) == Some(i as int),
                None => stack_position(self.items@, *item) == None::<int>,
            },
    {
        let mut i: usize = 0;
        while i < self.items.len()
            invariant
                self.wf(),
                i <= self.items@.len(),
                forall|j: int| 0 <= j < i ==> self.items@[j].0 != *item,
            decreases self.items@.len() - i,
        {
            if self.items[i].0 == *item {
                proof {
                    assert(0 <= i < self.items@.len() && self.items@[i as int].0 == *item);
                    let k = choose|k: int| 0 <= k < self.items@.len() && self.items@[k].0 == *item;
                    if k < i as int {
                        assert(self.items@[k].0 != self.items@[i as int].0);
                    } else if k > i as int {
                        assert(self.items@[i as int].0 != self.items@[k].0);
                    }
                }
                return Some(i);
            }
            i = i + 1;
        }
        None
    }

    /// Adds `n` units of `item`, merging them into the stack of an equal item.
    pub fn append(&mut self, item: Item, n: u32)
        requires
            old(self).wf(),
            n > 0,
            total_units(old(self).items@) + n <= u32::MAX,
        ensures
            final(self).wf(),
            final(self).items@ == stacks_appended(old(self).items@, item, n),
            total_units(final(self).items@) == total_units(old(self).items@) + n,
            units_of_idx(final(self).items@, item.idx) == units_of_idx(old(self).items@, item.idx) + n,
    {
        let ghost s = self.items@;
        match self.find(&item) {
            Some(i) => {
                proof {
                    lemma_units_entry_le(s, i as int, |it: Item| true);
                    lemma_units_update(s, i as int, (item, (s[i as int].1 + n) as u32), |it: Item| true);
                    lemma_units_update(s, i as int, (item, (s[i as int].1 + n) as u32), |it: Item| it.idx == item.idx);
                }
                let c = self.items[i].1;
                self.items.set(i, (item, c + n));
            },
            None => {
                proof {
                    lemma_units_push(s, (item, n), |it: Item| true);
                    lemma_units_push(s, (item, n), |it: Item| it.idx == item.idx);
                }
                self.items.push((item, n));
            },
        }
    }

    /// Takes `n` units from stack `i` and returns the item they belong to.
    pub fn remove_and_get(&mut self, i: usize, n: u32) -> (r: Item)
        requires
            old(self).wf(),
            i < old(self).items@.len(),
            0 < n <= old(self).items@[i as int].1,
        ensures
            r == old(self).items@[i as int].0,
            final(self).wf(),
            final(self).items@ == stacks_removed(old(self).items@, i as int, n),
            total_units(final(self).items@) == total_units(old(self).items@) - n,
            units_of_idx(final(self).items@, r.idx) == units_of_idx(old(self).items@, r.idx) - n,
    {
        let ghost s = self.items@;
        let (item, c) = self.items[i];
        if c == n {
            proof {
                lemma_units_remove(s, i as int, |it: Item| true);
                lemma_units_remove(s, i as int, |it: Item| it.idx == item.idx);
            }
            self.items.remove(i);
            proof {
                assert forall|a: int, b: int| 0 <= a < b < self.items@.len() implies
                    self.items@[a].0 != self.items@[b].0 by {
                    if a < i {
                        if b < i {
                        } else {
                            assert(self.items@[b] == s[b + 1]);
                        }
                    } else {
                        assert(self.items@[a] == s[a + 1]);
                        assert(self.items@[b] == s[b + 1]);
                    }
                }
            }
        } else {
            proof {
                lemma_units_update(s, i as int, (item, (c - n) as u32), |it: Item| true);
                lemma_units_update(s, i as int, (item, (c - n) as u32), |it: Item| it.idx == item.idx);
            }
            self.items.set(i, (item, c - n));
        }
        item
    }
}

/// With every count positive, a list has no more stacks than units.
pub proof fn lemma_len_le_total(s: Seq<(Item, u32)>)
    requires
        forall|i: int| 0 <= i < s.len() ==> s[i].1 > 0,
    ensures
        s.len() <= total_units(s),
    decreases s.len(),
{
    if s.len() > 0 {
        lemma_len_le_total(s.drop_last());
    }
}

pub proof fn lemma_units_prefix_le(s: Seq<(Item, u32)>, k: int, f: spec_fn(Item) -> bool)
    requires
        0 <= k <= s.len(),
    ensures
        units_where(s.take(k), f) <= units_where(s, f),
    decreases s.len(),
{
    if k < s.len() {
        assert(s.drop_last().take(k) =~= s.take(k));
        lemma_units_prefix_le(s.drop_last(), k, f);
        if f(s.last().0) {
        }
    } else {
        assert(s.take(k) =~= s);
    }
}

/// Which item list is meant.
#[derive(Clone, Copy, Debug, PartialEq, Eq, Structural)]
pub enum ItemListLocation {
    /// A character's inventory.
    Chara { cid: CharaId },
    /// The items on a tile of the current map.
    OnMap { pos: Vec2d },
}

/// A stack in an item list: the list and the stack's position in it.
#[derive(Clone, Copy, Debug, PartialEq, Eq, Structural)]
pub struct ItemLocation(pub ItemListLocation, pub u32);

} // verus!
