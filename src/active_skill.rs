//! The table of active skills, keyed by skill id.
use vstd::prelude::*;
use crate::effect::Effect;

verus! {

/// The id of an active skill.
#[derive(Debug)]
pub struct ActiveSkillId(pub String);

/// An active skill: the effect it releases and what it costs.
#[derive(Debug)]
pub struct ActiveSkill {
    pub effect: Effect,
    pub cost_sp: u32,
    pub cost_mp: u32,
}

/// Active skills by id. No two entries have equal ids.
#[derive(Debug)]
pub struct ActiveSkills {
    entries: Vec<(ActiveSkillId, ActiveSkill)>,
}

impl ActiveSkills {
    /// The entries, in storage order.
    pub closed spec fn entries(&self) -> Seq<(ActiveSkillId, ActiveSkill)> {
        self.entries@
    }

    pub open spec fn wf(&self) -> bool {
        forall|i: int, j: int|
            0 <= i < j < self.entries().len() ==> self.entries()[i].0.0@ != self.entries()[j].0.0@
    }

    /// Whether a skill has id `id`.
    pub open spec fn contains(&self, id: Seq<char>) -> bool {
        exists|i: int| 0 <= i < self.entries().len() && self.entries()[i].0.0@ == id
    }

    /// The skill with id `id`.
    pub open spec fn lookup(&self, id: Seq<char>) -> ActiveSkill {
        self.entries()[choose|i: int| 0 <= i < self.entries().len() && self.entries()[i].0.0@ == id].1
    }

    /// An empty table.
    pub fn new() -> (r: ActiveSkills)
        ensures
            r.wf(),
            forall|id: Seq<char>| !r.contains(id),
    {
        ActiveSkills { entries: Vec::new() }
    }

    fn find(&self, id: &ActiveSkillId) -> (r: Option<usize>)
        requires
            self.wf(),
        ensures
            match r {
                Some(i) => i < self.entries().len() && self.entries()[i as int].0.0@ == id.0@,
                None => !self.contains(id.0@),
            },
    {
        let mut i: usize = 0;
        while i < self.entries.len()
            invariant
                i <= self.entries@.len(),
                forall|j: int| 0 <= j < i ==> self.entries@[j].0.0@ != id.0@,
            decreases self.entries@.len() - i,
        {
            if self.entries[i].0.0 == id.0 {
                return Some(i);
            }
            i = i + 1;
        }
        None
    }

    proof fn lemma_lookup_at(&self, i: int)
        requires
            self.wf(),
            0 <= i < self.entries().len(),
        ensures
            self.contains(self.entries()[i].0.0@),
            self.lookup(self.entries()[i].0.0@) == self.entries()[i].1,
    {
        let id = self.entries()[i].0.0@;
        assert(0 <= i < self.entries().len() && self.entries()[i].0.0@ == id);
        let k = choose|k: int| 0 <= k < self.entries().len() && self.entries()[k].0.0@ == id;
        if k < i {
            assert(self.entries()[k].0.0@ != self.entries()[i].0.0@);
        } else if k > i {
            assert(self.entries()[i].0.0@ != self.entries()[k].0.0@);
        }
    }

    /// The skill with id `id`, if any.
    pub fn get(&self, id: &ActiveSkillId) -> (r: Option<&ActiveSkill>)
        requires
            self.wf(),
        ensures
            r is Some <==> self.contains(id.0@),
            r is Some ==> *r.unwrap() == self.lookup(id.0@),
    {
        match self.find(id) {
            Some(i) => {
                proof {
                    self.lemma_lookup_at(i as int);
                }
                Some(&self.entries[i].1)
            },
            None => None,
        }
    }

    /// Puts `skill` under `id`, replacing the skill that had that id.
    pub fn insert(&mut self, id: ActiveSkillId, skill: ActiveSkill)
        requires
            old(self).wf(),
        ensures
            final(self).wf(),
            final(self).contains(id.0@),
            final(self).lookup(id.0@) == skill,
            forall|k: Seq<char>| k != id.0@ ==> #[trigger] final(self).contains(k) == old(self).contains(k),
            forall|k: Seq<char>| k != id.0@ && old(self).contains(k) ==> #[trigger] final(self).lookup(k) == old(self).lookup(k),
    {
        let ghost s = self.entries@;
        let ghost key = id.0@;
        match self.find(&id) {
            Some(i) => {
                self.entries.set(i, (id, skill));
                proof {
                    let t = self.entries@;
                    assert forall|a: int, b: int| 0 <= a < b < t.len() implies t[a].0.0@ != t[b].0.0@ by {
                        assert(t[a].0.0@ == s[a].0.0@ && t[b].0.0@ == s[b].0.0@);
                    }
                    self.lemma_lookup_at(i as int);
                    assert forall|k: Seq<char>| k != key implies #[trigger] self.contains(k) == old(self).contains(k) by {
                        if self.contains(k) {
                            let w = choose|w: int| 0 <= w < t.len() && t[w].0.0@ == k;
                            assert(s[w].0.0@ == k);
                        }
                        if old(self).contains(k) {
                            let w = choose|w: int| 0 <= w < s.len() && s[w].0.0@ == k;
                            assert(t[w].0.0@ == k);
                        }
                    }
                    assert forall|k: Seq<char>| k != key && old(self).contains(k) implies #[trigger] self.lookup(k) == old(self).lookup(k) by {
                        let w = choose|w: int| 0 <= w < s.len() && s[w].0.0@ == k;
                        old(self).lemma_lookup_at(w);
                        assert(w != i);
                        assert(t[w] == s[w]);
                        self.lemma_lookup_at(w);
                    }
                }
            },
            None => {
                self.entries.push((id, skill));
                proof {
                    let t = self.entries@;
                    let n = s.len() as int;
                    assert forall|a: int, b: int| 0 <= a < b < t.len() implies t[a].0.0@ != t[b].0.0@ by {
                        if b == n {
                            assert(t[a] == s[a]);
                        } else {
                            assert(t[a] == s[a] && t[b] == s[b]);
                        }
                    }
                    self.lemma_lookup_at(n);
                    assert forall|k: Seq<char>| k != key implies #[trigger] self.contains(k) == old(self).contains(k) by {
                        if self.contains(k) {
                            let w = choose|w: int| 0 <= w < t.len() && t[w].0.0@ == k;
                            assert(w != n);
                            assert(s[w].0.0@ == k);
                        }
                        if old(self).contains(k) {
                            let w = choose|w: int| 0 <= w < s.len() && s[w].0.0@ == k;
                            assert(t[w].0.0@ == k);
                        }
                    }
                    assert forall|k: Seq<char>| k != key && old(self).contains(k) implies #[trigger] self.lookup(k) == old(self).lookup(k) by {
                        let w = choose|w: int| 0 <= w < s.len() && s[w].0.0@ == k;
                        old(self).lemma_lookup_at(w);
                        assert(t[w] == s[w]);
                        self.lemma_lookup_at(w);
                    }
                }
            },
        }
    }

    /// Adds every skill of `other`, replacing skills with the same id.
    pub fn join(&mut self, other: ActiveSkills)
        requires
            old(self).wf(),
            other.wf(),
        ensures
            final(self).wf(),
            forall|k: Seq<char>| #[trigger] final(self).contains(k) == (old(self).contains(k) || other.contains(k)),
            forall|k: Seq<char>| other.contains(k) ==> #[trigger] final(self).lookup(k) == other.lookup(k),
            forall|k: Seq<char>| !other.contains(k) && old(self).contains(k) ==> #[trigger] final(self).lookup(k) == old(self).lookup(k),
    {
        let ghost o = other.entries@;
        let mut rest = other.entries;
        while rest.len() > 0
            invariant
                self.wf(),
                other.wf(),
                other.entries() == o,
                rest@ == o.subrange(0, rest@.len() as int),
                rest@.len() <= o.len(),
                forall|k: Seq<char>| #[trigger] self.contains(k) == (old(self).contains(k) || exists|i: int|
                    rest@.len() <= i < o.len() && o[i].0.0@ == k),
                forall|k: Seq<char>| (exists|i: int| rest@.len() <= i < o.len() && o[i].0.0@ == k)
                    ==> #[trigger] self.lookup(k) == other.lookup(k),
                forall|k: Seq<char>| !(exists|i: int| rest@.len() <= i < o.len() && o[i].0.0@ == k) && old(self).contains(k)
                    ==> #[trigger] self.lookup(k) == old(self).lookup(k),
            decreases rest@.len(),
        {
            let ghost n = rest@.len() - 1;
            let (id, skill) = rest.pop().unwrap();
            proof {
                assert(o[n] == (id, skill));
                other.lemma_lookup_at(n);
            }
            let ghost key = id.0@;
            let ghost s0 = *self;
            self.insert(id, skill);
            proof {
                assert(rest@ =~= o.subrange(0, rest@.len() as int));
                assert forall|k: Seq<char>| #[trigger] self.contains(k) == (old(self).contains(k) || exists|i: int|
                    rest@.len() <= i < o.len() && o[i].0.0@ == k) by {
                    if k == key {
                        assert(o[n].0.0@ == k);
                    } else {
                        if exists|i: int| rest@.len() <= i < o.len() && o[i].0.0@ == k {
                            let i = choose|i: int| rest@.len() <= i < o.len() && o[i].0.0@ == k;
                            assert(i != n);
                        }
                    }
                }
                assert forall|k: Seq<char>| (exists|i: int| rest@.len() <= i < o.len() && o[i].0.0@ == k)
                    implies #[trigger] self.lookup(k) == other.lookup(k) by {
                    if k != key {
                        let i = choose|i: int| rest@.len() <= i < o.len() && o[i].0.0@ == k;
                        assert(i != n);
                        assert(s0.contains(k));
                    }
                }
                assert forall|k: Seq<char>| !(exists|i: int| rest@.len() <= i < o.len() && o[i].0.0@ == k) && old(self).contains(k)
                    implies #[trigger] self.lookup(k) == old(self).lookup(k) by {
                    if k == key {
                        assert(o[n].0.0@ == k);
                    } else {
                        assert(s0.contains(k));
                    }
                }
            }
        }
        proof {
            assert forall|k: Seq<char>| other.contains(k) implies (exists|i: int| 0 <= i < o.len() && o[i].0.0@ == k) by {
            }
        }
    }
}

} // verus!
