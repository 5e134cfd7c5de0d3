//! The combatant registry: an insertion-ordered collection keyed by a unique
//! id, with unique live names — no two live combatants ever share a name.
use vstd::prelude::*;
use crate::combatant::{Combatant, Id};

verus! {

/// Ids are pairwise distinct.
pub open spec fn ids_unique(s: Seq<Combatant>) -> bool {
    forall|i: int, j: int| 0 <= i < j < s.len() ==> s[i].id != s[j].id
}

/// Names are pairwise distinct.
pub open spec fn names_unique(s: Seq<Combatant>) -> bool {
    forall|i: int, j: int| 0 <= i < j < s.len() ==> s[i].name@ != s[j].name@
}

/// Every combatant is well-formed.
pub open spec fn all_wf(s: Seq<Combatant>) -> bool {
    forall|i: int| 0 <= i < s.len() ==> s[i].wf()
}

/// Every combatant has positive health.
pub open spec fn all_alive(s: Seq<Combatant>) -> bool {
    forall|i: int| 0 <= i < s.len() ==> s[i].health >= 1
}

/// Some combatant carries `id`.
pub open spec fn has_id(s: Seq<Combatant>, id: Id) -> bool {
    exists|i: int| 0 <= i < s.len() && s[i].id == id
}

/// Some combatant is named `name`.
pub open spec fn has_name(s: Seq<Combatant>, name: Seq<char>) -> bool {
    exists|i: int| 0 <= i < s.len() && s[i].name@ == name
}

/// The elements of `s` with positive health, in order.
pub open spec fn alive_part(s: Seq<Combatant>) -> Seq<Combatant>
    decreases s.len(),
{
    if s.len() == 0 {
        Seq::empty()
    } else if s.last().health >= 1 {
        alive_part(s.drop_last()).push(s.last())
    } else {
        alive_part(s.drop_last())
    }
}

/// Everything in the alive part comes from `s`.
pub proof fn lemma_alive_part_sub(s: Seq<Combatant>)
    ensures
        forall|k: int|
            0 <= k < alive_part(s).len() ==> exists|i: int|
                0 <= i < s.len() && s[i] == #[trigger] alive_part(s)[k],
        alive_part(s).len() <= s.len(),
    decreases s.len(),
{
    if s.len() > 0 {
        lemma_alive_part_sub(s.drop_last());
        assert forall|k: int| 0 <= k < alive_part(s).len() implies exists|i: int|
            0 <= i < s.len() && s[i] == #[trigger] alive_part(s)[k] by {
            let a = alive_part(s);
            let b = alive_part(s.drop_last());
            if s.last().health >= 1 && k == a.len() - 1 {
                assert(s[s.len() - 1] == a[k]);
            } else {
                assert(a[k] == b[k]);
                let i = choose|i: int| 0 <= i < s.drop_last().len() && s.drop_last()[i] == b[k];
                assert(s[i] == a[k]);
            }
        }
    }
}

/// A member with positive health survives the dropping of the dead.
pub proof fn lemma_alive_part_keeps(s: Seq<Combatant>, i: int)
    requires
        0 <= i < s.len(),
        s[i].health >= 1,
    ensures
        exists|k: int| 0 <= k < alive_part(s).len() && #[trigger] alive_part(s)[k] == s[i],
    decreases s.len(),
{
    if i == s.len() - 1 {
        assert(alive_part(s)[alive_part(s).len() - 1] == s[i]);
    } else {
        let d = s.drop_last();
        lemma_alive_part_keeps(d, i);
        let k = choose|k: int| 0 <= k < alive_part(d).len() && #[trigger] alive_part(d)[k] == d[i];
        if s.last().health >= 1 {
            assert(alive_part(s)[k] == alive_part(d)[k]);
        } else {
            assert(alive_part(s)[k] == alive_part(d)[k]);
        }
    }
}

/// Dropping the dead preserves uniqueness and well-formedness, and leaves
/// everyone alive.
pub proof fn lemma_alive_part_wf(s: Seq<Combatant>)
    requires
        ids_unique(s),
        names_unique(s),
        all_wf(s),
    ensures
        ids_unique(alive_part(s)),
        names_unique(alive_part(s)),
        all_wf(alive_part(s)),
        all_alive(alive_part(s)),
    decreases s.len(),
{
    if s.len() > 0 {
        let d = s.drop_last();
        assert(ids_unique(d) && names_unique(d) && all_wf(d)) by {
            assert(forall|i: int| 0 <= i < d.len() ==> d[i] == s[i]);
        }
        lemma_alive_part_wf(d);
        if s.last().health >= 1 {
            let a = alive_part(s);
            let b = alive_part(d);
            lemma_alive_part_sub(d);
            assert forall|i: int, j: int| 0 <= i < j < a.len() implies a[i].id != a[j].id && a[i].name@
                != a[j].name@ by {
                if j < a.len() - 1 {
                    assert(a[i] == b[i] && a[j] == b[j]);
                } else {
                    assert(a[j] == s.last());
                    assert(a[i] == b[i]);
                    let k = choose|k: int| 0 <= k < d.len() && d[k] == b[i];
                    assert(s[k] == a[i]);
                }
            }
        }
    }
}

/// The insertion-ordered combatant collection.
pub struct Registry {
    guys: Vec<Combatant>,
}

impl View for Registry {
    type V = Seq<Combatant>;

    closed spec fn view(&self) -> Seq<Combatant> {
        self.guys@
    }
}

impl Registry {
    /// Ids unique, names unique, every combatant well-formed.
    pub open spec fn wf(self) -> bool {
        &&& ids_unique(self@)
        &&& names_unique(self@)
        &&& all_wf(self@)
    }

    pub fn new() -> (r: Registry)
        ensures
            r.wf(),
            r@.len() == 0,
    {
        Registry { guys: Vec::new() }
    }

    pub fn len(&self) -> (r: usize)
        ensures
            r == self@.len(),
    {
        self.guys.len()
    }

    pub fn get(&self, i: usize) -> (r: &Combatant)
        requires
            i < self@.len(),
        ensures
            *r == self@[i as int],
    {
        &self.guys[i]
    }

    /// Index of the combatant with `id`, if present.
    pub fn index_of_id(&self, id: Id) -> (r: Option<usize>)
        ensures
            match r {
                Option::Some(i) => i < self@.len() && self@[i as int].id == id,
                Option::None => !has_id(self@, id),
            },
    {
        let n = self.guys.len();
        let mut i: usize = 0;
        while i < n
            invariant
                n == self@.len(),
                0 <= i <= n,
                forall|j: int| 0 <= j < i ==> self@[j].id != id,
            decreases n - i,
        {
            if self.guys[i].id == id {
                return Option::Some(i);
            }
            i += 1;
        }
        Option::None
    }

    /// Index of the combatant named `name`, if present.
    pub fn index_of_name(&self, name: &str) -> (r: Option<usize>)
        ensures
            match r {
                Option::Some(i) => i < self@.len() && self@[i as int].name@ == name@,
                Option::None => !has_name(self@, name@),
            },
    {
        let n = self.guys.len();
        let mut i: usize = 0;
        while i < n
            invariant
                n == self@.len(),
                0 <= i <= n,
                forall|j: int| 0 <= j < i ==> self@[j].name@ != name@,
            decreases n - i,
        {
            if crate::text::str_eq(self.guys[i].name.as_str(), name) {
                return Option::Some(i);
            }
            i += 1;
        }
        Option::None
    }

    /// Append a combatant whose id and name are fresh.
    pub fn insert(&mut self, guy: Combatant)
        requires
            old(self).wf(),
            guy.wf(),
            !has_id(old(self)@, guy.id),
            !has_name(old(self)@, guy.name@),
        ensures
            final(self).wf(),
            final(self)@ == old(self)@.push(guy),
    {
        self.guys.push(guy);
    }

    /// Replace the combatant at `i`; its identity must not change.
    pub fn set_at(&mut self, i: usize, guy: Combatant)
        requires
            old(self).wf(),
            i < old(self)@.len(),
            guy.wf(),
            guy.id == old(self)@[i as int].id,
            guy.name@ == old(self)@[i as int].name@,
        ensures
            final(self).wf(),
            final(self)@ == old(self)@.update(i as int, guy),
    {
        self.guys.set(i, guy);
    }

    /// Remove the combatant at `i`.
    pub fn remove_at(&mut self, i: usize) -> (r: Combatant)
        requires
            old(self).wf(),
            i < old(self)@.len(),
        ensures
            final(self).wf(),
            final(self)@ == old(self)@.remove(i as int),
            r == old(self)@[i as int],
    {
        self.guys.remove(i)
    }

    /// Remove the combatant carrying `id`, if present.
    pub fn remove_by_id(&mut self, id: Id) -> (r: Option<Combatant>)
        requires
            old(self).wf(),
        ensures
            final(self).wf(),
            match r {
                Option::Some(g) => g.id == id && exists|i: int|
                    0 <= i < old(self)@.len() && old(self)@[i] == g && final(self)@ == old(
                        self,
                    )@.remove(i),
                Option::None => !has_id(old(self)@, id) && final(self)@ == old(self)@,
            },
    {
        match self.index_of_id(id) {
            Option::Some(i) => {
                let ghost s0 = self@;
                let g = self.remove_at(i);
                proof {
                    assert(0 <= i < s0.len() && s0[i as int] == g && self@ == s0.remove(i as int));
                }
                Option::Some(g)
            },
            Option::None => Option::None,
        }
    }

    /// Remove everyone.
    pub fn clear(&mut self)
        ensures
            final(self).wf(),
            final(self)@.len() == 0,
    {
        self.guys.clear();
    }

    /// Drop every combatant whose health has reached zero.
    pub fn remove_dead(&mut self)
        requires
            old(self).wf(),
        ensures
            final(self).wf(),
            final(self)@ == alive_part(old(self)@),
            all_alive(final(self)@),
    {
        let ghost s0 = self@;
        let n = self.guys.len();
        let mut kept: Vec<Combatant> = Vec::new();
        let mut i: usize = 0;
        while i < n
            invariant
                n == s0.len(),
                self@ == s0,
                0 <= i <= n,
                kept@ == alive_part(s0.subrange(0, i as int)),
            decreases n - i,
        {
            proof {
                assert(s0.subrange(0, i + 1 as int).drop_last() =~= s0.subrange(0, i as int));
                assert(s0.subrange(0, i + 1 as int).last() == s0[i as int]);
            }
            if self.guys[i].health >= 1 {
                let guy = self.guys[i].duplicate();
                kept.push(guy);
            }
            i += 1;
        }
        proof {
            assert(s0.subrange(0, n as int) =~= s0);
            lemma_alive_part_wf(s0);
        }
        self.guys = kept;
    }
}

} // verus!
