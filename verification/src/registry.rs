//! The accelerator registry: the application's directory from engine tag to
//! accelerator handle. Registration is an idempotent overwrite; lookup keeps
//! shared handles. The registry is populated at boot and semantically frozen
//! after, so the caller holds it behind whatever lock its runtime needs.

use vstd::prelude::*;

use crate::accel::Engine;

verus! {

/// A directory from engine tag to accelerator handle, with the semantics of
/// a map: at most one handle per engine.
pub struct AcceleratorRegistry<T> {
    entries: Vec<(Engine, T)>,
}

spec fn entries_map<T>(s: Seq<(Engine, T)>) -> Map<Engine, T>
    decreases s.len(),
{
    if s.len() == 0 {
        Map::empty()
    } else {
        entries_map(s.drop_last()).insert(s.last().0, s.last().1)
    }
}

spec fn distinct_engines<T>(s: Seq<(Engine, T)>) -> bool {
    forall|i: int, j: int| 0 <= i < j < s.len() ==> (#[trigger] s[i]).0 != (#[trigger] s[j]).0
}

proof fn lemma_entries_map_index<T>(s: Seq<(Engine, T)>, i: int)
    requires
        distinct_engines(s),
        0 <= i < s.len(),
    ensures
        entries_map(s).contains_key(s[i].0),
        entries_map(s)[s[i].0] == s[i].1,
    decreases s.len(),
{
    if i < s.len() - 1 {
        assert(distinct_engines(s.drop_last()));
        assert(s.drop_last()[i] == s[i]);
        lemma_entries_map_index(s.drop_last(), i);
        assert(s[i].0 != s.last().0);
    }
}

proof fn lemma_entries_map_absent<T>(s: Seq<(Engine, T)>, engine: Engine)
    requires
        forall|i: int| 0 <= i < s.len() ==> (#[trigger] s[i]).0 != engine,
    ensures
        !entries_map(s).contains_key(engine),
    decreases s.len(),
{
    if s.len() > 0 {
        assert(forall|i: int|
            0 <= i < s.drop_last().len() ==> (#[trigger] s.drop_last()[i]).0 != engine);
        lemma_entries_map_absent(s.drop_last(), engine);
        assert(s.last() == s[s.len() - 1]);
    }
}

proof fn lemma_entries_map_update<T>(s: Seq<(Engine, T)>, i: int, v: (Engine, T))
    requires
        distinct_engines(s),
        0 <= i < s.len(),
        v.0 == s[i].0,
    ensures
        entries_map(s.update(i, v)) == entries_map(s).insert(v.0, v.1),
    decreases s.len(),
{
    let updated = s.update(i, v);
    if i == s.len() - 1 {
        assert(updated.drop_last() =~= s.drop_last());
        assert(updated.last() == v);
        assert(entries_map(s.drop_last()).insert(s.last().0, s.last().1).insert(v.0, v.1)
            =~= entries_map(s.drop_last()).insert(v.0, v.1));
    } else {
        assert(distinct_engines(s.drop_last()));
        assert(s.drop_last()[i] == s[i]);
        lemma_entries_map_update(s.drop_last(), i, v);
        assert(updated.drop_last() =~= s.drop_last().update(i, v));
        assert(updated.last() == s.last());
        assert(v.0 != s.last().0);
        assert(entries_map(s.drop_last()).insert(v.0, v.1).insert(s.last().0, s.last().1)
            =~= entries_map(s.drop_last()).insert(s.last().0, s.last().1).insert(v.0, v.1));
    }
}

impl<T> View for AcceleratorRegistry<T> {
    type V = Map<Engine, T>;

    closed spec fn view(&self) -> Map<Engine, T> {
        entries_map(self.entries@)
    }
}

impl<T> AcceleratorRegistry<T> {
    /// The registry's entries keep at most one handle per engine.
    pub closed spec fn wf(&self) -> bool {
        distinct_engines(self.entries@)
    }

    /// An empty registry.
    pub fn new() -> (r: Self)
        ensures
            r@ == Map::<Engine, T>::empty(),
            r.wf(),
    {
        AcceleratorRegistry { entries: Vec::new() }
    }

    /// Registers a handle for an engine: an idempotent overwrite of whatever
    /// was registered before.
    pub fn register(&mut self, engine: Engine, accelerator: T)
        requires
            old(self).wf(),
        ensures
            final(self).wf(),
            final(self)@ == old(self)@.insert(engine, accelerator),
    {
        let ghost prior = old(self).entries@;
        let mut i: usize = 0;
        while i < self.entries.len()
            invariant
                i <= self.entries.len(),
                prior == old(self).entries@,
                self.entries@ == prior,
                distinct_engines(prior),
                forall|j: int| 0 <= j < i ==> (#[trigger] prior[j]).0 != engine,
            decreases self.entries.len() - i,
        {
            if self.entries[i].0 == engine {
                let _removed = self.entries.remove(i);
                self.entries.insert(i, (engine, accelerator));
                proof {
                    assert(self.entries@ =~= prior.update(i as int, (engine, accelerator)));
                    lemma_entries_map_update(prior, i as int, (engine, accelerator));

                    assert forall|a: int, b: int|
                        0 <= a < b < self.entries@.len() implies (#[trigger] self.entries@[a]).0
                        != (#[trigger] self.entries@[b]).0 by {
                        assert(prior[a].0 != prior[b].0);
                    }
                }
                return ;
            }
            i = i + 1;
        }
        self.entries.push((engine, accelerator));
        proof {
            assert(self.entries@.drop_last() =~= prior);
            lemma_entries_map_absent(prior, engine);
            assert forall|a: int, b: int|
                0 <= a < b < self.entries@.len() implies (#[trigger] self.entries@[a]).0
                != (#[trigger] self.entries@[b]).0 by {
                if b < prior.len() {
                    assert(prior[a].0 != prior[b].0);
                } else {
                    assert(self.entries@[b] == (engine, accelerator));
                    assert(prior[a].0 != engine);
                }
            }
        }
    }

    /// The handle registered for an engine, if any.
    pub fn get(&self, engine: Engine) -> (r: Option<&T>)
        requires
            self.wf(),
        ensures
            match r {
                Some(a) => self@.contains_key(engine) && self@[engine] == *a,
                None => !self@.contains_key(engine),
            },
    {
        let mut i: usize = 0;
        while i < self.entries.len()
            invariant
                i <= self.entries.len(),
                self.wf(),
                forall|j: int| 0 <= j < i ==> (#[trigger] self.entries@[j]).0 != engine,
            decreases self.entries.len() - i,
        {
            if self.entries[i].0 == engine {
                proof {
                    lemma_entries_map_index(self.entries@, i as int);
                }
                return Some(&self.entries[i].1);
            }
            i = i + 1;
        }
        proof {
            lemma_entries_map_absent(self.entries@, engine);
        }
        None
    }

    /// How many engines have a registered handle.
    pub fn len(&self) -> (r: usize)
        requires
            self.wf(),
        ensures
            r == self@.dom().len(),
    {
        proof {
            lemma_entries_map_len(self.entries@);
        }
        self.entries.len()
    }
}

proof fn lemma_entries_map_len<T>(s: Seq<(Engine, T)>)
    requires
        distinct_engines(s),
    ensures
        entries_map(s).dom().len() == s.len(),
        entries_map(s).dom().finite(),
    decreases s.len(),
{
    if s.len() > 0 {
        assert(distinct_engines(s.drop_last()));
        lemma_entries_map_len(s.drop_last());
        assert(forall|i: int|
            0 <= i < s.drop_last().len() ==> (#[trigger] s.drop_last()[i]).0 != s.last().0);
        lemma_entries_map_absent(s.drop_last(), s.last().0);
        assert(entries_map(s).dom() =~= entries_map(s.drop_last()).dom().insert(s.last().0));
    }
}

} // verus!
