//! The task registry: notification identifier to running task handle.
//!
//! Each entry owns the handle of its notification's scheduler task;
//! cancellation is "remove the entry, cancel the handle".  The registry
//! is modelled as a map from identifier to handle, with each
//! identifier present at most once.  Callers serialize mutating access
//! (the daemon keeps the registry behind a lock).

use vstd::prelude::*;

verus! {

/// The registry's mathematical value: the map its entries spell out,
/// later entries winning (entries never share an identifier).
pub closed spec fn map_of<T>(s: Seq<(u128, T)>) -> Map<u128, T>
    decreases s.len(),
{
    if s.len() == 0 {
        Map::empty()
    } else {
        map_of(s.drop_last()).insert(s.last().0, s.last().1)
    }
}

proof fn lemma_map_of_dom<T>(s: Seq<(u128, T)>, k: u128)
    ensures
        map_of(s).dom().contains(k) <==> exists|i: int| 0 <= i < s.len() && (#[trigger] s[i]).0 == k,
    decreases s.len(),
{
    if s.len() > 0 {
        lemma_map_of_dom(s.drop_last(), k);
        if map_of(s).dom().contains(k) {
            if s.last().0 == k {
                assert(s[s.len() - 1].0 == k);
            } else {
                let i = choose|i: int| 0 <= i < s.drop_last().len() && (#[trigger] s.drop_last()[i]).0 == k;
                assert(s[i].0 == k);
            }
        }
        if exists|i: int| 0 <= i < s.len() && (#[trigger] s[i]).0 == k {
            let i = choose|i: int| 0 <= i < s.len() && (#[trigger] s[i]).0 == k;
            if i < s.len() - 1 {
                assert(s.drop_last()[i].0 == k);
            }
        }
    }
}

proof fn lemma_map_of_value<T>(s: Seq<(u128, T)>, i: int)
    requires
        0 <= i < s.len(),
        forall|p: int, q: int| 0 <= p < q < s.len() ==> (#[trigger] s[p]).0 != (#[trigger] s[q]).0,
    ensures
        map_of(s).dom().contains(s[i].0),
        map_of(s)[s[i].0] == s[i].1,
    decreases s.len(),
{
    lemma_map_of_dom(s, s[i].0);
    if i < s.len() - 1 {
        assert(s.last().0 != s[i].0);
        assert(s.drop_last()[i] == s[i]);
        lemma_map_of_value(s.drop_last(), i);
    }
}

/// A concurrency-safe (behind the caller's lock) map from notification
/// identifier to its running task handle.
pub struct TaskRegistry<T> {
    entries: Vec<(u128, T)>,
}

impl<T> TaskRegistry<T> {
    /// No identifier appears twice among the entries.
    pub closed spec fn wf(&self) -> bool {
        forall|p: int, q: int|
            0 <= p < q < self.entries@.len() ==> (#[trigger] self.entries@[p]).0 != (
            #[trigger] self.entries@[q]).0
    }

    pub closed spec fn view(&self) -> Map<u128, T> {
        map_of(self.entries@)
    }

    /// An empty registry.
    pub fn new() -> (r: Self)
        ensures
            r.wf(),
            r@ == Map::<u128, T>::empty(),
    {
        TaskRegistry { entries: Vec::new() }
    }

    /// The index holding `id`, if any.
    fn find(&self, id: u128) -> (r: Option<usize>)
        requires
            self.wf(),
        ensures
            match r {
                Some(i) => i < self.entries@.len() && self.entries@[i as int].0 == id,
                None => forall|i: int|
                    0 <= i < self.entries@.len() ==> (#[trigger] self.entries@[i]).0 != id,
            },
    {
        let mut i: usize = 0;
        while i < self.entries.len()
            invariant
                i <= self.entries@.len(),
                forall|j: int| 0 <= j < i ==> (#[trigger] self.entries@[j]).0 != id,
            decreases self.entries@.len() - i,
        {
            if self.entries[i].0 == id {
                return Some(i);
            }
            i = i + 1;
        }
        None
    }

    /// Whether a task is registered under `id`.
    pub fn contains(&self, id: u128) -> (r: bool)
        requires
            self.wf(),
        ensures
            r == self@.dom().contains(id),
    {
        proof {
            lemma_map_of_dom(self.entries@, id);
        }
        match self.find(id) {
            Some(_) => true,
            None => false,
        }
    }

    /// How many tasks are registered.
    pub fn len(&self) -> (r: usize)
        requires
            self.wf(),
        ensures
            r == self@.dom().len(),
    {
        proof {
            lemma_len_entries(self.entries@);
        }
        self.entries.len()
    }

    /// Register `handle` under `id`, replacing any task already there.
    pub fn insert(&mut self, id: u128, handle: T)
        requires
            old(self).wf(),
        ensures
            final(self).wf(),
            final(self)@ == old(self)@.insert(id, handle),
    {
        let _ = self.remove(id);
        let ghost s = self.entries@;
        self.entries.push((id, handle));
        proof {
            assert(self.entries@.drop_last() =~= s);
            assert(self.entries@.last() == (id, handle));
            lemma_map_of_dom(s, id);
            assert forall|p: int, q: int|
                0 <= p < q < self.entries@.len() implies (#[trigger] self.entries@[p]).0 != (
            #[trigger] self.entries@[q]).0 by {
                if q == self.entries@.len() - 1 {
                    assert(self.entries@[p] == s[p]);
                }
            }
        }
    }

    /// Cancel the registration under `id`: the handle, if one was
    /// there, is handed back for the caller to cancel.
    pub fn remove(&mut self, id: u128) -> (r: Option<T>)
        requires
            old(self).wf(),
        ensures
            final(self).wf(),
            final(self)@ == old(self)@.remove(id),
            match r {
                Some(h) => old(self)@.dom().contains(id) && old(self)@[id] == h,
                None => !old(self)@.dom().contains(id),
            },
    {
        proof {
            lemma_map_of_dom(self.entries@, id);
        }
        match self.find(id) {
            Some(i) => {
                let ghost s = self.entries@;
                proof {
                    lemma_map_of_value(s, i as int);
                }
                let (_, handle) = self.entries.remove(i);
                proof {
                    let s2 = self.entries@;
                    assert forall|p: int, q: int|
                        0 <= p < q < s2.len() implies (#[trigger] s2[p]).0 != (
                    #[trigger] s2[q]).0 by {
                        let p0 = if p < i as int { p } else { p + 1 };
                        let q0 = if q < i as int { q } else { q + 1 };
                        assert(s2[p] == s[p0]);
                        assert(s2[q] == s[q0]);
                    }
                    assert(map_of(s2) =~= map_of(s).remove(id)) by {
                        assert forall|k: u128|
                            (#[trigger] map_of(s2).dom().contains(k) == map_of(
                                s,
                            ).remove(id).dom().contains(k)) && (map_of(s2).dom().contains(k)
                                ==> map_of(s2)[k] == map_of(s).remove(id)[k]) by {
                            lemma_map_of_dom(s2, k);
                            lemma_map_of_dom(s, k);
                            if map_of(s2).dom().contains(k) {
                                let j = choose|j: int| 0 <= j < s2.len() && (#[trigger] s2[j]).0 == k;
                                let j0 = if j < i as int { j } else { j + 1 };
                                assert(s2[j] == s[j0]);
                                lemma_map_of_value(s2, j);
                                lemma_map_of_value(s, j0);
                                assert(k != id);
                            } else {
                                if map_of(s).remove(id).dom().contains(k) {
                                    let j0 = choose|j0: int|
                                        0 <= j0 < s.len() && (#[trigger] s[j0]).0 == k;
                                    let j = if j0 < i as int { j0 } else { j0 - 1 };
                                    assert(j0 != i as int);
                                    assert(s2[j] == s[j0]);
                                }
                            }
                        }
                    }
                }
                Some(handle)
            },
            None => {
                proof {
                    assert(map_of(self.entries@).remove(id) =~= map_of(self.entries@));
                }
                None
            },
        }
    }
}

/// With no identifier twice, the entry count is the map's size.
proof fn lemma_len_entries<T>(s: Seq<(u128, T)>)
    requires
        forall|p: int, q: int| 0 <= p < q < s.len() ==> (#[trigger] s[p]).0 != (#[trigger] s[q]).0,
    ensures
        map_of(s).dom().len() == s.len(),
        map_of(s).dom().finite(),
    decreases s.len(),
{
    if s.len() > 0 {
        lemma_len_entries(s.drop_last());
        lemma_map_of_dom(s.drop_last(), s.last().0);
        assert(!map_of(s.drop_last()).dom().contains(s.last().0)) by {
            if map_of(s.drop_last()).dom().contains(s.last().0) {
                let i = choose|i: int|
                    0 <= i < s.drop_last().len() && (#[trigger] s.drop_last()[i]).0 == s.last().0;
                assert(s[i].0 == s[s.len() - 1].0);
            }
        }
    }
}

} // verus!
