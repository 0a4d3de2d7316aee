//! The shared connection registry.
//!
//! A registry maps each live session identifier to the handle of its open
//! callback channel.  An entry exists exactly while a `Hello` has been
//! processed for that identifier and neither a `Goodbye` nor a channel error
//! has removed it.  The registry is viewed as a mathematical map; the process
//! around the library serializes access to it, so each operation here is one
//! atomic step of that map.

use vstd::prelude::*;

verus! {

/// Does some entry of `s` carry the key `k`?
pub open spec fn key_in(s: Seq<(u64, u64)>, k: u64) -> bool {
    exists|i: int| 0 <= i < s.len() && s[i].0 == k
}

/// No two entries of `s` carry the same key.
pub open spec fn unique_keys(s: Seq<(u64, u64)>) -> bool {
    forall|i: int, j: int| 0 <= i < j < s.len() ==> s[i].0 != s[j].0
}

/// The map an entry list stands for; a later entry wins over an earlier one.
pub open spec fn map_of(s: Seq<(u64, u64)>) -> Map<u64, u64>
    decreases s.len(),
{
    if s.len() == 0 {
        Map::empty()
    } else {
        map_of(s.drop_last()).insert(s.last().0, s.last().1)
    }
}

/// The domain of `map_of(s)` is exactly the set of keys of `s`, and it is
/// finite.
proof fn lemma_map_of_dom(s: Seq<(u64, u64)>)
    ensures
        forall|k: u64| map_of(s).dom().contains(k) <==> key_in(s, k),
        map_of(s).dom().finite(),
    decreases s.len(),
{
    if s.len() > 0 {
        lemma_map_of_dom(s.drop_last());
        assert forall|k: u64| map_of(s).dom().contains(k) implies key_in(s, k) by {
            if k == s.last().0 {
                assert(s[s.len() - 1].0 == k);
            } else {
                assert(key_in(s.drop_last(), k));
                let i = choose|i: int| 0 <= i < s.drop_last().len() && s.drop_last()[i].0 == k;
                assert(s.drop_last()[i] == s[i]);
                assert(s[i].0 == k);
            }
        }
        assert forall|k: u64| key_in(s, k) implies map_of(s).dom().contains(k) by {
            let i = choose|i: int| 0 <= i < s.len() && s[i].0 == k;
            if i < s.len() - 1 {
                assert(s.drop_last()[i].0 == k);
                assert(key_in(s.drop_last(), k));
                assert(map_of(s.drop_last()).dom().contains(k));
            } else {
                assert(k == s.last().0);
            }
        }
    }
}

/// Under unique keys, the entry at `i` gives the map's value at its key.
proof fn lemma_map_of_get(s: Seq<(u64, u64)>, i: int)
    requires
        unique_keys(s),
        0 <= i < s.len(),
    ensures
        map_of(s).dom().contains(s[i].0),
        map_of(s)[s[i].0] == s[i].1,
    decreases s.len(),
{
    lemma_map_of_dom(s);
    if i < s.len() - 1 {
        assert(unique_keys(s.drop_last()));
        lemma_map_of_get(s.drop_last(), i);
        assert(s[i].0 != s.last().0);
    }
}

/// Under unique keys, removing the entry at `i` removes exactly its key from
/// the map.
proof fn lemma_map_of_remove(s: Seq<(u64, u64)>, i: int)
    requires
        unique_keys(s),
        0 <= i < s.len(),
    ensures
        map_of(s.remove(i)) == map_of(s).remove(s[i].0),
    decreases s.len(),
{
    lemma_map_of_dom(s);
    lemma_map_of_dom(s.drop_last());
    let k = s[i].0;
    if i == s.len() - 1 {
        assert(s.remove(i) =~= s.drop_last());
        assert(!key_in(s.drop_last(), k));
        assert(map_of(s.drop_last()).insert(k, s[i].1).remove(k) =~= map_of(s.drop_last()));
    } else {
        assert(unique_keys(s.drop_last()));
        lemma_map_of_remove(s.drop_last(), i);
        assert(s.remove(i).drop_last() =~= s.drop_last().remove(i));
        assert(s.remove(i).last() == s.last());
        assert(k != s.last().0);
        assert(map_of(s.drop_last()).remove(k).insert(s.last().0, s.last().1) =~= map_of(
            s.drop_last(),
        ).insert(s.last().0, s.last().1).remove(k));
    }
}

/// Under unique keys, the map has as many entries in its domain as the list.
proof fn lemma_map_of_card(s: Seq<(u64, u64)>)
    requires
        unique_keys(s),
    ensures
        map_of(s).dom().finite(),
        map_of(s).dom().len() == s.len(),
    decreases s.len(),
{
    lemma_map_of_dom(s);
    if s.len() > 0 {
        assert(unique_keys(s.drop_last()));
        lemma_map_of_card(s.drop_last());
        lemma_map_of_dom(s.drop_last());
        assert(!key_in(s.drop_last(), s.last().0));
        assert(map_of(s).dom() =~= map_of(s.drop_last()).dom().insert(s.last().0));
        vstd::set::axiom_set_insert_len(map_of(s.drop_last()).dom(), s.last().0);
    }
}

/// The mapping from live session identifiers to callback channel handles.
pub struct Registry {
    entries: Vec<(u64, u64)>,
}

impl Registry {
    /// The map this registry holds.
    pub closed spec fn view(&self) -> Map<u64, u64> {
        map_of(self.entries@)
    }

    /// Internal well-formedness: one entry per identifier.
    pub closed spec fn wf(&self) -> bool {
        unique_keys(self.entries@)
    }

    /// An empty registry.
    pub fn new() -> (registry: Registry)
        ensures
            registry.wf(),
            registry@ == Map::<u64, u64>::empty(),
    {
        Registry { entries: Vec::new() }
    }

    /// The position of the entry keyed by `id`, if any.
    fn position_of(&self, id: u64) -> (position: Option<usize>)
        ensures
            match position {
                Some(i) => i < self.entries@.len() && self.entries@[i as int].0 == id,
                None => !key_in(self.entries@, id),
            },
    {
        let n = self.entries.len();
        let mut i: usize = 0;
        while i < n
            invariant
                n == self.entries@.len(),
                i <= n,
                forall|j: int| 0 <= j < i ==> self.entries@[j].0 != id,
            decreases n - i,
        {
            if self.entries[i].0 == id {
                return Some(i);
            }
            i = i + 1;
        }
        None
    }

    /// Look up the callback handle registered for `id`; `None` means the
    /// session is already closed (or was never registered).
    pub fn get(&self, id: u64) -> (handle: Option<u64>)
        requires
            self.wf(),
        ensures
            handle is Some <==> self@.dom().contains(id),
            handle matches Some(h) ==> self@[id] == h,
    {
        proof {
            lemma_map_of_dom(self.entries@);
        }
        match self.position_of(id) {
            Some(i) => {
                proof {
                    lemma_map_of_get(self.entries@, i as int);
                }
                Some(self.entries[i].1)
            },
            None => None,
        }
    }

    /// Register the callback handle for `id`, replacing any earlier one.
    pub fn insert(&mut self, id: u64, handle: u64)
        requires
            old(self).wf(),
        ensures
            final(self).wf(),
            final(self)@ == old(self)@.insert(id, handle),
    {
        self.remove(id);
        proof {
            lemma_map_of_dom(self.entries@);
        }
        let ghost before = self.entries@;
        self.entries.push((id, handle));
        proof {
            assert(self.entries@.drop_last() =~= before);
            assert(!key_in(before, id));
            assert forall|j: int| 0 <= j < before.len() implies before[j].0 != id by {
                if before[j].0 == id {
                    assert(key_in(before, id));
                }
            }
            assert(final(self)@ =~= old(self)@.insert(id, handle));
        }
    }

    /// Remove the entry for `id`, if one is live.
    pub fn remove(&mut self, id: u64)
        requires
            old(self).wf(),
        ensures
            final(self).wf(),
            final(self)@ == old(self)@.remove(id),
    {
        proof {
            lemma_map_of_dom(self.entries@);
        }
        match self.position_of(id) {
            Some(i) => {
                proof {
                    lemma_map_of_remove(self.entries@, i as int);
                }
                self.entries.remove(i);
            },
            None => {
                proof {
                    assert(final(self)@ =~= old(self)@.remove(id));
                }
            },
        }
    }

    /// Every live entry, one per identifier, for walking all open callback
    /// channels at shutdown.
    pub fn entries(&self) -> (live: Vec<(u64, u64)>)
        requires
            self.wf(),
        ensures
            live@.len() == self@.dom().len(),
            unique_keys(live@),
            forall|i: int|
                0 <= i < live@.len() ==> #[trigger] self@.contains_pair(live@[i].0, live@[i].1),
    {
        proof {
            lemma_map_of_card(self.entries@);
        }
        let n = self.entries.len();
        let mut live: Vec<(u64, u64)> = Vec::new();
        let mut i: usize = 0;
        while i < n
            invariant
                n == self.entries@.len(),
                i <= n,
                live@ == self.entries@.subrange(0, i as int),
                self.wf(),
            decreases n - i,
        {
            live.push(self.entries[i]);
            proof {
                assert(self.entries@.subrange(0, i as int).push(self.entries@[i as int])
                    =~= self.entries@.subrange(0, i as int + 1));
            }
            i = i + 1;
        }
        proof {
            assert(live@ =~= self.entries@);
            assert forall|i: int| 0 <= i < live@.len() implies #[trigger] self@.contains_pair(
                live@[i].0,
                live@[i].1,
            ) by {
                lemma_map_of_get(self.entries@, i);
            }
        }
        live
    }

    /// How many sessions are live.
    pub fn len(&self) -> (count: usize)
        requires
            self.wf(),
        ensures
            count == self@.dom().len(),
    {
        proof {
            lemma_map_of_card(self.entries@);
        }
        self.entries.len()
    }
}

} // verus!
