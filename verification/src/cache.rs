//! The cache of resolved URLs: from a URL to the connection id of its node.

use vstd::prelude::*;

verus! {

/// The map that a list of entries stands for: a later entry for a key
/// overrides an earlier one.
pub open spec fn entries_map(e: Seq<(Seq<char>, i64)>) -> Map<Seq<char>, i64>
    decreases e.len(),
{
    if e.len() == 0 {
        Map::empty()
    } else {
        entries_map(e.drop_last()).insert(e.last().0, e.last().1)
    }
}

/// Whether no entry at index `from` or later has key `k`.
pub open spec fn absent_from(e: Seq<(Seq<char>, i64)>, k: Seq<char>, from: int) -> bool {
    forall|j: int| from <= j < e.len() ==> #[trigger] e[j].0 != k
}

/// An entry for `k` at index `i`, with none after it, decides the map at `k`.
proof fn lemma_last_entry(e: Seq<(Seq<char>, i64)>, k: Seq<char>, i: int)
    requires
        0 <= i < e.len(),
        e[i].0 == k,
        absent_from(e, k, i + 1),
    ensures
        entries_map(e).contains_key(k),
        entries_map(e)[k] == e[i].1,
    decreases e.len(),
{
    if i < e.len() - 1 {
        assert(e.drop_last()[i] == e[i]);
        assert(e.last() == e[e.len() - 1]);
        lemma_last_entry(e.drop_last(), k, i);
    }
}

/// Without an entry for `k` the map does not hold `k`.
proof fn lemma_no_entry(e: Seq<(Seq<char>, i64)>, k: Seq<char>)
    requires
        absent_from(e, k, 0),
    ensures
        !entries_map(e).contains_key(k),
    decreases e.len(),
{
    if e.len() > 0 {
        assert(e.last() == e[e.len() - 1]);
        lemma_no_entry(e.drop_last(), k);
    }
}

/// Overwriting the last entry for `k` overwrites the map at `k`.
proof fn lemma_update_last_entry(e: Seq<(Seq<char>, i64)>, k: Seq<char>, i: int, v: i64)
    requires
        0 <= i < e.len(),
        e[i].0 == k,
        absent_from(e, k, i + 1),
    ensures
        entries_map(e.update(i, (k, v))) == entries_map(e).insert(k, v),
    decreases e.len(),
{
    let u = e.update(i, (k, v));
    if i == e.len() - 1 {
        assert(u.drop_last() =~= e.drop_last());
        assert(entries_map(e).insert(k, v) =~= entries_map(e.drop_last()).insert(k, v));
    } else {
        assert(u.drop_last() =~= e.drop_last().update(i, (k, v)));
        assert(e.drop_last()[i] == e[i]);
        lemma_update_last_entry(e.drop_last(), k, i, v);
        assert(u.last() == e.last());
        assert(e.last() == e[e.len() - 1]);
        assert(e.last().0 != k);
        assert(entries_map(u) =~= entries_map(e).insert(k, v));
    }
}

/// Resolved URLs and the connection ids of their nodes.
pub struct ConnCache {
    entries: Vec<(String, i64)>,
}

impl ConnCache {
    /// The keys and values of the entries.
    pub closed spec fn entries_view(&self) -> Seq<(Seq<char>, i64)> {
        self.entries@.map_values(|p: (String, i64)| (p.0@, p.1))
    }

    /// The map from URL to connection id.
    pub closed spec fn view(&self) -> Map<Seq<char>, i64> {
        entries_map(self.entries_view())
    }

    /// An empty cache.
    pub fn new() -> (c: Self)
        ensures
            c.view() == Map::<Seq<char>, i64>::empty(),
    {
        let c = ConnCache { entries: Vec::new() };
        assert(c.entries_view() =~= Seq::empty());
        c
    }

    /// The index of the last entry for `url`, if any.
    fn find_last(&self, url: &String) -> (r: Option<usize>)
        ensures
            match r {
                Some(i) => i < self.entries_view().len() && self.entries_view()[i as int].0 == url@
                    && absent_from(self.entries_view(), url@, i + 1),
                None => absent_from(self.entries_view(), url@, 0),
            },
    {
        let mut i = self.entries.len();
        while i > 0
            invariant
                i <= self.entries@.len(),
                absent_from(self.entries_view(), url@, i as int),
            decreases i,
        {
            i = i - 1;
            if self.entries[i].0 == *url {
                return Some(i);
            }
            assert(self.entries_view()[i as int].0 == self.entries@[i as int].0@);
        }
        None
    }

    /// The connection id cached for `url`.
    pub fn get(&self, url: &String) -> (r: Option<i64>)
        ensures
            r == (if self.view().contains_key(url@) {
                Some(self.view()[url@])
            } else {
                None::<i64>
            }),
    {
        match self.find_last(url) {
            Some(i) => {
                proof {
                    lemma_last_entry(self.entries_view(), url@, i as int);
                }
                Some(self.entries[i].1)
            },
            None => {
                proof {
                    lemma_no_entry(self.entries_view(), url@);
                }
                None
            },
        }
    }

    /// Caches `conn_id` for `url`, replacing what was cached for it.
    pub fn insert(&mut self, url: String, conn_id: i64)
        ensures
            final(self).view() == old(self).view().insert(url@, conn_id),
    {
        let ghost k = url@;
        match self.find_last(&url) {
            Some(i) => {
                proof {
                    lemma_update_last_entry(old(self).entries_view(), k, i as int, conn_id);
                }
                self.entries.set(i, (url, conn_id));
                assert(self.entries_view() =~= old(self).entries_view().update(i as int, (k, conn_id)));
            },
            None => {
                self.entries.push((url, conn_id));
                assert(self.entries_view().drop_last() =~= old(self).entries_view());
            },
        }
    }
}

} // verus!
