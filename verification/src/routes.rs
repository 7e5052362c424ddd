//! The routing table: a prefix index from URL paths to plugin names.
//!
//! `insert` registers a prefix for a name; `find` returns the name registered
//! under the longest prefix that owns the path. Ownership respects path
//! segment boundaries: `/foo` owns `/foo` and `/foo/bar`, never `/foobar`.
//! When the same prefix is registered twice, the later registration wins.

use crate::plugin::clone_bytes;
use vstd::prelude::*;

verus! {

/// True when `prefix` owns `path`: `path` equals `prefix`, or extends it on a
/// path-segment boundary. The boundary falls either because the prefix itself
/// ends in `/` (byte 47) or because the first byte of `path` past the prefix
/// is `/`.
pub open spec fn prefix_matches(prefix: Seq<u8>, path: Seq<u8>) -> bool {
    &&& prefix.len() <= path.len()
    &&& path.take(prefix.len() as int) == prefix
    &&& (path.len() == prefix.len() || (prefix.len() > 0 && prefix.last() == 47u8) || path[
        prefix.len() as int
    ] == 47u8)
}

/// The match `find` owes on a table with entries `entries` (oldest first):
/// among the entries whose prefix owns `path`, one with the longest prefix,
/// and among entries of that same prefix, the latest.
pub open spec fn spec_find(entries: Seq<(Seq<u8>, Seq<u8>)>, path: Seq<u8>) -> Option<
    (Seq<u8>, Seq<u8>),
>
    decreases entries.len(),
{
    if entries.len() == 0 {
        None
    } else {
        let prior = spec_find(entries.drop_last(), path);
        let last = entries.last();
        if prefix_matches(last.0, path) {
            match prior {
                None => Some(last),
                Some(b) => if last.0.len() >= b.0.len() {
                    Some(last)
                } else {
                    Some(b)
                },
            }
        } else {
            prior
        }
    }
}

/// A successful lookup reports a registered entry: the pair `spec_find`
/// returns stands in the table, and its prefix owns the path.
pub proof fn lemma_spec_find_in_entries(entries: Seq<(Seq<u8>, Seq<u8>)>, path: Seq<u8>)
    requires
        spec_find(entries, path) is Some,
    ensures
        exists|i: int|
            0 <= i < entries.len() && entries[i] == spec_find(entries, path)->0,
        prefix_matches((spec_find(entries, path)->0).0, path),
    decreases entries.len(),
{
    let r = spec_find(entries, path)->0;
    let prior = spec_find(entries.drop_last(), path);
    let last = entries.last();
    if prefix_matches(last.0, path) {
        match prior {
            None => {
                assert(entries[entries.len() - 1] == last);
            },
            Some(b) => {
                if last.0.len() >= b.0.len() {
                    assert(entries[entries.len() - 1] == last);
                } else {
                    lemma_spec_find_in_entries(entries.drop_last(), path);
                    let i = choose|i: int|
                        0 <= i < entries.drop_last().len() && entries.drop_last()[i] == b;
                    assert(entries[i] == b);
                }
            },
        }
    } else {
        lemma_spec_find_in_entries(entries.drop_last(), path);
        let i = choose|i: int|
            0 <= i < entries.drop_last().len() && entries.drop_last()[i] == r;
        assert(entries[i] == r);
    }
}

/// Law: every registered prefix is resolvable. If some entry's prefix owns
/// `path`, the lookup finds a match, and the match's prefix is at least as
/// specific (as long) as that entry's.
pub proof fn lemma_owner_resolves(entries: Seq<(Seq<u8>, Seq<u8>)>, path: Seq<u8>, i: int)
    requires
        0 <= i < entries.len(),
        prefix_matches(entries[i].0, path),
    ensures
        spec_find(entries, path) is Some,
        (spec_find(entries, path)->0).0.len() >= entries[i].0.len(),
    decreases entries.len(),
{
    let last = entries.last();
    if i == entries.len() - 1 {
        assert(last == entries[i]);
    } else {
        assert(entries.drop_last()[i] == entries[i]);
        lemma_owner_resolves(entries.drop_last(), path, i);
    }
}

/// Law: a lookup misses exactly when no registered prefix owns the path. In
/// particular a path that merely shares a string prefix without a segment
/// boundary (`/foobar` under the registered `/foo`) resolves to nothing,
/// by `lemma_no_ownership_without_boundary`.
pub proof fn lemma_no_owner_no_match(entries: Seq<(Seq<u8>, Seq<u8>)>, path: Seq<u8>)
    requires
        forall|i: int| 0 <= i < entries.len() ==> !prefix_matches((#[trigger] entries[i]).0, path),
    ensures
        spec_find(entries, path) is None,
{
    if spec_find(entries, path) is Some {
        lemma_spec_find_in_entries(entries, path);
        let i = choose|i: int|
            0 <= i < entries.len() && entries[i] == spec_find(entries, path)->0;
        assert(!prefix_matches(entries[i].0, path));
    }
}

/// Law: a prefix just registered is resolvable at once, for every path it
/// owns.
pub proof fn lemma_insert_resolvable(
    entries: Seq<(Seq<u8>, Seq<u8>)>,
    prefix: Seq<u8>,
    name: Seq<u8>,
    path: Seq<u8>,
)
    requires
        prefix_matches(prefix, path),
    ensures
        spec_find(entries.push((prefix, name)), path) is Some,
{
    lemma_owner_resolves(entries.push((prefix, name)), path, entries.len() as int);
}

/// Law: resolvability persists. A path that resolves keeps resolving after
/// any later registration; so every registered prefix stays resolvable
/// through any sequence of further `register` calls.
pub proof fn lemma_find_persists(
    entries: Seq<(Seq<u8>, Seq<u8>)>,
    entry: (Seq<u8>, Seq<u8>),
    path: Seq<u8>,
)
    requires
        spec_find(entries, path) is Some,
    ensures
        spec_find(entries.push(entry), path) is Some,
{
    assert(entries.push(entry).drop_last() =~= entries);
}

/// Law: the newest registration of a prefix serves that prefix itself. A
/// lookup of the very path just registered returns the entry just pushed:
/// no older entry can own it more specifically, and among entries of the
/// same prefix the later one wins.
pub proof fn lemma_insert_serves_own_prefix(
    entries: Seq<(Seq<u8>, Seq<u8>)>,
    prefix: Seq<u8>,
    name: Seq<u8>,
)
    ensures
        spec_find(entries.push((prefix, name)), prefix) == Some((prefix, name)),
{
    let t = entries.push((prefix, name));
    assert(prefix_matches(prefix, prefix)) by {
        assert(prefix.take(prefix.len() as int) =~= prefix);
    }
    assert(t.drop_last() =~= entries);
    match spec_find(entries, prefix) {
        None => {},
        Some(b) => {
            lemma_spec_find_in_entries(entries, prefix);
            assert(b.0.len() <= prefix.len());
        },
    }
}

/// Law: ownership respects segment boundaries. A longer path whose byte
/// after the prefix is not `/`, under a prefix that does not end in `/`, is
/// not owned, whatever its leading bytes are.
pub proof fn lemma_no_ownership_without_boundary(prefix: Seq<u8>, path: Seq<u8>)
    requires
        0 < prefix.len() < path.len(),
        prefix.last() != 47u8,
        path[prefix.len() as int] != 47u8,
    ensures
        !prefix_matches(prefix, path),
{
}

/// A prefix table. Its view is the sequence of `(prefix, name)` entries in
/// insertion order.
#[derive(Debug)]
pub struct RouteTable {
    entries: Vec<(Vec<u8>, Vec<u8>)>,
}

impl View for RouteTable {
    type V = Seq<(Seq<u8>, Seq<u8>)>;

    closed spec fn view(&self) -> Seq<(Seq<u8>, Seq<u8>)> {
        self.entries@.map_values(|e: (Vec<u8>, Vec<u8>)| (e.0@, e.1@))
    }
}

/// Decides `prefix_matches` on concrete byte strings.
pub fn prefix_owns_path(prefix: &Vec<u8>, path: &Vec<u8>) -> (r: bool)
    ensures
        r == prefix_matches(prefix@, path@),
{
    if prefix.len() > path.len() {
        return false;
    }
    let mut i: usize = 0;
    while i < prefix.len()
        invariant
            i <= prefix.len() <= path.len(),
            path@.take(i as int) == prefix@.take(i as int),
        decreases prefix.len() - i,
    {
        if prefix[i] != path[i] {
            proof {
                assert(path@.take(prefix@.len() as int)[i as int] != prefix@[i as int]);
            }
            return false;
        }
        proof {
            assert(path@.take(i + 1 as int) =~= path@.take(i as int).push(path@[i as int]));
            assert(prefix@.take(i + 1 as int) =~= prefix@.take(i as int).push(prefix@[i as int]));
        }
        i += 1;
    }
    proof {
        assert(path@.take(prefix@.len() as int) =~= prefix@.take(prefix@.len() as int));
        assert(prefix@.take(prefix@.len() as int) =~= prefix@);
    }
    if path.len() == prefix.len() {
        return true;
    }
    if prefix.len() > 0 && prefix[prefix.len() - 1] == 47u8 {
        return true;
    }
    path[prefix.len()] == 47u8
}

impl RouteTable {
    pub fn new() -> (r: Self)
        ensures
            r@ == Seq::<(Seq<u8>, Seq<u8>)>::empty(),
    {
        let r = RouteTable { entries: Vec::new() };
        proof {
            assert(r@ =~= Seq::<(Seq<u8>, Seq<u8>)>::empty());
        }
        r
    }

    /// Registers `prefix` for `name`. A later entry with the same prefix
    /// shadows an earlier one in `find`.
    pub fn insert(&mut self, prefix: Vec<u8>, name: Vec<u8>)
        ensures
            final(self)@ == old(self)@.push((prefix@, name@)),
    {
        let ghost pre = self@;
        self.entries.push((prefix, name));
        proof {
            assert(self@ =~= pre.push((self.entries@.last().0@, self.entries@.last().1@)));
        }
    }

    /// Longest-prefix lookup: the `(prefix, name)` entry that `spec_find`
    /// names, or `None` when no registered prefix owns `path`.
    pub fn find(&self, path: &Vec<u8>) -> (r: Option<(Vec<u8>, Vec<u8>)>)
        ensures
            match r {
                None => spec_find(self@, path@) is None,
                Some(pn) => spec_find(self@, path@) == Some((pn.0@, pn.1@)),
            },
    {
        let mut best: Option<usize> = None;
        let mut i: usize = 0;
        while i < self.entries.len()
            invariant
                i <= self.entries.len(),
                self@.len() == self.entries@.len(),
                match best {
                    None => spec_find(self@.take(i as int), path@) is None,
                    Some(j) => j < i && spec_find(self@.take(i as int), path@) == Some(
                        (self.entries@[j as int].0@, self.entries@[j as int].1@),
                    ),
                },
            decreases self.entries.len() - i,
        {
            proof {
                assert(self@.take(i + 1 as int).drop_last() =~= self@.take(i as int));
                assert(self@.take(i + 1 as int).last() == self@[i as int]);
            }
            if prefix_owns_path(&self.entries[i].0, path) {
                match best {
                    None => {
                        best = Some(i);
                    },
                    Some(j) => {
                        if self.entries[i].0.len() >= self.entries[j].0.len() {
                            best = Some(i);
                        }
                    },
                }
            }
            i += 1;
        }
        proof {
            assert(self@.take(self.entries@.len() as int) =~= self@);
        }
        match best {
            None => None,
            Some(j) => {
                let e = &self.entries[j];
                Some((clone_bytes(&e.0), clone_bytes(&e.1)))
            },
        }
    }
}

} // verus!
