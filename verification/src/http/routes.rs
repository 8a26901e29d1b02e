//! The route alias table: request paths that stand for other paths under the root.

use crate::http::text::str_eq;
use vstd::prelude::*;
use vstd::string::*;

verus! {

/// An immutable table from request path to path under the document root. It is built
/// once and only read afterwards.
pub struct RouteTable {
    entries: Vec<(String, String)>,
}

/// The texts of a list of entries.
pub open spec fn pairs(entries: Seq<(String, String)>) -> Seq<(Seq<char>, Seq<char>)> {
    entries.map_values(|entry: (String, String)| (entry.0@, entry.1@))
}

/// The mapping that a list of entries builds: a later entry for a path replaces an
/// earlier one.
pub open spec fn mapping(entries: Seq<(Seq<char>, Seq<char>)>) -> Map<Seq<char>, Seq<char>>
    decreases entries.len(),
{
    if entries.len() == 0 {
        Map::empty()
    } else {
        mapping(entries.drop_last()).insert(entries.last().0, entries.last().1)
    }
}

/// The path that a request path stands for: its alias where the table has one, else
/// the path itself. No path has an alias that the table does not give it: `/` too is
/// served as it stands unless the table names a file for it.
pub open spec fn effective_path(routes: Map<Seq<char>, Seq<char>>, uri: Seq<char>) -> Seq<char> {
    if routes.contains_key(uri) {
        routes[uri]
    } else {
        uri
    }
}

/// A path without an alias passes through unchanged, however often it is looked up:
/// the table is a value, and a lookup reads it.
pub proof fn lemma_unmapped_passes_through(routes: Map<Seq<char>, Seq<char>>, uri: Seq<char>)
    requires
        !routes.contains_key(uri),
    ensures
        effective_path(routes, uri) == uri,
{
}

/// The last entry for `path` decides; entries behind `from` hold no entry for `path`.
proof fn lemma_mapping_last_wins(
    entries: Seq<(Seq<char>, Seq<char>)>,
    path: Seq<char>,
    from: int,
)
    requires
        0 <= from <= entries.len(),
        forall|k: int| from <= k < entries.len() ==> entries[k].0 != path,
    ensures
        mapping(entries).contains_key(path) == mapping(entries.take(from)).contains_key(path),
        mapping(entries).contains_key(path) ==> mapping(entries)[path] == mapping(
            entries.take(from),
        )[path],
    decreases entries.len() - from,
{
    if from == entries.len() {
        assert(entries.take(from) =~= entries);
    } else {
        let shorter = entries.drop_last();
        lemma_mapping_last_wins(shorter, path, from);
        assert(shorter.take(from) =~= entries.take(from));
    }
}

impl View for RouteTable {
    type V = Map<Seq<char>, Seq<char>>;

    closed spec fn view(&self) -> Map<Seq<char>, Seq<char>> {
        mapping(pairs(self.entries@))
    }
}

impl RouteTable {
    /// Builds the table from its entries; of two entries for one path the later counts.
    pub fn new(entries: Vec<(String, String)>) -> (table: RouteTable)
        ensures
            table@ == mapping(pairs(entries@)),
    {
        RouteTable { entries }
    }

    /// Looks up the alias of a request path.
    pub fn get(&self, path: &str) -> (alias: Option<&str>)
        ensures
            alias is Some <==> self@.contains_key(path@),
            alias matches Some(target) ==> target@ == self@[path@],
    {
        let ghost all = pairs(self.entries@);
        let mut i: usize = self.entries.len();
        while i > 0
            invariant
                i <= self.entries@.len(),
                all == pairs(self.entries@),
                forall|k: int| i <= k < all.len() ==> all[k].0 != path@,
            decreases i,
        {
            i -= 1;
            if str_eq(self.entries[i].0.as_str(), path) {
                proof {
                    lemma_mapping_last_wins(all, path@, i + 1);
                    assert(all.take(i + 1).drop_last() =~= all.take(i as int));
                }
                return Some(self.entries[i].1.as_str());
            }
        }
        proof {
            lemma_mapping_last_wins(all, path@, 0);
            assert(all.take(0) =~= Seq::empty());
        }
        None
    }

    /// The path to read for a request path: the alias where there is one, else the
    /// request path itself.
    pub fn resolve<'a>(&'a self, uri: &'a str) -> (path: &'a str)
        ensures
            path@ == effective_path(self@, uri@),
    {
        match self.get(uri) {
            Some(target) => target,
            None => uri,
        }
    }
}

} // verus!
