//! The name table store and the resolution policy.
//!
//! The table maps an actual remote host name to a locally configured alias.
//! It is loaded once at startup from a file holding a flat string-to-string
//! object; a missing or malformed file falls back to the empty table and
//! asks the caller to write a fresh empty table file, so a run always leaves
//! a valid file behind.

use vstd::prelude::*;
use crate::json::{pairs_view, parse_table, spec_parse_table, LBRACE, RBRACE};
use crate::json::lemma_empty_table_parses;
use crate::request::CodeOpenInfo;
use vstd::string::StringExecFns;

verus! {

/// The mapping a pair sequence denotes: pairs are added in order, so on a
/// repeated key the later pair wins.
pub open spec fn pairs_to_map(ps: Seq<(Seq<char>, Seq<char>)>) -> Map<Seq<char>, Seq<char>>
    decreases ps.len(),
{
    if ps.len() == 0 {
        Map::empty()
    } else {
        pairs_to_map(ps.drop_last()).insert(ps.last().0, ps.last().1)
    }
}

/// No two pairs share a key.
pub open spec fn keys_unique(ps: Seq<(Seq<char>, Seq<char>)>) -> bool {
    forall|a: int, b: int| 0 <= a < b < ps.len() ==> ps[a].0 != ps[b].0
}

/// A key is in the denoted mapping exactly when some pair carries it.
pub proof fn lemma_pairs_to_map_contains(ps: Seq<(Seq<char>, Seq<char>)>, k: Seq<char>)
    ensures
        pairs_to_map(ps).contains_key(k) <==> exists|a: int| 0 <= a < ps.len() && ps[a].0 == k,
    decreases ps.len(),
{
    if ps.len() == 0 {
    } else {
        lemma_pairs_to_map_contains(ps.drop_last(), k);
        if ps.last().0 == k {
            assert(ps[ps.len() - 1].0 == k);
        } else {
            if exists|a: int| 0 <= a < ps.len() && ps[a].0 == k {
                let a = choose|a: int| 0 <= a < ps.len() && ps[a].0 == k;
                assert(ps.drop_last()[a].0 == k);
            }
            if exists|a: int| 0 <= a < ps.drop_last().len() && ps.drop_last()[a].0 == k {
                let a = choose|a: int| 0 <= a < ps.drop_last().len() && ps.drop_last()[a].0 == k;
                assert(ps[a].0 == k);
            }
        }
    }
}

/// With unique keys, the mapping sends each pair's key to that pair's value.
pub proof fn lemma_pairs_to_map_value(ps: Seq<(Seq<char>, Seq<char>)>, a: int)
    requires
        keys_unique(ps),
        0 <= a < ps.len(),
    ensures
        pairs_to_map(ps).contains_key(ps[a].0),
        pairs_to_map(ps)[ps[a].0] == ps[a].1,
    decreases ps.len(),
{
    if a == ps.len() - 1 {
    } else {
        let dl = ps.drop_last();
        assert forall|x: int, y: int| 0 <= x < y < dl.len() implies dl[x].0 != dl[y].0 by {
            assert(dl[x] == ps[x]);
            assert(dl[y] == ps[y]);
        }
        lemma_pairs_to_map_value(dl, a);
        assert(dl[a] == ps[a]);
        assert(ps.last().0 != ps[a].0);
    }
}

/// With unique keys, replacing the pair that carries a key denotes the same
/// mapping as inserting the new value for that key.
pub proof fn lemma_pairs_to_map_update(
    ps: Seq<(Seq<char>, Seq<char>)>,
    idx: int,
    p: (Seq<char>, Seq<char>),
)
    requires
        keys_unique(ps),
        0 <= idx < ps.len(),
        p.0 == ps[idx].0,
    ensures
        pairs_to_map(ps.update(idx, p)) == pairs_to_map(ps).insert(p.0, p.1),
    decreases ps.len(),
{
    let u = ps.update(idx, p);
    if idx == ps.len() - 1 {
        assert(u.drop_last() =~= ps.drop_last());
        assert(u.last() == p);
        assert(pairs_to_map(ps.drop_last()).insert(ps.last().0, ps.last().1).insert(p.0, p.1)
            =~= pairs_to_map(ps.drop_last()).insert(p.0, p.1));
    } else {
        let dl = ps.drop_last();
        assert forall|x: int, y: int| 0 <= x < y < dl.len() implies dl[x].0 != dl[y].0 by {
            assert(dl[x] == ps[x]);
            assert(dl[y] == ps[y]);
        }
        assert(dl[idx] == ps[idx]);
        lemma_pairs_to_map_update(dl, idx, p);
        assert(u.drop_last() =~= dl.update(idx, p));
        assert(u.last() == ps.last());
        assert(ps.last().0 != p.0);
        assert(pairs_to_map(dl).insert(p.0, p.1).insert(ps.last().0, ps.last().1)
            =~= pairs_to_map(dl).insert(ps.last().0, ps.last().1).insert(p.0, p.1));
    }
}

/// The persistent alias table: actual remote host name to locally configured
/// alias, with unique keys.
pub struct NameTable {
    entries: Vec<(String, String)>,
}

impl NameTable {
    /// The table's invariant: no two entries share a key.
    pub closed spec fn wf(&self) -> bool {
        keys_unique(pairs_view(self.entries@))
    }

    /// The mapping the table holds.
    pub closed spec fn as_map(&self) -> Map<Seq<char>, Seq<char>> {
        pairs_to_map(pairs_view(self.entries@))
    }

    /// The empty table.
    pub fn new() -> (r: NameTable)
        ensures
            r.wf(),
            r.as_map() == Map::<Seq<char>, Seq<char>>::empty(),
    {
        let r = NameTable { entries: Vec::new() };
        proof {
            assert(pairs_view(r.entries@) =~= Seq::<(Seq<char>, Seq<char>)>::empty());
        }
        r
    }

    /// The position of the entry carrying the key, if any.
    fn index_of_key(&self, k: &String) -> (r: Option<usize>)
        ensures
            r matches Some(idx) ==> idx < self.entries@.len() && self.entries@[
                idx as int
            ].0@ == k@,
            r is None ==> forall|a: int|
                0 <= a < self.entries@.len() ==> self.entries@[a].0@ != k@,
    {
        let n = self.entries.len();
        let mut i: usize = 0;
        while i < n
            invariant
                i <= n,
                n == self.entries@.len(),
                forall|a: int| 0 <= a < i ==> self.entries@[a].0@ != k@,
            decreases n - i,
        {
            if self.entries[i].0 == *k {
                return Some(i);
            }
            i = i + 1;
        }
        None
    }

    /// The alias configured for a host name, if one is.
    pub fn get<'a>(&'a self, k: &String) -> (r: Option<&'a String>)
        requires
            self.wf(),
        ensures
            r is Some <==> self.as_map().contains_key(k@),
            r matches Some(v) ==> self.as_map()[k@] == v@,
    {
        let ghost pv = pairs_view(self.entries@);
        match self.index_of_key(k) {
            Some(idx) => {
                proof {
                    assert(pv[idx as int].0 == k@);
                    lemma_pairs_to_map_value(pv, idx as int);
                }
                Some(&self.entries[idx].1)
            },
            None => {
                proof {
                    lemma_pairs_to_map_contains(pv, k@);
                    assert forall|a: int| 0 <= a < pv.len() implies pv[a].0 != k@ by {
                        assert(pv[a].0 == self.entries@[a].0@);
                    }
                }
                None
            },
        }
    }

    /// Adds or replaces the alias for a host name.
    pub fn insert(&mut self, k: String, v: String)
        requires
            old(self).wf(),
        ensures
            final(self).wf(),
            final(self).as_map() == old(self).as_map().insert(k@, v@),
    {
        let ghost pv0 = pairs_view(self.entries@);
        match self.index_of_key(&k) {
            Some(idx) => {
                let ghost kk = k@;
                let ghost vv = v@;
                self.entries.remove(idx);
                self.entries.insert(idx, (k, v));
                proof {
                    assert(pairs_view(self.entries@) =~= pv0.update(idx as int, (kk, vv)));
                    assert(pv0[idx as int].0 == kk);
                    lemma_pairs_to_map_update(pv0, idx as int, (kk, vv));
                    let pv1 = pairs_view(self.entries@);
                    assert forall|x: int, y: int| 0 <= x < y < pv1.len() implies pv1[x].0
                        != pv1[y].0 by {
                        assert(pv1[x].0 == pv0[x].0);
                        assert(pv1[y].0 == pv0[y].0);
                    }
                }
            },
            None => {
                let ghost kk = k@;
                let ghost vv = v@;
                self.entries.push((k, v));
                proof {
                    let pv1 = pairs_view(self.entries@);
                    assert(pv1 =~= pv0.push((kk, vv)));
                    assert(pv1.drop_last() =~= pv0);
                    assert(pv1.last() == (kk, vv));
                    assert forall|x: int, y: int| 0 <= x < y < pv1.len() implies pv1[x].0
                        != pv1[y].0 by {
                        if y < pv1.len() - 1 {
                            assert(pv1[x].0 == pv0[x].0);
                            assert(pv1[y].0 == pv0[y].0);
                        } else {
                            assert(pv1[x].0 == pv0[x].0);
                        }
                    }
                }
            },
        }
    }

    /// Builds a table from parsed pairs in file order; on a repeated key the
    /// later pair wins, as the denotation says.
    pub fn from_pairs(pairs: &Vec<(String, String)>) -> (r: NameTable)
        ensures
            r.wf(),
            r.as_map() == pairs_to_map(pairs_view(pairs@)),
    {
        let ghost pv = pairs_view(pairs@);
        let mut t = NameTable::new();
        let n = pairs.len();
        let mut i: usize = 0;
        proof {
            assert(pv.take(0) =~= Seq::<(Seq<char>, Seq<char>)>::empty());
        }
        while i < n
            invariant
                i <= n,
                n == pairs@.len(),
                pv == pairs_view(pairs@),
                t.wf(),
                t.as_map() == pairs_to_map(pv.take(i as int)),
            decreases n - i,
        {
            let k = pairs[i].0.clone();
            let v = pairs[i].1.clone();
            t.insert(k, v);
            proof {
                assert(pv.take(i + 1).drop_last() =~= pv.take(i as int));
                assert(pv.take(i + 1).last() == pv[i as int]);
            }
            i = i + 1;
        }
        proof {
            assert(pv.take(n as int) =~= pv);
        }
        t
    }

    /// The entries, for a caller that wants to walk the table: they denote
    /// exactly the table's mapping, no key twice, and each one is in the
    /// mapping with its own value.
    pub fn entries(&self) -> (r: &Vec<(String, String)>)
        requires
            self.wf(),
        ensures
            keys_unique(pairs_view(r@)),
            pairs_to_map(pairs_view(r@)) == self.as_map(),
            forall|a: int|
                0 <= a < r@.len() ==> self.as_map().contains_key(#[trigger] r@[a].0@)
                    && self.as_map()[r@[a].0@] == r@[a].1@,
    {
        proof {
            let pv = pairs_view(self.entries@);
            assert forall|a: int|
                0 <= a < self.entries@.len() implies self.as_map().contains_key(
                #[trigger] self.entries@[a].0@,
            ) && self.as_map()[self.entries@[a].0@] == self.entries@[a].1@ by {
                assert(pv[a] == (self.entries@[a].0@, self.entries@[a].1@));
                lemma_pairs_to_map_value(pv, a);
            }
        }
        &self.entries
    }
}

/// What a host name resolves to under a mapping: its alias when the mapping
/// has one, else the host name itself.
pub open spec fn spec_resolved_host(h: Seq<char>, m: Map<Seq<char>, Seq<char>>) -> Seq<char> {
    if m.contains_key(h) {
        m[h]
    } else {
        h
    }
}

/// The resolution policy, applied to every incoming request alike: substitute
/// the configured alias for the host name when the table has one, and keep
/// the directory path as it is. Pure and total; a name that is itself some
/// entry's key is remapped even if the client already sent an alias.
pub fn resolve_host_name_to_local_configured_name(
    code_open_info: CodeOpenInfo,
    table: &NameTable,
) -> (r: CodeOpenInfo)
    requires
        table.wf(),
    ensures
        r.remote_host_name@ == spec_resolved_host(code_open_info.remote_host_name@, table.as_map()),
        r.remote_dir_full_path@ == code_open_info.remote_dir_full_path@,
{
    match table.get(&code_open_info.remote_host_name) {
        Some(alias) => CodeOpenInfo::new(alias.clone(), code_open_info.remote_dir_full_path),
        None => code_open_info,
    }
}

/// The resolution policy over the mapping itself: a mapped host name goes to
/// its alias, an unmapped one is kept, and the directory part of a request is
/// never touched.
pub proof fn lemma_resolution_policy(h: Seq<char>, m: Map<Seq<char>, Seq<char>>)
    ensures
        m.contains_key(h) ==> spec_resolved_host(h, m) == m[h],
        !m.contains_key(h) ==> spec_resolved_host(h, m) == h,
{
}

/// What loading makes of a file's contents: a parseable file gives its table
/// and needs nothing; a missing or malformed one gives the empty table and
/// asks for the empty table file to be written.
pub open spec fn spec_load_from_contents(contents: Option<Seq<u8>>) -> (
    Map<Seq<char>, Seq<char>>,
    bool,
) {
    match contents {
        Some(b) => match spec_parse_table(b) {
            Some(ps) => (pairs_to_map(ps), false),
            None => (Map::empty(), true),
        },
        None => (Map::empty(), true),
    }
}

/// Turns the table file's contents, or their absence, into the table to run
/// with and whether a fresh empty table file must be written.
pub fn table_from_file_contents(contents: Option<&Vec<u8>>) -> (r: (NameTable, bool))
    ensures
        r.0.wf(),
        contents matches Some(b) ==> (r.0.as_map(), r.1) == spec_load_from_contents(Some(b@)),
        contents is None ==> (r.0.as_map(), r.1) == spec_load_from_contents(None),
{
    match contents {
        Some(b) => match parse_table(b) {
            Some(ps) => (NameTable::from_pairs(&ps), false),
            None => (NameTable::new(), true),
        },
        None => (NameTable::new(), true),
    }
}

/// A malformed table file loads exactly as a missing one does: the empty
/// table, plus the demand to write a fresh empty file.
pub proof fn lemma_malformed_load_equals_missing(bytes: Seq<u8>)
    requires
        spec_parse_table(bytes) is None,
    ensures
        spec_load_from_contents(Some(bytes)) == spec_load_from_contents(None),
{
}

/// Initialization is idempotent: the empty object written for a missing or
/// malformed file loads back as the empty table, without asking for another
/// write.
pub proof fn lemma_load_after_init()
    ensures
        spec_load_from_contents(Some(seq![LBRACE, RBRACE])) == (
            Map::<Seq<char>, Seq<char>>::empty(),
            false,
        ),
{
    lemma_empty_table_parses();
}

/// The application's own directory under the given per-user configuration
/// directory: where the table file lives.
pub fn app_config_dir(config_dir: &str, separator: &str) -> (r: String)
    ensures
        r@ == config_dir@ + separator@ + "code-open-server"@,
{
    let mut out = config_dir.to_owned();
    out.append(separator);
    out.append("code-open-server");
    out
}

/// The table file's place: the application's directory under the given
/// per-user configuration directory, holding the table file.
pub fn table_file_path(config_dir: &str, separator: &str) -> (r: String)
    ensures
        r@ == config_dir@ + separator@ + "code-open-server"@ + separator@ + "table.json"@,
{
    let mut out = app_config_dir(config_dir, separator);
    out.append(separator);
    out.append("table.json");
    out
}

} // verus!
