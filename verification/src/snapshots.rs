//! Reads `diskutil apfs listSnapshots` output into a catalog of snapshot
//! UUIDs and names, so that deletions can be restricted to identifiers
//! the tool itself observed.

use vstd::prelude::*;
use crate::text::{
    contains_sub, first_in_class, has_prefix, is_hex_digit_char, lines_of, lower_seq,
    seq_contains, split_class, split_lines, split_on, starts_with, str_eq, to_ascii_lower, trim,
    trim_spec, trim_start, trim_start_spec, views_of, CharClass, split_once_char,
};

verus! {

/// A canonical UUID shape: five `-`-separated groups of hex digits with
/// lengths 8, 4, 4, 4 and 12.
pub open spec fn all_hex(t: Seq<char>) -> bool {
    forall|j: int| 0 <= j < t.len() ==> is_hex_digit_char(#[trigger] t[j])
}

pub open spec fn uuid_spec(s: Seq<char>) -> bool {
    let p = split_class(s, CharClass::Is('-'));
    &&& p.len() == 5
    &&& p[0].len() == 8
    &&& p[1].len() == 4
    &&& p[2].len() == 4
    &&& p[3].len() == 4
    &&& p[4].len() == 12
    &&& all_hex(p[0])
    &&& all_hex(p[1])
    &&& all_hex(p[2])
    &&& all_hex(p[3])
    &&& all_hex(p[4])
}

pub fn is_uuid(s: &str) -> (r: bool)
    ensures
        r == uuid_spec(s@),
{
    let parts = split_on(s, CharClass::Is('-'));
    let ghost pv = views_of(parts@);
    if parts.len() != 5 {
        return false;
    }
    proof {
        assert(pv[0] == parts@[0]@);
        assert(pv[1] == parts@[1]@);
        assert(pv[2] == parts@[2]@);
        assert(pv[3] == parts@[3]@);
        assert(pv[4] == parts@[4]@);
    }
    if parts[0].as_str().unicode_len() != 8 || parts[1].as_str().unicode_len() != 4
        || parts[2].as_str().unicode_len() != 4 || parts[3].as_str().unicode_len() != 4
        || parts[4].as_str().unicode_len() != 12 {
        proof {
            assert(!uuid_spec(s@));
        }
        return false;
    }
    let mut k: usize = 0;
    while k < 5
        invariant
            parts@.len() == 5,
            pv == views_of(parts@),
            pv == split_class(s@, CharClass::Is('-')),
            k <= 5,
            forall|j: int| 0 <= j < k ==> all_hex(#[trigger] pv[j]),
        decreases 5 - k,
    {
        proof {
            assert(pv[k as int] == parts@[k as int]@);
        }
        if !all_hex_exec(parts[k].as_str()) {
            return false;
        }
        k += 1;
    }
    true
}

fn all_hex_exec(s: &str) -> (r: bool)
    ensures
        r == all_hex(s@),
{
    let n = s.unicode_len();
    let mut i: usize = 0;
    while i < n
        invariant
            n == s@.len(),
            i <= n,
            forall|j: int| 0 <= j < i ==> is_hex_digit_char(#[trigger] s@[j]),
        decreases n - i,
    {
        if !crate::text::is_hex_digit(s.get_char(i)) {
            return false;
        }
        i += 1;
    }
    true
}

/// The first `-`-or-hex token of a line that is a full UUID.
pub open spec fn first_uuid_in(tokens: Seq<Seq<char>>) -> Option<Seq<char>>
    decreases tokens.len(),
{
    if tokens.len() == 0 {
        None
    } else if uuid_spec(tokens[0]) {
        Some(tokens[0])
    } else {
        first_uuid_in(tokens.drop_first())
    }
}

pub open spec fn first_uuid_of_line(l: Seq<char>) -> Option<Seq<char>> {
    first_uuid_in(split_class(l, CharClass::NotUuidChar))
}

proof fn lemma_first_uuid_skip(ts: Seq<Seq<char>>, i: int)
    requires
        0 <= i <= ts.len(),
        forall|j: int| 0 <= j < i ==> !uuid_spec(#[trigger] ts[j]),
    ensures
        first_uuid_in(ts) == first_uuid_in(ts.subrange(i, ts.len() as int)),
    decreases i,
{
    if i == 0 {
        assert(ts.subrange(0, ts.len() as int) =~= ts);
    } else {
        lemma_first_uuid_skip(ts.drop_first(), i - 1);
        assert(ts.drop_first().subrange(i - 1, ts.drop_first().len() as int) =~= ts.subrange(
            i,
            ts.len() as int,
        ));
    }
}

pub fn first_uuid_in_line(line: &str) -> (r: Option<String>)
    ensures
        match r {
            Some(u) => first_uuid_of_line(line@) == Some(u@),
            None => first_uuid_of_line(line@) is None,
        },
{
    let tokens = split_on(line, CharClass::NotUuidChar);
    let ghost tv = views_of(tokens@);
    let mut i: usize = 0;
    while i < tokens.len()
        invariant
            tv == views_of(tokens@),
            tv == split_class(line@, CharClass::NotUuidChar),
            i <= tokens@.len(),
            forall|j: int| 0 <= j < i ==> !uuid_spec(#[trigger] tv[j]),
        decreases tokens@.len() - i,
    {
        proof {
            assert(tv[i as int] == tokens@[i as int]@);
        }
        if is_uuid(tokens[i].as_str()) {
            proof {
                lemma_first_uuid_skip(tv, i as int);
                assert(tv.subrange(i as int, tv.len() as int)[0] == tv[i as int]);
            }
            return Some(tokens[i].clone());
        }
        i += 1;
    }
    proof {
        lemma_first_uuid_skip(tv, tv.len() as int);
    }
    None
}

/// The strings a vector holds, as a set of views.
pub open spec fn strset(v: Seq<String>) -> Set<Seq<char>> {
    Set::new(|x: Seq<char>| exists|j: int| 0 <= j < v.len() && (#[trigger] v[j])@ == x)
}

/// The name-to-uuid edges a map vector holds.
pub open spec fn map_pairs(m: Seq<(String, Vec<String>)>) -> Set<(Seq<char>, Seq<char>)> {
    Set::new(
        |p: (Seq<char>, Seq<char>)|
            exists|j: int|
                0 <= j < m.len() && (#[trigger] m[j]).0@ == p.0 && strset(m[j].1@).contains(p.1),
    )
}

/// Ghost state of the entry being accumulated.
pub struct EntryModel {
    pub tree: Option<Seq<char>>,
    pub name: Option<Seq<char>>,
    pub uuids: Set<Seq<char>>,
}

/// Ghost state of the whole catalog.
pub struct CatalogModel {
    pub uuids: Set<Seq<char>>,
    pub names: Set<Seq<char>>,
    pub pairs: Set<(Seq<char>, Seq<char>)>,
}

pub open spec fn opt_set(o: Option<Seq<char>>) -> Set<Seq<char>> {
    match o {
        Some(x) => Set::new(|y: Seq<char>| y == x),
        None => Set::empty(),
    }
}

pub open spec fn cross(a: Set<Seq<char>>, b: Set<Seq<char>>) -> Set<(Seq<char>, Seq<char>)> {
    Set::new(|p: (Seq<char>, Seq<char>)| a.contains(p.0) && b.contains(p.1))
}

/// Finishing an entry: its uuids join the catalog, its name and tree id
/// become known names, and each pairs with every uuid of the entry.
pub open spec fn flush_model(c: CatalogModel, e: EntryModel) -> CatalogModel {
    CatalogModel {
        uuids: c.uuids.union(e.uuids),
        names: c.names.union(opt_set(e.name)).union(opt_set(e.tree)),
        pairs: c.pairs.union(cross(opt_set(e.name), e.uuids)).union(
            cross(opt_set(e.tree), e.uuids),
        ),
    }
}

pub open spec fn empty_entry() -> EntryModel {
    EntryModel { tree: None, name: None, uuids: Set::empty() }
}

pub open spec fn empty_catalog() -> CatalogModel {
    CatalogModel { uuids: Set::empty(), names: Set::empty(), pairs: Set::empty() }
}

/// The tree text of a line: leading whitespace dropped, then an optional
/// `|` marker dropped with its own leading whitespace.
pub open spec fn line_body(l: Seq<char>) -> Seq<char> {
    let t0 = trim_start_spec(l);
    if t0.len() > 0 && t0[0] == '|' {
        trim_start_spec(t0.drop_first())
    } else {
        t0
    }
}

/// One line of output advances the accumulated entry and catalog: a
/// `+--` line flushes the entry and starts the next one from the tree
/// text, a `Name:` line records the name, and any line mentioning a UUID
/// contributes its first UUID, lowercased.
pub open spec fn line_step(e: EntryModel, c: CatalogModel, l: Seq<char>) -> (
    EntryModel,
    CatalogModel,
) {
    let t = line_body(l);
    if has_prefix(t, "+--"@) {
        let c2 = flush_model(c, e);
        let rest = trim_spec(t.subrange(3, t.len() as int));
        if uuid_spec(rest) {
            (
                EntryModel {
                    tree: None,
                    name: None,
                    uuids: Set::empty().insert(lower_seq(rest)),
                },
                c2,
            )
        } else if rest.len() > 0 {
            (EntryModel { tree: Some(rest), name: None, uuids: Set::empty() }, c2)
        } else {
            (empty_entry(), c2)
        }
    } else {
        let lower = lower_seq(t);
        if has_prefix(lower, "name:"@) {
            let i = first_in_class(t, CharClass::Is(':'));
            if i < 0 {
                (e, c)
            } else {
                let nm = trim_spec(t.subrange(i + 1, t.len() as int));
                if nm.len() > 0 {
                    (EntryModel { name: Some(nm), ..e }, c)
                } else {
                    (e, c)
                }
            }
        } else if seq_contains(lower, "uuid"@) {
            match first_uuid_of_line(t) {
                Some(u) => (EntryModel { uuids: e.uuids.insert(lower_seq(u)), ..e }, c),
                None => (e, c),
            }
        } else {
            (e, c)
        }
    }
}

/// The catalog a whole listing denotes.
pub open spec fn scan_lines(ls: Seq<Seq<char>>, e: EntryModel, c: CatalogModel) -> CatalogModel
    decreases ls.len(),
{
    if ls.len() == 0 {
        flush_model(c, e)
    } else {
        let step = line_step(e, c, ls[0]);
        scan_lines(ls.drop_first(), step.0, step.1)
    }
}

pub open spec fn catalog_model(s: Seq<char>) -> CatalogModel {
    scan_lines(split_lines(s), empty_entry(), empty_catalog())
}

/// What the tool knows about the volume's snapshots after one listing.
#[derive(Debug, Clone, PartialEq, Eq)]
pub struct ApfsSnapshotCatalog {
    pub uuids: Vec<String>,
    pub names: Vec<String>,
    pub name_to_uuids: Vec<(String, Vec<String>)>,
}

impl ApfsSnapshotCatalog {
    /// Keys are never repeated, so a name's uuid list is a single entry.
    pub open spec fn wf(self) -> bool {
        forall|j1: int, j2: int|
            0 <= j1 < j2 < self.name_to_uuids@.len() ==> (
            #[trigger] self.name_to_uuids@[j1]).0@ != (
            #[trigger] self.name_to_uuids@[j2]).0@
    }

    pub open spec fn model(self) -> CatalogModel {
        CatalogModel {
            uuids: strset(self.uuids@),
            names: strset(self.names@),
            pairs: map_pairs(self.name_to_uuids@),
        }
    }

    pub fn empty() -> (r: Self)
        ensures
            r.wf(),
            r.model().uuids =~= Set::<Seq<char>>::empty(),
            r.model().names =~= Set::<Seq<char>>::empty(),
            r.model().pairs =~= Set::<(Seq<char>, Seq<char>)>::empty(),
    {
        ApfsSnapshotCatalog { uuids: Vec::new(), names: Vec::new(), name_to_uuids: Vec::new() }
    }

    /// Whether a uuid is among the observed snapshot uuids.
    pub fn uuid_known(&self, uuid: &str) -> (r: bool)
        ensures
            r == self.model().uuids.contains(uuid@),
    {
        contains_str(&self.uuids, uuid)
    }

    /// Whether a name or tree id was observed.
    pub fn name_known(&self, name: &str) -> (r: bool)
        ensures
            r == self.model().names.contains(name@),
    {
        contains_str(&self.names, name)
    }

    /// The uuids recorded under a name, when the name has any.
    pub fn uuids_for(&self, name: &str) -> (r: Option<&Vec<String>>)
        requires
            self.wf(),
        ensures
            match r {
                Some(v) => forall|u: Seq<char>| #[trigger]
                    strset(v@).contains(u) <==> self.model().pairs.contains((name@, u)),
                None => forall|u: Seq<char>| !self.model().pairs.contains((name@, u)),
            },
    {
        let mut j: usize = 0;
        while j < self.name_to_uuids.len()
            invariant
                self.wf(),
                j <= self.name_to_uuids@.len(),
                forall|k: int| 0 <= k < j ==> (#[trigger] self.name_to_uuids@[k]).0@ != name@,
            decreases self.name_to_uuids@.len() - j,
        {
            if str_eq(self.name_to_uuids[j].0.as_str(), name) {
                proof {
                    let m = self.name_to_uuids@;
                    assert forall|u: Seq<char>| #[trigger]
                        strset(m[j as int].1@).contains(u) <==> map_pairs(m).contains(
                        (name@, u),
                    ) by {
                        if strset(m[j as int].1@).contains(u) {
                            assert(m[j as int].0@ == name@ && strset(m[j as int].1@).contains(
                                u,
                            ));
                        }
                        if map_pairs(m).contains((name@, u)) {
                            let k = choose|k: int|
                                0 <= k < m.len() && (#[trigger] m[k]).0@ == name@ && strset(
                                    m[k].1@,
                                ).contains(u);
                            assert(k == j as int);
                        }
                    }
                }
                return Some(&self.name_to_uuids[j].1);
            }
            j += 1;
        }
        proof {
            let m = self.name_to_uuids@;
            assert forall|u: Seq<char>| !map_pairs(m).contains((name@, u)) by {
                if map_pairs(m).contains((name@, u)) {
                    let k = choose|k: int|
                        0 <= k < m.len() && (#[trigger] m[k]).0@ == name@ && strset(
                            m[k].1@,
                        ).contains(u);
                }
            }
        }
        None
    }
}

fn contains_str(v: &Vec<String>, s: &str) -> (r: bool)
    ensures
        r == strset(v@).contains(s@),
{
    let mut i: usize = 0;
    while i < v.len()
        invariant
            i <= v@.len(),
            forall|j: int| 0 <= j < i ==> (#[trigger] v@[j])@ != s@,
        decreases v@.len() - i,
    {
        if str_eq(v[i].as_str(), s) {
            proof {
                assert(strset(v@).contains(s@)) by {
                    assert(v@[i as int]@ == s@);
                }
            }
            return true;
        }
        i += 1;
    }
    proof {
        if strset(v@).contains(s@) {
            let j = choose|j: int| 0 <= j < v@.len() && (#[trigger] v@[j])@ == s@;
        }
    }
    false
}

/// Adds a string to a set-like vector: the set of views grows by the
/// string, and nothing else changes.
fn add_str(v: &mut Vec<String>, s: String)
    ensures
        strset(final(v)@) == strset(old(v)@).insert(s@),
{
    if contains_str(v, s.as_str()) {
        proof {
            assert(strset(v@) =~= strset(v@).insert(s@));
        }
    } else {
        let ghost pre = v@;
        v.push(s);
        proof {
            assert forall|x: Seq<char>| strset(v@).contains(x) <==> strset(pre).insert(
                s@,
            ).contains(x) by {
                if strset(v@).contains(x) {
                    let j = choose|j: int| 0 <= j < v@.len() && (#[trigger] v@[j])@ == x;
                    if j < pre.len() {
                        assert(pre[j]@ == x);
                    }
                }
                if strset(pre).contains(x) {
                    let j = choose|j: int| 0 <= j < pre.len() && (#[trigger] pre[j])@ == x;
                    assert(v@[j]@ == x);
                }
                if x == s@ {
                    assert(v@[v@.len() - 1]@ == x);
                }
            }
            assert(strset(v@) =~= strset(pre).insert(s@));
        }
    }
}

/// Merges an entry's uuids into the list kept under `name`, creating the
/// key if it is new; key uniqueness is preserved and exactly the edges
/// `name × uuids` are added.
fn map_merge(map: &mut Vec<(String, Vec<String>)>, name: &str, uuids: &Vec<String>)
    requires
        forall|j1: int, j2: int| 0 <= j1 < j2 < old(map)@.len() ==> (
        #[trigger] old(map)@[j1]).0@ != (#[trigger] old(map)@[j2]).0@,
    ensures
        map_pairs(final(map)@) == map_pairs(old(map)@).union(
            cross(opt_set(Some(name@)), strset(uuids@)),
        ),
        forall|j1: int, j2: int| 0 <= j1 < j2 < final(map)@.len() ==> (
        #[trigger] final(map)@[j1]).0@ != (#[trigger] final(map)@[j2]).0@,
{
    let ghost m0 = map@;
    let mut j: usize = 0;
    let mut merged: Vec<String>;
    loop
        invariant_except_break
            m0 == map@,
            j <= map@.len(),
            forall|k: int| 0 <= k < j ==> (#[trigger] map@[k]).0@ != name@,
            forall|k1: int, k2: int| 0 <= k1 < k2 < map@.len() ==> (#[trigger] map@[k1]).0@ != (
            #[trigger] map@[k2]).0@,
        ensures
            strset(merged@) == (if exists|k: int|
                0 <= k < m0.len() && (#[trigger] m0[k]).0@ == name@ {
                strset(m0[choose|k: int| 0 <= k < m0.len() && (#[trigger] m0[k]).0@ == name@].1@)
            } else {
                Set::<Seq<char>>::empty()
            }),
            map_pairs(map@) == map_pairs(m0).difference(
                cross(opt_set(Some(name@)), Set::new(|x: Seq<char>| true)),
            ),
            forall|k1: int, k2: int| 0 <= k1 < k2 < map@.len() ==> (#[trigger] map@[k1]).0@ != (
            #[trigger] map@[k2]).0@,
            forall|k: int| 0 <= k < map@.len() ==> (#[trigger] map@[k]).0@ != name@,
        decreases map@.len() - j,
    {
        if j >= map.len() {
            merged = Vec::new();
            proof {
                assert(strset(merged@) =~= Set::<Seq<char>>::empty());
                assert(map_pairs(map@) =~= map_pairs(m0).difference(
                    cross(opt_set(Some(name@)), Set::new(|x: Seq<char>| true)),
                )) by {
                    assert forall|p: (Seq<char>, Seq<char>)| map_pairs(map@).contains(p)
                        <==> map_pairs(m0).contains(p) && p.0 != name@ by {
                        if map_pairs(map@).contains(p) {
                            let k = choose|k: int|
                                0 <= k < map@.len() && (#[trigger] map@[k]).0@ == p.0 && strset(
                                    map@[k].1@,
                                ).contains(p.1);
                        }
                        if map_pairs(m0).contains(p) && p.0 != name@ {
                            let k = choose|k: int|
                                0 <= k < m0.len() && (#[trigger] m0[k]).0@ == p.0 && strset(
                                    m0[k].1@,
                                ).contains(p.1);
                        }
                    }
                }
            }
            break ;
        }
        if str_eq(map[j].0.as_str(), name) {
            let entry = map.remove(j);
            merged = entry.1;
            proof {
                assert(m0[j as int].0@ == name@);
                assert(strset(merged@) == strset(m0[j as int].1@));
                assert(exists|k: int| 0 <= k < m0.len() && (#[trigger] m0[k]).0@ == name@);
                let kw = choose|k: int| 0 <= k < m0.len() && (#[trigger] m0[k]).0@ == name@;
                assert(kw == j as int);
                assert forall|k1: int, k2: int| 0 <= k1 < k2 < map@.len() implies (
                #[trigger] map@[k1]).0@ != (#[trigger] map@[k2]).0@ by {
                    let a1 = if k1 < j as int {
                        k1
                    } else {
                        k1 + 1
                    };
                    let a2 = if k2 < j as int {
                        k2
                    } else {
                        k2 + 1
                    };
                    assert(map@[k1] == m0[a1] && map@[k2] == m0[a2]);
                }
                assert forall|k: int| 0 <= k < map@.len() implies (#[trigger] map@[k]).0@
                    != name@ by {
                    let a = if k < j as int {
                        k
                    } else {
                        k + 1
                    };
                    assert(map@[k] == m0[a]);
                }
                assert(map_pairs(map@) =~= map_pairs(m0).difference(
                    cross(opt_set(Some(name@)), Set::new(|x: Seq<char>| true)),
                )) by {
                    assert forall|p: (Seq<char>, Seq<char>)| map_pairs(map@).contains(p)
                        <==> map_pairs(m0).contains(p) && p.0 != name@ by {
                        if map_pairs(map@).contains(p) {
                            let k = choose|k: int|
                                0 <= k < map@.len() && (#[trigger] map@[k]).0@ == p.0 && strset(
                                    map@[k].1@,
                                ).contains(p.1);
                            let a = if k < j as int {
                                k
                            } else {
                                k + 1
                            };
                            assert(map@[k] == m0[a]);
                        }
                        if map_pairs(m0).contains(p) && p.0 != name@ {
                            let k = choose|k: int|
                                0 <= k < m0.len() && (#[trigger] m0[k]).0@ == p.0 && strset(
                                    m0[k].1@,
                                ).contains(p.1);
                            if k < j as int {
                                assert(map@[k] == m0[k]);
                            } else {
                                assert(map@[k - 1] == m0[k]);
                            }
                        }
                    }
                }
            }
            break ;
        }
        j += 1;
    }
    let mut i: usize = 0;
    let ghost merged0 = strset(merged@);
    while i < uuids.len()
        invariant
            i <= uuids@.len(),
            strset(merged@) == merged0.union(
                strset(uuids@).intersect(
                    Set::new(
                        |x: Seq<char>|
                            exists|k: int|
                                0 <= k < i && (#[trigger] uuids@[k])@ == x,
                    ),
                ),
            ),
        decreases uuids@.len() - i,
    {
        let ghost before = strset(merged@);
        add_str(&mut merged, uuids[i].clone());
        proof {
            assert(strset(merged@) =~= merged0.union(
                strset(uuids@).intersect(
                    Set::new(
                        |x: Seq<char>|
                            exists|k: int|
                                0 <= k < i + 1 && (#[trigger] uuids@[k])@ == x,
                    ),
                ),
            )) by {
                assert(strset(uuids@).contains(uuids@[i as int]@)) by {
                    assert(uuids@[i as int]@ == uuids@[i as int]@);
                }
            }
        }
        i += 1;
    }
    proof {
        assert(strset(merged@) =~= merged0.union(strset(uuids@))) by {
            assert forall|x: Seq<char>| strset(uuids@).intersect(
                Set::new(
                    |y: Seq<char>|
                        exists|k: int|
                            0 <= k < uuids@.len() && (#[trigger] uuids@[k])@ == y,
                ),
            ).contains(x) <==> strset(uuids@).contains(x) by {}
        }
    }
    let ghost map1 = map@;
    map.push((name.to_owned(), merged));
    proof {
        assert forall|k1: int, k2: int| 0 <= k1 < k2 < map@.len() implies (
        #[trigger] map@[k1]).0@ != (#[trigger] map@[k2]).0@ by {
            if k2 < map@.len() - 1 {
                assert(map@[k1] == map1[k1] && map@[k2] == map1[k2]);
            } else {
                assert(map@[k1] == map1[k1]);
                assert(map@[k2].0@ == name@);
            }
        }
        let ghost target = map_pairs(m0).union(cross(opt_set(Some(name@)), strset(uuids@)));
        assert forall|p: (Seq<char>, Seq<char>)| map_pairs(map@).contains(p) == target.contains(
            p,
        ) by {
            assert(target.contains(p) <==> (map_pairs(m0).contains(p) || (p.0 == name@
                && strset(uuids@).contains(p.1))));
            assert(map_pairs(map@).contains(p) <==> (map_pairs(m0).contains(p) || (p.0 == name@
                && strset(uuids@).contains(p.1)))) by {
                if map_pairs(map@).contains(p) {
                    let k = choose|k: int|
                        0 <= k < map@.len() && (#[trigger] map@[k]).0@ == p.0 && strset(
                            map@[k].1@,
                        ).contains(p.1);
                    if k < map@.len() - 1 {
                        assert(map@[k] == map1[k]);
                        assert(map_pairs(map1).contains(p));
                    } else {
                        assert(p.0 == name@);
                        assert(strset(map@[k].1@).contains(p.1));
                        if !strset(uuids@).contains(p.1) {
                            assert(merged0.contains(p.1));
                            if exists|kk: int| 0 <= kk < m0.len() && (#[trigger] m0[kk]).0@
                                == name@ {
                                let kk = choose|kk: int|
                                    0 <= kk < m0.len() && (#[trigger] m0[kk]).0@ == name@;
                                assert(strset(m0[kk].1@).contains(p.1));
                                assert(map_pairs(m0).contains(p));
                            }
                        }
                    }
                }
                if map_pairs(m0).contains(p) {
                    if p.0 != name@ {
                        assert(map_pairs(map1).contains(p));
                        let k = choose|k: int|
                            0 <= k < map1.len() && (#[trigger] map1[k]).0@ == p.0 && strset(
                                map1[k].1@,
                            ).contains(p.1);
                        assert(map@[k] == map1[k]);
                    } else {
                        let k = choose|k: int|
                            0 <= k < m0.len() && (#[trigger] m0[k]).0@ == p.0 && strset(
                                m0[k].1@,
                            ).contains(p.1);
                        let kw = choose|kk: int|
                            0 <= kk < m0.len() && (#[trigger] m0[kk]).0@ == name@;
                        assert(kw == k);
                        assert(merged0.contains(p.1));
                        assert(strset(map@[map@.len() - 1].1@).contains(p.1));
                        assert(map@[map@.len() - 1].0@ == name@);
                    }
                }
                if p.0 == name@ && strset(uuids@).contains(p.1) {
                    assert(strset(map@[map@.len() - 1].1@).contains(p.1));
                    assert(map@[map@.len() - 1].0@ == name@);
                }
            }
        }
        assert(map_pairs(map@) =~= target);
    }
}

pub open spec fn opt_view(o: Option<String>) -> Option<Seq<char>> {
    match o {
        Some(s) => Some(s@),
        None => None,
    }
}

/// Folds one finished entry into the catalog, exactly as [`flush_model`]
/// says.
fn flush_exec(
    cat: &mut ApfsSnapshotCatalog,
    tree: &Option<String>,
    name: &Option<String>,
    uuids: &Vec<String>,
)
    requires
        old(cat).wf(),
    ensures
        final(cat).wf(),
        final(cat).model() == flush_model(
            old(cat).model(),
            EntryModel { tree: opt_view(*tree), name: opt_view(*name), uuids: strset(uuids@) },
        ),
{
    let ghost c0 = cat.model();
    let ghost eset = strset(uuids@);
    let mut i: usize = 0;
    while i < uuids.len()
        invariant
            i <= uuids@.len(),
            strset(cat.uuids@) == c0.uuids.union(
                eset.intersect(
                    Set::new(
                        |x: Seq<char>|
                            exists|k: int|
                                0 <= k < i && (#[trigger] uuids@[k])@ == x,
                    ),
                ),
            ),
            eset == strset(uuids@),
            cat.names@ == old(cat).names@,
            cat.name_to_uuids@ == old(cat).name_to_uuids@,
            old(cat).wf(),
            c0 == old(cat).model(),
        decreases uuids@.len() - i,
    {
        add_str(&mut cat.uuids, uuids[i].clone());
        proof {
            assert(strset(cat.uuids@) =~= c0.uuids.union(
                eset.intersect(
                    Set::new(
                        |x: Seq<char>|
                            exists|k: int|
                                0 <= k < i + 1 && (#[trigger] uuids@[k])@ == x,
                    ),
                ),
            )) by {
                assert(eset.contains(uuids@[i as int]@)) by {
                    assert(uuids@[i as int]@ == uuids@[i as int]@);
                }
            }
        }
        i += 1;
    }
    proof {
        assert(strset(cat.uuids@) =~= c0.uuids.union(eset)) by {
            assert forall|x: Seq<char>|
                eset.intersect(
                    Set::new(
                        |y: Seq<char>|
                            exists|k: int|
                                0 <= k < uuids@.len() && (#[trigger] uuids@[k])@ == y,
                    ),
                ).contains(x) <==> eset.contains(x) by {}
        }
    }
    match name {
        Some(n) => {
            add_str(&mut cat.names, n.clone());
            if uuids.len() > 0 {
                map_merge(&mut cat.name_to_uuids, n.as_str(), uuids);
            } else {
                proof {
                    assert(strset(uuids@) =~= Set::<Seq<char>>::empty());
                }
            }
        },
        None => {},
    }
    match tree {
        Some(t) => {
            add_str(&mut cat.names, t.clone());
            if uuids.len() > 0 {
                map_merge(&mut cat.name_to_uuids, t.as_str(), uuids);
            }
        },
        None => {},
    }
    proof {
        let e = EntryModel {
            tree: opt_view(*tree),
            name: opt_view(*name),
            uuids: strset(uuids@),
        };
        let want = flush_model(c0, e);
        assert(strset(cat.uuids@) =~= want.uuids);
        assert(strset(cat.names@) =~= want.names) by {
            match name {
                Some(n) => {
                    assert(opt_set(e.name) =~= Set::<Seq<char>>::empty().insert(n@));
                },
                None => {
                    assert(opt_set(e.name) =~= Set::<Seq<char>>::empty());
                },
            }
            match tree {
                Some(t) => {
                    assert(opt_set(e.tree) =~= Set::<Seq<char>>::empty().insert(t@));
                },
                None => {
                    assert(opt_set(e.tree) =~= Set::<Seq<char>>::empty());
                },
            }
        }
        assert(map_pairs(cat.name_to_uuids@) =~= want.pairs) by {
            if uuids@.len() == 0 {
                assert(strset(uuids@) =~= Set::<Seq<char>>::empty()) by {
                    assert forall|x: Seq<char>| !strset(uuids@).contains(x) by {
                        if strset(uuids@).contains(x) {
                            let j = choose|j: int|
                                0 <= j < uuids@.len() && (#[trigger] uuids@[j])@ == x;
                        }
                    }
                }
                assert(cross(opt_set(e.name), e.uuids) =~= Set::<(Seq<char>, Seq<char>)>::empty());
                assert(cross(opt_set(e.tree), e.uuids) =~= Set::<(Seq<char>, Seq<char>)>::empty());
            } else {
                match name {
                    Some(n) => {
                        assert(cross(opt_set(Some(n@)), strset(uuids@)) =~= cross(
                            opt_set(e.name),
                            e.uuids,
                        ));
                    },
                    None => {
                        assert(cross(opt_set(e.name), e.uuids)
                            =~= Set::<(Seq<char>, Seq<char>)>::empty());
                    },
                }
                match tree {
                    Some(t) => {
                        assert(cross(opt_set(Some(t@)), strset(uuids@)) =~= cross(
                            opt_set(e.tree),
                            e.uuids,
                        ));
                    },
                    None => {
                        assert(cross(opt_set(e.tree), e.uuids)
                            =~= Set::<(Seq<char>, Seq<char>)>::empty());
                    },
                }
            }
        }
    }
}

/// Parses a whole `diskutil apfs listSnapshots` run into the catalog its
/// lines denote, exactly as [`catalog_model`] says.
pub fn parse_diskutil_apfs_list_snapshots(stdout: &str) -> (r: ApfsSnapshotCatalog)
    ensures
        r.wf(),
        r.model().uuids == catalog_model(stdout@).uuids,
        r.model().names == catalog_model(stdout@).names,
        r.model().pairs == catalog_model(stdout@).pairs,
{
    let ls = lines_of(stdout);
    let ghost lv = split_lines(stdout@);
    let mut cat = ApfsSnapshotCatalog::empty();
    let mut cur_tree: Option<String> = None;
    let mut cur_name: Option<String> = None;
    let mut cur_uuids: Vec<String> = Vec::new();
    let mut i: usize = 0;
    proof {
        assert(lv.subrange(0, lv.len() as int) =~= lv);
        assert(cat.model().uuids =~= empty_catalog().uuids);
        assert(cat.model().names =~= empty_catalog().names);
        assert(cat.model().pairs =~= empty_catalog().pairs);
        assert(strset(cur_uuids@) =~= Set::<Seq<char>>::empty());
        assert(cat.model() == empty_catalog());
    }
    while i < ls.len()
        invariant
            views_of(ls@) == lv,
            lv == split_lines(stdout@),
            i <= ls@.len(),
            cat.wf(),
            catalog_model(stdout@) == scan_lines(
                lv.subrange(i as int, lv.len() as int),
                EntryModel {
                    tree: opt_view(cur_tree),
                    name: opt_view(cur_name),
                    uuids: strset(cur_uuids@),
                },
                cat.model(),
            ),
        decreases ls@.len() - i,
    {
        proof {
            assert(lv[i as int] == ls@[i as int]@);
            assert(lv.subrange(i as int, lv.len() as int)[0] == lv[i as int]);
            assert(lv.subrange(i as int, lv.len() as int).drop_first() =~= lv.subrange(
                i + 1,
                lv.len() as int,
            ));
        }
        let ghost e_old = EntryModel {
            tree: opt_view(cur_tree),
            name: opt_view(cur_name),
            uuids: strset(cur_uuids@),
        };
        let ghost c_old = cat.model();
        let line = ls[i].as_str();
        let t0 = trim_start(line);
        let t = if t0.unicode_len() > 0 && t0.get_char(0) == '|' {
            let tail = t0.substring_char(1, t0.unicode_len());
            proof {
                assert(tail@ =~= t0@.drop_first());
            }
            trim_start(tail)
        } else {
            t0
        };
        proof {
            assert(t@ == line_body(lv[i as int]));
        }
        if starts_with(t, "+--") {
            flush_exec(&mut cat, &cur_tree, &cur_name, &cur_uuids);
            cur_tree = None;
            cur_name = None;
            cur_uuids = Vec::new();
            let tn = t.unicode_len();
            proof {
                reveal_strlit("+--");
            }
            let rest = trim(t.substring_char(3, tn));
            if is_uuid(rest) {
                let lowered = to_ascii_lower(rest);
                add_str(&mut cur_uuids, lowered);
                proof {
                    assert(strset(cur_uuids@) =~= Set::<Seq<char>>::empty().insert(
                        lower_seq(trim_spec(t@.subrange(3, t@.len() as int))),
                    ));
                }
            } else if rest.unicode_len() > 0 {
                cur_tree = Some(rest.to_owned());
            }
            proof {
                assert(strset(Seq::<String>::empty()) =~= Set::<Seq<char>>::empty());
            }
        } else {
            let lower = to_ascii_lower(t);
            if starts_with(lower.as_str(), "name:") {
                match split_once_char(t, ':') {
                    Some(pair) => {
                        let after = pair.1;
                        let nm = trim(after.as_str());
                        if nm.unicode_len() > 0 {
                            cur_name = Some(nm.to_owned());
                        }
                    },
                    None => {},
                }
            } else if contains_sub(lower.as_str(), "uuid") {
                match first_uuid_in_line(t) {
                    Some(u) => {
                        let lowered = to_ascii_lower(u.as_str());
                        add_str(&mut cur_uuids, lowered);
                    },
                    None => {},
                }
            }
        }
        proof {
            let e_new = EntryModel {
                tree: opt_view(cur_tree),
                name: opt_view(cur_name),
                uuids: strset(cur_uuids@),
            };
            assert(line_step(e_old, c_old, lv[i as int]) == (e_new, cat.model()));
        }
        i += 1;
    }
    proof {
        assert(lv.subrange(lv.len() as int, lv.len() as int) =~= Seq::<Seq<char>>::empty());
    }
    flush_exec(&mut cat, &cur_tree, &cur_name, &cur_uuids);
    cat
}

/// All snapshot uuids a listing names, as the catalog records them.
pub fn extract_diskutil_snapshot_uuids(stdout: &str) -> (r: Vec<String>)
    ensures
        strset(r@) == catalog_model(stdout@).uuids,
{
    let cat = parse_diskutil_apfs_list_snapshots(stdout);
    let ApfsSnapshotCatalog { uuids, names, name_to_uuids } = cat;
    uuids
}

} // verus!
