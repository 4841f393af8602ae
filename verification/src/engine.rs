//! The engine's configuration, the scan roots each scope maps to, and the
//! arithmetic behind the "unobserved bytes" lower-bound estimate.

use vstd::prelude::*;
use crate::evidence::{Evidence, EvidenceKind};
use crate::text::{
    dec_value, find_sub, first_match, lemma_first_match_is, lemma_first_match_none,
    parse_u64, views_of,
};
use crate::rules::{leading_digits, take_leading_digits};
use crate::trash::{path_join, path_join_exec};

verus! {

#[derive(Debug, Clone, Copy, PartialEq, Eq, Structural)]
pub struct EngineOptions {
    pub timeout_ms: u64,
    pub privacy_mask_home: bool,
    pub include_evidence: bool,
    pub show_progress: bool,
}

/// The engine: options plus the home directory the shell resolved.
#[derive(Debug, Clone, PartialEq, Eq)]
pub struct Engine {
    pub opts: EngineOptions,
    pub home_dir: String,
}

#[derive(Debug, Clone, PartialEq, Eq)]
pub struct ScanRequest {
    pub scope: Option<String>,
    pub deep: bool,
    pub max_depth: usize,
    pub top_dirs: usize,
    pub exclude: Vec<String>,
    pub show_progress: bool,
}

/// The directories one scan scope covers.
pub open spec fn scan_roots_spec(scope: Seq<char>, home: Seq<char>) -> Seq<Seq<char>> {
    if scope == "dev"@ {
        seq![
            path_join(home, "Library/Developer"@),
            path_join(home, "Library/Caches/Homebrew"@),
            path_join(home, ".cargo"@),
            path_join(home, ".gradle"@),
            path_join(home, ".npm"@),
            path_join(home, ".pnpm-store"@),
            path_join(home, "Library/pnpm/store"@),
        ]
    } else if scope == "userlib"@ {
        seq![path_join(home, "Library"@)]
    } else if scope == "all-readable"@ {
        seq![home]
    } else if scope.len() > 0 && scope[0] == '/' {
        seq![scope]
    } else {
        seq![path_join(home, scope)]
    }
}

impl Engine {
    pub fn new(opts: EngineOptions, home_dir: String) -> (r: Self)
        ensures
            r.opts == opts,
            r.home_dir@ == home_dir@,
    {
        Engine { opts, home_dir }
    }

    pub open spec fn options(self) -> EngineOptions {
        self.opts
    }

    pub open spec fn home(self) -> Seq<char> {
        self.home_dir@
    }

    pub fn timeout(&self) -> (r: u64)
        ensures
            r == self.options().timeout_ms,
    {
        self.opts.timeout_ms
    }

    pub fn home_dir(&self) -> (r: &str)
        ensures
            r@ == self.home(),
    {
        self.home_dir.as_str()
    }

    /// The roots a scope selects: the named directory set for `dev`,
    /// `userlib` and `all-readable`, else the scope itself as a path,
    /// made absolute under the home directory when it is relative.
    pub fn resolve_scan_roots(&self, scope: Option<&str>) -> (r: Vec<String>)
        ensures
            views_of(r@) == (match scope {
                Some(s) => scan_roots_spec(crate::text::trim_spec(s@), self.home()),
                None => scan_roots_spec("dev"@, self.home()),
            }),
    {
        let s: &str = match scope {
            Some(s) => s,
            None => "dev",
        };
        let t = crate::text::trim(s);
        proof {
            match scope {
                Some(_) => {},
                None => {
                    reveal_strlit("dev");
                    crate::text::lemma_leading_spaces_is("dev"@, 0);
                    crate::text::lemma_trailing_spaces_is("dev"@, 0);
                    assert("dev"@.subrange(0, 3) =~= "dev"@);
                },
            }
        }
        let mut v: Vec<String> = Vec::new();
        if crate::text::str_eq(t, "dev") {
            v.push(path_join_exec(self.home_dir.as_str(), "Library/Developer"));
            v.push(path_join_exec(self.home_dir.as_str(), "Library/Caches/Homebrew"));
            v.push(path_join_exec(self.home_dir.as_str(), ".cargo"));
            v.push(path_join_exec(self.home_dir.as_str(), ".gradle"));
            v.push(path_join_exec(self.home_dir.as_str(), ".npm"));
            v.push(path_join_exec(self.home_dir.as_str(), ".pnpm-store"));
            v.push(path_join_exec(self.home_dir.as_str(), "Library/pnpm/store"));
            proof {
                assert(views_of(v@) =~= scan_roots_spec(t@, self.home()));
            }
        } else if crate::text::str_eq(t, "userlib") {
            v.push(path_join_exec(self.home_dir.as_str(), "Library"));
            proof {
                assert(views_of(v@) =~= scan_roots_spec(t@, self.home()));
            }
        } else if crate::text::str_eq(t, "all-readable") {
            v.push(self.home_dir.clone());
            proof {
                assert(views_of(v@) =~= scan_roots_spec(t@, self.home()));
            }
        } else if t.unicode_len() > 0 && t.get_char(0) == '/' {
            v.push(t.to_owned());
            proof {
                reveal_strlit("dev");
                reveal_strlit("userlib");
                reveal_strlit("all-readable");
                assert(views_of(v@) =~= scan_roots_spec(t@, self.home()));
            }
        } else {
            v.push(path_join_exec(self.home_dir.as_str(), t));
            proof {
                reveal_strlit("dev");
                reveal_strlit("userlib");
                reveal_strlit("all-readable");
                assert(views_of(v@) =~= scan_roots_spec(t@, self.home()));
            }
        }
        v
    }
}

/// The number after `key` in a stat line such as `files=12 errors=3`:
/// the digits right after the first occurrence of the key, when they
/// form a number that fits.
pub open spec fn keyed_count(s: Seq<char>, key: Seq<char>) -> Option<nat> {
    let i = first_match(s, key);
    if i < 0 {
        None
    } else {
        let d = leading_digits(s.subrange(i + key.len(), s.len() as int));
        if d.len() == 0 {
            None
        } else if dec_value(d) > u64::MAX {
            None
        } else {
            Some(dec_value(d))
        }
    }
}

fn parse_keyed_count(s: &str, key: &str) -> (r: Option<u64>)
    ensures
        match r {
            Some(v) => keyed_count(s@, key@) == Some(v as nat),
            None => keyed_count(s@, key@) is None,
        },
{
    match find_sub(s, key) {
        Some(i) => {
            proof {
                lemma_first_match_is(s@, key@, i as int);
            }
            let n = s.unicode_len();
            let kn = key.unicode_len();
            let after = s.substring_char(i + kn, n);
            proof {
                assert(after@ =~= s@.subrange(i + key@.len(), s@.len() as int));
            }
            let digits = take_leading_digits(after);
            if digits.as_str().unicode_len() == 0 {
                return None;
            }
            let v = parse_u64(digits.as_str());
            proof {
                crate::rules::lemma_leading_digits_all(after@);
            }
            v
        },
        None => {
            proof {
                lemma_first_match_none(s@, key@);
            }
            None
        },
    }
}

pub fn parse_errors_count(s: &str) -> (r: Option<u64>)
    ensures
        match r {
            Some(v) => keyed_count(s@, "errors="@) == Some(v as nat),
            None => keyed_count(s@, "errors="@) is None,
        },
{
    parse_keyed_count(s, "errors=")
}

pub fn parse_files_count(s: &str) -> (r: Option<u64>)
    ensures
        match r {
            Some(v) => keyed_count(s@, "files="@) == Some(v as nat),
            None => keyed_count(s@, "files="@) is None,
        },
{
    parse_keyed_count(s, "files=")
}

/// Both counts at once, when both are present.
pub fn parse_files_errors(s: &str) -> (r: Option<(u64, u64)>)
    ensures
        match r {
            Some(p) => keyed_count(s@, "files="@) == Some(p.0 as nat) && keyed_count(
                s@,
                "errors="@,
            ) == Some(p.1 as nat),
            None => keyed_count(s@, "files="@) is None || keyed_count(s@, "errors="@) is None,
        },
{
    match parse_files_count(s) {
        Some(f) => match parse_errors_count(s) {
            Some(e) => Some((f, e)),
            None => None,
        },
        None => None,
    }
}

pub open spec fn sat_add(a: nat, b: nat) -> nat {
    if a + b > u64::MAX {
        u64::MAX as nat
    } else {
        a + b
    }
}

pub open spec fn sat_mul(a: nat, b: nat) -> nat {
    if a * b > u64::MAX {
        u64::MAX as nat
    } else {
        a * b
    }
}

fn sat_add_exec(a: u64, b: u64) -> (r: u64)
    ensures
        r as nat == sat_add(a as nat, b as nat),
{
    if a > u64::MAX - b {
        u64::MAX
    } else {
        a + b
    }
}

/// The error count a stat evidence line contributes, zero for anything
/// else.
pub open spec fn evidence_errors(e: Evidence) -> nat {
    if e.kind == EvidenceKind::Stat {
        match keyed_count(e.value@, "errors="@) {
            Some(n) => n,
            None => 0,
        }
    } else {
        0
    }
}

pub open spec fn sum_evidence_errors(es: Seq<Evidence>) -> nat
    decreases es.len(),
{
    if es.len() == 0 {
        0
    } else {
        sat_add(sum_evidence_errors(es.drop_last()), evidence_errors(es[es.len() - 1]))
    }
}

pub open spec fn note_errors(s: Seq<char>) -> nat {
    match keyed_count(s, "errors="@) {
        Some(n) => n,
        None => 0,
    }
}

pub open spec fn sum_note_errors(from: nat, ns: Seq<Seq<char>>) -> nat
    decreases ns.len(),
{
    if ns.len() == 0 {
        from
    } else {
        sat_add(sum_note_errors(from, ns.drop_last()), note_errors(ns[ns.len() - 1]))
    }
}

/// Total scan errors reported by stat evidence and notes, saturating.
pub fn collect_unobserved_errors(evidence: &Vec<Evidence>, notes: &Vec<String>) -> (r: u64)
    ensures
        r as nat == sum_note_errors(sum_evidence_errors(evidence@), views_of(notes@)),
{
    let mut total: u64 = 0;
    let mut i: usize = 0;
    proof {
        assert(evidence@.subrange(0, 0) =~= Seq::<Evidence>::empty());
    }
    while i < evidence.len()
        invariant
            i <= evidence@.len(),
            total as nat == sum_evidence_errors(evidence@.subrange(0, i as int)),
        decreases evidence@.len() - i,
    {
        let e = &evidence[i];
        let add = if matches!(e.kind, EvidenceKind::Stat) {
            match parse_errors_count(e.value.as_str()) {
                Some(n) => n,
                None => 0,
            }
        } else {
            0
        };
        proof {
            assert(add as nat == evidence_errors(evidence@[i as int]));
            assert(evidence@.subrange(0, i + 1).drop_last() =~= evidence@.subrange(0, i as int));
            assert(evidence@.subrange(0, i + 1)[i as int] == evidence@[i as int]);
        }
        total = sat_add_exec(total, add);
        i += 1;
    }
    proof {
        assert(evidence@.subrange(0, evidence@.len() as int) =~= evidence@);
    }
    let ghost base = sum_evidence_errors(evidence@);
    let mut j: usize = 0;
    proof {
        assert(views_of(notes@).subrange(0, 0) =~= Seq::<Seq<char>>::empty());
    }
    while j < notes.len()
        invariant
            j <= notes@.len(),
            total as nat == sum_note_errors(base, views_of(notes@).subrange(0, j as int)),
            base == sum_evidence_errors(evidence@),
        decreases notes@.len() - j,
    {
        let add = match parse_errors_count(notes[j].as_str()) {
            Some(n) => n,
            None => 0,
        };
        proof {
            assert(views_of(notes@)[j as int] == notes@[j as int]@);
            assert(add as nat == note_errors(views_of(notes@)[j as int]));
            assert(views_of(notes@).subrange(0, j + 1).drop_last() =~= views_of(
                notes@,
            ).subrange(0, j as int));
            assert(views_of(notes@).subrange(0, j + 1)[j as int] == views_of(notes@)[j as int]);
        }
        total = sat_add_exec(total, add);
        j += 1;
    }
    proof {
        assert(views_of(notes@).subrange(0, notes@.len() as int) =~= views_of(notes@));
    }
    total
}

/// What one finding's stat evidence adds to the unobserved-bytes
/// estimate: the finding's average file size times its error count,
/// saturating, for each line that reports both counts.
pub open spec fn evidence_unobserved(bytes: u64, e: Evidence) -> nat {
    if e.kind != EvidenceKind::Stat {
        0
    } else {
        match (keyed_count(e.value@, "files="@), keyed_count(e.value@, "errors="@)) {
            (Some(f), Some(er)) => {
                if f == 0 || er == 0 {
                    0
                } else {
                    sat_mul(sat_add(bytes as nat, (f - 1) as nat) / f, er)
                }
            },
            _ => 0,
        }
    }
}

pub open spec fn sum_finding_unobserved(bytes: u64, es: Seq<Evidence>) -> nat
    decreases es.len(),
{
    if bytes == 0 {
        0
    } else if es.len() == 0 {
        0
    } else {
        sat_add(
            sum_finding_unobserved(bytes, es.drop_last()),
            evidence_unobserved(bytes, es[es.len() - 1]),
        )
    }
}

/// The estimate one finding contributes.
pub fn finding_unobserved_bytes(bytes: u64, evidence: &Vec<Evidence>) -> (r: u64)
    ensures
        r as nat == sum_finding_unobserved(bytes, evidence@),
{
    if bytes == 0 {
        return 0;
    }
    let mut total: u64 = 0;
    let mut i: usize = 0;
    proof {
        assert(evidence@.subrange(0, 0) =~= Seq::<Evidence>::empty());
    }
    while i < evidence.len()
        invariant
            bytes != 0,
            i <= evidence@.len(),
            total as nat == sum_finding_unobserved(bytes, evidence@.subrange(0, i as int)),
        decreases evidence@.len() - i,
    {
        let e = &evidence[i];
        let add: u64 = if matches!(e.kind, EvidenceKind::Stat) {
            match parse_files_errors(e.value.as_str()) {
                Some(fe) => {
                    let (f, er) = fe;
                    if f == 0 || er == 0 {
                        0
                    } else {
                        let avg = sat_add_exec(bytes, f - 1) / f;
                        proof {
                            assert((avg as int) * (er as int) <= (0xffffffffffffffff as int)
                                * (0xffffffffffffffff as int)) by (nonlinear_arith)
                                requires
                                    avg <= 0xffffffffffffffff,
                                    er <= 0xffffffffffffffff,
                            ;
                        }
                        let prod: u128 = (avg as u128) * (er as u128);
                        let clamped: u64 = if prod > u64::MAX as u128 {
                            u64::MAX
                        } else {
                            prod as u64
                        };
                        proof {
                            assert(clamped as nat == sat_mul(avg as nat, er as nat));
                        }
                        clamped
                    }
                },
                None => 0,
            }
        } else {
            0
        };
        proof {
            assert(add as nat == evidence_unobserved(bytes, evidence@[i as int]));
            assert(evidence@.subrange(0, i + 1).drop_last() =~= evidence@.subrange(0, i as int));
            assert(evidence@.subrange(0, i + 1)[i as int] == evidence@[i as int]);
        }
        total = sat_add_exec(total, add);
        i += 1;
    }
    proof {
        assert(evidence@.subrange(0, evidence@.len() as int) =~= evidence@);
    }
    total
}

/// The whole lower-bound estimate: each finding's contribution, summed
/// saturating, findings taken as `(estimated_bytes, evidence)` pairs.
pub open spec fn sum_unobserved(items: Seq<(u64, Vec<Evidence>)>) -> nat
    decreases items.len(),
{
    if items.len() == 0 {
        0
    } else {
        sat_add(
            sum_unobserved(items.drop_last()),
            sum_finding_unobserved(items[items.len() - 1].0, items[items.len() - 1].1@),
        )
    }
}

pub fn estimate_unobserved_bytes(items: &Vec<(u64, Vec<Evidence>)>) -> (r: u64)
    ensures
        r as nat == sum_unobserved(items@),
{
    let mut total: u64 = 0;
    let mut i: usize = 0;
    proof {
        assert(items@.subrange(0, 0) =~= Seq::<(u64, Vec<Evidence>)>::empty());
    }
    while i < items.len()
        invariant
            i <= items@.len(),
            total as nat == sum_unobserved(items@.subrange(0, i as int)),
        decreases items@.len() - i,
    {
        let add = finding_unobserved_bytes(items[i].0, &items[i].1);
        proof {
            assert(items@.subrange(0, i + 1).drop_last() =~= items@.subrange(0, i as int));
            assert(items@.subrange(0, i + 1)[i as int] == items@[i as int]);
        }
        total = sat_add_exec(total, add);
        i += 1;
    }
    proof {
        assert(items@.subrange(0, items@.len() as int) =~= items@);
    }
    total
}

} // verus!
