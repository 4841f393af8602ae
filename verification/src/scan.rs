//! Size-estimate records, the parsing of `du` output, and validation of
//! the exclude globs a scan may carry.

use vstd::prelude::*;
use crate::text::{
    all_digits, dec_value, first_in_class, trim_start, trim_start_spec, views_of, CharClass,
    find_class, parse_u64,
};
use crate::selection::{is_num, num_val, strip_plus};

verus! {

/// How a directory size was measured.
#[derive(Debug, Clone, Copy, PartialEq, Eq, Structural)]
pub enum SizeEstimateMethod {
    Du,
    WalkDir,
    WalkDirTruncated,
    BudgetExhausted,
}

/// What a measurement produced; byte counts are lower bounds when errors
/// were hit.
#[derive(Debug, Clone, Copy, PartialEq, Eq, Structural)]
pub struct SizeEstimate {
    pub bytes: u64,
    pub file_count: u64,
    pub error_count: u64,
    pub method: SizeEstimateMethod,
}

#[derive(Debug, Clone, PartialEq, Eq)]
pub struct TopDirEntry {
    pub path: String,
    pub bytes: u64,
}

#[derive(Debug, Clone, PartialEq, Eq)]
pub struct TopDirsResult {
    pub root: String,
    pub total_bytes: u64,
    pub file_count: u64,
    pub error_count: u64,
    pub entries: Vec<TopDirEntry>,
}

/// The first whitespace-separated token of `du -sk` output, as a number.
pub open spec fn du_kilobytes(s: Seq<char>) -> Option<nat> {
    let t = trim_start_spec(s);
    let i = first_in_class(t, CharClass::Space);
    let tok = if i < 0 {
        t
    } else {
        t.subrange(0, i)
    };
    if tok.len() > 0 && all_digits(strip_plus(tok)) && strip_plus(tok).len() > 0 && dec_value(
        strip_plus(tok),
    ) <= u64::MAX {
        Some(dec_value(strip_plus(tok)))
    } else {
        None
    }
}

pub fn parse_du_kilobytes(stdout: &str) -> (r: Option<u64>)
    ensures
        match r {
            Some(v) => du_kilobytes(stdout@) == Some(v as nat),
            None => du_kilobytes(stdout@) is None,
        },
{
    let t = trim_start(stdout);
    let tn = t.unicode_len();
    let tok = match find_class(t, CharClass::Space) {
        Some(i) => t.substring_char(0, i),
        None => t,
    };
    if tok.unicode_len() == 0 {
        return None;
    }
    let stripped = if tok.get_char(0) == '+' {
        let body = tok.substring_char(1, tok.unicode_len());
        proof {
            assert(body@ =~= tok@.drop_first());
        }
        body
    } else {
        tok
    };
    let v = parse_u64(stripped);
    proof {
        assert(t@.subrange(0, t@.len() as int) =~= t@);
    }
    v
}

/// The size estimate a finished `du -sk` run denotes: its kilobyte count
/// scaled to bytes, saturating; nothing on failure.
pub fn du_size_estimate(exit_code: i32, stdout: &str) -> (r: Option<SizeEstimate>)
    ensures
        match r {
            Some(e) => {
                &&& exit_code == 0
                &&& du_kilobytes(stdout@) is Some
                &&& e.bytes as nat == crate::engine::sat_mul(du_kilobytes(stdout@)->0, 1024)
                &&& e.file_count == 0
                &&& e.error_count == 0
                &&& e.method == SizeEstimateMethod::Du
            },
            None => exit_code != 0 || du_kilobytes(stdout@) is None,
        },
{
    if exit_code != 0 {
        return None;
    }
    match parse_du_kilobytes(stdout) {
        Some(kb) => {
            let bytes: u64 = if kb > u64::MAX / 1024 {
                proof {
                    assert((kb as int) * 1024 > u64::MAX) by (nonlinear_arith)
                        requires
                            kb > u64::MAX / 1024,
                    ;
                }
                u64::MAX
            } else {
                proof {
                    assert((kb as int) * 1024 <= u64::MAX) by (nonlinear_arith)
                        requires
                            kb <= u64::MAX / 1024,
                    ;
                }
                kb * 1024
            };
            Some(
                SizeEstimate {
                    bytes,
                    file_count: 0,
                    error_count: 0,
                    method: SizeEstimateMethod::Du,
                },
            )
        },
        None => None,
    }
}

/// Names what `globset::Glob::new` accepts: whether a pattern is a valid
/// glob depends on the pattern text alone.
pub uninterp spec fn glob_accepts(pattern: Seq<char>) -> bool;

/// Relies on `globset::Glob::new`: it parses the pattern text and
/// nothing else, returning `Ok` exactly for valid glob syntax.
#[verifier::external_body]
fn glob_new(pattern: &str) -> (r: Result<globset::Glob, globset::Error>)
    ensures
        r is Ok <==> glob_accepts(pattern@),
{
    globset::Glob::new(pattern)
}

#[verifier::external_type_specification]
#[verifier::external_body]
pub struct ExGlob(globset::Glob);

#[verifier::external_type_specification]
#[verifier::external_body]
pub struct ExGlobError(globset::Error);

/// The built-in excludes every scan applies.
pub open spec fn builtin_excludes_ok() -> bool {
    &&& glob_accepts("**/node_modules"@)
    &&& glob_accepts("**/node_modules/**"@)
    &&& glob_accepts("**/.git"@)
    &&& glob_accepts("**/.git/**"@)
    &&& glob_accepts("**/target"@)
    &&& glob_accepts("**/target/**"@)
}

pub open spec fn all_excludes_ok(pats: Seq<Seq<char>>) -> bool {
    forall|i: int| 0 <= i < pats.len() ==> glob_accepts(#[trigger] pats[i])
}

/// The first pattern the glob parser refuses, scanned built-ins first.
pub open spec fn first_bad_exclude(pats: Seq<Seq<char>>) -> Option<Seq<char>>
    decreases pats.len(),
{
    if pats.len() == 0 {
        None
    } else if !glob_accepts(pats[0]) {
        Some(pats[0])
    } else {
        first_bad_exclude(pats.drop_first())
    }
}

proof fn lemma_first_bad_skip(pats: Seq<Seq<char>>, i: int)
    requires
        0 <= i <= pats.len(),
        forall|j: int| 0 <= j < i ==> glob_accepts(#[trigger] pats[j]),
    ensures
        first_bad_exclude(pats) == first_bad_exclude(pats.subrange(i, pats.len() as int)),
    decreases i,
{
    if i == 0 {
        assert(pats.subrange(0, pats.len() as int) =~= pats);
    } else {
        lemma_first_bad_skip(pats.drop_first(), i - 1);
        assert(pats.drop_first().subrange(i - 1, pats.drop_first().len() as int)
            =~= pats.subrange(i, pats.len() as int));
    }
}

/// Checks every exclude pattern — the fixed built-ins and then the
/// user's — against the glob parser; succeeds exactly when all parse,
/// and names the first pattern that does not.
pub fn validate_excludes(excludes: &Vec<String>) -> (r: Result<(), String>)
    ensures
        r is Ok <==> builtin_excludes_ok() && all_excludes_ok(views_of(excludes@)),
        r matches Err(m) ==> {
            ||| !builtin_excludes_ok()
            ||| exists|i: int|
                0 <= i < excludes@.len() && m@ == "invalid exclude glob: "@
                    + #[trigger] excludes@[i]@ && !glob_accepts(excludes@[i]@)
        },
{
    let builtins = ["**/node_modules", "**/node_modules/**", "**/.git", "**/.git/**", "**/target", "**/target/**"];
    let mut b: usize = 0;
    while b < 6
        invariant
            builtins@.len() == 6,
            builtins@[0]@ == "**/node_modules"@,
            builtins@[1]@ == "**/node_modules/**"@,
            builtins@[2]@ == "**/.git"@,
            builtins@[3]@ == "**/.git/**"@,
            builtins@[4]@ == "**/target"@,
            builtins@[5]@ == "**/target/**"@,
            b <= 6,
            forall|j: int| 0 <= j < b ==> glob_accepts(#[trigger] builtins@[j]@),
        decreases 6 - b,
    {
        match glob_new(builtins[b]) {
            Ok(_) => {},
            Err(_) => {
                let mut m = String::from_str("invalid exclude glob: ");
                m.append(builtins[b]);
                return Err(m);
            },
        }
        b += 1;
    }
    let ghost pv = views_of(excludes@);
    let mut i: usize = 0;
    while i < excludes.len()
        invariant
            pv == views_of(excludes@),
            i <= excludes@.len(),
            builtin_excludes_ok(),
            forall|j: int| 0 <= j < i ==> glob_accepts(#[trigger] pv[j]),
        decreases excludes@.len() - i,
    {
        proof {
            assert(pv[i as int] == excludes@[i as int]@);
        }
        match glob_new(excludes[i].as_str()) {
            Ok(_) => {},
            Err(_) => {
                let mut m = String::from_str("invalid exclude glob: ");
                m.append(excludes[i].as_str());
                proof {
                    assert(m@ =~= "invalid exclude glob: "@ + excludes@[i as int]@);
                }
                return Err(m);
            },
        }
        i += 1;
    }
    Ok(())
}

} // verus!
