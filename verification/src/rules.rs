//! Shared context for the detection rules, and the small parsers they
//! apply to tool output: snapshot counts, unavailable-simulator detection
//! and the `docker system df` summary.

use vstd::prelude::*;
use crate::text::{
    contains_sub, dec_value, first_in_class, has_prefix, is_digit_char, join_seq, join_strings,
    lines_of, parse_usize, seq_contains, split_lines, starts_with, trim, trim_spec,
    views_of, CharClass, all_digits, is_digit, find_class,
};

verus! {

/// What every rule gets to work with.  Times are milliseconds; the
/// deadline is an absolute instant on the same clock the shell reads.
#[derive(Debug, Clone, PartialEq, Eq)]
pub struct RuleContext {
    pub home_dir: String,
    pub timeout_ms: u64,
    pub deadline_ms: Option<u64>,
    pub privacy_mask_home: bool,
}

impl RuleContext {
    /// The time budget for one external command read at `now_ms`: the
    /// configured timeout, capped by whatever remains until the deadline.
    pub fn command_timeout(&self, now_ms: u64) -> (r: u64)
        ensures
            r == (match self.deadline_ms {
                Some(d) => {
                    let remaining = if d >= now_ms {
                        d - now_ms
                    } else {
                        0
                    };
                    if self.timeout_ms <= remaining {
                        self.timeout_ms as int
                    } else {
                        remaining
                    }
                },
                None => self.timeout_ms as int,
            }),
    {
        match self.deadline_ms {
            Some(d) => {
                let remaining = if d >= now_ms {
                    d - now_ms
                } else {
                    0
                };
                if self.timeout_ms <= remaining {
                    self.timeout_ms
                } else {
                    remaining
                }
            },
            None => self.timeout_ms,
        }
    }
}

/// The digits a numeral starts with.
pub open spec fn leading_digits(s: Seq<char>) -> Seq<char>
    decreases s.len(),
{
    if s.len() > 0 && is_digit_char(s[0]) {
        seq![s[0]] + leading_digits(s.drop_first())
    } else {
        Seq::empty()
    }
}

pub proof fn lemma_leading_digits_all(s: Seq<char>)
    ensures
        all_digits(leading_digits(s)),
    decreases s.len(),
{
    if s.len() > 0 && is_digit_char(s[0]) {
        lemma_leading_digits_all(s.drop_first());
        assert forall|j: int| 0 <= j < leading_digits(s).len() implies is_digit_char(
            leading_digits(s)[j],
        ) by {
            if j > 0 {
                assert(leading_digits(s)[j] == leading_digits(s.drop_first())[j - 1]);
            }
        }
    }
}

proof fn lemma_leading_digits_is(s: Seq<char>, i: int)
    requires
        0 <= i <= s.len(),
        forall|j: int| 0 <= j < i ==> is_digit_char(s[j]),
        i < s.len() ==> !is_digit_char(s[i]),
    ensures
        leading_digits(s) =~= s.subrange(0, i),
    decreases i,
{
    if i == 0 {
    } else {
        lemma_leading_digits_is(s.drop_first(), i - 1);
        assert(s.drop_first().subrange(0, i - 1) =~= s.subrange(1, i));
        assert(seq![s[0]] + s.subrange(1, i) =~= s.subrange(0, i));
    }
}

pub fn take_leading_digits(s: &str) -> (r: String)
    ensures
        r@ == leading_digits(s@),
{
    let n = s.unicode_len();
    let mut i: usize = 0;
    while i < n
        invariant
            n == s@.len(),
            i <= n,
            forall|j: int| 0 <= j < i ==> is_digit_char(s@[j]),
        decreases n - i,
    {
        if !is_digit(s.get_char(i)) {
            proof {
                lemma_leading_digits_is(s@, i as int);
            }
            return s.substring_char(0, i).to_owned();
        }
        i += 1;
    }
    proof {
        lemma_leading_digits_is(s@, n as int);
    }
    s.substring_char(0, n).to_owned()
}

/// What scanning one line of `diskutil` output decides.
pub enum CountScan {
    /// Keep scanning.
    NotFound,
    /// A malformed `found` line aborts the whole parse.
    Halt,
    /// The count inside the parentheses of a `(N found)` line.
    Found(nat),
}

/// One `diskutil` line: a line mentioning `found` must carry `(N found`
/// in parentheses with a count that fits, or the parse gives up.
pub open spec fn diskutil_line_verdict(l: Seq<char>) -> CountScan {
    let t = trim_spec(l);
    if !seq_contains(t, "found"@) {
        CountScan::NotFound
    } else {
        let o = first_in_class(t, CharClass::Is('('));
        if o < 0 {
            CountScan::Halt
        } else {
            let after = t.subrange(o, t.len() as int);
            let c = first_in_class(after, CharClass::Is(')'));
            if c < 0 {
                CountScan::Halt
            } else {
                let inside = t.subrange(o + 1, o + c);
                let digits = leading_digits(inside);
                if digits.len() == 0 {
                    CountScan::NotFound
                } else if !seq_contains(inside, "found"@) {
                    CountScan::NotFound
                } else if dec_value(digits) > usize::MAX {
                    CountScan::Halt
                } else {
                    CountScan::Found(dec_value(digits))
                }
            }
        }
    }
}

pub open spec fn diskutil_scan(ls: Seq<Seq<char>>) -> CountScan
    decreases ls.len(),
{
    if ls.len() == 0 {
        CountScan::NotFound
    } else {
        match diskutil_line_verdict(ls[0]) {
            CountScan::NotFound => diskutil_scan(ls.drop_first()),
            CountScan::Halt => CountScan::Halt,
            CountScan::Found(n) => CountScan::Found(n),
        }
    }
}

proof fn lemma_diskutil_scan_skip(ls: Seq<Seq<char>>, i: int)
    requires
        0 <= i <= ls.len(),
        forall|j: int| 0 <= j < i ==> diskutil_line_verdict(#[trigger] ls[j]) is NotFound,
    ensures
        diskutil_scan(ls) == diskutil_scan(ls.subrange(i, ls.len() as int)),
    decreases i,
{
    if i == 0 {
        assert(ls.subrange(0, ls.len() as int) =~= ls);
    } else {
        lemma_diskutil_scan_skip(ls.drop_first(), i - 1);
        assert(ls.drop_first().subrange(i - 1, ls.drop_first().len() as int) =~= ls.subrange(
            i,
            ls.len() as int,
        ));
    }
}

/// The snapshot count from a `diskutil apfs listSnapshots` header such as
/// `Snapshots for disk1s1 (12 found)`, exactly as [`diskutil_scan`] says.
pub fn parse_diskutil_snapshot_count(stdout: &str) -> (r: Option<usize>)
    ensures
        match diskutil_scan(split_lines(stdout@)) {
            CountScan::Found(n) => n <= usize::MAX && r == Some(n as usize),
            _ => r is None,
        },
{
    let ls = lines_of(stdout);
    let ghost lv = split_lines(stdout@);
    let mut i: usize = 0;
    while i < ls.len()
        invariant
            views_of(ls@) == lv,
            lv == split_lines(stdout@),
            i <= ls@.len(),
            forall|j: int| 0 <= j < i ==> diskutil_line_verdict(#[trigger] lv[j]) is NotFound,
        decreases ls@.len() - i,
    {
        proof {
            assert(lv[i as int] == ls@[i as int]@);
            lemma_diskutil_scan_skip(lv, i as int);
            assert(lv.subrange(i as int, lv.len() as int)[0] == lv[i as int]);
        }
        let line = trim(ls[i].as_str());
        if contains_sub(line, "found") {
            let o = match find_class(line, CharClass::Is('(')) {
                Some(o) => o,
                None => {
                    proof {
                        assert(diskutil_line_verdict(lv[i as int]) is Halt);
                        assert(diskutil_scan(lv) is Halt);
                    }
                    return None;
                },
            };
            let n = line.unicode_len();
            let after = line.substring_char(o, n);
            proof {
                assert(after@ =~= line@.subrange(o as int, line@.len() as int));
            }
            let c = match find_class(after, CharClass::Is(')')) {
                Some(c) => c,
                None => {
                    proof {
                        assert(diskutil_line_verdict(lv[i as int]) is Halt);
                        assert(diskutil_scan(lv) is Halt);
                    }
                    return None;
                },
            };
            proof {
                crate::text::lemma_first_in_class_props(after@, CharClass::Is(')'));
                assert(after@[0] == line@[o as int]);
                crate::text::lemma_first_in_class_props(line@, CharClass::Is('('));
            }
            let inside = line.substring_char(o + 1, o + c);
            proof {
                assert(inside@ =~= line@.subrange(o as int + 1, o as int + c as int));
            }
            let digits = take_leading_digits(inside);
            if digits.as_str().unicode_len() == 0 {
                i += 1;
                continue ;
            }
            if !contains_sub(inside, "found") {
                i += 1;
                continue ;
            }
            let v = parse_usize(digits.as_str());
            proof {
                lemma_leading_digits_all(inside@);
                if v is Some {
                    assert(diskutil_line_verdict(lv[i as int]) == CountScan::Found(
                        dec_value(leading_digits(inside@)),
                    ));
                } else {
                    assert(diskutil_line_verdict(lv[i as int]) is Halt);
                }
            }
            return v;
        }
        i += 1;
    }
    proof {
        lemma_diskutil_scan_skip(lv, lv.len() as int);
    }
    None
}

/// Every tmutil output line that is not blank and not the
/// `Snapshots for disk` header names one local snapshot.
pub open spec fn is_snapshot_line(l: Seq<char>) -> bool {
    trim_spec(l).len() > 0 && !has_prefix(trim_spec(l), "Snapshots for disk"@)
}

pub open spec fn tmutil_count(ls: Seq<Seq<char>>) -> nat
    decreases ls.len(),
{
    if ls.len() == 0 {
        0
    } else {
        (if is_snapshot_line(ls[0]) {
            1 as nat
        } else {
            0 as nat
        }) + tmutil_count(ls.drop_first())
    }
}

proof fn lemma_tmutil_count_skip(ls: Seq<Seq<char>>, i: int, c: nat)
    requires
        0 <= i <= ls.len(),
    ensures
        tmutil_count(ls.subrange(i, ls.len() as int)) <= ls.len() - i,
    decreases ls.len() - i,
{
    if i < ls.len() {
        lemma_tmutil_count_skip(ls, i + 1, c);
        assert(ls.subrange(i, ls.len() as int).drop_first() =~= ls.subrange(
            i + 1,
            ls.len() as int,
        ));
    }
}

/// Counts the local snapshots a `tmutil listlocalsnapshots` run printed,
/// exactly as [`tmutil_count`] says.
pub fn parse_tmutil_local_snapshot_count(stdout: &str) -> (r: usize)
    ensures
        r as nat == tmutil_count(split_lines(stdout@)),
{
    let ls = lines_of(stdout);
    let ghost lv = split_lines(stdout@);
    let mut count: usize = 0;
    let mut i: usize = 0;
    proof {
        assert(lv.subrange(0, lv.len() as int) =~= lv);
    }
    while i < ls.len()
        invariant
            views_of(ls@) == lv,
            i <= ls@.len(),
            count <= i,
            tmutil_count(lv) == count + tmutil_count(lv.subrange(i as int, lv.len() as int)),
        decreases ls@.len() - i,
    {
        proof {
            assert(lv[i as int] == ls@[i as int]@);
            assert(lv.subrange(i as int, lv.len() as int)[0] == lv[i as int]);
            assert(lv.subrange(i as int, lv.len() as int).drop_first() =~= lv.subrange(
                i + 1,
                lv.len() as int,
            ));
        }
        let t = trim(ls[i].as_str());
        if t.unicode_len() > 0 && !starts_with(t, "Snapshots for disk") {
            count += 1;
        }
        i += 1;
    }
    proof {
        assert(lv.subrange(lv.len() as int, lv.len() as int) =~= Seq::<Seq<char>>::empty());
    }
    count
}

/// Some non-blank line mentions an unavailable device: it holds both the
/// word `unavailable` and an opening parenthesis.
pub open spec fn has_unavailable_line(ls: Seq<Seq<char>>) -> bool {
    exists|i: int|
        0 <= i < ls.len() && {
            let t = trim_spec(#[trigger] ls[i]);
            t.len() > 0 && seq_contains(t, "unavailable"@) && seq_contains(t, "("@)
        }
}

pub fn simctl_list_has_unavailable(stdout: &str) -> (r: bool)
    ensures
        r == has_unavailable_line(split_lines(stdout@)),
{
    let ls = lines_of(stdout);
    let ghost lv = split_lines(stdout@);
    let mut i: usize = 0;
    while i < ls.len()
        invariant
            views_of(ls@) == lv,
            lv == split_lines(stdout@),
            i <= ls@.len(),
            forall|j: int| 0 <= j < i ==> !({
                let t = trim_spec(#[trigger] lv[j]);
                t.len() > 0 && seq_contains(t, "unavailable"@) && seq_contains(t, "("@)
            }),
        decreases ls@.len() - i,
    {
        proof {
            assert(lv[i as int] == ls@[i as int]@);
        }
        let t = trim(ls[i].as_str());
        if t.unicode_len() > 0 && contains_sub(t, "unavailable") && contains_sub(t, "(") {
            proof {
                let tt = trim_spec(lv[i as int]);
                assert(tt.len() > 0 && seq_contains(tt, "unavailable"@) && seq_contains(
                    tt,
                    "("@,
                ));
                assert(has_unavailable_line(lv));
            }
            return true;
        }
        i += 1;
    }
    false
}

/// A `docker system df` table line worth keeping: one of the known row
/// headers, matched on the trimmed text.
pub open spec fn df_keep(l: Seq<char>) -> bool {
    let t = trim_spec(l);
    &&& t.len() > 0
    &&& {
        ||| has_prefix(t, "TYPE"@)
        ||| has_prefix(t, "Images"@)
        ||| has_prefix(t, "Containers"@)
        ||| has_prefix(t, "Local Volumes"@)
        ||| has_prefix(t, "Build Cache"@)
    }
}

/// The trimmed table rows, in order.
pub open spec fn df_kept(ls: Seq<Seq<char>>) -> Seq<Seq<char>>
    decreases ls.len(),
{
    if ls.len() == 0 {
        Seq::empty()
    } else if df_keep(ls[0]) {
        seq![trim_spec(ls[0])] + df_kept(ls.drop_first())
    } else {
        df_kept(ls.drop_first())
    }
}

/// The fallback when no table row matched: the first `room` non-blank
/// lines, trimmed.
pub open spec fn df_fallback(ls: Seq<Seq<char>>, room: nat) -> Seq<Seq<char>>
    decreases ls.len(),
{
    if ls.len() == 0 || room == 0 {
        Seq::empty()
    } else if trim_spec(ls[0]).len() > 0 {
        seq![trim_spec(ls[0])] + df_fallback(ls.drop_first(), (room - 1) as nat)
    } else {
        df_fallback(ls.drop_first(), room)
    }
}

/// The whole summary: kept table rows under a header, the first lines as
/// a fallback, or a note that the output was empty.
pub open spec fn df_summary(s: Seq<char>) -> Seq<char> {
    let kept = df_kept(split_lines(s));
    let shown = if kept.len() > 0 {
        kept
    } else {
        df_fallback(split_lines(s), 8)
    };
    if shown.len() == 0 {
        "docker system df: output was empty"@
    } else {
        "docker system df:\n"@ + join_seq(shown, "\n"@)
    }
}

/// Summarizes `docker system df` output, exactly as [`df_summary`] says.
pub fn summarize_docker_system_df(stdout: &str) -> (r: String)
    ensures
        r@ == df_summary(stdout@),
{
    let ls = lines_of(stdout);
    let ghost lv = split_lines(stdout@);
    let mut kept: Vec<String> = Vec::new();
    let mut i: usize = 0;
    proof {
        assert(lv.subrange(0, lv.len() as int) =~= lv);
    }
    while i < ls.len()
        invariant
            views_of(ls@) == lv,
            i <= ls@.len(),
            views_of(kept@) + df_kept(lv.subrange(i as int, lv.len() as int)) =~= df_kept(lv),
        decreases ls@.len() - i,
    {
        proof {
            assert(lv[i as int] == ls@[i as int]@);
            assert(lv.subrange(i as int, lv.len() as int)[0] == lv[i as int]);
            assert(lv.subrange(i as int, lv.len() as int).drop_first() =~= lv.subrange(
                i + 1,
                lv.len() as int,
            ));
        }
        let t = trim(ls[i].as_str());
        let keep = t.unicode_len() > 0 && (starts_with(t, "TYPE") || starts_with(t, "Images")
            || starts_with(t, "Containers") || starts_with(t, "Local Volumes") || starts_with(
            t,
            "Build Cache",
        ));
        if keep {
            kept.push(t.to_owned());
            proof {
                assert(views_of(kept@) =~= views_of(kept@.drop_last()).push(
                    trim_spec(lv[i as int]),
                ));
            }
        }
        i += 1;
    }
    proof {
        assert(lv.subrange(lv.len() as int, lv.len() as int) =~= Seq::<Seq<char>>::empty());
        assert(views_of(kept@) =~= df_kept(lv));
    }

    if kept.len() == 0 {
        let mut room: usize = 8;
        let mut j: usize = 0;
        proof {
            assert(lv.subrange(0, lv.len() as int) =~= lv);
        }
        while j < ls.len() && room > 0
            invariant
                views_of(ls@) == lv,
                j <= ls@.len(),
                room <= 8,
                views_of(kept@) + df_fallback(lv.subrange(j as int, lv.len() as int), room as nat)
                    =~= df_fallback(lv, 8),
            decreases ls@.len() - j,
        {
            proof {
                assert(lv[j as int] == ls@[j as int]@);
                assert(lv.subrange(j as int, lv.len() as int)[0] == lv[j as int]);
                assert(lv.subrange(j as int, lv.len() as int).drop_first() =~= lv.subrange(
                    j + 1,
                    lv.len() as int,
                ));
            }
            let t = trim(ls[j].as_str());
            if t.unicode_len() > 0 {
                kept.push(t.to_owned());
                room -= 1;
                proof {
                    assert(views_of(kept@) =~= views_of(kept@.drop_last()).push(
                        trim_spec(lv[j as int]),
                    ));
                }
            }
            j += 1;
        }
        proof {
            if (j as int) == lv.len() {
                assert(lv.subrange(lv.len() as int, lv.len() as int)
                    =~= Seq::<Seq<char>>::empty());
            }
            assert(views_of(kept@) =~= df_fallback(lv, 8));
        }
    }

    if kept.len() == 0 {
        String::from_str("docker system df: output was empty")
    } else {
        let mut out = String::from_str("docker system df:\n");
        let body = join_strings(&kept, "\n");
        out.append(body.as_str());
        proof {
            assert(out@ =~= "docker system df:\n"@ + join_seq(views_of(kept@), "\n"@));
        }
        out
    }
}

} // verus!
