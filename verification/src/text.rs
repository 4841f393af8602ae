//! Verified text utilities: the character-level vocabulary the rest of the
//! crate states its contracts with.
//!
//! Strings are modelled as their `Seq<char>` views.  Every helper here has an
//! exact contract over that model; substring search, prefix tests, trimming
//! and line splitting are proved, not assumed.

use vstd::prelude::*;

verus! {

/// The needle `n` occurs in `h` starting at position `i`.
pub open spec fn seq_contains_at(h: Seq<char>, n: Seq<char>, i: int) -> bool {
    0 <= i && i + n.len() <= h.len() && h.subrange(i, i + n.len() as int) == n
}

/// The needle `n` occurs somewhere in `h`.
pub open spec fn seq_contains(h: Seq<char>, n: Seq<char>) -> bool {
    exists|i: int| seq_contains_at(h, n, i)
}

/// `p` is a prefix of `s`.
pub open spec fn has_prefix(s: Seq<char>, p: Seq<char>) -> bool {
    p.len() <= s.len() && s.subrange(0, p.len() as int) == p
}

pub fn str_eq(a: &str, b: &str) -> (r: bool)
    ensures
        r == (a@ == b@),
{
    let an = a.unicode_len();
    let bn = b.unicode_len();
    if an != bn {
        return false;
    }
    let mut i: usize = 0;
    while i < an
        invariant
            an == a@.len(),
            an == b@.len(),
            i <= an,
            forall|j: int| 0 <= j < i ==> a@[j] == b@[j],
        decreases an - i,
    {
        if a.get_char(i) != b.get_char(i) {
            return false;
        }
        i += 1;
    }
    proof {
        assert(a@ =~= b@);
    }
    true
}

pub fn starts_with(s: &str, p: &str) -> (r: bool)
    ensures
        r == has_prefix(s@, p@),
{
    let sn = s.unicode_len();
    let pn = p.unicode_len();
    if pn > sn {
        return false;
    }
    let mut i: usize = 0;
    while i < pn
        invariant
            sn == s@.len(),
            pn == p@.len(),
            pn <= sn,
            i <= pn,
            forall|j: int| 0 <= j < i ==> s@[j] == p@[j],
        decreases pn - i,
    {
        if s.get_char(i) != p.get_char(i) {
            assert(s@.subrange(0, p@.len() as int)[i as int] != p@[i as int]);
            return false;
        }
        i += 1;
    }
    proof {
        assert(s@.subrange(0, p@.len() as int) =~= p@);
    }
    true
}

/// Position of the first occurrence of `n` in `h`, or -1 if none.
pub open spec fn first_match(h: Seq<char>, n: Seq<char>) -> int
    decreases h.len(),
{
    if n.len() == 0 {
        0
    } else if h.len() < n.len() {
        -1
    } else if h.subrange(0, n.len() as int) == n {
        0
    } else {
        let r = first_match(h.drop_first(), n);
        if r < 0 {
            -1
        } else {
            1 + r
        }
    }
}

pub proof fn lemma_first_match_is(h: Seq<char>, n: Seq<char>, i: int)
    requires
        seq_contains_at(h, n, i),
        forall|j: int| 0 <= j < i ==> !seq_contains_at(h, n, j),
    ensures
        first_match(h, n) == i,
    decreases i,
{
    if i == 0 {
    } else if n.len() == 0 {
        assert(h.subrange(0, 0) =~= n);
        assert(seq_contains_at(h, n, 0));
    } else {
        assert(!seq_contains_at(h, n, 0));
        let h2 = h.drop_first();
        assert(h2.subrange(i - 1, i - 1 + n.len() as int) =~= h.subrange(i, i + n.len() as int));
        assert forall|j: int| 0 <= j < i - 1 implies !seq_contains_at(h2, n, j) by {
            if seq_contains_at(h2, n, j) {
                assert(h.subrange(j + 1, j + 1 + n.len() as int) =~= h2.subrange(
                    j,
                    j + n.len() as int,
                ));
                assert(seq_contains_at(h, n, j + 1));
            }
        }
        lemma_first_match_is(h2, n, i - 1);
    }
}

pub proof fn lemma_first_match_none(h: Seq<char>, n: Seq<char>)
    requires
        !seq_contains(h, n),
    ensures
        first_match(h, n) == -1,
    decreases h.len(),
{
    if n.len() == 0 {
        assert(h.subrange(0, 0) =~= n);
        assert(seq_contains_at(h, n, 0));
    } else if h.len() >= n.len() {
        if h.subrange(0, n.len() as int) == n {
            assert(seq_contains_at(h, n, 0));
        }
        let h2 = h.drop_first();
        assert(!seq_contains(h2, n)) by {
            if seq_contains(h2, n) {
                let j = choose|j: int| seq_contains_at(h2, n, j);
                assert(h.subrange(j + 1, j + 1 + n.len() as int) =~= h2.subrange(
                    j,
                    j + n.len() as int,
                ));
                assert(seq_contains_at(h, n, j + 1));
            }
        }
        lemma_first_match_none(h2, n);
    }
}

pub fn find_sub(h: &str, n: &str) -> (r: Option<usize>)
    ensures
        match r {
            Some(i) => seq_contains_at(h@, n@, i as int) && forall|j: int|
                0 <= j < i ==> !seq_contains_at(h@, n@, j),
            None => !seq_contains(h@, n@),
        },
{
    let hn = h.unicode_len();
    let nn = n.unicode_len();
    if nn > hn {
        return None;
    }
    if nn == 0 {
        proof {
            assert(h@.subrange(0, 0) =~= n@);
        }
        return Some(0);
    }
    let mut i: usize = 0;
    while i <= hn - nn
        invariant
            hn == h@.len(),
            nn == n@.len(),
            1 <= nn <= hn,
            i <= hn - nn + 1,
            forall|j: int| 0 <= j < i ==> !seq_contains_at(h@, n@, j),
        decreases hn - nn - i + 1,
    {
        let sub = h.substring_char(i, i + nn);
        if str_eq(sub, n) {
            return Some(i);
        }
        i += 1;
    }
    None
}

pub fn contains_sub(h: &str, n: &str) -> (r: bool)
    ensures
        r == seq_contains(h@, n@),
{
    find_sub(h, n).is_some()
}

/// The whitespace the library trims: ASCII space, tab, line and page breaks.
pub open spec fn is_space_char(c: char) -> bool {
    c == ' ' || c == '\t' || c == '\n' || c == '\r' || c == '\u{b}' || c == '\u{c}'
}

pub fn is_space(c: char) -> (r: bool)
    ensures
        r == is_space_char(c),
{
    c == ' ' || c == '\t' || c == '\n' || c == '\r' || c == '\u{b}' || c == '\u{c}'
}

pub open spec fn is_digit_char(c: char) -> bool {
    '0' <= c && c <= '9'
}

pub fn is_digit(c: char) -> (r: bool)
    ensures
        r == is_digit_char(c),
{
    '0' <= c && c <= '9'
}

pub open spec fn is_hex_digit_char(c: char) -> bool {
    is_digit_char(c) || ('a' <= c && c <= 'f') || ('A' <= c && c <= 'F')
}

pub fn is_hex_digit(c: char) -> (r: bool)
    ensures
        r == is_hex_digit_char(c),
{
    is_digit(c) || ('a' <= c && c <= 'f') || ('A' <= c && c <= 'F')
}

/// Number of leading whitespace characters of `s`.
pub open spec fn leading_spaces(s: Seq<char>) -> nat
    decreases s.len(),
{
    if s.len() > 0 && is_space_char(s[0]) {
        1 + leading_spaces(s.drop_first())
    } else {
        0
    }
}

pub proof fn lemma_leading_spaces_bound(s: Seq<char>)
    ensures
        leading_spaces(s) <= s.len(),
        forall|j: int| 0 <= j < leading_spaces(s) ==> is_space_char(s[j]),
        leading_spaces(s) < s.len() ==> !is_space_char(s[leading_spaces(s) as int]),
    decreases s.len(),
{
    if s.len() > 0 && is_space_char(s[0]) {
        lemma_leading_spaces_bound(s.drop_first());
        assert forall|j: int| 0 <= j < leading_spaces(s) implies is_space_char(s[j]) by {
            if j > 0 {
                assert(is_space_char(s.drop_first()[j - 1]));
            }
        }
    }
}

/// Characterizes `leading_spaces` by its defining index.
pub proof fn lemma_leading_spaces_is(s: Seq<char>, i: int)
    requires
        0 <= i <= s.len(),
        forall|j: int| 0 <= j < i ==> is_space_char(s[j]),
        i < s.len() ==> !is_space_char(s[i]),
    ensures
        leading_spaces(s) == i,
    decreases i,
{
    if i == 0 {
    } else {
        assert(is_space_char(s[0]));
        lemma_leading_spaces_is(s.drop_first(), i - 1);
    }
}

/// Number of trailing whitespace characters of `s`.
pub open spec fn trailing_spaces(s: Seq<char>) -> nat
    decreases s.len(),
{
    if s.len() > 0 && is_space_char(s[s.len() - 1]) {
        1 + trailing_spaces(s.drop_last())
    } else {
        0
    }
}

pub proof fn lemma_trailing_spaces_bound(s: Seq<char>)
    ensures
        trailing_spaces(s) <= s.len(),
        forall|j: int| s.len() - trailing_spaces(s) <= j < s.len() ==> is_space_char(s[j]),
        trailing_spaces(s) < s.len() ==> !is_space_char(
            s[s.len() - trailing_spaces(s) - 1],
        ),
    decreases s.len(),
{
    if s.len() > 0 && is_space_char(s[s.len() - 1]) {
        lemma_trailing_spaces_bound(s.drop_last());
        assert forall|j: int| s.len() - trailing_spaces(s) <= j < s.len() implies is_space_char(
            s[j],
        ) by {
            if j < s.len() - 1 {
                assert(is_space_char(s.drop_last()[j]));
            }
        }
    }
}

pub proof fn lemma_trailing_spaces_is(s: Seq<char>, i: int)
    requires
        0 <= i <= s.len(),
        forall|j: int| s.len() - i <= j < s.len() ==> is_space_char(s[j]),
        i < s.len() ==> !is_space_char(s[s.len() - i - 1]),
    ensures
        trailing_spaces(s) == i,
    decreases i,
{
    if i == 0 {
    } else {
        assert(is_space_char(s[s.len() - 1]));
        assert forall|j: int| s.drop_last().len() - (i - 1) <= j < s.drop_last().len()
            implies is_space_char(s.drop_last()[j]) by {
            assert(s.drop_last()[j] == s[j]);
        }
        lemma_trailing_spaces_is(s.drop_last(), i - 1);
    }
}

/// `s` with leading whitespace removed.
pub open spec fn trim_start_spec(s: Seq<char>) -> Seq<char> {
    s.subrange(leading_spaces(s) as int, s.len() as int)
}

/// `s` with leading and trailing whitespace removed; empty if all whitespace.
pub open spec fn trim_spec(s: Seq<char>) -> Seq<char> {
    if leading_spaces(s) == s.len() {
        Seq::empty()
    } else {
        s.subrange(leading_spaces(s) as int, s.len() - trailing_spaces(s))
    }
}

/// `s` with trailing whitespace removed.
pub open spec fn trim_end_spec(s: Seq<char>) -> Seq<char> {
    s.subrange(0, s.len() - trailing_spaces(s))
}

/// Index just past the leading whitespace of `s`.
pub fn trim_start_index(s: &str) -> (i: usize)
    ensures
        i == leading_spaces(s@),
{
    let n = s.unicode_len();
    let mut i: usize = 0;
    while i < n
        invariant
            n == s@.len(),
            i <= n,
            forall|j: int| 0 <= j < i ==> is_space_char(s@[j]),
        decreases n - i,
    {
        if !is_space(s.get_char(i)) {
            proof {
                lemma_leading_spaces_is(s@, i as int);
            }
            return i;
        }
        i += 1;
    }
    proof {
        lemma_leading_spaces_is(s@, n as int);
    }
    n
}

pub fn trim_start(s: &str) -> (r: &str)
    ensures
        r@ == trim_start_spec(s@),
{
    let n = s.unicode_len();
    let i = trim_start_index(s);
    proof {
        lemma_leading_spaces_bound(s@);
    }
    s.substring_char(i, n)
}

pub fn trim(s: &str) -> (r: &str)
    ensures
        r@ == trim_spec(s@),
{
    let n = s.unicode_len();
    let a = trim_start_index(s);
    proof {
        lemma_leading_spaces_bound(s@);
    }
    if a == n {
        return s.substring_char(n, n);
    }
    let mut b: usize = n;
    while b > a
        invariant
            n == s@.len(),
            a == leading_spaces(s@),
            a < n,
            a <= b <= n,
            forall|j: int| b <= j < n ==> is_space_char(s@[j]),
        decreases b,
    {
        if !is_space(s.get_char(b - 1)) {
            proof {
                lemma_trailing_spaces_is(s@, (n - b) as int);
            }
            return s.substring_char(a, b);
        }
        b -= 1;
    }
    proof {
        lemma_leading_spaces_bound(s@);
        assert(!is_space_char(s@[a as int]));
        assert(is_space_char(s@[a as int]));
    }
    s.substring_char(a, a)
}

/// Relies on `String::push`: appends exactly the given character.
pub assume_specification[ String::push ](s: &mut String, c: char)
    ensures
        final(s)@ == old(s)@.push(c),
;

/// Views of a sequence of owned strings.
pub open spec fn views_of(v: Seq<String>) -> Seq<Seq<char>> {
    v.map_values(|s: String| s@)
}

/// A character class a string can be split on.
#[derive(Clone, Copy, PartialEq, Eq, Structural, Debug)]
pub enum CharClass {
    /// Exactly the given character.
    Is(char),
    /// ASCII whitespace.
    Space,
    /// A comma or ASCII whitespace.
    CommaOrSpace,
    /// Anything but an ASCII hex digit or `-`.
    NotUuidChar,
}

pub open spec fn class_holds(cc: CharClass, c: char) -> bool {
    match cc {
        CharClass::Is(d) => c == d,
        CharClass::Space => is_space_char(c),
        CharClass::CommaOrSpace => c == ',' || is_space_char(c),
        CharClass::NotUuidChar => !(is_hex_digit_char(c) || c == '-'),
    }
}

pub fn class_match(cc: CharClass, c: char) -> (r: bool)
    ensures
        r == class_holds(cc, c),
{
    match cc {
        CharClass::Is(d) => c == d,
        CharClass::Space => is_space(c),
        CharClass::CommaOrSpace => c == ',' || is_space(c),
        CharClass::NotUuidChar => !(is_hex_digit(c) || c == '-'),
    }
}

/// Index of the first character of `s` in class `cc`, or -1 if there is none.
pub open spec fn first_in_class(s: Seq<char>, cc: CharClass) -> int
    decreases s.len(),
{
    if s.len() == 0 {
        -1
    } else if class_holds(cc, s[0]) {
        0
    } else {
        let r = first_in_class(s.drop_first(), cc);
        if r < 0 {
            -1
        } else {
            1 + r
        }
    }
}

pub proof fn lemma_first_in_class_found(s: Seq<char>, cc: CharClass, i: int)
    requires
        0 <= i < s.len(),
        forall|j: int| 0 <= j < i ==> !class_holds(cc, s[j]),
        class_holds(cc, s[i]),
    ensures
        first_in_class(s, cc) == i,
    decreases i,
{
    if i > 0 {
        lemma_first_in_class_found(s.drop_first(), cc, i - 1);
    }
}

pub proof fn lemma_first_in_class_none(s: Seq<char>, cc: CharClass)
    requires
        forall|j: int| 0 <= j < s.len() ==> !class_holds(cc, s[j]),
    ensures
        first_in_class(s, cc) == -1,
    decreases s.len(),
{
    if s.len() > 0 {
        lemma_first_in_class_none(s.drop_first(), cc);
    }
}

pub proof fn lemma_first_in_class_props(s: Seq<char>, cc: CharClass)
    ensures
        first_in_class(s, cc) >= 0 ==> {
            &&& first_in_class(s, cc) < s.len()
            &&& class_holds(cc, s[first_in_class(s, cc)])
            &&& forall|j: int| 0 <= j < first_in_class(s, cc) ==> !class_holds(cc, s[j])
        },
    decreases s.len(),
{
    if s.len() > 0 && !class_holds(cc, s[0]) {
        lemma_first_in_class_props(s.drop_first(), cc);
        if first_in_class(s, cc) >= 0 {
            assert forall|j: int| 0 <= j < first_in_class(s, cc) implies !class_holds(
                cc,
                s[j],
            ) by {
                if j > 0 {
                    assert(!class_holds(cc, s.drop_first()[j - 1]));
                }
            }
        }
    }
}

pub fn find_class(s: &str, cc: CharClass) -> (r: Option<usize>)
    ensures
        match r {
            Some(i) => 0 <= i < s@.len() && first_in_class(s@, cc) == i,
            None => first_in_class(s@, cc) == -1,
        },
{
    let n = s.unicode_len();
    let mut i: usize = 0;
    while i < n
        invariant
            n == s@.len(),
            i <= n,
            forall|j: int| 0 <= j < i ==> !class_holds(cc, s@[j]),
        decreases n - i,
    {
        if class_match(cc, s.get_char(i)) {
            proof {
                lemma_first_in_class_found(s@, cc, i as int);
            }
            return Some(i);
        }
        i += 1;
    }
    proof {
        lemma_first_in_class_none(s@, cc);
    }
    None
}

/// The fields of `s` split on class `cc`; empty fields are kept, as with
/// `str::split`.
pub open spec fn split_class(s: Seq<char>, cc: CharClass) -> Seq<Seq<char>>
    decreases s.len(),
{
    let i = first_in_class(s, cc);
    if i < 0 {
        seq![s]
    } else {
        proof {
            lemma_first_in_class_in_range(s, cc);
        }
        seq![s.subrange(0, i)] + split_class(s.subrange(i + 1, s.len() as int), cc)
    }
}

pub proof fn lemma_first_in_class_in_range(s: Seq<char>, cc: CharClass)
    ensures
        first_in_class(s, cc) >= 0 ==> first_in_class(s, cc) < s.len(),
    decreases s.len(),
{
    if s.len() > 0 && !class_holds(cc, s[0]) {
        lemma_first_in_class_in_range(s.drop_first(), cc);
    }
}

pub fn split_on(s: &str, cc: CharClass) -> (v: Vec<String>)
    ensures
        views_of(v@) == split_class(s@, cc),
{
    let mut v: Vec<String> = Vec::new();
    let mut pos: usize = 0;
    let n = s.unicode_len();
    proof {
        assert(s@.subrange(0, n as int) =~= s@);
    }
    loop
        invariant
            n == s@.len(),
            pos <= n,
            views_of(v@) + split_class(s@.subrange(pos as int, n as int), cc) =~= split_class(
                s@,
                cc,
            ),
        decreases n - pos + 1,
    {
        let rest = s.substring_char(pos, n);
        match find_class(rest, cc) {
            Some(k) => {
                let field = rest.substring_char(0, k);
                v.push(field.to_owned());
                proof {
                    assert(rest@.subrange(0, k as int) =~= s@.subrange(
                        pos as int,
                        n as int,
                    ).subrange(0, k as int));
                    assert(rest@.subrange(k + 1, rest@.len() as int) =~= s@.subrange(
                        pos + k + 1,
                        n as int,
                    ));
                    assert(views_of(v@) =~= views_of(v@.drop_last()).push(field@));
                }
                pos = pos + k + 1;
            },
            None => {
                v.push(rest.to_owned());
                proof {
                    assert(views_of(v@) =~= views_of(v@.drop_last()).push(rest@));
                    assert(split_class(rest@, cc) =~= seq![rest@]);
                }
                return v;
            },
        }
    }
}

/// The two halves of `s` around the first occurrence of `c`, if any.
pub fn split_once_char(s: &str, c: char) -> (r: Option<(String, String)>)
    ensures
        match r {
            Some(p) => {
                let i = first_in_class(s@, CharClass::Is(c));
                &&& 0 <= i < s@.len()
                &&& p.0@ == s@.subrange(0, i)
                &&& p.1@ == s@.subrange(i + 1, s@.len() as int)
            },
            None => first_in_class(s@, CharClass::Is(c)) == -1,
        },
{
    let n = s.unicode_len();
    match find_class(s, CharClass::Is(c)) {
        Some(i) => {
            let before = s.substring_char(0, i);
            let after = s.substring_char(i + 1, n);
            Some((before.to_owned(), after.to_owned()))
        },
        None => None,
    }
}

/// A line of output: the text up to a `\n`, with a trailing `\r` removed.
pub open spec fn strip_cr(l: Seq<char>) -> Seq<char> {
    if l.len() > 0 && l[l.len() - 1] == '\r' {
        l.drop_last()
    } else {
        l
    }
}

/// The lines of `s`, as `str::lines` yields them: split at `\n`, each line
/// losing a trailing `\r`, with no empty final line after a trailing `\n`.
pub open spec fn split_lines(s: Seq<char>) -> Seq<Seq<char>>
    decreases s.len(),
{
    if s.len() == 0 {
        Seq::empty()
    } else {
        let i = first_in_class(s, CharClass::Is('\n'));
        if i < 0 {
            seq![s]
        } else {
            proof {
                lemma_first_in_class_in_range(s, CharClass::Is('\n'));
            }
            seq![strip_cr(s.subrange(0, i))] + split_lines(s.subrange(i + 1, s.len() as int))
        }
    }
}

pub fn lines_of(s: &str) -> (v: Vec<String>)
    ensures
        views_of(v@) == split_lines(s@),
{
    let mut v: Vec<String> = Vec::new();
    let mut pos: usize = 0;
    let n = s.unicode_len();
    proof {
        assert(s@.subrange(0, n as int) =~= s@);
    }
    loop
        invariant
            n == s@.len(),
            pos <= n,
            views_of(v@) + split_lines(s@.subrange(pos as int, n as int)) =~= split_lines(s@),
        decreases n - pos + 1,
    {
        let rest = s.substring_char(pos, n);
        if rest.unicode_len() == 0 {
            proof {
                assert(split_lines(rest@) =~= Seq::<Seq<char>>::empty());
            }
            return v;
        }
        match find_class(rest, CharClass::Is('\n')) {
            Some(k) => {
                let end = if k > 0 && rest.get_char(k - 1) == '\r' {
                    k - 1
                } else {
                    k
                };
                let line = rest.substring_char(0, end);
                v.push(line.to_owned());
                proof {
                    assert(strip_cr(rest@.subrange(0, k as int)) =~= line@);
                    assert(rest@.subrange(k + 1, rest@.len() as int) =~= s@.subrange(
                        pos + k + 1,
                        n as int,
                    ));
                    assert(views_of(v@) =~= views_of(v@.drop_last()).push(line@));
                }
                pos = pos + k + 1;
            },
            None => {
                v.push(rest.to_owned());
                proof {
                    assert(views_of(v@) =~= views_of(v@.drop_last()).push(rest@));
                    assert(split_lines(rest@) =~= seq![rest@]);
                }
                return v;
            },
        }
    }
}

/// Trimming is idempotent.
pub proof fn lemma_trim_idem(s: Seq<char>)
    ensures
        trim_spec(trim_spec(s)) == trim_spec(s),
{
    lemma_leading_spaces_bound(s);
    lemma_trailing_spaces_bound(s);
    let t = trim_spec(s);
    if t.len() == 0 {
        lemma_leading_spaces_is(t, 0);
        lemma_trailing_spaces_is(t, 0);
        assert(t.subrange(0, 0) =~= t);
    } else {
        assert(!is_space_char(t[0]));
        assert(!is_space_char(t[t.len() - 1]));
        lemma_leading_spaces_is(t, 0);
        lemma_trailing_spaces_is(t, 0);
        assert(t.subrange(0, t.len() as int) =~= t);
    }
}

/// Concatenation with a fixed head is injective.
pub proof fn lemma_concat_inj(a: Seq<char>, b: Seq<char>, c: Seq<char>)
    requires
        a + b == a + c,
    ensures
        b == c,
{
    assert((a + b).len() == a.len() + b.len());
    assert((a + c).len() == a.len() + c.len());
    assert(b.len() == c.len());
    assert forall|k: int| 0 <= k < b.len() implies b[k] == c[k] by {
        assert((a + b)[a.len() + k] == b[k]);
        assert((a + c)[a.len() + k] == c[k]);
    }
    assert(b =~= c);
}

/// The parts joined with `sep` between consecutive parts.
pub open spec fn join_seq(parts: Seq<Seq<char>>, sep: Seq<char>) -> Seq<char>
    decreases parts.len(),
{
    if parts.len() == 0 {
        Seq::empty()
    } else if parts.len() == 1 {
        parts[0]
    } else {
        parts[0] + sep + join_seq(parts.drop_first(), sep)
    }
}

pub proof fn lemma_join_push(parts: Seq<Seq<char>>, sep: Seq<char>, x: Seq<char>)
    ensures
        parts.len() == 0 ==> join_seq(parts.push(x), sep) == x,
        parts.len() > 0 ==> join_seq(parts.push(x), sep) =~= join_seq(parts, sep) + sep + x,
    decreases parts.len(),
{
    if parts.len() == 0 {
        assert(parts.push(x)[0] =~= x);
    } else if parts.len() == 1 {
        assert(parts.push(x).drop_first() =~= seq![x]);
        assert(parts.push(x)[0] == parts[0]);
        assert(join_seq(seq![x], sep) == x);
        assert(join_seq(parts.push(x), sep) =~= parts[0] + sep + x);
    } else {
        lemma_join_push(parts.drop_first(), sep, x);
        assert(parts.push(x).drop_first() =~= parts.drop_first().push(x));
    }
}

pub fn join_strings(v: &Vec<String>, sep: &str) -> (r: String)
    ensures
        r@ == join_seq(views_of(v@), sep@),
{
    let mut acc = String::new();
    let mut i: usize = 0;
    while i < v.len()
        invariant
            i <= v@.len(),
            acc@ =~= join_seq(views_of(v@).subrange(0, i as int), sep@),
        decreases v@.len() - i,
    {
        if i > 0 {
            acc.append(sep);
        }
        acc.append(v[i].as_str());
        proof {
            let pre = views_of(v@).subrange(0, i as int);
            assert(views_of(v@).subrange(0, i + 1) =~= pre.push(v@[i as int]@));
            lemma_join_push(pre, sep@, v@[i as int]@);
        }
        i += 1;
    }
    proof {
        assert(views_of(v@).subrange(0, v@.len() as int) =~= views_of(v@));
    }
    acc
}

/// Numeric value of a string of decimal digits.
pub open spec fn dec_value(s: Seq<char>) -> nat
    decreases s.len(),
{
    if s.len() == 0 {
        0
    } else {
        dec_value(s.drop_last()) * 10 + digit_val(s[s.len() - 1])
    }
}

/// Value of a decimal digit; 0 for any other character.
pub open spec fn digit_val(c: char) -> nat {
    if is_digit_char(c) {
        (c as u32 - '0' as u32) as nat
    } else {
        0
    }
}

pub open spec fn all_digits(s: Seq<char>) -> bool {
    forall|j: int| 0 <= j < s.len() ==> is_digit_char(s[j])
}

proof fn lemma_dec_value_grows(s: Seq<char>, i: int)
    requires
        0 <= i <= s.len(),
    ensures
        dec_value(s.subrange(0, i)) <= dec_value(s),
    decreases s.len() - i,
{
    if i < s.len() {
        lemma_dec_value_grows(s.subrange(0, s.len() - 1), i);
        assert(s.subrange(0, s.len() - 1).subrange(0, i) =~= s.subrange(0, i));
        assert(s.drop_last() =~= s.subrange(0, s.len() - 1));
    } else {
        assert(s.subrange(0, i) =~= s);
    }
}

/// Parses an unsigned decimal number, failing on empty input, a non-digit,
/// or overflow — as `str::parse::<u64>` does, except that a leading `+` is
/// not accepted.
pub fn parse_u64(s: &str) -> (r: Option<u64>)
    ensures
        match r {
            Some(v) => s@.len() > 0 && all_digits(s@) && v == dec_value(s@) && dec_value(s@)
                <= u64::MAX,
            None => s@.len() == 0 || !all_digits(s@) || dec_value(s@) > u64::MAX,
        },
{
    let n = s.unicode_len();
    if n == 0 {
        return None;
    }
    let mut acc: u64 = 0;
    let mut i: usize = 0;
    while i < n
        invariant
            n == s@.len(),
            i <= n,
            all_digits(s@.subrange(0, i as int)),
            acc == dec_value(s@.subrange(0, i as int)),
        decreases n - i,
    {
        let c = s.get_char(i);
        if !is_digit(c) {
            return None;
        }
        let d: u64 = (c as u32 - '0' as u32) as u64;
        if acc > (u64::MAX - d) / 10 {
            proof {
                let pre = s@.subrange(0, i + 1);
                assert(pre.drop_last() =~= s@.subrange(0, i as int));
                assert(dec_value(pre) == acc * 10 + d);
                assert(acc * 10 + d > u64::MAX) by (nonlinear_arith)
                    requires
                        acc > (u64::MAX - d) / 10,
                        d <= 9,
                ;
                lemma_dec_value_grows(s@, i + 1);
            }
            return None;
        }
        proof {
            assert(acc * 10 + d <= u64::MAX) by (nonlinear_arith)
                requires
                    acc <= (u64::MAX - d) / 10,
                    d <= 9,
            ;
            let pre = s@.subrange(0, i + 1);
            assert(pre.drop_last() =~= s@.subrange(0, i as int));
            assert(pre[pre.len() - 1] == s@[i as int]);
        }
        acc = acc * 10 + d;
        i += 1;
    }
    proof {
        assert(s@.subrange(0, n as int) =~= s@);
    }
    Some(acc)
}

/// `parse_u64` restricted to values that fit in `usize`.
pub fn parse_usize(s: &str) -> (r: Option<usize>)
    ensures
        match r {
            Some(v) => s@.len() > 0 && all_digits(s@) && v == dec_value(s@) && dec_value(s@)
                <= usize::MAX,
            None => s@.len() == 0 || !all_digits(s@) || dec_value(s@) > usize::MAX,
        },
{
    match parse_u64(s) {
        Some(v) => {
            if v <= usize::MAX as u64 {
                Some(v as usize)
            } else {
                None
            }
        },
        None => None,
    }
}

pub open spec fn digit_char(d: nat) -> char {
    (('0' as u8) + d) as char
}

/// Decimal digits of `n`, most significant first.
pub open spec fn dec_digits(n: nat) -> Seq<char>
    decreases n,
{
    if n < 10 {
        seq![digit_char(n)]
    } else {
        dec_digits(n / 10) + seq![digit_char(n % 10)]
    }
}

pub fn fmt_u64(n: u64) -> (r: String)
    ensures
        r@ == dec_digits(n as nat),
    decreases n,
{
    if n < 10 {
        let mut s = String::new();
        s.push((48u8 + n as u8) as char);
        proof {
            assert(s@ =~= seq![digit_char(n as nat)]);
        }
        s
    } else {
        let mut s = fmt_u64(n / 10);
        s.push((48u8 + (n % 10) as u8) as char);
        proof {
            assert(s@ =~= dec_digits((n / 10) as nat) + seq![digit_char((n % 10) as nat)]);
        }
        s
    }
}

/// Decimal form of an `i32`, with a leading `-` when negative.
pub open spec fn dec_digits_i32(n: int) -> Seq<char> {
    if n >= 0 {
        dec_digits(n as nat)
    } else {
        seq!['-'] + dec_digits((-n) as nat)
    }
}

pub fn fmt_i32(n: i32) -> (r: String)
    ensures
        r@ == dec_digits_i32(n as int),
{
    if n >= 0 {
        fmt_u64(n as u64)
    } else {
        let mag: u64 = -(n as i64) as u64;
        let mut s = String::new();
        s.push('-');
        let digits = fmt_u64(mag);
        let r = s.concat(digits.as_str());
        proof {
            assert(r@ =~= seq!['-'] + dec_digits((-(n as int)) as nat));
        }
        r
    }
}

pub open spec fn lower_char(c: char) -> char {
    if 'A' <= c && c <= 'Z' {
        ((c as u8) + 32) as char
    } else {
        c
    }
}

pub open spec fn lower_seq(s: Seq<char>) -> Seq<char> {
    s.map_values(|c: char| lower_char(c))
}

pub fn char_lower(c: char) -> (r: char)
    ensures
        r == lower_char(c),
{
    if 'A' <= c && c <= 'Z' {
        ((c as u8) + 32) as char
    } else {
        c
    }
}

/// ASCII lowercasing: `A`–`Z` are mapped down, everything else is kept.
pub fn to_ascii_lower(s: &str) -> (r: String)
    ensures
        r@ == lower_seq(s@),
{
    let n = s.unicode_len();
    let mut out = String::new();
    let mut i: usize = 0;
    while i < n
        invariant
            n == s@.len(),
            i <= n,
            out@ =~= lower_seq(s@.subrange(0, i as int)),
        decreases n - i,
    {
        out.push(char_lower(s.get_char(i)));
        proof {
            assert(lower_seq(s@.subrange(0, i + 1)) =~= lower_seq(
                s@.subrange(0, i as int),
            ).push(lower_char(s@[i as int])));
        }
        i += 1;
    }
    proof {
        assert(s@.subrange(0, n as int) =~= s@);
    }
    out
}

/// Strict lexicographic order on character sequences, by code point — the
/// order `Ord` on `String` gives, since UTF-8 preserves it.
pub open spec fn lex_lt(a: Seq<char>, b: Seq<char>) -> bool
    decreases a.len(),
{
    if b.len() == 0 {
        false
    } else if a.len() == 0 {
        true
    } else if a[0] != b[0] {
        (a[0] as u32) < (b[0] as u32)
    } else {
        lex_lt(a.drop_first(), b.drop_first())
    }
}

pub open spec fn lex_le(a: Seq<char>, b: Seq<char>) -> bool {
    lex_lt(a, b) || a == b
}

pub proof fn lemma_lex_lt_total(a: Seq<char>, b: Seq<char>)
    ensures
        lex_lt(a, b) || lex_lt(b, a) || a == b,
        !(lex_lt(a, b) && lex_lt(b, a)),
    decreases a.len(),
{
    if a.len() > 0 && b.len() > 0 && a[0] == b[0] {
        lemma_lex_lt_total(a.drop_first(), b.drop_first());
        if a.drop_first() == b.drop_first() {
            assert forall|k: int| 0 <= k < a.len() implies a[k] == b[k] by {
                if k > 0 {
                    assert(a.drop_first()[k - 1] == b.drop_first()[k - 1]);
                }
            }
            assert(a =~= b);
        }
    } else if a.len() == 0 && b.len() == 0 {
        assert(a =~= b);
    } else if a.len() > 0 && b.len() > 0 {
        assert((a[0] as u32) != (b[0] as u32)) by {
            vstd::utf8::char_u32_cast(a[0], a[0] as u32);
            vstd::utf8::char_u32_cast(b[0], b[0] as u32);
        }
    }
}

/// Characterizes `lex_lt` after agreeing on a common prefix of length `i`.
pub proof fn lemma_lex_lt_at(a: Seq<char>, b: Seq<char>, i: int)
    requires
        0 <= i <= a.len(),
        i <= b.len(),
        forall|j: int| 0 <= j < i ==> a[j] == b[j],
    ensures
        lex_lt(a, b) == {
            if i < a.len() && i < b.len() && a[i] != b[i] {
                (a[i] as u32) < (b[i] as u32)
            } else if i == a.len() {
                a.len() < b.len() || lex_lt(Seq::empty(), b.subrange(i, b.len() as int))
            } else {
                lex_lt(a.subrange(i, a.len() as int), b.subrange(i, b.len() as int))
            }
        },
    decreases i,
{
    if i == 0 {
        assert(a.subrange(0, a.len() as int) =~= a);
        assert(b.subrange(0, b.len() as int) =~= b);
    } else {
        assert(a.len() > 0 && b.len() > 0 && a[0] == b[0]);
        lemma_lex_lt_at(a.drop_first(), b.drop_first(), i - 1);
        assert(a.drop_first().subrange(i - 1, a.drop_first().len() as int) =~= a.subrange(
            i,
            a.len() as int,
        ));
        assert(b.drop_first().subrange(i - 1, b.drop_first().len() as int) =~= b.subrange(
            i,
            b.len() as int,
        ));
    }
}

pub proof fn lemma_lex_lt_trans(a: Seq<char>, b: Seq<char>, c: Seq<char>)
    requires
        lex_lt(a, b),
        lex_lt(b, c),
    ensures
        lex_lt(a, c),
    decreases a.len(),
{
    if a.len() > 0 && b.len() > 0 && c.len() > 0 && a[0] == b[0] && b[0] == c[0] {
        lemma_lex_lt_trans(a.drop_first(), b.drop_first(), c.drop_first());
    }
}

/// `lex_le` is a total order.
pub proof fn lemma_lex_le_order(a: Seq<char>, b: Seq<char>, c: Seq<char>)
    ensures
        lex_le(a, b) || lex_le(b, a),
        lex_le(a, b) && lex_le(b, c) ==> lex_le(a, c),
        lex_le(a, b) && lex_le(b, a) ==> a == b,
{
    lemma_lex_lt_total(a, b);
    lemma_lex_lt_total(b, c);
    lemma_lex_lt_total(a, c);
    if lex_lt(a, b) && lex_lt(b, c) {
        lemma_lex_lt_trans(a, b, c);
    }
}

pub fn str_lt(a: &str, b: &str) -> (r: bool)
    ensures
        r == lex_lt(a@, b@),
{
    let an = a.unicode_len();
    let bn = b.unicode_len();
    let mut i: usize = 0;
    loop
        invariant
            an == a@.len(),
            bn == b@.len(),
            i <= an,
            i <= bn,
            forall|j: int| 0 <= j < i ==> a@[j] == b@[j],
        decreases an - i,
    {
        if i == an {
            proof {
                lemma_lex_lt_at(a@, b@, i as int);
            }
            return an < bn;
        }
        if i == bn {
            proof {
                lemma_lex_lt_at(a@, b@, i as int);
                assert(b@.subrange(i as int, b@.len() as int).len() == 0);
            }
            return false;
        }
        let ca = a.get_char(i);
        let cb = b.get_char(i);
        if ca != cb {
            proof {
                lemma_lex_lt_at(a@, b@, i as int);
            }
            return (ca as u32) < (cb as u32);
        }
        i += 1;
    }
}

pub fn str_le(a: &str, b: &str) -> (r: bool)
    ensures
        r == lex_le(a@, b@),
{
    let lt = str_lt(a, b);
    if lt {
        true
    } else {
        let eq = str_eq(a, b);
        proof {
            lemma_lex_lt_total(a@, b@);
        }
        eq
    }
}

pub fn trim_end(s: &str) -> (r: &str)
    ensures
        r@ == trim_end_spec(s@),
{
    let n = s.unicode_len();
    let mut b: usize = n;
    while b > 0
        invariant
            n == s@.len(),
            b <= n,
            forall|j: int| b <= j < n ==> is_space_char(s@[j]),
        decreases b,
    {
        if !is_space(s.get_char(b - 1)) {
            proof {
                lemma_trailing_spaces_is(s@, (n - b) as int);
            }
            return s.substring_char(0, b);
        }
        b -= 1;
    }
    proof {
        lemma_trailing_spaces_is(s@, n as int);
    }
    s.substring_char(0, 0)
}

} // verus!
