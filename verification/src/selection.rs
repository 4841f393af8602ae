//! Parses the interactive action-selection reply: `all`, `none`, or a
//! 1-based list of numbers and ranges such as `1,3-5`.

use vstd::prelude::*;
use crate::text::{
    all_digits, dec_value, fmt_u64, split_class, split_on, str_eq, to_ascii_lower, trim,
    trim_spec, lower_seq, views_of, CharClass, split_once_char, first_in_class, parse_usize,
};

verus! {

/// What the user chose: everything, nothing, or the 0-based indices of
/// the selected actions in ascending order.
#[derive(Debug, Clone, PartialEq, Eq)]
pub enum Selection {
    All,
    Nothing,
    Indices(Vec<usize>),
}

/// Ghost model of a selection error: the variant with the offending
/// token, and for a range overflow the bound it exceeded.
pub enum SelErrModel {
    BadRangeStart(Seq<char>),
    BadRangeEnd(Seq<char>),
    ZeroIndex(Seq<char>),
    Backwards(Seq<char>),
    OutOfRange(Seq<char>, nat),
    BadIndex(Seq<char>),
    NothingSelected,
}

#[derive(Debug, Clone, PartialEq, Eq)]
pub enum SelectionError {
    BadRangeStart { token: String },
    BadRangeEnd { token: String },
    ZeroIndex { token: String },
    Backwards { token: String },
    OutOfRange { token: String, max: usize },
    BadIndex { token: String },
    NothingSelected,
}

impl SelectionError {
    pub open spec fn model(self) -> SelErrModel {
        match self {
            SelectionError::BadRangeStart { token } => SelErrModel::BadRangeStart(token@),
            SelectionError::BadRangeEnd { token } => SelErrModel::BadRangeEnd(token@),
            SelectionError::ZeroIndex { token } => SelErrModel::ZeroIndex(token@),
            SelectionError::Backwards { token } => SelErrModel::Backwards(token@),
            SelectionError::OutOfRange { token, max } => SelErrModel::OutOfRange(
                token@,
                max as nat,
            ),
            SelectionError::BadIndex { token } => SelErrModel::BadIndex(token@),
            SelectionError::NothingSelected => SelErrModel::NothingSelected,
        }
    }

    /// A complete sentence naming the offending token.
    pub fn message(&self) -> (m: String)
        ensures
            m@ == sel_error_message(self.model()),
    {
        match self {
            SelectionError::BadRangeStart { token } => {
                let mut m = String::from_str("invalid range start: ");
                m.append(token.as_str());
                proof {
                    assert(m@ =~= "invalid range start: "@ + token@);
                }
                m
            },
            SelectionError::BadRangeEnd { token } => {
                let mut m = String::from_str("invalid range end: ");
                m.append(token.as_str());
                proof {
                    assert(m@ =~= "invalid range end: "@ + token@);
                }
                m
            },
            SelectionError::ZeroIndex { token } => {
                let mut m = String::from_str("selection is 1-based (0 is not allowed): ");
                m.append(token.as_str());
                proof {
                    assert(m@ =~= "selection is 1-based (0 is not allowed): "@ + token@);
                }
                m
            },
            SelectionError::Backwards { token } => {
                let mut m = String::from_str("invalid range (start > end): ");
                m.append(token.as_str());
                proof {
                    assert(m@ =~= "invalid range (start > end): "@ + token@);
                }
                m
            },
            SelectionError::OutOfRange { token, max } => {
                let mut m = String::from_str("selection out of range (max ");
                let digits = fmt_u64(*max as u64);
                m.append(digits.as_str());
                m.append("): ");
                m.append(token.as_str());
                proof {
                    assert(m@ =~= "selection out of range (max "@ + crate::text::dec_digits(
                        *max as nat,
                    ) + "): "@ + token@);
                }
                m
            },
            SelectionError::BadIndex { token } => {
                let mut m = String::from_str("invalid selection: ");
                m.append(token.as_str());
                proof {
                    assert(m@ =~= "invalid selection: "@ + token@);
                }
                m
            },
            SelectionError::NothingSelected => {
                String::from_str("no actions selected ('all' or 'none' are accepted)")
            },
        }
    }
}

pub open spec fn sel_error_message(e: SelErrModel) -> Seq<char> {
    match e {
        SelErrModel::BadRangeStart(t) => "invalid range start: "@ + t,
        SelErrModel::BadRangeEnd(t) => "invalid range end: "@ + t,
        SelErrModel::ZeroIndex(t) => "selection is 1-based (0 is not allowed): "@ + t,
        SelErrModel::Backwards(t) => "invalid range (start > end): "@ + t,
        SelErrModel::OutOfRange(t, m) => "selection out of range (max "@ + crate::text::dec_digits(
            m,
        ) + "): "@ + t,
        SelErrModel::BadIndex(t) => "invalid selection: "@ + t,
        SelErrModel::NothingSelected => "no actions selected ('all' or 'none' are accepted)"@,
    }
}

/// A numeral as `str::parse::<usize>` accepts it here: an optional `+`,
/// then digits, with a value that fits.
pub open spec fn strip_plus(s: Seq<char>) -> Seq<char> {
    if s.len() > 0 && s[0] == '+' {
        s.drop_first()
    } else {
        s
    }
}

pub open spec fn is_num(s: Seq<char>) -> bool {
    let d = strip_plus(s);
    d.len() > 0 && all_digits(d) && dec_value(d) <= usize::MAX
}

pub open spec fn num_val(s: Seq<char>) -> nat {
    dec_value(strip_plus(s))
}

fn parse_num(s: &str) -> (r: Option<usize>)
    ensures
        match r {
            Some(v) => is_num(s@) && v as nat == num_val(s@),
            None => !is_num(s@),
        },
{
    let n = s.unicode_len();
    if n > 0 && s.get_char(0) == '+' {
        let rest = s.substring_char(1, n);
        proof {
            assert(rest@ =~= s@.drop_first());
        }
        parse_usize(rest)
    } else {
        parse_usize(s)
    }
}

/// What one comma- or space-separated token contributes.
pub enum TokenOutcome {
    /// An empty token: contributes nothing.
    Skip,
    /// The 1-based inclusive range it selects.
    Range(nat, nat),
    /// The first thing wrong with it.
    Reject(SelErrModel),
}

/// The verdict on one token of the lowercased input against `max`
/// available actions.
pub open spec fn token_outcome(t: Seq<char>, max: nat) -> TokenOutcome {
    if t.len() == 0 {
        TokenOutcome::Skip
    } else if first_in_class(t, CharClass::Is('-')) >= 0 {
        let i = first_in_class(t, CharClass::Is('-'));
        let a = t.subrange(0, i);
        let b = t.subrange(i + 1, t.len() as int);
        if !is_num(a) {
            TokenOutcome::Reject(SelErrModel::BadRangeStart(t))
        } else if !is_num(b) {
            TokenOutcome::Reject(SelErrModel::BadRangeEnd(t))
        } else if num_val(a) == 0 || num_val(b) == 0 {
            TokenOutcome::Reject(SelErrModel::ZeroIndex(t))
        } else if num_val(a) > num_val(b) {
            TokenOutcome::Reject(SelErrModel::Backwards(t))
        } else if num_val(b) > max {
            TokenOutcome::Reject(SelErrModel::OutOfRange(t, max))
        } else {
            TokenOutcome::Range(num_val(a), num_val(b))
        }
    } else {
        if !is_num(t) {
            TokenOutcome::Reject(SelErrModel::BadIndex(t))
        } else if num_val(t) == 0 {
            TokenOutcome::Reject(SelErrModel::ZeroIndex(t))
        } else if num_val(t) > max {
            TokenOutcome::Reject(SelErrModel::OutOfRange(t, max))
        } else {
            TokenOutcome::Range(num_val(t), num_val(t))
        }
    }
}

/// The 0-based indices a 1-based inclusive range selects.
pub open spec fn range_marks(a: nat, b: nat) -> Set<int> {
    Set::new(|k: int| a - 1 <= k < b)
}

/// Folding all tokens left to right: the first rejected token wins;
/// otherwise the union of everything selected.
pub enum TokensOutcome {
    Chosen(Set<int>),
    Rejected(SelErrModel),
}

pub open spec fn tokens_outcome(tokens: Seq<Seq<char>>, max: nat) -> TokensOutcome
    decreases tokens.len(),
{
    if tokens.len() == 0 {
        TokensOutcome::Chosen(Set::empty())
    } else {
        match token_outcome(tokens[0], max) {
            TokenOutcome::Reject(e) => TokensOutcome::Rejected(e),
            TokenOutcome::Skip => tokens_outcome(tokens.drop_first(), max),
            TokenOutcome::Range(a, b) => match tokens_outcome(tokens.drop_first(), max) {
                TokensOutcome::Rejected(e) => TokensOutcome::Rejected(e),
                TokensOutcome::Chosen(s) => TokensOutcome::Chosen(s.union(range_marks(a, b))),
            },
        }
    }
}

/// The words that mean "everything" and "nothing".
pub open spec fn means_all(s: Seq<char>) -> bool {
    s == "all"@ || s == "*"@
}

pub open spec fn means_none(s: Seq<char>) -> bool {
    s == "none"@ || s == "no"@ || s == "n"@ || s == "q"@ || s == "quit"@
}

/// Ghost model of the whole parse.
pub enum SelectionModel {
    MAll,
    MNone,
    MChosen(Set<int>),
    MErr(SelErrModel),
}

/// The full parse: nothing to select short-circuits to `none`; an empty
/// reply means `all`; the keyword sets are matched on the lowercased
/// trimmed reply; anything else is read as numbers and ranges, and a
/// selection that names no action at all is an error.
pub open spec fn selection_spec(input: Seq<char>, max: nat) -> SelectionModel {
    if max == 0 {
        SelectionModel::MNone
    } else {
        let t = trim_spec(input);
        if t.len() == 0 {
            SelectionModel::MAll
        } else {
            let s = lower_seq(t);
            if means_all(s) {
                SelectionModel::MAll
            } else if means_none(s) {
                SelectionModel::MNone
            } else {
                match tokens_outcome(split_class(s, CharClass::CommaOrSpace), max) {
                    TokensOutcome::Rejected(e) => SelectionModel::MErr(e),
                    TokensOutcome::Chosen(set) => {
                        if set.is_empty() {
                            SelectionModel::MErr(SelErrModel::NothingSelected)
                        } else {
                            SelectionModel::MChosen(set)
                        }
                    },
                }
            }
        }
    }
}


/// The indices one token contributes when it is not rejected.
pub open spec fn token_marks(t: Seq<char>, max: nat) -> Set<int> {
    match token_outcome(t, max) {
        TokenOutcome::Range(a, b) => range_marks(a, b),
        _ => Set::empty(),
    }
}

/// Everything the tokens select, ignoring rejections.
pub open spec fn marks_union(tokens: Seq<Seq<char>>, max: nat) -> Set<int>
    decreases tokens.len(),
{
    if tokens.len() == 0 {
        Set::empty()
    } else {
        token_marks(tokens[0], max).union(marks_union(tokens.drop_first(), max))
    }
}

proof fn lemma_tokens_outcome_first_reject(tokens: Seq<Seq<char>>, max: nat, i: int)
    requires
        0 <= i < tokens.len(),
        forall|j: int| 0 <= j < i ==> !(token_outcome(#[trigger] tokens[j], max) is Reject),
        token_outcome(tokens[i], max) is Reject,
    ensures
        tokens_outcome(tokens, max) == TokensOutcome::Rejected(
            token_outcome(tokens[i], max)->Reject_0,
        ),
    decreases i,
{
    if i > 0 {
        lemma_tokens_outcome_first_reject(tokens.drop_first(), max, i - 1);
    }
}

proof fn lemma_tokens_outcome_all_ok(tokens: Seq<Seq<char>>, max: nat)
    requires
        forall|j: int| 0 <= j < tokens.len() ==> !(token_outcome(#[trigger] tokens[j], max)
            is Reject),
    ensures
        tokens_outcome(tokens, max) == TokensOutcome::Chosen(marks_union(tokens, max)),
    decreases tokens.len(),
{
    if tokens.len() > 0 {
        lemma_tokens_outcome_all_ok(tokens.drop_first(), max);
        match token_outcome(tokens[0], max) {
            TokenOutcome::Skip => {
                assert(token_marks(tokens[0], max) =~= Set::<int>::empty());
                assert(marks_union(tokens, max) =~= marks_union(tokens.drop_first(), max));
            },
            TokenOutcome::Range(a, b) => {
                assert(marks_union(tokens.drop_first(), max).union(range_marks(a, b))
                    =~= marks_union(tokens, max));
            },
            TokenOutcome::Reject(_) => {},
        }
    }
}

/// Parses the reply, exactly as [`selection_spec`] says; a returned index
/// list is strictly ascending and lists exactly the chosen set.
pub fn parse_selection(input: &str, max: usize) -> (r: Result<Selection, SelectionError>)
    ensures
        match r {
            Ok(Selection::All) => selection_spec(input@, max as nat) is MAll,
            Ok(Selection::Nothing) => selection_spec(input@, max as nat) is MNone,
            Ok(Selection::Indices(v)) => {
                &&& selection_spec(input@, max as nat) is MChosen
                &&& forall|k: int| selection_spec(input@, max as nat)->MChosen_0.contains(k)
                    <==> v@.map_values(|u: usize| u as int).contains(k)
                &&& forall|j1: int, j2: int| 0 <= j1 < j2 < v@.len() ==> v@[j1] < v@[j2]
            },
            Err(e) => selection_spec(input@, max as nat) == SelectionModel::MErr(e.model()),
        },
{
    if max == 0 {
        return Ok(Selection::Nothing);
    }
    let t = trim(input);
    if t.unicode_len() == 0 {
        return Ok(Selection::All);
    }
    let s = to_ascii_lower(t);
    let ss = s.as_str();
    if str_eq(ss, "all") || str_eq(ss, "*") {
        return Ok(Selection::All);
    }
    if str_eq(ss, "none") || str_eq(ss, "no") || str_eq(ss, "n") || str_eq(ss, "q") || str_eq(
        ss,
        "quit",
    ) {
        return Ok(Selection::Nothing);
    }

    let tokens = split_on(ss, CharClass::CommaOrSpace);
    let ghost tv = views_of(tokens@);
    let ghost smax = max as nat;
    proof {
        assert(tv == split_class(lower_seq(trim_spec(input@)), CharClass::CommaOrSpace));
    }

    let mut selected: Vec<bool> = Vec::new();
    let mut z: usize = 0;
    while z < max
        invariant
            z <= max,
            selected@.len() == z,
            forall|x: int| 0 <= x < z ==> !selected@[x],
        decreases max - z,
    {
        selected.push(false);
        z += 1;
    }

    let mut i: usize = 0;
    let ghost mut acc: Set<int> = Set::empty();
    proof {
        assert(tv.subrange(0, tv.len() as int) =~= tv);
        assert(acc.union(marks_union(tv, smax)) =~= marks_union(tv, smax));
    }
    while i < tokens.len()
        invariant
            tv == views_of(tokens@),
            smax == max as nat,
            max > 0,
            i <= tokens@.len(),
            selected@.len() == max,
            tv == split_class(lower_seq(trim_spec(input@)), CharClass::CommaOrSpace),
            trim_spec(input@).len() > 0,
            !means_all(lower_seq(trim_spec(input@))),
            !means_none(lower_seq(trim_spec(input@))),
            forall|x: int| 0 <= x < max ==> selected@[x] == acc.contains(x),
            forall|x: int| acc.contains(x) ==> 0 <= x < max,
            forall|j: int| 0 <= j < i ==> !(token_outcome(#[trigger] tv[j], smax) is Reject),
            marks_union(tv, smax) == acc.union(
                marks_union(tv.subrange(i as int, tv.len() as int), smax),
            ),
        decreases tokens@.len() - i,
    {
        proof {
            assert(tv.subrange(i as int, tv.len() as int)[0] == tv[i as int]);
            assert(tv.subrange(i as int, tv.len() as int).drop_first() =~= tv.subrange(
                i + 1,
                tv.len() as int,
            ));
            assert(tv[i as int] == tokens@[i as int]@);
        }
        let ghost rest_here = marks_union(tv.subrange(i as int, tv.len() as int), smax);
        let ghost rest_next = marks_union(tv.subrange(i + 1, tv.len() as int), smax);
        let token = tokens[i].as_str();
        let tn = token.unicode_len();
        if tn == 0 {
            proof {
                assert(token_marks(tv[i as int], smax) =~= Set::<int>::empty());
                assert(rest_here =~= rest_next);
            }
            i += 1;
            continue ;
        }
        match split_once_char(token, '-') {
            Some(pair) => {
                let (astr, bstr) = pair;
                let a = match parse_num(astr.as_str()) {
                    Some(v) => v,
                    None => {
                        proof {
                            lemma_tokens_outcome_first_reject(tv, smax, i as int);
                        }
                        return Err(SelectionError::BadRangeStart { token: token.to_owned() });
                    },
                };
                let b = match parse_num(bstr.as_str()) {
                    Some(v) => v,
                    None => {
                        proof {
                            lemma_tokens_outcome_first_reject(tv, smax, i as int);
                        }
                        return Err(SelectionError::BadRangeEnd { token: token.to_owned() });
                    },
                };
                if a == 0 || b == 0 {
                    proof {
                        lemma_tokens_outcome_first_reject(tv, smax, i as int);
                    }
                    return Err(SelectionError::ZeroIndex { token: token.to_owned() });
                }
                if a > b {
                    proof {
                        lemma_tokens_outcome_first_reject(tv, smax, i as int);
                    }
                    return Err(SelectionError::Backwards { token: token.to_owned() });
                }
                if b > max {
                    proof {
                        lemma_tokens_outcome_first_reject(tv, smax, i as int);
                    }
                    return Err(SelectionError::OutOfRange { token: token.to_owned(), max });
                }
                let ghost acc0 = acc;
                let mut w: usize = a - 1;
                proof {
                    assert(acc0.union(
                        range_marks(a as nat, b as nat).intersect(Set::new(|k: int| k < w)),
                    ) =~= acc0);
                    acc = acc0;
                }
                while w < b
                    invariant
                        1 <= a,
                        a - 1 <= w <= b,
                        b <= max,
                        selected@.len() == max,
                        forall|x: int| 0 <= x < max ==> selected@[x] == acc.contains(x),
                        forall|x: int| acc.contains(x) ==> 0 <= x < max,
                        acc == acc0.union(
                            range_marks(a as nat, b as nat).intersect(Set::new(|k: int| k < w)),
                        ),
                    decreases b - w,
                {
                    selected[w] = true;
                    proof {
                        acc = acc.insert(w as int);
                        assert(acc0.union(
                            range_marks(a as nat, b as nat).intersect(
                                Set::new(|k: int| k < w + 1),
                            ),
                        ) =~= acc);
                    }
                    w += 1;
                }
                proof {
                    assert(range_marks(a as nat, b as nat).intersect(Set::new(|k: int| k < b))
                        =~= range_marks(a as nat, b as nat));
                    assert(acc =~= acc0.union(range_marks(a as nat, b as nat)));
                    assert(token_marks(tv[i as int], smax) == range_marks(a as nat, b as nat));
                    assert(rest_here == token_marks(tv[i as int], smax).union(rest_next));
                    assert(acc0.union(rest_here) =~= acc.union(rest_next));
                }
            },
            None => {
                let v = match parse_num(token) {
                    Some(v) => v,
                    None => {
                        proof {
                            lemma_tokens_outcome_first_reject(tv, smax, i as int);
                        }
                        return Err(SelectionError::BadIndex { token: token.to_owned() });
                    },
                };
                if v == 0 {
                    proof {
                        lemma_tokens_outcome_first_reject(tv, smax, i as int);
                    }
                    return Err(SelectionError::ZeroIndex { token: token.to_owned() });
                }
                if v > max {
                    proof {
                        lemma_tokens_outcome_first_reject(tv, smax, i as int);
                    }
                    return Err(SelectionError::OutOfRange { token: token.to_owned(), max });
                }
                selected[v - 1] = true;
                proof {
                    let acc0 = acc;
                    acc = acc.insert(v - 1 as int);
                    assert(acc0.union(range_marks(v as nat, v as nat)) =~= acc);
                    assert(token_marks(tv[i as int], smax) == range_marks(v as nat, v as nat));
                    assert(rest_here == token_marks(tv[i as int], smax).union(rest_next));
                    assert(acc0.union(rest_here) =~= acc.union(rest_next));
                }
            },
        }
        i += 1;
    }
    proof {
        assert(tv.subrange(tv.len() as int, tv.len() as int) =~= Seq::<Seq<char>>::empty());
        assert(acc.union(Set::<int>::empty()) =~= acc);
        lemma_tokens_outcome_all_ok(tv, smax);
        assert(tokens_outcome(tv, smax) == TokensOutcome::Chosen(acc));
    }

    let mut indices: Vec<usize> = Vec::new();
    let mut x: usize = 0;
    while x < max
        invariant
            x <= max,
            smax == max as nat,
            max > 0,
            selected@.len() == max,
            selection_spec(input@, smax) == (if acc.is_empty() {
                SelectionModel::MErr(SelErrModel::NothingSelected)
            } else {
                SelectionModel::MChosen(acc)
            }),
            forall|k: int| 0 <= k < max ==> selected@[k] == acc.contains(k),
            forall|k: int| acc.contains(k) ==> 0 <= k < max,
            forall|j: int| 0 <= j < indices@.len() ==> 0 <= #[trigger] indices@[j] < x,
            forall|j1: int, j2: int| 0 <= j1 < j2 < indices@.len() ==> indices@[j1]
                < indices@[j2],
            forall|k: int| 0 <= k < x ==> (acc.contains(k) <==> indices@.map_values(
                |u: usize| u as int,
            ).contains(k)),
        decreases max - x,
    {
        if selected[x] {
            let ghost m_old = indices@.map_values(|u: usize| u as int);
            indices.push(x);
            proof {
                let m = indices@.map_values(|u: usize| u as int);
                assert(m[m.len() - 1] == x as int);
                assert(m.drop_last() =~= m_old);
                assert forall|k: int| 0 <= k < x + 1 implies (acc.contains(k) <==> m.contains(
                    k,
                )) by {
                    if k < x {
                        if acc.contains(k) {
                            assert(m_old.contains(k));
                            let j = choose|j: int| 0 <= j < m_old.len() && m_old[j] == k;
                            assert(m[j] == k);
                        } else {
                            if m.contains(k) {
                                let j = choose|j: int| 0 <= j < m.len() && m[j] == k;
                                assert(j < m.len() - 1);
                                assert(m_old[j] == k);
                            }
                        }
                    } else {
                        assert(m.contains(k)) by {
                            assert(m[m.len() - 1] == k);
                        }
                    }
                }
            }
        } else {
            proof {
                let m = indices@.map_values(|u: usize| u as int);
                assert forall|k: int| 0 <= k < x + 1 implies (acc.contains(k) <==> m.contains(
                    k,
                )) by {
                    if k == x && m.contains(k) {
                        let j = choose|j: int| 0 <= j < m.len() && m[j] == k;
                        assert(indices@[j] < x);
                    }
                }
            }
        }
        x += 1;
    }
    if indices.len() == 0 {
        proof {
            assert forall|k: int| !acc.contains(k) by {
                if acc.contains(k) {
                    assert(indices@.map_values(|u: usize| u as int).contains(k));
                }
            }
            assert(acc =~= Set::<int>::empty());
        }
        return Err(SelectionError::NothingSelected);
    }
    proof {
        let k0 = indices@.map_values(|u: usize| u as int)[0];
        assert(acc.contains(k0));
        assert(!acc.is_empty());
    }
    Ok(Selection::Indices(indices))
}

} // verus!
