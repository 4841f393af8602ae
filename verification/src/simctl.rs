//! Reads `simctl list devices` output: which unavailable devices exist,
//! by name and UUID.

use vstd::prelude::*;
use crate::text::{
    contains_sub, find_class, first_in_class, is_hex_digit_char, lex_lt,
    lemma_lex_lt_total, lemma_lex_lt_trans, lines_of, seq_contains, split_lines, str_eq, str_lt,
    trim, trim_spec, views_of, CharClass, is_hex_digit,
};

verus! {

/// The shape of a bare device UUID: 36 characters, dashes at the four
/// fixed positions, hex digits everywhere else.
pub open spec fn uuid_like(t: Seq<char>) -> bool {
    t.len() == 36 && forall|i: int|
        0 <= i < 36 ==> (if i == 8 || i == 13 || i == 18 || i == 23 {
            t[i] == '-'
        } else {
            is_hex_digit_char(#[trigger] t[i]) && t[i] != '-'
        })
}

pub fn is_uuid_like(s: &str) -> (r: bool)
    ensures
        r == uuid_like(trim_spec(s@)),
{
    let t = trim(s);
    let n = t.unicode_len();
    if n != 36 {
        return false;
    }
    let mut i: usize = 0;
    while i < 36
        invariant
            n == 36,
            t@ == trim_spec(s@),
            t@.len() == 36,
            i <= 36,
            forall|j: int| 0 <= j < i ==> (if j == 8 || j == 13 || j == 18 || j == 23 {
                t@[j] == '-'
            } else {
                is_hex_digit_char(#[trigger] t@[j]) && t@[j] != '-'
            }),
        decreases 36 - i,
    {
        let c = t.get_char(i);
        let dash_pos = i == 8 || i == 13 || i == 18 || i == 23;
        if dash_pos {
            if c != '-' {
                return false;
            }
        } else {
            if c == '-' || !is_hex_digit(c) {
                return false;
            }
        }
        i += 1;
    }
    true
}

/// The device a line names, if it is an unavailable-device line: the text
/// before the first `(` is the name, the text inside the parentheses must
/// be a bare UUID.
pub open spec fn line_device(l: Seq<char>) -> Option<(Seq<char>, Seq<char>)> {
    let t = trim_spec(l);
    if t.len() == 0 {
        None
    } else if !seq_contains(t, "unavailable"@) {
        None
    } else {
        let i = first_in_class(t, CharClass::Is('('));
        if i < 0 {
            None
        } else {
            let rest = t.subrange(i + 1, t.len() as int);
            let j = first_in_class(rest, CharClass::Is(')'));
            if j < 0 {
                None
            } else {
                let uuid = trim_spec(rest.subrange(0, j));
                if !uuid_like(uuid) {
                    None
                } else {
                    Some((trim_spec(t.subrange(0, i)), uuid))
                }
            }
        }
    }
}

/// All devices the lines name, in order, duplicates and all.
pub open spec fn extracted_devices(ls: Seq<Seq<char>>) -> Seq<(Seq<char>, Seq<char>)>
    decreases ls.len(),
{
    if ls.len() == 0 {
        Seq::empty()
    } else {
        match line_device(ls[0]) {
            Some(p) => seq![p] + extracted_devices(ls.drop_first()),
            None => extracted_devices(ls.drop_first()),
        }
    }
}

/// Strict order on device pairs: by name, then by UUID.
pub open spec fn pair_lt(a: (Seq<char>, Seq<char>), b: (Seq<char>, Seq<char>)) -> bool {
    lex_lt(a.0, b.0) || (a.0 == b.0 && lex_lt(a.1, b.1))
}

pub open spec fn pair_views(v: Seq<(String, String)>) -> Seq<(Seq<char>, Seq<char>)> {
    v.map_values(|p: (String, String)| (p.0@, p.1@))
}

fn pair_lt_exec(a: &(String, String), name: &str, uuid: &str) -> (r: bool)
    ensures
        r == pair_lt((a.0@, a.1@), (name@, uuid@)),
{
    let lt = str_lt(a.0.as_str(), name);
    if lt {
        true
    } else {
        str_eq(a.0.as_str(), name) && str_lt(a.1.as_str(), uuid)
    }
}

fn insert_pair(out: &mut Vec<(String, String)>, name: String, uuid: String)
    requires
        forall|p: int, q: int| 0 <= p < q < old(out)@.len() ==> pair_lt(
            #[trigger] pair_views(old(out)@)[p],
            #[trigger] pair_views(old(out)@)[q],
        ),
    ensures
        forall|p: int, q: int| 0 <= p < q < final(out)@.len() ==> pair_lt(
            #[trigger] pair_views(final(out)@)[p],
            #[trigger] pair_views(final(out)@)[q],
        ),
        forall|x: (Seq<char>, Seq<char>)| pair_views(final(out)@).contains(x) <==> pair_views(
            old(out)@,
        ).contains(x) || x == (name@, uuid@),
{
    let ghost pv0 = pair_views(out@);
    let ghost xp = (name@, uuid@);
    let mut j: usize = 0;
    while j < out.len() && pair_lt_exec(&out[j], name.as_str(), uuid.as_str())
        invariant
            pv0 == pair_views(out@),
            j <= out@.len(),
            forall|k: int| 0 <= k < j ==> pair_lt(#[trigger] pv0[k], xp),
            xp == (name@, uuid@),
        decreases out@.len() - j,
    {
        proof {
            assert(pv0[j as int] == (out@[j as int].0@, out@[j as int].1@));
        }
        j += 1;
    }
    if j < out.len() && str_eq(out[j].0.as_str(), name.as_str()) && str_eq(
        out[j].1.as_str(),
        uuid.as_str(),
    ) {
        proof {
            assert(pv0[j as int] == (out@[j as int].0@, out@[j as int].1@));
            assert(pair_views(out@).contains(xp)) by {
                assert(pair_views(out@)[j as int] == xp);
            }
        }
        return ;
    }
    proof {
        if (j as int) < out@.len() {
            assert(pv0[j as int] == (out@[j as int].0@, out@[j as int].1@));
            lemma_lex_lt_total(out@[j as int].0@, name@);
            lemma_lex_lt_total(out@[j as int].1@, uuid@);
            assert(pair_lt(xp, pv0[j as int]));
        }
    }
    let ghost pre = out@;
    out.insert(j, (name, uuid));
    proof {
        assert(pair_views(out@) =~= pair_views(pre).insert(j as int, xp));
        let npv = pair_views(out@);
        assert forall|p: int, q: int| 0 <= p < q < npv.len() implies pair_lt(
            #[trigger] npv[p],
            #[trigger] npv[q],
        ) by {
            let jj = j as int;
            if q < jj {
                assert(npv[p] == pv0[p] && npv[q] == pv0[q]);
            } else if p < jj && q == jj {
                assert(npv[p] == pv0[p]);
            } else if p < jj && q > jj {
                assert(npv[p] == pv0[p] && npv[q] == pv0[q - 1]);
                assert(pair_lt(pv0[p], pv0[q - 1]));
            } else if p == jj && q > jj {
                assert(npv[q] == pv0[q - 1]);
                if q - 1 > jj {
                    assert(pair_lt(pv0[jj], pv0[q - 1]));
                    lemma_pair_lt_step2(xp, pv0[jj], pv0[q - 1]);
                }
            } else {
                assert(npv[p] == pv0[p - 1] && npv[q] == pv0[q - 1]);
            }
        }
        assert forall|x: (Seq<char>, Seq<char>)| npv.contains(x) <==> pv0.contains(x) || x
            == xp by {
            if npv.contains(x) {
                let k = choose|k: int| 0 <= k < npv.len() && npv[k] == x;
                if k < j as int {
                    assert(pv0[k] == x);
                } else if k > j as int {
                    assert(pv0[k - 1] == x);
                }
            }
            if pv0.contains(x) {
                let k = choose|k: int| 0 <= k < pv0.len() && pv0[k] == x;
                if k < j as int {
                    assert(npv[k] == x);
                } else {
                    assert(npv[k + 1] == x);
                }
            }
            if x == xp {
                assert(npv[j as int] == x);
            }
        }
    }
}

proof fn lemma_pair_lt_step2(a: (Seq<char>, Seq<char>), b: (Seq<char>, Seq<char>), c: (
    Seq<char>,
    Seq<char>,
))
    requires
        pair_lt(a, b) || (!pair_lt(b, a) && a != b),
        pair_lt(b, c),
    ensures
        pair_lt(a, c),
{
    lemma_lex_lt_total(a.0, b.0);
    lemma_lex_lt_total(a.1, b.1);
    lemma_lex_lt_total(a.0, c.0);
    lemma_lex_lt_total(a.1, c.1);
    if lex_lt(a.0, b.0) && lex_lt(b.0, c.0) {
        lemma_lex_lt_trans(a.0, b.0, c.0);
    }
    if a.0 == b.0 && lex_lt(a.1, b.1) && b.0 == c.0 && lex_lt(b.1, c.1) {
        lemma_lex_lt_trans(a.1, b.1, c.1);
    }
}

/// The unavailable devices named by the output, each `(name, uuid)` once,
/// in ascending order.
pub fn parse_simctl_unavailable_devices(stdout: &str) -> (r: Vec<(String, String)>)
    ensures
        forall|x: (Seq<char>, Seq<char>)| pair_views(r@).contains(x) <==> extracted_devices(
            split_lines(stdout@),
        ).contains(x),
        forall|p: int, q: int| 0 <= p < q < r@.len() ==> pair_lt(
            #[trigger] pair_views(r@)[p],
            #[trigger] pair_views(r@)[q],
        ),
{
    let ls = lines_of(stdout);
    let ghost lv = split_lines(stdout@);
    let mut out: Vec<(String, String)> = Vec::new();
    let mut i: usize = 0;
    proof {
        assert(lv.subrange(0, lv.len() as int) =~= lv);
    }
    while i < ls.len()
        invariant
            views_of(ls@) == lv,
            lv == split_lines(stdout@),
            i <= ls@.len(),
            forall|p: int, q: int| 0 <= p < q < out@.len() ==> pair_lt(
                #[trigger] pair_views(out@)[p],
                #[trigger] pair_views(out@)[q],
            ),
            forall|x: (Seq<char>, Seq<char>)|
                #![trigger extracted_devices(lv).contains(x)]
                extracted_devices(lv).contains(x) <==> pair_views(out@).contains(x)
                    || extracted_devices(lv.subrange(i as int, lv.len() as int)).contains(x),
        decreases ls@.len() - i,
    {
        proof {
            assert(lv[i as int] == ls@[i as int]@);
            assert(lv.subrange(i as int, lv.len() as int)[0] == lv[i as int]);
            assert(lv.subrange(i as int, lv.len() as int).drop_first() =~= lv.subrange(
                i + 1,
                lv.len() as int,
            ));
        }
        let ghost rest_here = extracted_devices(lv.subrange(i as int, lv.len() as int));
        let ghost rest_next = extracted_devices(lv.subrange(i + 1, lv.len() as int));
        let line = trim(ls[i].as_str());
        let mut handled = false;
        let keep = line.unicode_len() > 0 && contains_sub(line, "unavailable");
        if keep {
            match find_class(line, CharClass::Is('(')) {
                Some(o) => {
                    let n = line.unicode_len();
                    let rest = line.substring_char(o + 1, n);
                    proof {
                        assert(rest@ =~= line@.subrange(o as int + 1, line@.len() as int));
                    }
                    match find_class(rest, CharClass::Is(')')) {
                        Some(c) => {
                            let uuid_part = rest.substring_char(0, c);
                            proof {
                                assert(uuid_part@ =~= rest@.subrange(0, c as int));
                            }
                            let uuid = trim(uuid_part);
                            proof {
                                crate::text::lemma_trim_idem(uuid_part@);
                            }
                            if is_uuid_like(uuid) {
                                let name_part = line.substring_char(0, o);
                                proof {
                                    assert(name_part@ =~= line@.subrange(0, o as int));
                                }
                                let name = trim(name_part).to_owned();
                                let uuid_owned = uuid.to_owned();
                                let ghost xp = (name@, uuid_owned@);
                                let ghost pv_old = pair_views(out@);
                                proof {
                                    assert(line_device(lv[i as int]) == Some(xp));
                                    assert(rest_here == seq![xp] + rest_next);
                                    assert forall|x: (Seq<char>, Seq<char>)|
                                        #![trigger extracted_devices(lv).contains(x)]
                                        extracted_devices(lv).contains(x) <==> pv_old.contains(
                                        x,
                                    ) || x == xp || rest_next.contains(x) by {
                                        assert(pair_views(out@).contains(x) == pv_old.contains(
                                            x,
                                        ));
                                        assert(rest_here.contains(x) <==> x == xp
                                            || rest_next.contains(x)) by {
                                            if rest_here.contains(x) {
                                                let k = choose|k: int|
                                                    0 <= k < rest_here.len() && rest_here[k]
                                                        == x;
                                                if k == 0 {
                                                    assert(rest_here[0] == xp);
                                                } else {
                                                    assert(rest_here[k] == rest_next[k - 1]);
                                                    assert(rest_next.contains(x));
                                                }
                                            }
                                            if x == xp {
                                                assert(rest_here[0] == xp);
                                                assert(rest_here.contains(x));
                                            }
                                            if rest_next.contains(x) {
                                                let k = choose|k: int|
                                                    0 <= k < rest_next.len() && rest_next[k]
                                                        == x;
                                                assert(rest_here[k + 1] == x);
                                                assert(rest_here.contains(x));
                                            }
                                        }
                                    }
                                }
                                insert_pair(&mut out, name, uuid_owned);
                                handled = true;
                                proof {
                                    assert forall|x: (Seq<char>, Seq<char>)|
                                        #![trigger extracted_devices(lv).contains(x)]
                                        extracted_devices(lv).contains(x) <==> pair_views(
                                        out@,
                                    ).contains(x) || rest_next.contains(x) by {
                                        assert(pair_views(out@).contains(x) <==> pv_old.contains(
                                            x,
                                        ) || x == xp);
                                        assert(extracted_devices(lv).contains(x)
                                            <==> pv_old.contains(x) || x == xp
                                            || rest_next.contains(x));
                                    }
                                }
                            }
                        },
                        None => {},
                    }
                },
                None => {},
            }
        }
        proof {
            if !handled {
                assert(line_device(lv[i as int]) is None);
                assert(rest_here == rest_next);
                assert forall|x: (Seq<char>, Seq<char>)|
                    #![trigger extracted_devices(lv).contains(x)]
                    extracted_devices(lv).contains(x) <==> pair_views(out@).contains(x)
                        || rest_next.contains(x) by {
                    assert(extracted_devices(lv).contains(x) <==> pair_views(out@).contains(x)
                        || rest_here.contains(x));
                }
            }
        }
        i += 1;
        proof {
            assert(extracted_devices(lv.subrange(i as int, lv.len() as int)) == rest_next);
        }
    }
    proof {
        assert(lv.subrange(lv.len() as int, lv.len() as int)
            =~= Seq::<Seq<char>>::empty());
        assert(extracted_devices(Seq::<Seq<char>>::empty())
            =~= Seq::<(Seq<char>, Seq<char>)>::empty());
    }
    out
}

} // verus!
