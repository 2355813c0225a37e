//! Resource condition guards: `true`, `false`, `'a' == 'b'`, `'a' != 'b'`,
//! `'a' in ['a', 'b']` and `'a' not in ['a', 'b']`.

use vstd::prelude::*;
use crate::text::{chars_of, has_at, slice, trim, trimmed};

verus! {

/// Position of the first occurrence of `pat` in `s` at or after `j`.
pub open spec fn sub_from(s: Seq<char>, pat: Seq<char>, j: int) -> Option<int>
    decreases s.len() - j,
{
    if j < 0 || j + pat.len() > s.len() {
        None
    } else if pat.len() == 0 || s.subrange(j, j + pat.len()) == pat {
        Some(j)
    } else {
        sub_from(s, pat, j + 1)
    }
}

/// `s` without leading and trailing `c`.
pub open spec fn strip_char(s: Seq<char>, c: char) -> Seq<char>
    decreases s.len(),
{
    if s.len() > 0 && s[0] == c {
        strip_char(s.drop_first(), c)
    } else if s.len() > 0 && s.last() == c {
        strip_char(s.drop_last(), c)
    } else {
        s
    }
}

/// An operand: trimmed, then without surrounding quotes.
pub open spec fn operand(s: Seq<char>) -> Seq<char> {
    strip_char(strip_char(trim(s), '\''), '"')
}

/// The comma-separated items of `s[p..]`, each read as an operand.
pub open spec fn list_items(s: Seq<char>, p: int) -> Seq<Seq<char>>
    decreases s.len() - p,
{
    if p < 0 || p > s.len() {
        Seq::empty()
    } else {
        match sub_from(s, seq![','], p) {
            Some(i) => if i < p || i >= s.len() {
                Seq::empty()
            } else {
                seq![operand(s.subrange(p, i))] + list_items(s, i + 1)
            },
            None => seq![operand(s.subrange(p, s.len() as int))],
        }
    }
}

/// Whether `needle` is in the bracketed list `hay`; `None` if `hay` is no list.
pub open spec fn in_list(needle: Seq<char>, hay: Seq<char>) -> Option<bool> {
    if hay.len() >= 2 && hay[0] == '[' && hay.last() == ']' {
        Some(list_items(hay.subrange(1, hay.len() - 1), 0).contains(needle))
    } else {
        None
    }
}

/// The value of a condition, or `None` where it has no recognised form.
pub open spec fn condition_value(c: Seq<char>) -> Option<bool> {
    let t = trim(c);
    if t == "true"@ || t == "True"@ {
        Some(true)
    } else if t == "false"@ || t == "False"@ {
        Some(false)
    } else if sub_from(t, "=="@, 0) is Some {
        let i = sub_from(t, "=="@, 0)->Some_0;
        Some(operand(t.subrange(0, i)) == operand(t.subrange(i + 2, t.len() as int)))
    } else if sub_from(t, "!="@, 0) is Some {
        let i = sub_from(t, "!="@, 0)->Some_0;
        Some(operand(t.subrange(0, i)) != operand(t.subrange(i + 2, t.len() as int)))
    } else if sub_from(t, " not in "@, 0) is Some {
        let i = sub_from(t, " not in "@, 0)->Some_0;
        match in_list(operand(t.subrange(0, i)), trim(t.subrange(i + 8, t.len() as int))) {
            Some(b) => Some(!b),
            None => None,
        }
    } else if sub_from(t, " in "@, 0) is Some {
        let i = sub_from(t, " in "@, 0)->Some_0;
        in_list(operand(t.subrange(0, i)), trim(t.subrange(i + 4, t.len() as int)))
    } else {
        None
    }
}

proof fn lemma_sub_from(s: Seq<char>, pat: Seq<char>, j: int)
    ensures
        sub_from(s, pat, j) matches Some(k) ==> j <= k && k + pat.len() <= s.len() && s.subrange(
            k,
            k + pat.len(),
        ) == pat,
    decreases s.len() - j,
{
    if j < 0 || j + pat.len() > s.len() {
    } else if pat.len() == 0 || s.subrange(j, j + pat.len()) == pat {
        if pat.len() == 0 {
            assert(s.subrange(j, j) =~= pat);
        }
    } else {
        lemma_sub_from(s, pat, j + 1);
    }
}

/// First occurrence of `pat` in `v` at or after `j`.
pub fn find_sub(v: &Vec<char>, j: usize, pat: &Vec<char>) -> (r: Option<usize>)
    ensures
        r matches Some(k) ==> sub_from(v@, pat@, j as int) == Some(k as int) && j <= k && k + pat@.len() <= v@.len(),
        r is None ==> sub_from(v@, pat@, j as int) is None,
{
    proof {
        lemma_sub_from(v@, pat@, j as int);
    }
    let n = v.len();
    if j > n {
        return None;
    }
    if pat.len() == 0 {
        return Some(j);
    }
    let mut k = j;
    while k <= n
        invariant
            n == v@.len(),
            pat@.len() > 0,
            j <= k <= n,
            sub_from(v@, pat@, j as int) == sub_from(v@, pat@, k as int),
        decreases n - k,
    {
        if pat.len() > n - k {
            return None;
        }
        if has_at(v, k, pat) {
            return Some(k);
        }
        k = k + 1;
    }
    None
}

/// `v` without leading and trailing `c`.
fn strip(v: &Vec<char>, c: char) -> (r: Vec<char>)
    ensures
        r@ == strip_char(v@, c),
{
    let mut a: usize = 0;
    let mut b: usize = v.len();
    assert(v@.subrange(0, v@.len() as int) =~= v@);
    while a < b && (v[a] == c || v[b - 1] == c)
        invariant
            a <= b <= v@.len(),
            strip_char(v@, c) == strip_char(v@.subrange(a as int, b as int), c),
        decreases b - a,
    {
        proof {
            let u = v@.subrange(a as int, b as int);
            assert(u.drop_first() =~= v@.subrange(a + 1, b as int));
            assert(u.drop_last() =~= v@.subrange(a as int, b - 1));
        }
        if v[a] == c {
            a = a + 1;
        } else {
            b = b - 1;
        }
    }
    proof {
        assert(v@.subrange(0, v@.len() as int) =~= v@);
    }
    slice(v, a, b)
}

/// Reads `v[a..b]` as an operand.
fn operand_of(v: &Vec<char>, a: usize, b: usize) -> (r: Vec<char>)
    requires
        a <= b <= v@.len(),
    ensures
        r@ == operand(v@.subrange(a as int, b as int)),
{
    let t = trimmed(v, a, b);
    let u = strip(&t, '\'');
    strip(&u, '"')
}

/// Whether `needle` is in the bracketed list `hay`.
fn list_contains(needle: &Vec<char>, hay: &Vec<char>) -> (r: Option<bool>)
    ensures
        r == in_list(needle@, hay@),
{
    let n = hay.len();
    if !(n >= 2 && hay[0] == '[' && hay[n - 1] == ']') {
        return None;
    }
    let inner = slice(hay, 1, n - 1);
    let m = inner.len();
    let comma: Vec<char> = vec![','];
    assert(comma@ =~= seq![',']);
    let mut found = false;
    let mut p: usize = 0;
    let ghost all = list_items(inner@, 0);
    let ghost mut pre: Seq<Seq<char>> = Seq::empty();
    assert(all =~= pre + list_items(inner@, 0));
    while p <= m
        invariant
            m == inner@.len(),
            comma@ == seq![','],
            all == list_items(inner@, 0),
            p <= m + 1,
            all == pre + list_items(inner@, p as int),
            found == pre.contains(needle@),
            inner@ == hay@.subrange(1, hay@.len() - 1),
            n == hay@.len(),
            n >= 2 && hay@[0] == '[' && hay@[n - 1] == ']',
        decreases m + 1 - p,
    {
        match find_sub(&inner, p, &comma) {
            Some(i) => {
                let item = operand_of(&inner, p, i);
                let hit = crate::text::same_chars(&item, needle);
                proof {
                    let np = pre.push(item@);
                    assert(list_items(inner@, p as int) == seq![item@] + list_items(inner@, i + 1));
                    assert(all =~= np + list_items(inner@, i + 1));
                    assert(np.contains(needle@) == (pre.contains(needle@) || item@ == needle@)) by {
                        if item@ == needle@ {
                            assert(np[np.len() - 1] == needle@);
                        }
                        if pre.contains(needle@) {
                            let k = choose|k: int| 0 <= k < pre.len() && pre[k] == needle@;
                            assert(np[k] == needle@);
                        }
                        if np.contains(needle@) && item@ != needle@ {
                            let k = choose|k: int| 0 <= k < np.len() && np[k] == needle@;
                            assert(pre[k] == needle@);
                        }
                    }
                    pre = np;
                }
                found = found || hit;
                p = i + 1;
            },
            None => {
                let item = operand_of(&inner, p, m);
                let hit = crate::text::same_chars(&item, needle);
                proof {
                    let np = pre.push(item@);
                    assert(list_items(inner@, p as int) == seq![item@]);
                    assert(all =~= np);
                    assert(np.contains(needle@) == (pre.contains(needle@) || item@ == needle@)) by {
                        if item@ == needle@ {
                            assert(np[np.len() - 1] == needle@);
                        }
                        if pre.contains(needle@) {
                            let k = choose|k: int| 0 <= k < pre.len() && pre[k] == needle@;
                            assert(np[k] == needle@);
                        }
                        if np.contains(needle@) && item@ != needle@ {
                            let k = choose|k: int| 0 <= k < np.len() && np[k] == needle@;
                            assert(pre[k] == needle@);
                        }
                    }
                }
                return Some(found || hit);
            },
        }
    }
    proof {
        assert(list_items(inner@, p as int) =~= Seq::<Seq<char>>::empty());
        assert(all =~= pre);
    }
    Some(found)
}


/// Evaluates a condition guard; `None` where it has no recognised form.
pub fn evaluate_simple_condition(condition: &str) -> (r: Option<bool>)
    ensures
        r == condition_value(condition@),
{
    let v = chars_of(condition);
    let t = trimmed(&v, 0, v.len());
    assert(v@.subrange(0, v@.len() as int) =~= v@);
    let n = t.len();
    if crate::text::same_chars(&t, &chars_of("true")) || crate::text::same_chars(&t, &chars_of("True")) {
        return Some(true);
    }
    if crate::text::same_chars(&t, &chars_of("false")) || crate::text::same_chars(&t, &chars_of("False")) {
        return Some(false);
    }
    proof {
        reveal_strlit("==");
        reveal_strlit("!=");
        reveal_strlit(" not in ");
        reveal_strlit(" in ");
    }
    let eq = chars_of("==");
    match find_sub(&t, 0, &eq) {
        Some(i) => {
            let l = operand_of(&t, 0, i);
            let r = operand_of(&t, i + 2, n);
            return Some(crate::text::same_chars(&l, &r));
        },
        None => {},
    }
    let ne = chars_of("!=");
    match find_sub(&t, 0, &ne) {
        Some(i) => {
            let l = operand_of(&t, 0, i);
            let r = operand_of(&t, i + 2, n);
            return Some(!crate::text::same_chars(&l, &r));
        },
        None => {},
    }
    let not_in = chars_of(" not in ");
    match find_sub(&t, 0, &not_in) {
        Some(i) => {
            let needle = operand_of(&t, 0, i);
            let hay = trimmed(&t, i + 8, n);
            return match list_contains(&needle, &hay) {
                Some(b) => Some(!b),
                None => None,
            };
        },
        None => {},
    }
    let is_in = chars_of(" in ");
    match find_sub(&t, 0, &is_in) {
        Some(i) => {
            let needle = operand_of(&t, 0, i);
            let hay = trimmed(&t, i + 4, n);
            list_contains(&needle, &hay)
        },
        None => None,
    }
}

} // verus!
