//! Which providers a stack still has to pull from the registry.

use vstd::prelude::*;
use crate::condition::sub_from;
use crate::executor::rows_view;
use crate::num::{parse_u64, unsigned_value};
use crate::strmap::StrMap;
use crate::text::{chars_of, same_chars, string_of};

verus! {

/// `s` without the characters `v` and `.`.
pub open spec fn without_marks(s: Seq<char>) -> Seq<char>
    decreases s.len(),
{
    if s.len() == 0 {
        s
    } else if s.last() == 'v' || s.last() == '.' {
        without_marks(s.drop_last())
    } else {
        without_marks(s.drop_last()).push(s.last())
    }
}

/// A version read as one number: its digits once `v` and `.` are removed;
/// zero where that is no `u64`.
pub open spec fn version_number(v: Seq<char>) -> int {
    match unsigned_value(without_marks(v)) {
        Some(n) => if n <= u64::MAX {
            n
        } else {
            0
        },
        None => 0,
    }
}

fn version_value(v: &str) -> (r: u64)
    ensures
        r == version_number(v@),
{
    let c = chars_of(v);
    let mut d: Vec<char> = Vec::new();
    let mut i: usize = 0;
    while i < c.len()
        invariant
            i <= c@.len(),
            d@ == without_marks(c@.subrange(0, i as int)),
        decreases c@.len() - i,
    {
        assert(c@.subrange(0, i + 1).drop_last() =~= c@.subrange(0, i as int));
        if c[i] != 'v' && c[i] != '.' {
            d.push(c[i]);
        }
        i = i + 1;
    }
    assert(c@.subrange(0, c@.len() as int) =~= c@);
    assert(d@ == without_marks(v@));
    assert(d@.subrange(0, d@.len() as int) =~= d@);
    let r = parse_u64(&d, 0, d.len());
    match r {
        Some(n) => {
            assert(unsigned_value(without_marks(v@)) is Some);
            n
        },
        None => 0,
    }
}

/// Whether the installed version is above the requested one.
pub fn is_version_higher(installed: &str, requested: &str) -> (r: bool)
    ensures
        r == (version_number(installed@) > version_number(requested@)),
{
    version_value(installed) > version_value(requested)
}

/// Whether a row holds `val` in column `key`.
pub open spec fn row_has(row: Map<Seq<char>, Seq<char>>, key: Seq<char>, val: Seq<char>) -> bool {
    row.contains_key(key) && row[key] == val
}

/// Whether a provider must be pulled: one named `name::version` unless that
/// version or a higher one is installed; one named without a version unless
/// installed at all.
pub open spec fn needs_pull(rows: Seq<Map<Seq<char>, Seq<char>>>, p: Seq<char>) -> bool {
    match sub_from(p, "::"@, 0) {
        Some(i) => {
            let name = p.subrange(0, i);
            let version = p.subrange(i + 2, p.len() as int);
            !(exists|k: int|
                0 <= k < rows.len() && row_has(rows[k], "name"@, name) && (row_has(
                    rows[k],
                    "version"@,
                    version,
                ) || (rows[k].contains_key("version"@) && version_number(rows[k]["version"@])
                    > version_number(version))))
        },
        None => !(exists|k: int| 0 <= k < rows.len() && row_has(rows[k], "name"@, p)),
    }
}

/// The providers among the first `n` requested that must be pulled, in order.
pub open spec fn pull_list(rows: Seq<Map<Seq<char>, Seq<char>>>, reqs: Seq<String>, n: int) -> Seq<Seq<char>>
    decreases n,
{
    if n <= 0 {
        Seq::empty()
    } else if needs_pull(rows, reqs[n - 1]@) {
        pull_list(rows, reqs, n - 1).push(reqs[n - 1]@)
    } else {
        pull_list(rows, reqs, n - 1)
    }
}

fn has_value(row: &StrMap, key: &str, val: &Vec<char>) -> (r: bool)
    ensures
        r == row_has(row@, key@, val@),
{
    match row.get(key) {
        Some(v) => same_chars(&chars_of(v.as_str()), val),
        None => false,
    }
}

fn needs(rows: &Vec<StrMap>, p: &String) -> (r: bool)
    ensures
        r == needs_pull(rows_view(rows@), p@),
{
    let ghost rv = rows_view(rows@);
    let c = chars_of(p.as_str());
    let sep = chars_of("::");
    proof {
        reveal_strlit("::");
    }
    let n = c.len();
    let found = crate::condition::find_sub(&c, 0, &sep);
    let split = match found {
        Some(i) => {
            let name = crate::text::slice(&c, 0, i);
            let version = crate::text::slice(&c, i + 2, n);
            Some((name, version, string_of(&c, i + 2, n)))
        },
        None => None,
    };
    let mut k: usize = 0;
    while k < rows.len()
        invariant
            k <= rows@.len(),
            rv == rows_view(rows@),
            c@ == p@,
            sep@ == "::"@,
            match split {
                Some((name, version, vt)) => sub_from(p@, "::"@, 0) matches Some(i) && name@ == p@.subrange(0, i)
                    && version@ == p@.subrange(i + 2, p@.len() as int) && vt@ == version@,
                None => sub_from(p@, "::"@, 0) is None,
            },
            forall|j: int| 0 <= j < k ==> !(match split {
                Some((name, version, vt)) => row_has(rv[j], "name"@, name@) && (row_has(rv[j], "version"@, version@)
                    || (rv[j].contains_key("version"@) && version_number(rv[j]["version"@]) > version_number(version@))),
                None => row_has(rv[j], "name"@, p@),
            }),
        decreases rows@.len() - k,
    {
        assert(rv[k as int] == rows@[k as int]@);
        let row = &rows[k];
        let hit = match &split {
            Some((name, version, vt)) => {
                has_value(row, "name", name) && (has_value(row, "version", version) || match row.get("version") {
                    Some(installed) => is_version_higher(installed.as_str(), vt.as_str()),
                    None => false,
                })
            },
            None => has_value(row, "name", &c),
        };
        if hit {
            return false;
        }
        k = k + 1;
    }
    true
}

/// The requested providers that must be pulled, given the installed ones
/// (rows with `name` and `version` columns).
pub fn providers_to_pull(installed: &Vec<StrMap>, requested: &Vec<String>) -> (r: Vec<String>)
    ensures
        r@.map_values(|s: String| s@) == pull_list(rows_view(installed@), requested@, requested@.len() as int),
{
    let mut out: Vec<String> = Vec::new();
    let mut i: usize = 0;
    while i < requested.len()
        invariant
            i <= requested@.len(),
            out@.map_values(|s: String| s@) == pull_list(rows_view(installed@), requested@, i as int),
        decreases requested@.len() - i,
    {
        if needs(installed, &requested[i]) {
            out.push(requested[i].clone());
            assert(out@.map_values(|s: String| s@) =~= pull_list(rows_view(installed@), requested@, i as int).push(requested@[i as int]@));
        }
        i = i + 1;
    }
    out
}

} // verus!
