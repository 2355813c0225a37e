//! JSON text: parsing and printing through `serde_json`, and the merging of
//! JSON arrays and objects.

use vstd::prelude::*;
use crate::text::{push_char, push_str};

verus! {

/// The compact text of the JSON value `s` holds, if `s` is JSON.
pub uninterp spec fn json_reformat(s: Seq<char>) -> Option<Seq<char>>;

/// The items, as compact JSON text, of the JSON array `s` holds, if it holds one.
pub uninterp spec fn json_items(s: Seq<char>) -> Option<Seq<Seq<char>>>;

/// The members, with values as compact JSON text, of the JSON object `s`
/// holds, if it holds one.
pub uninterp spec fn json_members(s: Seq<char>) -> Option<Seq<(Seq<char>, Seq<char>)>>;

/// The JSON string literal for the text `s`.
pub uninterp spec fn json_quoted(s: Seq<char>) -> Seq<char>;

/// Relies on `serde_json::from_str` into `serde_json::Value` and on the
/// value's `Display`, which prints compact JSON.
#[verifier::external_body]
pub fn json_compact(s: &str) -> (r: Option<String>)
    ensures
        match r {
            Some(t) => json_reformat(s@) == Some(t@),
            None => json_reformat(s@) is None,
        },
{
    serde_json::from_str::<serde_json::Value>(s).ok().map(|v| v.to_string())
}

/// Relies on `serde_json::from_str` into `serde_json::Value`,
/// `serde_json::Value::as_array`, and the values' compact `Display`.
#[verifier::external_body]
pub fn json_array_items(s: &str) -> (r: Option<Vec<String>>)
    ensures
        match r {
            Some(v) => json_items(s@) == Some(v@.map_values(|x: String| x@)),
            None => json_items(s@) is None,
        },
{
    let v = serde_json::from_str::<serde_json::Value>(s).ok()?;
    let items = v.as_array()?;
    Some(items.iter().map(|x| x.to_string()).collect())
}

/// Relies on `serde_json::from_str` into `serde_json::Value`,
/// `serde_json::Value::as_object`, and the values' compact `Display`.
#[verifier::external_body]
pub fn json_object_members(s: &str) -> (r: Option<Vec<(String, String)>>)
    ensures
        match r {
            Some(v) => json_members(s@) == Some(v@.map_values(|x: (String, String)| (x.0@, x.1@))),
            None => json_members(s@) is None,
        },
{
    let v = serde_json::from_str::<serde_json::Value>(s).ok()?;
    let members = v.as_object()?;
    Some(members.iter().map(|(k, x)| (k.clone(), x.to_string())).collect())
}

/// Relies on `serde_json::to_string` of a `&str`, which cannot fail: the
/// quoted, escaped string literal.
#[verifier::external_body]
pub fn json_string(s: &str) -> (r: String)
    ensures
        r@ == json_quoted(s@),
{
    serde_json::to_string(s).unwrap_or_default()
}

/// Whether `s` holds a JSON array or object.
pub open spec fn is_json_spec(s: Seq<char>) -> bool {
    json_items(s) is Some || json_members(s) is Some
}

/// Whether `s` holds a JSON array or object.
pub fn is_json(s: &str) -> (r: bool)
    ensures
        r == is_json_spec(s@),
{
    json_array_items(s).is_some() || json_object_members(s).is_some()
}

/// Items joined by commas.
pub open spec fn join_commas(items: Seq<Seq<char>>) -> Seq<char>
    decreases items.len(),
{
    if items.len() == 0 {
        Seq::empty()
    } else if items.len() == 1 {
        items[0]
    } else {
        join_commas(items.drop_last()) + seq![','] + items.last()
    }
}

/// The JSON array of compact items.
pub open spec fn array_text(items: Seq<Seq<char>>) -> Seq<char> {
    seq!['['] + join_commas(items) + seq![']']
}

/// `items` followed by each item of `more` that is not already among them.
pub open spec fn union_items(items: Seq<Seq<char>>, more: Seq<Seq<char>>) -> Seq<Seq<char>>
    decreases more.len(),
{
    if more.len() == 0 {
        items
    } else {
        let last = more.last();
        let before = union_items(items, more.drop_last());
        if before.contains(last) {
            before
        } else {
            before.push(last)
        }
    }
}

/// The JSON array of compact items.
pub fn array_of(items: &Vec<String>) -> (r: String)
    ensures
        r@ == array_text(items@.map_values(|x: String| x@)),
{
    let ghost all = items@.map_values(|x: String| x@);
    let mut out = String::new();
    push_char(&mut out, '[');
    let mut i: usize = 0;
    while i < items.len()
        invariant
            i <= items@.len(),
            all == items@.map_values(|x: String| x@),
            out@ == seq!['['] + join_commas(all.subrange(0, i as int)),
        decreases items@.len() - i,
    {
        let ghost before = out@;
        if i > 0 {
            push_char(&mut out, ',');
        }
        push_str(&mut out, items[i].as_str());
        proof {
            let t = all.subrange(0, i + 1);
            assert(t.drop_last() =~= all.subrange(0, i as int));
            if i == 0 {
                assert(out@ =~= seq!['['] + t[0]);
            } else {
                assert(out@ =~= seq!['['] + (join_commas(t.drop_last()) + seq![','] + t.last()));
            }
        }
        i = i + 1;
    }
    push_char(&mut out, ']');
    assert(all.subrange(0, items@.len() as int) =~= all);
    out
}

/// Appends to `items` each item of `more` that is not already there.
pub fn union_into(items: &mut Vec<String>, more: &Vec<String>)
    ensures
        final(items)@.map_values(|x: String| x@) == union_items(
            old(items)@.map_values(|x: String| x@),
            more@.map_values(|x: String| x@),
        ),
{
    let ghost start = items@.map_values(|x: String| x@);
    let ghost extra = more@.map_values(|x: String| x@);
    let mut i: usize = 0;
    while i < more.len()
        invariant
            i <= more@.len(),
            extra == more@.map_values(|x: String| x@),
            items@.map_values(|x: String| x@) == union_items(start, extra.subrange(0, i as int)),
        decreases more@.len() - i,
    {
        let mut found = false;
        let mut j: usize = 0;
        while j < items.len()
            invariant
                i < more@.len(),
                j <= items@.len(),
                found == exists|k: int| 0 <= k < j && items@[k]@ == more@[i as int]@,
            decreases items@.len() - j,
        {
            if items[j] == more[i] {
                found = true;
            }
            j = j + 1;
        }
        let ghost cur = items@.map_values(|x: String| x@);
        proof {
            let t = extra.subrange(0, i + 1);
            assert(t.drop_last() =~= extra.subrange(0, i as int));
            assert(t.last() == more@[i as int]@);
            if found {
                let k = choose|k: int| 0 <= k < items@.len() && items@[k]@ == more@[i as int]@;
                assert(cur[k] == more@[i as int]@);
            } else {
                assert forall|k: int| 0 <= k < cur.len() implies cur[k] != more@[i as int]@ by {
                    assert(cur[k] == items@[k]@);
                }
            }
        }
        if !found {
            items.push(more[i].clone());
            assert(items@.map_values(|x: String| x@) =~= cur.push(more@[i as int]@));
        }
        i = i + 1;
    }
    assert(extra.subrange(0, more@.len() as int) =~= extra);
}

/// The members of the flat JSON object of strings `s` holds, if it holds one.
pub uninterp spec fn json_flat_strings(s: Seq<char>) -> Option<Seq<(Seq<char>, Seq<char>)>>;

/// Relies on `serde_json::from_str` into a `BTreeMap<String, String>`: the
/// members of a JSON object whose values are all strings, by key.
#[verifier::external_body]
pub fn json_string_members(s: &str) -> (r: Option<Vec<(String, String)>>)
    ensures
        match r {
            Some(v) => json_flat_strings(s@) == Some(v@.map_values(|x: (String, String)| (x.0@, x.1@))),
            None => json_flat_strings(s@) is None,
        },
{
    let m = serde_json::from_str::<std::collections::BTreeMap<String, String>>(s).ok()?;
    Some(m.into_iter().collect())
}

} // verus!
