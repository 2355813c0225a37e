//! Export propagation: values a resource exports into the global context, and
//! the stack-level export object.

use vstd::prelude::*;
use crate::config::{item_json, object_text};
use crate::context::{pairs_map, Context};
use crate::executor::{build_row, error_marker, row_of, rows_view};
use crate::json::{json_compact, json_flat_strings, json_quoted, json_reformat, json_string, json_string_members};
use crate::manifest::{ExportDecl, Resource};
use crate::strmap::StrMap;
use crate::text::{chars_of, owned, push_char, push_str};

verus! {

/// Error of export handling.
#[derive(Debug, PartialEq, Eq)]
pub enum ExportError {
    /// Plain names and renames are mixed in one resource's declarations.
    MixedDeclarations,
    /// The exports query returned no row.
    NoRows,
    /// The exports query reported an error.
    QueryFailed(String),
    /// The exports query returned this many rows instead of one.
    TooManyRows(usize),
    /// Stack exports name variables the context lacks.
    MissingVariables(Vec<String>),
    /// A script printed no flat JSON object of strings.
    InvalidScriptOutput(String),
    /// A script's output, or a result row, lacks a declared export.
    MissingExport(String),
    /// A result row's values do not match its columns.
    InvalidFormat(String),
    /// There is no row to export from.
    ProcessingFailed(String),
}

/// A row's value for a column; empty where it has none.
pub open spec fn lookup(row: Map<Seq<char>, Seq<char>>, k: Seq<char>) -> Seq<char> {
    if row.contains_key(k) {
        row[k]
    } else {
        Seq::empty()
    }
}

/// The names and values one declaration exports from `row`.
pub open spec fn decl_pairs(d: ExportDecl, row: Map<Seq<char>, Seq<char>>) -> Seq<(Seq<char>, Seq<char>)> {
    match d {
        ExportDecl::Name(n) => if n@.len() > 0 {
            seq![(n@, lookup(row, n@))]
        } else {
            Seq::empty()
        },
        ExportDecl::Rename(ps) => ps@.map_values(|p: (String, String)| (p.1@, lookup(row, p.0@))),
    }
}

/// The names and values the first `n` declarations export from `row`.
pub open spec fn exported_pairs(decls: Seq<ExportDecl>, row: Map<Seq<char>, Seq<char>>, n: int) -> Seq<(Seq<char>, Seq<char>)>
    decreases n,
{
    if n <= 0 {
        Seq::empty()
    } else {
        exported_pairs(decls, row, n - 1) + decl_pairs(decls[n - 1], row)
    }
}

/// Whether plain names and renames are mixed.
pub open spec fn mixed(decls: Seq<ExportDecl>) -> bool {
    (exists|i: int| 0 <= i < decls.len() && decls[i] is Name) && (exists|j: int|
        0 <= j < decls.len() && decls[j] is Rename)
}

/// Pairs over plain values.
pub open spec fn pairs_view(v: Seq<(String, String)>) -> Seq<(Seq<char>, Seq<char>)> {
    v.map_values(|p: (String, String)| (p.0@, p.1@))
}

/// The names and values a resource exports from one result row.
pub fn export_values(decls: &Vec<ExportDecl>, row: &StrMap) -> (r: Result<Vec<(String, String)>, ExportError>)
    ensures
        mixed(decls@) ==> r == Err::<Vec<(String, String)>, ExportError>(ExportError::MixedDeclarations),
        !mixed(decls@) ==> (r matches Ok(v) && pairs_view(v@) == exported_pairs(decls@, row@, decls@.len() as int)),
{
    let mut names = false;
    let mut renames = false;
    let mut i: usize = 0;
    while i < decls.len()
        invariant
            i <= decls@.len(),
            names == exists|k: int| 0 <= k < i && decls@[k] is Name,
            renames == exists|k: int| 0 <= k < i && decls@[k] is Rename,
        decreases decls@.len() - i,
    {
        match &decls[i] {
            ExportDecl::Name(_) => {
                names = true;
            },
            ExportDecl::Rename(_) => {
                renames = true;
            },
        }
        i = i + 1;
    }
    if names && renames {
        return Err(ExportError::MixedDeclarations);
    }
    let mut out: Vec<(String, String)> = Vec::new();
    let mut i: usize = 0;
    while i < decls.len()
        invariant
            i <= decls@.len(),
            pairs_view(out@) == exported_pairs(decls@, row@, i as int),
        decreases decls@.len() - i,
    {
        let ghost before = pairs_view(out@);
        match &decls[i] {
            ExportDecl::Name(n) => {
                let len = chars_of(n.as_str()).len();
                if len > 0 {
                    let v = match row.get(n.as_str()) {
                        Some(x) => x.clone(),
                        None => String::new(),
                    };
                    out.push((n.clone(), v));
                    assert(pairs_view(out@) =~= before + seq![(n@, lookup(row@, n@))]);
                } else {
                    assert(pairs_view(out@) =~= before + Seq::<(Seq<char>, Seq<char>)>::empty());
                }
            },
            ExportDecl::Rename(ps) => {
                let ghost want = ps@.map_values(|p: (String, String)| (p.1@, lookup(row@, p.0@)));
                let mut j: usize = 0;
                while j < ps.len()
                    invariant
                        j <= ps@.len(),
                        want == ps@.map_values(|p: (String, String)| (p.1@, lookup(row@, p.0@))),
                        pairs_view(out@) == before + want.subrange(0, j as int),
                    decreases ps@.len() - j,
                {
                    let v = match row.get(ps[j].0.as_str()) {
                        Some(x) => x.clone(),
                        None => String::new(),
                    };
                    let ghost prev = out@;
                    let ghost vv = v@;
                    out.push((ps[j].1.clone(), v));
                    assert(vv == lookup(row@, ps@[j as int].0@));
                    assert(want[j as int] == (ps@[j as int].1@, lookup(row@, ps@[j as int].0@)));
                    assert(pairs_view(out@) =~= pairs_view(prev).push((ps@[j as int].1@, vv)));
                    assert(want.subrange(0, j + 1) =~= want.subrange(0, j as int).push(want[j as int]));
                    assert(pairs_view(out@) =~= before + want.subrange(0, j + 1));
                    j = j + 1;
                }
                assert(want.subrange(0, ps@.len() as int) =~= want);
            },
        }
        i = i + 1;
    }
    Ok(out)
}

/// The map after setting each pair in turn.
pub open spec fn with_pairs(m: Map<Seq<char>, Seq<char>>, ps: Seq<(Seq<char>, Seq<char>)>) -> Map<Seq<char>, Seq<char>>
    decreases ps.len(),
{
    if ps.len() == 0 {
        m
    } else {
        with_pairs(m, ps.drop_last()).insert(ps.last().0, ps.last().1)
    }
}

/// Stores exported values in the context; later pairs win.
pub fn export_vars(context: &mut Context, values: &Vec<(String, String)>)
    ensures
        final(context)@ == with_pairs(old(context)@, pairs_view(values@)),
{
    let mut i: usize = 0;
    while i < values.len()
        invariant
            i <= values@.len(),
            context@ == with_pairs(old(context)@, pairs_view(values@).subrange(0, i as int)),
        decreases values@.len() - i,
    {
        context.add_variable(values[i].0.clone(), values[i].1.clone());
        proof {
            let t = pairs_view(values@).subrange(0, i + 1);
            assert(t.drop_last() =~= pairs_view(values@).subrange(0, i as int));
        }
        i = i + 1;
    }
    assert(pairs_view(values@).subrange(0, values@.len() as int) =~= pairs_view(values@));
}

/// The row an exports result provides: exactly one row without an error;
/// with `ignore_missing`, no row at all gives `None`.
pub open spec fn export_row(rows: Seq<Map<Seq<char>, Seq<char>>>, ignore_missing: bool) -> Option<Option<int>> {
    if rows.len() == 0 {
        if ignore_missing {
            Some(None)
        } else {
            None
        }
    } else if rows[0].contains_key(error_marker()) || rows[0].contains_key("error"@) {
        None
    } else if rows.len() > 1 {
        None
    } else {
        Some(Some(0))
    }
}

/// The names and values a resource exports from an exports result; an empty
/// result is an error unless `ignore_missing`, when it exports nothing.
pub fn process_exports(decls: &Vec<ExportDecl>, rows: &Vec<StrMap>, ignore_missing: bool) -> (r: Result<
    Vec<(String, String)>,
    ExportError,
>)
    ensures
        rows@.len() == 0 && ignore_missing ==> (r matches Ok(v) && v@.len() == 0),
        rows@.len() == 0 && !ignore_missing ==> r == Err::<Vec<(String, String)>, ExportError>(ExportError::NoRows),
        rows@.len() > 0 && rows@[0]@.contains_key(error_marker()) ==> (r matches Err(ExportError::QueryFailed(m)) && m@ == rows@[0]@[error_marker()]),
        rows@.len() > 0 && !rows@[0]@.contains_key(error_marker()) && rows@[0]@.contains_key("error"@) ==> (r matches Err(ExportError::QueryFailed(m)) && m@ == rows@[0]@["error"@]),
        rows@.len() > 1 && !(rows@[0]@.contains_key(error_marker()) || rows@[0]@.contains_key("error"@)) ==> r == Err::<Vec<(String, String)>, ExportError>(ExportError::TooManyRows(rows@.len() as usize)),
        rows@.len() == 1 && !(rows@[0]@.contains_key(error_marker()) || rows@[0]@.contains_key("error"@)) ==> {
            &&& mixed(decls@) ==> r == Err::<Vec<(String, String)>, ExportError>(ExportError::MixedDeclarations)
            &&& !mixed(decls@) ==> (r matches Ok(v) && pairs_view(v@) == exported_pairs(decls@, rows@[0]@, decls@.len() as int))
        },
{
    if rows.len() == 0 {
        if ignore_missing {
            return Ok(Vec::new());
        }
        return Err(ExportError::NoRows);
    }
    match rows[0].get("_stackql_deploy_error") {
        Some(m) => {
            return Err(ExportError::QueryFailed(m.clone()));
        },
        None => {},
    }
    match rows[0].get("error") {
        Some(m) => {
            return Err(ExportError::QueryFailed(m.clone()));
        },
        None => {},
    }
    if rows.len() > 1 {
        return Err(ExportError::TooManyRows(rows.len()));
    }
    export_values(decls, &rows[0])
}

/// The value `<evaluated>` for every exported name, as a dry run shows it.
pub fn placeholder_values(decls: &Vec<ExportDecl>) -> (r: Vec<(String, String)>)
    ensures
        pairs_view(r@).map_values(|p: (Seq<char>, Seq<char>)| p.0) == exported_pairs(
            decls@,
            Map::empty(),
            decls@.len() as int,
        ).map_values(|p: (Seq<char>, Seq<char>)| p.0),
        forall|i: int| 0 <= i < r@.len() ==> #[trigger] r@[i].1@ == "<evaluated>"@,
{
    let mut out: Vec<(String, String)> = Vec::new();
    let ghost keys = |p: (Seq<char>, Seq<char>)| p.0;
    let mut i: usize = 0;
    while i < decls.len()
        invariant
            i <= decls@.len(),
            keys == (|p: (Seq<char>, Seq<char>)| p.0),
            pairs_view(out@).map_values(keys) == exported_pairs(decls@, Map::empty(), i as int).map_values(keys),
            forall|k: int| 0 <= k < out@.len() ==> #[trigger] out@[k].1@ == "<evaluated>"@,
        decreases decls@.len() - i,
    {
        let ghost before = pairs_view(out@).map_values(keys);
        let ghost step = decl_pairs(decls@[i as int], Map::empty()).map_values(keys);
        match &decls[i] {
            ExportDecl::Name(n) => {
                if chars_of(n.as_str()).len() > 0 {
                    out.push((n.clone(), owned("<evaluated>")));
                    assert(pairs_view(out@).map_values(keys) =~= before + step);
                } else {
                    assert(pairs_view(out@).map_values(keys) =~= before + step);
                }
            },
            ExportDecl::Rename(ps) => {
                let mut j: usize = 0;
                while j < ps.len()
                    invariant
                        j <= ps@.len(),
                        keys == (|p: (Seq<char>, Seq<char>)| p.0),
                        step == decl_pairs(ExportDecl::Rename(*ps), Map::empty()).map_values(keys),
                        pairs_view(out@).map_values(keys) == before + step.subrange(0, j as int),
                        forall|k: int| 0 <= k < out@.len() ==> #[trigger] out@[k].1@ == "<evaluated>"@,
                    decreases ps@.len() - j,
                {
                    let ghost prev = out@;
                    out.push((ps[j].1.clone(), owned("<evaluated>")));
                    assert(step[j as int] == ps@[j as int].1@);
                    assert(pairs_view(out@).map_values(keys) =~= pairs_view(prev).map_values(keys).push(ps@[j as int].1@));
                    assert(step.subrange(0, j + 1) =~= step.subrange(0, j as int).push(step[j as int]));
                    assert(pairs_view(out@).map_values(keys) =~= before + step.subrange(0, j + 1));
                    j = j + 1;
                }
                assert(step.subrange(0, ps@.len() as int) =~= step);
            },
        }
        assert(exported_pairs(decls@, Map::empty(), i + 1).map_values(keys) =~= exported_pairs(
            decls@,
            Map::empty(),
            i as int,
        ).map_values(keys) + step);
        i = i + 1;
    }
    out
}

/// `*` repeated as many times as `value` has characters.
pub open spec fn mask_of(value: Seq<char>) -> Seq<char> {
    Seq::new(value.len(), |i: int| '*')
}

/// How an exported value is shown: masked where its name is protected.
pub fn display_value(name: &str, value: &str, protected: &Vec<String>) -> (r: String)
    ensures
        (exists|i: int| 0 <= i < protected@.len() && protected@[i]@ == name@) ==> r@ == mask_of(value@),
        !(exists|i: int| 0 <= i < protected@.len() && protected@[i]@ == name@) ==> r@ == value@,
{
    let key = owned(name);
    let mut hit = false;
    let mut i: usize = 0;
    while i < protected.len()
        invariant
            i <= protected@.len(),
            key@ == name@,
            hit == exists|k: int| 0 <= k < i && protected@[k]@ == name@,
        decreases protected@.len() - i,
    {
        if protected[i] == key {
            hit = true;
        }
        i = i + 1;
    }
    if !hit {
        return owned(value);
    }
    let n = chars_of(value).len();
    let mut out = String::new();
    let mut j: usize = 0;
    while j < n
        invariant
            j <= n,
            n == value@.len(),
            out@ == Seq::new(j as nat, |i: int| '*'),
        decreases n - j,
    {
        push_char(&mut out, '*');
        j = j + 1;
        assert(out@ =~= Seq::new(j as nat, |i: int| '*'));
    }
    out
}

/// A context value in the export file: JSON where it is an array or object
/// that parses, else a JSON string.
pub open spec fn export_json(v: Seq<char>) -> Seq<char> {
    if v.len() > 0 && (v[0] == '[' || v[0] == '{') && json_reformat(v) is Some {
        json_reformat(v)->Some_0
    } else {
        json_quoted(v)
    }
}

/// The first `n` declared names other than the stack's name and environment.
pub open spec fn declared(names: Seq<String>, n: int) -> Seq<Seq<char>>
    decreases n,
{
    if n <= 0 {
        Seq::empty()
    } else if names[n - 1]@ == "stack_name"@ || names[n - 1]@ == "stack_env"@ {
        declared(names, n - 1)
    } else {
        declared(names, n - 1).push(names[n - 1]@)
    }
}

/// The members of the stack export object.
pub open spec fn stack_members(
    names: Seq<Seq<char>>,
    ctx: Map<Seq<char>, Seq<char>>,
    stack_name: Seq<char>,
    stack_env: Seq<char>,
    elapsed: Seq<char>,
) -> Seq<(Seq<char>, Seq<char>)> {
    seq![("stack_name"@, json_quoted(stack_name)), ("stack_env"@, json_quoted(stack_env))]
        + names.map_values(|n: Seq<char>| (n, export_json(ctx[n])))
        + seq![("elapsed_time"@, json_quoted(elapsed))]
}

/// The JSON value of a context value for the export file.
pub fn export_value_json(v: &str) -> (r: String)
    ensures
        r@ == export_json(v@),
{
    let c = chars_of(v);
    if c.len() > 0 && (c[0] == '[' || c[0] == '{') {
        match json_compact(v) {
            Some(t) => {
                return t;
            },
            None => {},
        }
    }
    json_string(v)
}

/// Builds the stack export object, as compact JSON: the stack's name and
/// environment, each declared variable, and the elapsed time. Declared
/// variables missing from the context are an error that lists them.
pub fn process_stack_exports(
    names: &Vec<String>,
    context: &Context,
    stack_name: &str,
    stack_env: &str,
    elapsed_time: &str,
) -> (r: Result<String, ExportError>)
    ensures
        (forall|k: int| 0 <= k < declared(names@, names@.len() as int).len() ==> context@.contains_key(
            #[trigger] declared(names@, names@.len() as int)[k],
        )) ==> (r matches Ok(t) && t@ == object_text(
            stack_members(declared(names@, names@.len() as int), context@, stack_name@, stack_env@, elapsed_time@),
        )),
        !(forall|k: int| 0 <= k < declared(names@, names@.len() as int).len() ==> context@.contains_key(
            #[trigger] declared(names@, names@.len() as int)[k],
        )) ==> r matches Err(ExportError::MissingVariables(_)),
{
    let mut members: Vec<(String, String)> = Vec::new();
    members.push((owned("stack_name"), json_string(stack_name)));
    members.push((owned("stack_env"), json_string(stack_env)));
    let mut missing: Vec<String> = Vec::new();
    let ghost head = seq![("stack_name"@, json_quoted(stack_name@)), ("stack_env"@, json_quoted(stack_env@))];
    assert(pairs_view(members@) =~= head);
    let mut i: usize = 0;
    while i < names.len()
        invariant
            i <= names@.len(),
            missing@.len() == 0 ==> pairs_view(members@) == head + declared(names@, i as int).map_values(
                |n: Seq<char>| (n, export_json(context@[n])),
            ),
            missing@.len() == 0 <==> (forall|k: int| 0 <= k < declared(names@, i as int).len() ==> context@.contains_key(
                #[trigger] declared(names@, i as int)[k],
            )),
        decreases names@.len() - i,
    {
        let n = &names[i];
        let nv = chars_of(n.as_str());
        let is_meta = crate::text::same_chars(&nv, &chars_of("stack_name")) || crate::text::same_chars(
            &nv,
            &chars_of("stack_env"),
        );
        if !is_meta {
            match context.get_variable(n.as_str()) {
                Some(v) => {
                    let ghost prev = pairs_view(members@);
                    members.push((n.clone(), export_value_json(v.as_str())));
                    proof {
                        let d = declared(names@, i + 1);
                        assert(d == declared(names@, i as int).push(n@));
                        assert(d.map_values(|m: Seq<char>| (m, export_json(context@[m]))) =~= declared(names@, i as int).map_values(
                            |m: Seq<char>| (m, export_json(context@[m])),
                        ).push((n@, export_json(context@[n@]))));
                        if missing@.len() == 0 {
                            assert(pairs_view(members@) =~= prev.push((n@, export_json(context@[n@]))));
                        }
                        assert forall|k: int| 0 <= k < d.len() && (forall|k2: int| 0 <= k2 < declared(names@, i as int).len() ==> context@.contains_key(#[trigger] declared(names@, i as int)[k2])) implies context@.contains_key(#[trigger] d[k]) by {
                            if k < d.len() - 1 {
                                assert(d[k] == declared(names@, i as int)[k]);
                            }
                        }
                        assert forall|k: int| 0 <= k < declared(names@, i as int).len() && (forall|k2: int| 0 <= k2 < d.len() ==> context@.contains_key(#[trigger] d[k2])) implies context@.contains_key(#[trigger] declared(names@, i as int)[k]) by {
                            assert(d[k] == declared(names@, i as int)[k]);
                        }
                    }
                },
                None => {
                    missing.push(n.clone());
                    proof {
                        let d = declared(names@, i + 1);
                        assert(d == declared(names@, i as int).push(n@));
                        assert(!context@.contains_key(d[d.len() - 1]));
                    }
                },
            }
        } else {
            assert(declared(names@, i + 1) == declared(names@, i as int));
        }
        i = i + 1;
    }
    if missing.len() > 0 {
        return Err(ExportError::MissingVariables(missing));
    }
    let ghost prev = pairs_view(members@);
    members.push((owned("elapsed_time"), json_string(elapsed_time)));
    assert(pairs_view(members@) =~= prev.push(("elapsed_time"@, json_quoted(elapsed_time@))));
    assert(pairs_view(members@) =~= stack_members(declared(names@, names@.len() as int), context@, stack_name@, stack_env@, elapsed_time@));
    Ok(crate::config::object_of(&members))
}

/// Whether the first `n` declarations name a plain export missing from `ps`.
pub open spec fn plain_missing(decls: Seq<ExportDecl>, ps: Seq<(Seq<char>, Seq<char>)>, n: int) -> bool {
    exists|i: int|
        0 <= i < n && i < decls.len() && (#[trigger] decls[i] matches ExportDecl::Name(x) && !(exists|j: int|
            0 <= j < ps.len() && ps[j].0 == x@))
}

/// The values a script exports: its standard output must be a flat JSON
/// object of strings holding every plain export the resource declares; all
/// its members are exported. A resource that declares no exports exports
/// nothing.
pub fn script_exports(decls: &Vec<ExportDecl>, stdout: &str) -> (r: Result<Vec<(String, String)>, ExportError>)
    ensures
        decls@.len() == 0 ==> (r matches Ok(v) && v@.len() == 0),
        decls@.len() > 0 ==> match json_flat_strings(stdout@) {
            None => r matches Err(ExportError::InvalidScriptOutput(_)),
            Some(ps) => if plain_missing(decls@, ps, decls@.len() as int) {
                r matches Err(ExportError::MissingExport(_))
            } else {
                r matches Ok(v) && pairs_view(v@) == ps
            },
        },
{
    if decls.len() == 0 {
        return Ok(Vec::new());
    }
    let members = match json_string_members(stdout) {
        Some(m) => m,
        None => {
            return Err(ExportError::InvalidScriptOutput(owned(stdout)));
        },
    };
    let ghost ps = pairs_view(members@);
    let mut i: usize = 0;
    while i < decls.len()
        invariant
            i <= decls@.len(),
            decls@.len() > 0,
            ps == pairs_view(members@),
            json_flat_strings(stdout@) == Some(ps),
            !plain_missing(decls@, ps, i as int),
        decreases decls@.len() - i,
    {
        match &decls[i] {
            ExportDecl::Name(n) => {
                let mut found = false;
                let mut j: usize = 0;
                while j < members.len()
                    invariant
                        j <= members@.len(),
                        i < decls@.len(),
                        decls@.len() > 0,
                        decls@[i as int] == ExportDecl::Name(*n),
                        ps == pairs_view(members@),
                        json_flat_strings(stdout@) == Some(ps),
                        !plain_missing(decls@, ps, i as int),
                        found == exists|k: int| 0 <= k < j && ps[k].0 == n@,
                    decreases members@.len() - j,
                {
                    assert(ps[j as int].0 == members@[j as int].0@);
                    if members[j].0 == *n {
                        found = true;
                    }
                    j = j + 1;
                }
                if !found {
                    assert(plain_missing(decls@, ps, decls@.len() as int)) by {
                        assert(decls@[i as int] matches ExportDecl::Name(x) && !(exists|j: int| 0 <= j < ps.len() && ps[j].0 == x@));
                    }
                    return Err(ExportError::MissingExport(n.clone()));
                }
            },
            ExportDecl::Rename(_) => {},
        }
        assert(!plain_missing(decls@, ps, i + 1)) by {
            if plain_missing(decls@, ps, i + 1) {
                let k = choose|k: int| 0 <= k < i + 1 && k < decls@.len() && (#[trigger] decls@[k] matches ExportDecl::Name(x) && !(exists|j: int| 0 <= j < ps.len() && ps[j].0 == x@));
                if k < i {
                    assert(plain_missing(decls@, ps, i as int));
                }
            }
        }
        i = i + 1;
    }
    Ok(members)
}

/// For renamed exports, the value each exported name holds in `g`, under
/// its source column name: the pairs of `ps[..m]` whose target `g` holds.
pub open spec fn reverse_of(ps: Seq<(String, String)>, g: Map<Seq<char>, Seq<char>>, m: int) -> Seq<(Seq<char>, Seq<char>)>
    decreases m,
{
    if m <= 0 {
        Seq::empty()
    } else if g.contains_key(ps[m - 1].1@) {
        reverse_of(ps, g, m - 1).push((ps[m - 1].0@, g[ps[m - 1].1@]))
    } else {
        reverse_of(ps, g, m - 1)
    }
}

/// The reverse pairs of the first `n` declarations.
pub open spec fn reverse_pairs(decls: Seq<ExportDecl>, g: Map<Seq<char>, Seq<char>>, n: int) -> Seq<(Seq<char>, Seq<char>)>
    decreases n,
{
    if n <= 0 {
        Seq::empty()
    } else {
        reverse_pairs(decls, g, n - 1) + match decls[n - 1] {
            ExportDecl::Rename(ps) => reverse_of(ps@, g, ps@.len() as int),
            ExportDecl::Name(_) => Seq::empty(),
        }
    }
}

/// Makes renamed exports available under their source column names too, as
/// delete queries written against those names need.
pub fn reverse_exports(decls: &Vec<ExportDecl>, global: &Context, context: &mut Context)
    ensures
        final(context)@ == with_pairs(old(context)@, reverse_pairs(decls@, global@, decls@.len() as int)),
{
    let mut i: usize = 0;
    while i < decls.len()
        invariant
            i <= decls@.len(),
            context@ == with_pairs(old(context)@, reverse_pairs(decls@, global@, i as int)),
        decreases decls@.len() - i,
    {
        let ghost before = reverse_pairs(decls@, global@, i as int);
        match &decls[i] {
            ExportDecl::Rename(ps) => {
                let mut j: usize = 0;
                while j < ps.len()
                    invariant
                        j <= ps@.len(),
                        context@ == with_pairs(old(context)@, before + reverse_of(ps@, global@, j as int)),
                    decreases ps@.len() - j,
                {
                    let ghost cur = before + reverse_of(ps@, global@, j as int);
                    match global.get_variable(ps[j].1.as_str()) {
                        Some(v) => {
                            context.add_variable(ps[j].0.clone(), v.clone());
                            assert(before + reverse_of(ps@, global@, j + 1) =~= cur.push((ps@[j as int].0@, v@)));
                            assert((before + reverse_of(ps@, global@, j + 1)).drop_last() =~= cur);
                        },
                        None => {
                            assert(before + reverse_of(ps@, global@, j + 1) =~= cur);
                        },
                    }
                    j = j + 1;
                }
                assert(reverse_pairs(decls@, global@, i + 1) =~= before + reverse_of(ps@, global@, ps@.len() as int));
            },
            ExportDecl::Name(_) => {
                assert(reverse_pairs(decls@, global@, i + 1) =~= before);
            },
        }
        i = i + 1;
    }
}

/// The name a declaration exports under, as listed: a plain name, or the
/// target of a rename's first pair.
pub open spec fn listed_name(d: ExportDecl) -> Option<Seq<char>> {
    match d {
        ExportDecl::Name(s) => Some(s@),
        ExportDecl::Rename(ps) => if ps@.len() > 0 {
            Some(ps@[0].1@)
        } else {
            None
        },
    }
}

/// The listed names of the first `n` declarations.
pub open spec fn listed_names(decls: Seq<ExportDecl>, n: int) -> Seq<Seq<char>>
    decreases n,
{
    if n <= 0 {
        Seq::empty()
    } else {
        match listed_name(decls[n - 1]) {
            Some(x) => listed_names(decls, n - 1).push(x),
            None => listed_names(decls, n - 1),
        }
    }
}

/// The export names of a resource, one per declaration.
pub fn get_export_names(decls: &Vec<ExportDecl>) -> (r: Vec<String>)
    ensures
        r@.map_values(|s: String| s@) == listed_names(decls@, decls@.len() as int),
{
    let mut out: Vec<String> = Vec::new();
    let mut i: usize = 0;
    while i < decls.len()
        invariant
            i <= decls@.len(),
            out@.map_values(|s: String| s@) == listed_names(decls@, i as int),
        decreases decls@.len() - i,
    {
        let ghost before = out@.map_values(|s: String| s@);
        match &decls[i] {
            ExportDecl::Name(n) => {
                out.push(n.clone());
                assert(out@.map_values(|s: String| s@) =~= before.push(n@));
            },
            ExportDecl::Rename(ps) => {
                if ps.len() > 0 {
                    out.push(ps[0].1.clone());
                    assert(out@.map_values(|s: String| s@) =~= before.push(ps@[0].1@));
                }
            },
        }
        i = i + 1;
    }
    out
}

/// The values a resource exports, and which of them are protected.
pub struct ExportOutput {
    pub values: Context,
    pub protected: Vec<String>,
}

/// The exported names of the first `n` declarations, each set to `v`.
pub open spec fn names_set_to(decls: Seq<ExportDecl>, n: int, v: Seq<char>) -> Seq<(Seq<char>, Seq<char>)> {
    exported_pairs(decls, Map::empty(), n).map_values(|p: (Seq<char>, Seq<char>)| (p.0, v))
}

/// Every exported name set to `value`.
fn named_values(decls: &Vec<ExportDecl>, value: &str) -> (r: Vec<(String, String)>)
    ensures
        pairs_view(r@) == names_set_to(decls@, decls@.len() as int, value@),
{
    let p = placeholder_values(decls);
    let ghost keys = |q: (Seq<char>, Seq<char>)| q.0;
    let mut out: Vec<(String, String)> = Vec::new();
    let mut i: usize = 0;
    while i < p.len()
        invariant
            i <= p@.len(),
            keys == (|q: (Seq<char>, Seq<char>)| q.0),
            pairs_view(p@).map_values(keys) == exported_pairs(decls@, Map::empty(), decls@.len() as int).map_values(keys),
            out@.len() == i,
            pairs_view(out@) == pairs_view(p@).subrange(0, i as int).map_values(|q: (Seq<char>, Seq<char>)| (q.0, value@)),
        decreases p@.len() - i,
    {
        let ghost before = pairs_view(out@);
        out.push((p[i].0.clone(), owned(value)));
        assert(pairs_view(out@) =~= before.push((p@[i as int].0@, value@)));
        assert(pairs_view(p@)[i as int].0 == p@[i as int].0@);
        assert(pairs_view(out@) =~= pairs_view(p@).subrange(0, i + 1).map_values(|q: (Seq<char>, Seq<char>)| (q.0, value@)));
        i = i + 1;
    }
    proof {
        let a = pairs_view(p@).map_values(|q: (Seq<char>, Seq<char>)| (q.0, value@));
        let b = names_set_to(decls@, decls@.len() as int, value@);
        let e = exported_pairs(decls@, Map::empty(), decls@.len() as int);
        assert(pairs_view(p@).subrange(0, p@.len() as int) =~= pairs_view(p@));
        assert(a.len() == b.len()) by {
            assert(pairs_view(p@).map_values(keys).len() == e.map_values(keys).len());
        }
        assert forall|k: int| 0 <= k < a.len() implies a[k] == b[k] by {
            assert(pairs_view(p@).map_values(keys)[k] == e.map_values(keys)[k]);
        }
        assert(a =~= b);
    }
    out
}

proof fn lemma_pairs_map(v: Seq<(String, String)>)
    ensures
        pairs_map(v) == with_pairs(Map::empty(), pairs_view(v)),
    decreases v.len(),
{
    if v.len() > 0 {
        lemma_pairs_map(v.drop_last());
        assert(pairs_view(v).drop_last() =~= pairs_view(v.drop_last()));
    }
}

/// Whether every column the declarations read is in `row`.
pub open spec fn sources_present(decls: Seq<ExportDecl>, row: Map<Seq<char>, Seq<char>>) -> bool {
    forall|i: int|
        0 <= i < decls.len() ==> match #[trigger] decls[i] {
            ExportDecl::Name(n) => n@.len() == 0 || row.contains_key(n@),
            ExportDecl::Rename(ps) => forall|j: int| 0 <= j < ps@.len() ==> row.contains_key(#[trigger] ps@[j].0@),
        }
}

fn decl_sources_present(d: &ExportDecl, row: &StrMap) -> (r: bool)
    ensures
        r == match *d {
            ExportDecl::Name(n) => n@.len() == 0 || row@.contains_key(n@),
            ExportDecl::Rename(ps) => forall|j: int| 0 <= j < ps@.len() ==> row@.contains_key(#[trigger] ps@[j].0@),
        },
{
    match d {
        ExportDecl::Name(n) => chars_of(n.as_str()).len() == 0 || row.contains_key(n.as_str()),
        ExportDecl::Rename(ps) => all_sources(ps, row),
    }
}

fn all_sources(ps: &Vec<(String, String)>, row: &StrMap) -> (r: bool)
    ensures
        r == forall|j: int| 0 <= j < ps@.len() ==> row@.contains_key(#[trigger] ps@[j].0@),
{
    let mut j: usize = 0;
    while j < ps.len()
        invariant
            j <= ps@.len(),
            forall|k: int| 0 <= k < j ==> row@.contains_key(#[trigger] ps@[k].0@),
        decreases ps@.len() - j,
    {
        if !row.contains_key(ps[j].0.as_str()) {
            assert(!row@.contains_key(ps@[j as int].0@));
            return false;
        }
        j = j + 1;
    }
    true
}

/// The values a resource exports from one row given by its column names. A
/// dry run exports `<dry-run-value>` under every exported name. Values that
/// do not match the columns, a column an export reads that is missing, or no
/// row outside a dry run, are errors.
pub fn process_raw_exports(
    resource: &Resource,
    row: Option<&Vec<String>>,
    columns: &Vec<String>,
    dry_run: bool,
) -> (r: Result<ExportOutput, ExportError>)
    ensures
        r matches Ok(o) ==> o.protected@.map_values(|s: String| s@) == resource.protected@.map_values(|s: String| s@),
        dry_run ==> (r matches Ok(o) && o.values@ == with_pairs(
            Map::empty(),
            names_set_to(resource.exports@, resource.exports@.len() as int, "<dry-run-value>"@),
        )),
        !dry_run ==> match row {
            None => r matches Err(ExportError::ProcessingFailed(_)),
            Some(vals) => {
            let m = row_of(columns@, vals@);
            if vals@.len() != columns@.len() {
                r matches Err(ExportError::InvalidFormat(_))
            } else if mixed(resource.exports@) {
                r == Err::<ExportOutput, ExportError>(ExportError::MixedDeclarations)
            } else if !sources_present(resource.exports@, m) {
                r matches Err(ExportError::MissingExport(_))
            } else {
                r matches Ok(o) && o.values@ == with_pairs(
                    Map::empty(),
                    exported_pairs(resource.exports@, m, resource.exports@.len() as int),
                )
            }
            },
        },
{
    let mut protected: Vec<String> = Vec::new();
    let mut i: usize = 0;
    while i < resource.protected.len()
        invariant
            i <= resource.protected@.len(),
            protected@.len() == i,
            protected@.map_values(|s: String| s@) == resource.protected@.subrange(0, i as int).map_values(|s: String| s@),
        decreases resource.protected@.len() - i,
    {
        let ghost before = protected@.map_values(|s: String| s@);
        protected.push(resource.protected[i].clone());
        assert(protected@.map_values(|s: String| s@) =~= before.push(resource.protected@[i as int]@));
        assert(protected@.map_values(|s: String| s@) =~= resource.protected@.subrange(0, i + 1).map_values(|s: String| s@));
        i = i + 1;
    }
    assert(resource.protected@.subrange(0, resource.protected@.len() as int) =~= resource.protected@);
    let pairs = if dry_run {
        named_values(&resource.exports, "<dry-run-value>")
    } else {
        let vals = match row {
            Some(v) => v,
            None => {
                return Err(ExportError::ProcessingFailed(owned("No row data for exports")));
            },
        };
        if vals.len() != columns.len() {
            return Err(ExportError::InvalidFormat(owned("Column count mismatch in export query result")));
        }
        let m = build_row(columns, vals);
        let mut names = false;
        let mut renames = false;
        let mut i: usize = 0;
        while i < resource.exports.len()
            invariant
                i <= resource.exports@.len(),
                names == exists|k: int| 0 <= k < i && resource.exports@[k] is Name,
                renames == exists|k: int| 0 <= k < i && resource.exports@[k] is Rename,
            decreases resource.exports@.len() - i,
        {
            match &resource.exports[i] {
                ExportDecl::Name(_) => {
                    names = true;
                },
                ExportDecl::Rename(_) => {
                    renames = true;
                },
            }
            i = i + 1;
        }
        if names && renames {
            return Err(ExportError::MixedDeclarations);
        }
        assert(!mixed(resource.exports@));
        let mut i: usize = 0;
        while i < resource.exports.len()
            invariant
                !dry_run,
                row == Some(vals),
                vals@.len() == columns@.len(),
                m@ == row_of(columns@, vals@),
                !mixed(resource.exports@),
                i <= resource.exports@.len(),
                forall|k: int| 0 <= k < i ==> match #[trigger] resource.exports@[k] {
                    ExportDecl::Name(n) => n@.len() == 0 || m@.contains_key(n@),
                    ExportDecl::Rename(ps) => forall|j: int| 0 <= j < ps@.len() ==> m@.contains_key(#[trigger] ps@[j].0@),
                },
            decreases resource.exports@.len() - i,
        {
            if !decl_sources_present(&resource.exports[i], &m) {
                assert(!sources_present(resource.exports@, m@)) by {
                    assert(!match resource.exports@[i as int] {
                        ExportDecl::Name(n) => n@.len() == 0 || m@.contains_key(n@),
                        ExportDecl::Rename(ps) => forall|j: int| 0 <= j < ps@.len() ==> m@.contains_key(#[trigger] ps@[j].0@),
                    });
                }
                let mut msg = owned("Export not found in query result: ");
                match &resource.exports[i] {
                    ExportDecl::Name(n) => push_str(&mut msg, n.as_str()),
                    ExportDecl::Rename(_) => {},
                }
                return Err(ExportError::MissingExport(msg));
            }
            i = i + 1;
        }
        match export_values(&resource.exports, &m) {
            Ok(v) => v,
            Err(e) => {
                return Err(e);
            },
        }
    };
    let ghost pv = pairs@;
    let values = Context::with_variables(pairs);
    proof {
        lemma_pairs_map(pv);
    }
    Ok(ExportOutput { values, protected })
}

/// Stores exported values in the context; they replace earlier values.
pub fn apply_exports_to_context(context: &mut Context, exports: &ExportOutput)
    ensures
        final(context)@ == old(context)@.union_prefer_right(exports.values@),
{
    context.merge(&exports.values);
}

} // verus!
