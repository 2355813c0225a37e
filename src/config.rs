//! Building the variables templates are rendered with: globals, resource
//! properties (with merges), and the values handed to queries.

use vstd::prelude::*;
use crate::context::Context;
use crate::engine::{render_spec, Rendered, TemplateEngine};
use crate::json::{
    array_of, array_text, is_json, json_array_items, json_compact, json_items, json_members,
    json_object_members, json_quoted, json_reformat, json_string, union_into, union_items,
};
use crate::manifest::{GlobalVar, Manifest, ManifestValue, Property, property_value_of};
use crate::text::{chars_of, has_at, owned, push_all, push_char, push_str, string_of};
use vstd::string::StrSliceExecFns;

verus! {

broadcast use vstd::std_specs::vec::axiom_vec_index_decreases;

/// Error of building a context.
#[derive(Debug, PartialEq, Eq)]
pub enum ConfigError {
    /// A global variable rendered to nothing.
    EmptyGlobal(String),
    /// A property has no value for the environment.
    MissingPropertyValue(String),
    /// A merge source is not in the context.
    MergeSourceMissing(String),
    /// A merge source is not JSON.
    MergeSourceInvalid(String),
    /// A merge of an array with an object, or of a scalar.
    MergeTypeMismatch(String),
    /// A resource type that is none of the known kinds.
    InvalidResourceType(String),
}

/// `s` with each occurrence of `pat`, from the left, replaced by `rep`.
pub open spec fn replaced(s: Seq<char>, pat: Seq<char>, rep: Seq<char>) -> Seq<char>
    decreases s.len(),
{
    if pat.len() == 0 || s.len() < pat.len() {
        s
    } else if s.subrange(0, pat.len() as int) == pat {
        rep + replaced(s.subrange(pat.len() as int, s.len() as int), pat, rep)
    } else {
        seq![s[0]] + replaced(s.subrange(1, s.len() as int), pat, rep)
    }
}

/// `True` and `False` written in lowercase.
pub open spec fn lower_bools(s: Seq<char>) -> Seq<char> {
    replaced(replaced(s, "True"@, "true"@), "False"@, "false"@)
}

/// Each occurrence of `pat` in `s`, from the left, replaced by `rep`.
pub fn replace_text(s: &str, pat: &str, rep: &str) -> (r: String)
    ensures
        r@ == replaced(s@, pat@, rep@),
{
    let v = chars_of(s);
    let p = chars_of(pat);
    let n = v.len();
    let mut out = String::new();
    let mut i: usize = 0;
    if p.len() == 0 {
        return owned(s);
    }
    assert(v@.subrange(0, n as int) =~= v@);
    assert(out@ + replaced(v@, pat@, rep@) =~= replaced(v@, pat@, rep@));
    while i < n
        invariant
            n == v@.len(),
            v@ == s@,
            p@ == pat@,
            p@.len() > 0,
            i <= n,
            replaced(s@, pat@, rep@) == out@ + replaced(v@.subrange(i as int, n as int), pat@, rep@),
        decreases n - i,
    {
        let ghost rest = v@.subrange(i as int, n as int);
        let ghost before = out@;
        if has_at(&v, i, &p) {
            assert(rest.subrange(0, p@.len() as int) =~= v@.subrange(i as int, i + p@.len()));
            assert(rest.subrange(p@.len() as int, rest.len() as int) =~= v@.subrange(i + p@.len(), n as int));
            push_str(&mut out, rep);
            assert(before + (rep@ + replaced(v@.subrange(i + p@.len(), n as int), pat@, rep@)) =~= out@
                + replaced(v@.subrange(i + p@.len(), n as int), pat@, rep@));
            i = i + p.len();
        } else {
            proof {
                if rest.len() >= p@.len() {
                    assert(rest.subrange(0, p@.len() as int) =~= v@.subrange(i as int, i + p@.len()));
                }
            }
            assert(rest.subrange(1, rest.len() as int) =~= v@.subrange(i + 1, n as int));
            push_char(&mut out, v[i]);
            assert(before + (seq![rest[0]] + replaced(v@.subrange(i + 1, n as int), pat@, rep@)) =~= out@
                + replaced(v@.subrange(i + 1, n as int), pat@, rep@));
            i = i + 1;
        }
    }
    assert(out@ + replaced(v@.subrange(n as int, n as int), pat@, rep@) =~= out@);
    out
}

/// `True` and `False` written in lowercase.
pub fn lowercase_bools(s: &str) -> (r: String)
    ensures
        r@ == lower_bools(s@),
{
    let t = replace_text(s, "True", "true");
    replace_text(t.as_str(), "False", "false")
}

/// A rendered value in the form queries take it: booleans in lowercase.
pub open spec fn sql_compatible(v: Seq<char>) -> Seq<char> {
    if v == "True"@ || v == "true"@ {
        "true"@
    } else if v == "False"@ || v == "false"@ {
        "false"@
    } else {
        v
    }
}

/// A rendered value in the form queries take it: booleans in lowercase.
pub fn to_sql_compatible_json(value: &str) -> (r: String)
    ensures
        r@ == sql_compatible(value@),
{
    let v = chars_of(value);
    if crate::text::same_chars(&v, &chars_of("True")) || crate::text::same_chars(&v, &chars_of("true")) {
        owned("true")
    } else if crate::text::same_chars(&v, &chars_of("False")) || crate::text::same_chars(&v, &chars_of("false")) {
        owned("false")
    } else {
        owned(value)
    }
}

/// A template rendered against `ctx`, booleans in lowercase; a template that
/// fails to render stays as it is.
pub open spec fn rendered_text(t: Seq<char>, ctx: Map<Seq<char>, Seq<char>>) -> Seq<char> {
    match render_spec(t, ctx) {
        Rendered::Text(x) => lower_bools(x),
        _ => t,
    }
}

/// Renders a template string, booleans in lowercase; on failure the template.
pub fn render_string_value(engine: &TemplateEngine, value: &str, context: &Context) -> (r: String)
    ensures
        r@ == rendered_text(value@, context@),
{
    match engine.render(value, context) {
        Ok(text) => lowercase_bools(text.as_str()),
        Err(_) => owned(value),
    }
}

/// A rendered item as a JSON value: its JSON, else a JSON string of it.
pub open spec fn item_json(r: Seq<char>) -> Seq<char> {
    match json_reformat(r) {
        Some(t) => t,
        None => json_quoted(r),
    }
}

/// Members as the text of a JSON object.
pub open spec fn members_text(ms: Seq<(Seq<char>, Seq<char>)>) -> Seq<char>
    decreases ms.len(),
{
    if ms.len() == 0 {
        Seq::empty()
    } else if ms.len() == 1 {
        json_quoted(ms[0].0) + seq![':'] + ms[0].1
    } else {
        members_text(ms.drop_last()) + seq![','] + json_quoted(ms.last().0) + seq![':'] + ms.last().1
    }
}

/// The compact JSON object of members; serde's printing orders the keys.
pub open spec fn object_text(ms: Seq<(Seq<char>, Seq<char>)>) -> Seq<char> {
    let t = seq!['{'] + members_text(ms) + seq!['}'];
    match json_reformat(t) {
        Some(x) => x,
        None => t,
    }
}

/// A manifest value rendered against `ctx`: strings through the template
/// engine, lists and mappings as compact JSON of their rendered items.
pub open spec fn rendered_value(v: ManifestValue, ctx: Map<Seq<char>, Seq<char>>) -> Seq<char>
    decreases v,
{
    match v {
        ManifestValue::Null => Seq::empty(),
        ManifestValue::Bool(b) => if b {
            "true"@
        } else {
            "false"@
        },
        ManifestValue::Number(n) => n@,
        ManifestValue::Str(s) => rendered_text(s@, ctx),
        ManifestValue::List(items) => array_text(rendered_items(items@, ctx)),
        ManifestValue::Mapping(entries) => object_text(rendered_members(entries@, ctx)),
    }
}

/// Each item rendered, as JSON.
pub open spec fn rendered_items(items: Seq<ManifestValue>, ctx: Map<Seq<char>, Seq<char>>) -> Seq<Seq<char>>
    decreases items,
{
    Seq::new(
        items.len(),
        |i: int|
            if 0 <= i < items.len() {
                item_json(rendered_value(items[i], ctx))
            } else {
                Seq::empty()
            },
    )
}

/// Each member's value rendered, as JSON.
pub open spec fn rendered_members(
    entries: Seq<(String, ManifestValue)>,
    ctx: Map<Seq<char>, Seq<char>>,
) -> Seq<(Seq<char>, Seq<char>)>
    decreases entries,
{
    Seq::new(
        entries.len(),
        |i: int|
            if 0 <= i < entries.len() {
                (entries[i].0@, item_json(rendered_value(entries[i].1, ctx)))
            } else {
                (Seq::<char>::empty(), Seq::<char>::empty())
            },
    )
}

/// A rendered item as a JSON value: its JSON, else a JSON string of it.
pub fn as_item_json(r: &str) -> (out: String)
    ensures
        out@ == item_json(r@),
{
    match json_compact(r) {
        Some(t) => t,
        None => json_string(r),
    }
}

#[verifier::loop_isolation(false)]
/// Renders a manifest value: strings through the template engine (booleans
/// in lowercase), lists and mappings as compact JSON of their rendered items.
pub fn render_value(engine: &TemplateEngine, value: &ManifestValue, context: &Context) -> (r: String)
    ensures
        r@ == rendered_value(*value, context@),
    decreases value,
{
    match value {
        ManifestValue::Null => String::new(),
        ManifestValue::Bool(b) => if *b {
            owned("true")
        } else {
            owned("false")
        },
        ManifestValue::Number(n) => n.clone(),
        ManifestValue::Str(s) => render_string_value(engine, s.as_str(), context),
        ManifestValue::List(items) => {
            let ghost want = rendered_items(items@, context@);
            let mut parts: Vec<String> = Vec::new();
            let mut i: usize = 0;
            while i < items.len()
                invariant
                    i <= items@.len(),
                    *value == ManifestValue::List(*items),
                    parts@.map_values(|x: String| x@) == want.subrange(0, i as int),
                    want == rendered_items(items@, context@),
                decreases items@.len() - i,
            {
                proof {
                    vstd::std_specs::vec::axiom_vec_index_decreases(*items, i as int);
                    assert(decreases_to!(*value => value->List_0));
                    assert(decreases_to!(*items => items@[i as int]));
                }
                let r = render_value(engine, &items[i], context);
                let j = as_item_json(r.as_str());
                let ghost before = parts@.map_values(|x: String| x@);
                parts.push(j);
                assert(want[i as int] == item_json(rendered_value(items@[i as int], context@)));
                assert(parts@.map_values(|x: String| x@) =~= before.push(want[i as int]));
                assert(want.subrange(0, i + 1) =~= want.subrange(0, i as int).push(want[i as int]));
                i = i + 1;
            }
            assert(want.subrange(0, items@.len() as int) =~= want);
            let r = array_of(&parts);
            assert(r@ == array_text(want));
            assert(rendered_value(*value, context@) == array_text(rendered_items(items@, context@)));
            r
        },
        ManifestValue::Mapping(entries) => {
            let ghost want = rendered_members(entries@, context@);
            let mut out = String::new();
            push_char(&mut out, '{');
            let mut i: usize = 0;
            while i < entries.len()
                invariant
                    i <= entries@.len(),
                    *value == ManifestValue::Mapping(*entries),
                    out@ == seq!['{'] + members_text(want.subrange(0, i as int)),
                    want == rendered_members(entries@, context@),
                decreases entries@.len() - i,
            {
                let ghost before = out@;
                if i > 0 {
                    push_char(&mut out, ',');
                }
                let k = json_string(entries[i].0.as_str());
                push_str(&mut out, k.as_str());
                push_char(&mut out, ':');
                proof {
                    vstd::std_specs::vec::axiom_vec_index_decreases(*entries, i as int);
                    assert(decreases_to!(*value => value->Mapping_0));
                    assert(decreases_to!(*entries => entries@[i as int]));
                    assert(decreases_to!(entries@[i as int] => entries@[i as int].1));
                }
                let r = render_value(engine, &entries[i].1, context);
                let j = as_item_json(r.as_str());
                push_str(&mut out, j.as_str());
                proof {
                    let t = want.subrange(0, i + 1);
                    assert(t.drop_last() =~= want.subrange(0, i as int));
                    if i == 0 {
                        assert(out@ =~= seq!['{'] + (json_quoted(t[0].0) + seq![':'] + t[0].1));
                    } else {
                        assert(out@ =~= seq!['{'] + (members_text(t.drop_last()) + seq![','] + json_quoted(t.last().0) + seq![':'] + t.last().1));
                    }
                }
                i = i + 1;
            }
            push_char(&mut out, '}');
            assert(want.subrange(0, entries@.len() as int) =~= want);
            assert(out@ == seq!['{'] + members_text(want) + seq!['}']);
            match json_compact(out.as_str()) {
                Some(t) => t,
                None => out,
            }
        },
    }
}

/// `ConfigError` over plain values.
pub enum ConfigFault {
    EmptyGlobal(Seq<char>),
    MissingPropertyValue(Seq<char>),
    MergeSourceMissing(Seq<char>),
    MergeSourceInvalid(Seq<char>),
    MergeTypeMismatch(Seq<char>),
    InvalidResourceType(Seq<char>),
}

impl View for ConfigError {
    type V = ConfigFault;

    open spec fn view(&self) -> ConfigFault {
        match self {
            ConfigError::EmptyGlobal(m) => ConfigFault::EmptyGlobal(m@),
            ConfigError::MissingPropertyValue(m) => ConfigFault::MissingPropertyValue(m@),
            ConfigError::MergeSourceMissing(m) => ConfigFault::MergeSourceMissing(m@),
            ConfigError::MergeSourceInvalid(m) => ConfigFault::MergeSourceInvalid(m@),
            ConfigError::MergeTypeMismatch(m) => ConfigFault::MergeTypeMismatch(m@),
            ConfigError::InvalidResourceType(m) => ConfigFault::InvalidResourceType(m@),
        }
    }
}

/// The context after the first `n` global variables: each rendered against the
/// overrides `vars` overlaid by the globals so far, booleans in lowercase; an
/// empty result fails.
pub open spec fn globals_upto(
    vars: Map<Seq<char>, Seq<char>>,
    gs: Seq<GlobalVar>,
    n: int,
    base: Map<Seq<char>, Seq<char>>,
) -> Result<Map<Seq<char>, Seq<char>>, ConfigFault>
    decreases n,
{
    if n <= 0 {
        Ok(base)
    } else {
        match globals_upto(vars, gs, n - 1, base) {
            Err(e) => Err(e),
            Ok(g) => {
                let r = rendered_value(gs[n - 1].value, vars.union_prefer_right(g));
                if r.len() == 0 {
                    Err(ConfigFault::EmptyGlobal(gs[n - 1].name@))
                } else {
                    Ok(g.insert(gs[n - 1].name@, sql_compatible(r)))
                }
            },
        }
    }
}

/// The global context: the stack's environment and name, then its globals.
pub open spec fn globals_spec(
    vars: Map<Seq<char>, Seq<char>>,
    gs: Seq<GlobalVar>,
    env: Seq<char>,
    name: Seq<char>,
) -> Result<Map<Seq<char>, Seq<char>>, ConfigFault> {
    globals_upto(
        vars,
        gs,
        gs.len() as int,
        Map::empty().insert("stack_env"@, env).insert("stack_name"@, name),
    )
}

/// Renders the manifest's global variables into the global context.
pub fn render_globals(
    engine: &TemplateEngine,
    vars: &Context,
    manifest: &Manifest,
    stack_env: &str,
    stack_name: &str,
) -> (r: Result<Context, ConfigError>)
    ensures
        match r {
            Ok(c) => globals_spec(vars@, manifest.globals@, stack_env@, stack_name@) == Ok::<
                Map<Seq<char>, Seq<char>>,
                ConfigFault,
            >(c@),
            Err(e) => globals_spec(vars@, manifest.globals@, stack_env@, stack_name@) == Err::<
                Map<Seq<char>, Seq<char>>,
                ConfigFault,
            >(e@),
        },
{
    let mut g = Context::new();
    g.add_variable(owned("stack_env"), owned(stack_env));
    g.add_variable(owned("stack_name"), owned(stack_name));
    let ghost base = g@;
    let gs = &manifest.globals;
    let mut i: usize = 0;
    while i < gs.len()
        invariant
            i <= gs@.len(),
            gs@ == manifest.globals@,
            base == Map::<Seq<char>, Seq<char>>::empty().insert("stack_env"@, stack_env@).insert("stack_name"@, stack_name@),
            globals_upto(vars@, gs@, i as int, base) == Ok::<Map<Seq<char>, Seq<char>>, ConfigFault>(g@),
        decreases gs@.len() - i,
    {
        let combined = vars.merged_with(&g);
        let rendered = render_value(engine, &gs[i].value, &combined);
        if rendered.as_str().unicode_len() == 0 {
            assert(rendered@.len() == 0);
            let ghost e = ConfigFault::EmptyGlobal(gs@[i as int].name@);
            assert(globals_upto(vars@, gs@, i + 1, base) == Err::<Map<Seq<char>, Seq<char>>, ConfigFault>(e));
            proof {
                lemma_globals_stop(vars@, gs@, i as int + 1, gs@.len() as int, base, e);
            }
            assert(globals_spec(vars@, manifest.globals@, stack_env@, stack_name@) == Err::<Map<Seq<char>, Seq<char>>, ConfigFault>(e));
            return Err(ConfigError::EmptyGlobal(gs[i].name.clone()));
        }
        let v = to_sql_compatible_json(rendered.as_str());
        g.add_variable(gs[i].name.clone(), v);
        i = i + 1;
    }
    Ok(g)
}

/// An error at step `k` stays the outcome of every later step.
proof fn lemma_globals_stop(
    vars: Map<Seq<char>, Seq<char>>,
    gs: Seq<GlobalVar>,
    k: int,
    n: int,
    base: Map<Seq<char>, Seq<char>>,
    e: ConfigFault,
)
    requires
        k <= n,
        globals_upto(vars, gs, k, base) == Err::<Map<Seq<char>, Seq<char>>, ConfigFault>(e),
    ensures
        globals_upto(vars, gs, n, base) == Err::<Map<Seq<char>, Seq<char>>, ConfigFault>(e),
    decreases n - k,
{
    if k < n {
        lemma_globals_stop(vars, gs, k, n - 1, base, e);
    }
}

/// A value read as JSON for merging.
pub enum JsonForm {
    Absent,
    Invalid,
    Array(Seq<Seq<char>>),
    Object(Seq<(Seq<char>, Seq<char>)>),
    Scalar(Seq<char>),
}

/// How a text reads as JSON.
pub open spec fn json_form(t: Seq<char>) -> JsonForm {
    match json_items(t) {
        Some(a) => JsonForm::Array(a),
        None => match json_members(t) {
            Some(m) => JsonForm::Object(m),
            None => match json_reformat(t) {
                Some(x) => JsonForm::Scalar(x),
                None => JsonForm::Invalid,
            },
        },
    }
}

/// `ms` with each member of `more` set: an existing key takes the new value
/// in place, a new key is appended.
pub open spec fn overlay(ms: Seq<(Seq<char>, Seq<char>)>, more: Seq<(Seq<char>, Seq<char>)>) -> Seq<(Seq<char>, Seq<char>)>
    decreases more.len(),
{
    if more.len() == 0 {
        ms
    } else {
        let before = overlay(ms, more.drop_last());
        let m = more.last();
        match key_index(before, m.0, 0) {
            Some(i) => before.update(i, m),
            None => before.push(m),
        }
    }
}

/// Position of the first member with key `k` in `ms[j..]`.
pub open spec fn key_index(ms: Seq<(Seq<char>, Seq<char>)>, k: Seq<char>, j: int) -> Option<int>
    decreases ms.len() - j,
{
    if j < 0 || j >= ms.len() {
        None
    } else if ms[j].0 == k {
        Some(j)
    } else {
        key_index(ms, k, j + 1)
    }
}

/// One merge: arrays unite (left order, no repeats), objects overlay (right
/// wins), a missing base takes the merged value; other pairs do not merge.
pub open spec fn merge_forms(base: JsonForm, m: JsonForm) -> Option<JsonForm> {
    match (base, m) {
        (JsonForm::Array(a), JsonForm::Array(b)) => Some(JsonForm::Array(union_items(a, b))),
        (JsonForm::Object(a), JsonForm::Object(b)) => Some(JsonForm::Object(overlay(a, b))),
        (JsonForm::Absent, x) => Some(x),
        _ => None,
    }
}

/// The text of a merged value.
pub open spec fn form_text(f: JsonForm) -> Seq<char> {
    match f {
        JsonForm::Array(a) => array_text(a),
        JsonForm::Object(m) => object_text(m),
        JsonForm::Scalar(x) => x,
        _ => Seq::empty(),
    }
}

/// The merged value after the first `n` merge sources, looked up in `ctx`.
pub open spec fn merged_upto(
    base: JsonForm,
    items: Seq<String>,
    n: int,
    ctx: Map<Seq<char>, Seq<char>>,
    prop: Seq<char>,
) -> Result<JsonForm, ConfigFault>
    decreases n,
{
    if n <= 0 {
        Ok(base)
    } else {
        match merged_upto(base, items, n - 1, ctx, prop) {
            Err(e) => Err(e),
            Ok(b) => {
                let name = items[n - 1]@;
                if !ctx.contains_key(name) {
                    Err(ConfigFault::MergeSourceMissing(name))
                } else if json_form(ctx[name]) is Invalid {
                    Err(ConfigFault::MergeSourceInvalid(name))
                } else {
                    match merge_forms(b, json_form(ctx[name])) {
                        Some(f) => Ok(f),
                        None => Err(ConfigFault::MergeTypeMismatch(prop)),
                    }
                }
            },
        }
    }
}

/// Property values so far, and the context later properties see.
pub struct PropState {
    pub props: Map<Seq<char>, Seq<char>>,
    pub ctx: Map<Seq<char>, Seq<char>>,
}

/// `st` with the property `name` set to `v`.
pub open spec fn set_prop(st: PropState, name: Seq<char>, v: Seq<char>) -> PropState {
    PropState { props: st.props.insert(name, v), ctx: st.ctx.insert(name, v) }
}

/// The state after one property: its value for `env` rendered against the
/// context so far, then its merges.
pub open spec fn prop_step(st: PropState, p: &Property, env: Seq<char>) -> Result<PropState, ConfigFault> {
    let name = p.name@;
    if p.value is None && p.values is Some && property_value_of(p, env) is None {
        Err(ConfigFault::MissingPropertyValue(name))
    } else {
        let st1 = match property_value_of(p, env) {
            Some(v) => set_prop(st, name, sql_compatible(rendered_value(*v, st.ctx))),
            None => st,
        };
        match &p.merge {
            None => Ok(st1),
            Some(items) => {
                let base = if st1.props.contains_key(name) {
                    match json_form(st1.props[name]) {
                        JsonForm::Invalid => JsonForm::Absent,
                        f => f,
                    }
                } else {
                    JsonForm::Absent
                };
                match merged_upto(base, items@, items@.len() as int, st1.ctx, name) {
                    Err(e) => Err(e),
                    Ok(JsonForm::Absent) => Ok(st1),
                    Ok(f) => Ok(set_prop(st1, name, form_text(f))),
                }
            },
        }
    }
}

/// The state after the first `n` properties.
pub open spec fn props_upto(st: PropState, ps: Seq<Property>, n: int, env: Seq<char>) -> Result<PropState, ConfigFault>
    decreases n,
{
    if n <= 0 {
        Ok(st)
    } else {
        match props_upto(st, ps, n - 1, env) {
            Err(e) => Err(e),
            Ok(s) => prop_step(s, &ps[n - 1], env),
        }
    }
}

proof fn lemma_props_stop(st: PropState, ps: Seq<Property>, k: int, n: int, env: Seq<char>, e: ConfigFault)
    requires
        0 <= k <= n,
        props_upto(st, ps, k, env) == Err::<PropState, ConfigFault>(e),
    ensures
        props_upto(st, ps, n, env) == Err::<PropState, ConfigFault>(e),
    decreases n - k,
{
    if k < n {
        lemma_props_stop(st, ps, k, n - 1, env, e);
    }
}

/// Merged JSON for merging: the form a text has, with its items or members.
pub enum Merged {
    Absent,
    Array(Vec<String>),
    Object(Vec<(String, String)>),
    Scalar(String),
}

impl View for Merged {
    type V = JsonForm;

    open spec fn view(&self) -> JsonForm {
        match self {
            Merged::Absent => JsonForm::Absent,
            Merged::Array(a) => JsonForm::Array(a@.map_values(|x: String| x@)),
            Merged::Object(m) => JsonForm::Object(m@.map_values(|x: (String, String)| (x.0@, x.1@))),
            Merged::Scalar(x) => JsonForm::Scalar(x@),
        }
    }
}

/// Reads a text as JSON; `None` where it is no JSON.
pub fn read_json(t: &str) -> (r: Option<Merged>)
    ensures
        match r {
            Some(m) => json_form(t@) == m@ && !(m is Absent),
            None => json_form(t@) is Invalid,
        },
{
    match json_array_items(t) {
        Some(a) => Some(Merged::Array(a)),
        None => match json_object_members(t) {
            Some(m) => Some(Merged::Object(m)),
            None => match json_compact(t) {
                Some(x) => Some(Merged::Scalar(x)),
                None => None,
            },
        },
    }
}

/// Position of the first member with key `k`.
fn find_key(ms: &Vec<(String, String)>, k: &String) -> (r: Option<usize>)
    ensures
        r matches Some(j) ==> key_index(ms@.map_values(|x: (String, String)| (x.0@, x.1@)), k@, 0)
            == Some(j as int) && j < ms@.len(),
        r is None ==> key_index(ms@.map_values(|x: (String, String)| (x.0@, x.1@)), k@, 0) is None,
{
    let ghost cur = ms@.map_values(|x: (String, String)| (x.0@, x.1@));
    let mut j: usize = 0;
    while j < ms.len()
        invariant
            j <= ms@.len(),
            cur == ms@.map_values(|x: (String, String)| (x.0@, x.1@)),
            key_index(cur, k@, 0) == key_index(cur, k@, j as int),
        decreases ms@.len() - j,
    {
        if ms[j].0 == *k {
            assert(key_index(cur, k@, j as int) == Some(j as int));
            return Some(j);
        }
        j = j + 1;
    }
    None
}

/// Overlays the members of `more` on `ms`.
pub fn overlay_into(ms: &mut Vec<(String, String)>, more: &Vec<(String, String)>)
    ensures
        final(ms)@.map_values(|x: (String, String)| (x.0@, x.1@)) == overlay(
            old(ms)@.map_values(|x: (String, String)| (x.0@, x.1@)),
            more@.map_values(|x: (String, String)| (x.0@, x.1@)),
        ),
{
    let ghost start = ms@.map_values(|x: (String, String)| (x.0@, x.1@));
    let ghost extra = more@.map_values(|x: (String, String)| (x.0@, x.1@));
    let mut i: usize = 0;
    while i < more.len()
        invariant
            i <= more@.len(),
            extra == more@.map_values(|x: (String, String)| (x.0@, x.1@)),
            ms@.map_values(|x: (String, String)| (x.0@, x.1@)) == overlay(start, extra.subrange(0, i as int)),
        decreases more@.len() - i,
    {
        let ghost cur = ms@.map_values(|x: (String, String)| (x.0@, x.1@));
        let found = find_key(ms, &more[i].0);
        proof {
            let t = extra.subrange(0, i + 1);
            assert(t.drop_last() =~= extra.subrange(0, i as int));
            assert(t.last() == (more@[i as int].0@, more@[i as int].1@));
        }
        match found {
            Some(k) => {
                let pair = (more[i].0.clone(), more[i].1.clone());
                ms.set(k, pair);
                assert(ms@.map_values(|x: (String, String)| (x.0@, x.1@)) =~= cur.update(
                    k as int,
                    (more@[i as int].0@, more@[i as int].1@),
                ));
                assert(overlay(start, extra.subrange(0, i + 1)) == cur.update(
                    k as int,
                    (more@[i as int].0@, more@[i as int].1@),
                ));
            },
            None => {
                let pair = (more[i].0.clone(), more[i].1.clone());
                ms.push(pair);
                assert(ms@.map_values(|x: (String, String)| (x.0@, x.1@)) =~= cur.push(
                    (more@[i as int].0@, more@[i as int].1@),
                ));
                assert(overlay(start, extra.subrange(0, i + 1)) == cur.push(
                    (more@[i as int].0@, more@[i as int].1@),
                ));
            },
        }
        i = i + 1;
    }
    assert(extra.subrange(0, more@.len() as int) =~= extra);
}

/// The compact JSON object of members.
pub fn object_of(ms: &Vec<(String, String)>) -> (r: String)
    ensures
        r@ == object_text(ms@.map_values(|x: (String, String)| (x.0@, x.1@))),
{
    let ghost want = ms@.map_values(|x: (String, String)| (x.0@, x.1@));
    let mut out = String::new();
    push_char(&mut out, '{');
    let mut i: usize = 0;
    while i < ms.len()
        invariant
            i <= ms@.len(),
            want == ms@.map_values(|x: (String, String)| (x.0@, x.1@)),
            out@ == seq!['{'] + members_text(want.subrange(0, i as int)),
        decreases ms@.len() - i,
    {
        if i > 0 {
            push_char(&mut out, ',');
        }
        let k = json_string(ms[i].0.as_str());
        push_str(&mut out, k.as_str());
        push_char(&mut out, ':');
        push_str(&mut out, ms[i].1.as_str());
        proof {
            let t = want.subrange(0, i + 1);
            assert(t.drop_last() =~= want.subrange(0, i as int));
            if i == 0 {
                assert(out@ =~= seq!['{'] + (json_quoted(t[0].0) + seq![':'] + t[0].1));
            } else {
                assert(out@ =~= seq!['{'] + (members_text(t.drop_last()) + seq![','] + json_quoted(t.last().0) + seq![':'] + t.last().1));
            }
        }
        i = i + 1;
    }
    push_char(&mut out, '}');
    assert(want.subrange(0, ms@.len() as int) =~= want);
    assert(out@ == seq!['{'] + members_text(want) + seq!['}']);
    match json_compact(out.as_str()) {
        Some(t) => t,
        None => out,
    }
}

/// Merges `m` into `base`; `None` where the forms do not merge.
pub fn merge_json(base: Merged, m: Merged) -> (r: Option<Merged>)
    ensures
        match r {
            Some(x) => merge_forms(base@, m@) == Some(x@),
            None => merge_forms(base@, m@) is None,
        },
{
    match (base, m) {
        (Merged::Array(mut a), Merged::Array(b)) => {
            union_into(&mut a, &b);
            Some(Merged::Array(a))
        },
        (Merged::Object(mut a), Merged::Object(b)) => {
            overlay_into(&mut a, &b);
            Some(Merged::Object(a))
        },
        (Merged::Absent, x) => Some(x),
        _ => None,
    }
}

/// The text of a merged value.
pub fn merged_text(f: &Merged) -> (r: String)
    ensures
        r@ == form_text(f@),
{
    match f {
        Merged::Array(a) => array_of(a),
        Merged::Object(m) => object_of(m),
        Merged::Scalar(x) => x.clone(),
        Merged::Absent => String::new(),
    }
}

/// Renders one property into `props` and `ctx`, then applies its merges.
fn render_property(
    engine: &TemplateEngine,
    p: &Property,
    env: &str,
    props: &mut Context,
    ctx: &mut Context,
) -> (r: Result<(), ConfigError>)
    ensures
        match r {
            Ok(()) => prop_step(PropState { props: old(props)@, ctx: old(ctx)@ }, p, env@) == Ok::<
                PropState,
                ConfigFault,
            >(PropState { props: final(props)@, ctx: final(ctx)@ }),
            Err(e) => prop_step(PropState { props: old(props)@, ctx: old(ctx)@ }, p, env@) == Err::<
                PropState,
                ConfigFault,
            >(e@),
        },
{
    let ghost p0 = props@;
    let ghost c0 = ctx@;
    let name = &p.name;
    let chosen = Manifest::get_property_value(p, env);
    if p.value.is_none() && p.values.is_some() && chosen.is_none() {
        return Err(ConfigError::MissingPropertyValue(name.clone()));
    }
    match chosen {
        Some(v) => {
            let rendered = render_value(engine, v, ctx);
            let sql = to_sql_compatible_json(rendered.as_str());
            props.add_variable(name.clone(), sql.clone());
            ctx.add_variable(name.clone(), sql);
        },
        None => {},
    }
    let ghost st1 = PropState { props: props@, ctx: ctx@ };
    match &p.merge {
        None => Ok(()),
        Some(items) => {
            let mut base = match props.get_variable(name.as_str()) {
                Some(t) => match read_json(t.as_str()) {
                    Some(m) => m,
                    None => Merged::Absent,
                },
                None => Merged::Absent,
            };
            let ghost base0 = base@;
            assert(base0 == (if st1.props.contains_key(name@) {
                match json_form(st1.props[name@]) {
                    JsonForm::Invalid => JsonForm::Absent,
                    f => f,
                }
            } else {
                JsonForm::Absent
            }));
            let mut i: usize = 0;
            while i < items.len()
                invariant
                    i <= items@.len(),
                    p0 == old(props)@,
                    c0 == old(ctx)@,
                    p.merge == Some(*items),
                    name == &p.name,
                    !(p.value is None && p.values is Some && property_value_of(p, env@) is None),
                    st1 == (match property_value_of(p, env@) {
                        Some(v) => set_prop(PropState { props: p0, ctx: c0 }, p.name@, sql_compatible(rendered_value(*v, c0))),
                        None => PropState { props: p0, ctx: c0 },
                    }),
                    base0 == (if st1.props.contains_key(name@) {
                        match json_form(st1.props[name@]) {
                            JsonForm::Invalid => JsonForm::Absent,
                            f => f,
                        }
                    } else {
                        JsonForm::Absent
                    }),
                    st1 == (PropState { props: props@, ctx: ctx@ }),
                    merged_upto(base0, items@, i as int, ctx@, name@) == Ok::<JsonForm, ConfigFault>(base@),
                decreases items@.len() - i,
            {
                let src = match ctx.get_variable(items[i].as_str()) {
                    Some(t) => t,
                    None => {
                        let ghost e = ConfigFault::MergeSourceMissing(items@[i as int]@);
                        assert(merged_upto(base0, items@, i + 1, ctx@, name@) == Err::<JsonForm, ConfigFault>(e));
                        proof {
                            lemma_merge_stop(base0, items@, i as int + 1, items@.len() as int, ctx@, name@, e);
                        }
                        return Err(ConfigError::MergeSourceMissing(items[i].clone()));
                    },
                };
                let m = match read_json(src.as_str()) {
                    Some(m) => m,
                    None => {
                        let ghost e = ConfigFault::MergeSourceInvalid(items@[i as int]@);
                        assert(merged_upto(base0, items@, i + 1, ctx@, name@) == Err::<JsonForm, ConfigFault>(e));
                        proof {
                            lemma_merge_stop(base0, items@, i as int + 1, items@.len() as int, ctx@, name@, e);
                        }
                        return Err(ConfigError::MergeSourceInvalid(items[i].clone()));
                    },
                };
                base = match merge_json(base, m) {
                    Some(x) => x,
                    None => {
                        let ghost e = ConfigFault::MergeTypeMismatch(name@);
                        assert(merged_upto(base0, items@, i + 1, ctx@, name@) == Err::<JsonForm, ConfigFault>(e));
                        proof {
                            lemma_merge_stop(base0, items@, i as int + 1, items@.len() as int, ctx@, name@, e);
                        }
                        return Err(ConfigError::MergeTypeMismatch(name.clone()));
                    },
                };
                i = i + 1;
            }
            match base {
                Merged::Absent => Ok(()),
                _ => {
                    let text = merged_text(&base);
                    props.add_variable(name.clone(), text.clone());
                    ctx.add_variable(name.clone(), text);
                    Ok(())
                },
            }
        },
    }
}

proof fn lemma_merge_stop(
    base: JsonForm,
    items: Seq<String>,
    k: int,
    n: int,
    ctx: Map<Seq<char>, Seq<char>>,
    prop: Seq<char>,
    e: ConfigFault,
)
    requires
        0 <= k <= n,
        merged_upto(base, items, k, ctx, prop) == Err::<JsonForm, ConfigFault>(e),
    ensures
        merged_upto(base, items, n, ctx, prop) == Err::<JsonForm, ConfigFault>(e),
    decreases n - k,
{
    if k < n {
        lemma_merge_stop(base, items, k, n - 1, ctx, prop, e);
    }
}

/// Renders a resource's properties, in order, each against the global context
/// overlaid by the properties before it; returns the properties' values.
pub fn render_properties(
    engine: &TemplateEngine,
    resource_props: &Vec<Property>,
    global_context: &Context,
    stack_env: &str,
) -> (r: Result<Context, ConfigError>)
    ensures
        match r {
            Ok(c) => props_upto(
                PropState { props: Map::empty(), ctx: global_context@ },
                resource_props@,
                resource_props@.len() as int,
                stack_env@,
            ) matches Ok(st) && st.props == c@,
            Err(e) => props_upto(
                PropState { props: Map::empty(), ctx: global_context@ },
                resource_props@,
                resource_props@.len() as int,
                stack_env@,
            ) == Err::<PropState, ConfigFault>(e@),
        },
{
    let mut props = Context::new();
    let mut ctx = global_context.create_child();
    let ghost init = PropState { props: Map::empty(), ctx: global_context@ };
    let mut i: usize = 0;
    while i < resource_props.len()
        invariant
            i <= resource_props@.len(),
            init == (PropState { props: Map::empty(), ctx: global_context@ }),
            props_upto(init, resource_props@, i as int, stack_env@) == Ok::<PropState, ConfigFault>(
                PropState { props: props@, ctx: ctx@ },
            ),
        decreases resource_props@.len() - i,
    {
        match render_property(engine, &resource_props[i], stack_env, &mut props, &mut ctx) {
            Ok(()) => {},
            Err(e) => {
                proof {
                    lemma_props_stop(init, resource_props@, i as int + 1, resource_props@.len() as int, stack_env@, e@);
                }
                return Err(e);
            },
        }
        i = i + 1;
    }
    Ok(props)
}

/// The full context of a resource: the global context overlaid by the
/// resource's rendered properties.
pub fn get_full_context(
    engine: &TemplateEngine,
    global_context: &Context,
    resource_props: &Vec<Property>,
    stack_env: &str,
) -> (r: Result<Context, ConfigError>)
    ensures
        match r {
            Ok(c) => props_upto(
                PropState { props: Map::empty(), ctx: global_context@ },
                resource_props@,
                resource_props@.len() as int,
                stack_env@,
            ) matches Ok(st) && c@ == global_context@.union_prefer_right(st.props),
            Err(e) => props_upto(
                PropState { props: Map::empty(), ctx: global_context@ },
                resource_props@,
                resource_props@.len() as int,
                stack_env@,
            ) == Err::<PropState, ConfigFault>(e@),
        },
{
    let props = render_properties(engine, resource_props, global_context, stack_env)?;
    Ok(global_context.merged_with(&props))
}

/// A `KEY=VALUE` override, split at its first `=`.
pub open spec fn env_pair(s: Seq<char>) -> Option<(Seq<char>, Seq<char>)> {
    match crate::text::index_from(s, '=', 0) {
        Some(i) => Some((s.subrange(0, i), s.subrange(i + 1, s.len() as int))),
        None => None,
    }
}

/// Splits a `KEY=VALUE` override at its first `=`.
pub fn parse_env_var(s: &str) -> (r: Option<(String, String)>)
    ensures
        match r {
            Some((k, v)) => env_pair(s@) == Some((k@, v@)),
            None => env_pair(s@) is None,
        },
{
    let v = chars_of(s);
    let n = v.len();
    match crate::text::find_char(&v, 0, '=') {
        Some(i) => Some((string_of(&v, 0, i), string_of(&v, i + 1, n))),
        None => None,
    }
}

/// Evaluates a resource's condition: rendered against the context, then read
/// as a guard. `None` where the rendered text is no guard.
pub fn evaluate_condition(engine: &TemplateEngine, condition: &str, context: &Context) -> (r: Option<bool>)
    ensures
        r == crate::condition::condition_value(rendered_text(condition@, context@)),
{
    let rendered = render_string_value(engine, condition, context);
    crate::condition::evaluate_simple_condition(rendered.as_str())
}

/// The values handed to query templates: JSON arrays and objects in compact
/// form with booleans in lowercase; other values unchanged.
pub open spec fn query_value(v: Seq<char>) -> Seq<char> {
    if crate::json::is_json_spec(v) && json_reformat(v) is Some {
        lower_bools(json_reformat(v)->Some_0)
    } else {
        v
    }
}

/// The context in the form query templates take it.
pub fn prepare_query_context(context: &Context) -> (r: Context)
    ensures
        r@.dom() == context@.dom(),
        forall|k: Seq<char>| #[trigger] r@.contains_key(k) ==> r@[k] == query_value(context@[k]),
{
    let vars = context.get_variables();
    proof {
        use_type_invariant(vars);
        vars.lemma_key_order();
    }
    let ghost order = vars.key_order();
    let n = vars.entry_count();
    let mut out = Context::new();
    let mut i: usize = 0;
    while i < n
        invariant
            n == order.len(),
            order == vars.key_order(),
            vars@ == context@,
            i <= n,
            forall|j: int| 0 <= j < order.len() ==> #[trigger] vars@.contains_key(order[j]),
            vars@.dom() == order.to_set(),
            out@.dom() == order.subrange(0, i as int).to_set(),
            forall|k: Seq<char>| #[trigger] out@.contains_key(k) ==> out@[k] == query_value(context@[k]),
        decreases n - i,
    {
        let (k, v) = vars.entry_at(i);
        let value = if is_json(v.as_str()) {
            match json_compact(v.as_str()) {
                Some(t) => lowercase_bools(t.as_str()),
                None => v.clone(),
            }
        } else {
            v.clone()
        };
        out.add_variable(k.clone(), value);
        proof {
            assert(order.subrange(0, i + 1) =~= order.subrange(0, i as int).push(order[i as int]));
            order.subrange(0, i as int).lemma_push_to_set_commute(order[i as int]);
        }
        i = i + 1;
    }
    assert(order.subrange(0, n as int) =~= order);
    out
}

} // verus!
