//! Query files: named, option-tagged SQL fragments of a resource.
//!
//! A line `/*+ anchor[, key=value]* */` opens a fragment; the fragment's body
//! is every following line up to the next such line.

use vstd::prelude::*;
use crate::keyed::KeyedMap;
use crate::num::{parse_u32, unsigned_value};
use crate::text::{
    chars_of, find_char, find_pair, index_from, lower_of, lowercase, owned, pair_from, push_all,
    push_char, push_str, same_chars, slice, string_of, trim, trimmed,
};

verus! {

/// Kinds of fragment a query file can hold.
#[derive(Debug, PartialEq, Eq, Hash, Clone, Copy, Structural)]
pub enum QueryType {
    Exists,
    /// Older name of `Exists`.
    Preflight,
    Create,
    Update,
    CreateOrUpdate,
    StateCheck,
    /// Older name of `StateCheck`.
    PostDeploy,
    Exports,
    Delete,
    Command,
}

/// Error of query handling.
#[derive(Debug, PartialEq, Eq)]
pub enum QueryError {
    FileReadError(String),
    InvalidFormat(String),
    MissingQuery(String),
    InvalidType(String),
}

/// The fragment kind that a lowercase name denotes.
pub open spec fn query_type_named(t: Seq<char>) -> Option<QueryType> {
    if t == "exists"@ {
        Some(QueryType::Exists)
    } else if t == "preflight"@ {
        Some(QueryType::Preflight)
    } else if t == "create"@ {
        Some(QueryType::Create)
    } else if t == "update"@ {
        Some(QueryType::Update)
    } else if t == "createorupdate"@ {
        Some(QueryType::CreateOrUpdate)
    } else if t == "statecheck"@ {
        Some(QueryType::StateCheck)
    } else if t == "postdeploy"@ {
        Some(QueryType::PostDeploy)
    } else if t == "exports"@ {
        Some(QueryType::Exports)
    } else if t == "delete"@ {
        Some(QueryType::Delete)
    } else if t == "command"@ {
        Some(QueryType::Command)
    } else {
        None
    }
}

/// The fragment kind that `s` names, ignoring case and surrounding white space.
pub open spec fn query_type_of(s: Seq<char>) -> Option<QueryType> {
    query_type_named(lower_of(trim(s)))
}

fn is_name(t: &Vec<char>, name: &str) -> (r: bool)
    ensures
        r == (t@ == name@),
{
    same_chars(t, &chars_of(name))
}

impl QueryType {
    /// The kind that a lowercase name denotes.
    pub fn from_lowered(t: &str) -> (r: Option<QueryType>)
        ensures
            r == query_type_named(t@),
    {
        let v = chars_of(t);
        if is_name(&v, "exists") {
            Some(QueryType::Exists)
        } else if is_name(&v, "preflight") {
            Some(QueryType::Preflight)
        } else if is_name(&v, "create") {
            Some(QueryType::Create)
        } else if is_name(&v, "update") {
            Some(QueryType::Update)
        } else if is_name(&v, "createorupdate") {
            Some(QueryType::CreateOrUpdate)
        } else if is_name(&v, "statecheck") {
            Some(QueryType::StateCheck)
        } else if is_name(&v, "postdeploy") {
            Some(QueryType::PostDeploy)
        } else if is_name(&v, "exports") {
            Some(QueryType::Exports)
        } else if is_name(&v, "delete") {
            Some(QueryType::Delete)
        } else if is_name(&v, "command") {
            Some(QueryType::Command)
        } else {
            None
        }
    }

    /// The kind that `s` names, ignoring case and surrounding white space.
    pub fn parse(s: &str) -> (r: Result<QueryType, QueryError>)
        ensures
            match r {
                Ok(q) => query_type_of(s@) == Some(q),
                Err(QueryError::InvalidType(m)) => query_type_of(s@) is None && m@
                    == "Unknown query type: "@ + s@,
                Err(_) => false,
            },
    {
        let v = chars_of(s);
        let t = trimmed(&v, 0, v.len());
        assert(v@.subrange(0, v@.len() as int) =~= v@);
        let ts = string_of(&t, 0, t.len());
        assert(t@.subrange(0, t@.len() as int) =~= t@);
        let lowered = lowercase(ts.as_str());
        match QueryType::from_lowered(lowered.as_str()) {
            Some(q) => Ok(q),
            None => {
                let mut m = owned("Unknown query type: ");
                push_str(&mut m, s);
                Err(QueryError::InvalidType(m))
            },
        }
    }
}

impl std::str::FromStr for QueryType {
    type Err = QueryError;

    fn from_str(s: &str) -> Result<QueryType, QueryError> {
        QueryType::parse(s)
    }
}

/// Retry settings of a fragment.
#[derive(Debug, Clone, Copy, PartialEq, Eq, Structural)]
pub struct QueryOptions {
    pub retries: u32,
    pub retry_delay: u32,
    pub postdelete_retries: u32,
    pub postdelete_retry_delay: u32,
}

/// Settings of a fragment that names none.
pub open spec fn default_options() -> QueryOptions {
    QueryOptions { retries: 1, retry_delay: 0, postdelete_retries: 10, postdelete_retry_delay: 5 }
}

impl QueryOptions {
    pub fn standard() -> (r: QueryOptions)
        ensures
            r == default_options(),
    {
        QueryOptions { retries: 1, retry_delay: 0, postdelete_retries: 10, postdelete_retry_delay: 5 }
    }
}

impl Default for QueryOptions {
    fn default() -> (r: QueryOptions)
        ensures
            r == default_options(),
    {
        QueryOptions::standard()
    }
}

/// A fragment with its kind, text and settings.
#[derive(Debug)]
pub struct Query {
    pub query_type: QueryType,
    pub sql: String,
    pub options: QueryOptions,
}

impl View for Query {
    type V = (QueryType, Seq<char>, QueryOptions);

    open spec fn view(&self) -> (QueryType, Seq<char>, QueryOptions) {
        (self.query_type, self.sql@, self.options)
    }
}

/// A fragment's template text and settings, rendered only when it is needed.
#[derive(Debug)]
pub struct ParsedQuery {
    pub template: String,
    pub options: QueryOptions,
}

impl View for ParsedQuery {
    type V = (Seq<char>, QueryOptions);

    open spec fn view(&self) -> (Seq<char>, QueryOptions) {
        (self.template@, self.options)
    }
}

/// `o` with the setting `name` changed to `n`; unknown names change nothing.
pub open spec fn set_option(o: QueryOptions, name: Seq<char>, n: u32) -> QueryOptions {
    if name == "retries"@ {
        QueryOptions { retries: n, ..o }
    } else if name == "retry_delay"@ {
        QueryOptions { retry_delay: n, ..o }
    } else if name == "postdelete_retries"@ {
        QueryOptions { postdelete_retries: n, ..o }
    } else if name == "postdelete_retry_delay"@ {
        QueryOptions { postdelete_retry_delay: n, ..o }
    } else {
        o
    }
}

/// `o` after one `key=value` item; an item without exactly one `=`, or whose
/// value is no `u32`, changes nothing.
pub open spec fn with_option(o: QueryOptions, part: Seq<char>) -> QueryOptions {
    match index_from(part, '=', 0) {
        Some(i) => {
            if index_from(part, '=', i + 1) is None && 0 <= i < part.len() {
                match unsigned_value(trim(part.subrange(i + 1, part.len() as int))) {
                    Some(n) => if n <= u32::MAX {
                        set_option(o, trim(part.subrange(0, i)), n as u32)
                    } else {
                        o
                    },
                    None => o,
                }
            } else {
                o
            }
        },
        None => o,
    }
}

/// `o` after the comma-separated items of `s[p..]`.
pub open spec fn options_from(o: QueryOptions, s: Seq<char>, p: int) -> QueryOptions
    decreases s.len() - p,
{
    if p < 0 || p > s.len() {
        o
    } else {
        match index_from(s, ',', p) {
            Some(i) => if i < p || i >= s.len() {
                o
            } else {
                options_from(with_option(o, s.subrange(p, i)), s, i + 1)
            },
            None => with_option(o, s.subrange(p, s.len() as int)),
        }
    }
}

/// The kind and settings an anchor's inner text gives, starting from settings `o`.
pub open spec fn anchor_of(inner: Seq<char>, o: QueryOptions) -> Option<(QueryType, QueryOptions)> {
    let e = match index_from(inner, ',', 0) {
        Some(i) => i,
        None => inner.len() as int,
    };
    if 0 <= e <= inner.len() {
        match query_type_of(trim(inner.subrange(0, e))) {
            Some(q) => Some(
                (q, if e < inner.len() {
                    options_from(o, inner, e + 1)
                } else {
                    o
                }),
            ),
            None => None,
        }
    } else {
        None
    }
}

/// Where a query file is while being read line by line.
pub struct ParseState {
    pub current: Option<QueryType>,
    pub options: QueryOptions,
    pub buffer: Seq<char>,
    pub found: Map<QueryType, (QueryType, Seq<char>, QueryOptions)>,
}

pub open spec fn initial_state() -> ParseState {
    ParseState {
        current: None,
        options: default_options(),
        buffer: Seq::empty(),
        found: Map::empty(),
    }
}

/// Stores the open fragment, if it has a body, and closes it; settings start
/// over from their defaults.
pub open spec fn flush(st: ParseState) -> ParseState {
    match st.current {
        Some(q) => if st.buffer.len() > 0 {
            ParseState {
                current: None,
                options: default_options(),
                buffer: Seq::empty(),
                found: st.found.insert(q, (q, trim(st.buffer), st.options)),
            }
        } else {
            ParseState { current: None, options: default_options(), ..st }
        },
        None => ParseState { options: default_options(), ..st },
    }
}

/// Whether a trimmed line opens a fragment.
pub open spec fn is_anchor_line(l: Seq<char>) -> bool {
    l.len() >= 3 && l[0] == '/' && l[1] == '*' && l[2] == '+' && pair_from(l, '*', '/', 0) is Some
}

/// The state after one line.
pub open spec fn step_line(st: ParseState, line: Seq<char>) -> ParseState {
    let l = trim(line);
    if is_anchor_line(l) {
        let st1 = flush(st);
        let e = pair_from(l, '*', '/', 0)->Some_0;
        if 3 <= e <= l.len() {
            match anchor_of(trim(l.subrange(3, e)), default_options()) {
                Some((q, o)) => ParseState { current: Some(q), options: o, ..st1 },
                None => ParseState { current: None, ..st1 },
            }
        } else {
            st1
        }
    } else if st.current is Some {
        ParseState { buffer: st.buffer + l + seq!['\n'], ..st }
    } else {
        st
    }
}

/// The state after the lines of `s[p..]`; a final empty line does not count.
pub open spec fn lines_from(st: ParseState, s: Seq<char>, p: int) -> ParseState
    decreases s.len() - p,
{
    if p < 0 || p >= s.len() {
        st
    } else {
        match index_from(s, '\n', p) {
            Some(i) => if i < p || i >= s.len() {
                st
            } else {
                lines_from(step_line(st, s.subrange(p, i)), s, i + 1)
            },
            None => step_line(st, s.subrange(p, s.len() as int)),
        }
    }
}

/// The fragments a query file holds, by kind.
pub open spec fn parse_spec(content: Seq<char>) -> Map<QueryType, (QueryType, Seq<char>, QueryOptions)> {
    flush(lines_from(initial_state(), content, 0)).found
}

/// Applies one `key=value` item of `part`.
fn apply_option(o: QueryOptions, part: &Vec<char>) -> (r: QueryOptions)
    ensures
        r == with_option(o, part@),
{
    let n = part.len();
    proof {
        crate::text::lemma_index_from(part@, '=', 0);
    }
    match find_char(part, 0, '=') {
        Some(i) => {
            proof {
                crate::text::lemma_index_from(part@, '=', i + 1);
            }
            if find_char(part, i + 1, '=').is_some() {
                assert(index_from(part@, '=', i + 1) is Some);
                return o;
            }
            let value = trimmed(part, i + 1, part.len());
            match parse_u32(&value, 0, value.len()) {
                Some(n) => {
                    assert(value@.subrange(0, value@.len() as int) =~= value@);
                    let name = trimmed(part, 0, i);
                    if is_name(&name, "retries") {
                        QueryOptions { retries: n, ..o }
                    } else if is_name(&name, "retry_delay") {
                        QueryOptions { retry_delay: n, ..o }
                    } else if is_name(&name, "postdelete_retries") {
                        QueryOptions { postdelete_retries: n, ..o }
                    } else if is_name(&name, "postdelete_retry_delay") {
                        QueryOptions { postdelete_retry_delay: n, ..o }
                    } else {
                        o
                    }
                },
                None => {
                    assert(value@.subrange(0, value@.len() as int) =~= value@);
                    o
                },
            }
        },
        None => o,
    }
}

/// Reads an anchor's inner text: its kind and, from `o`, its settings.
fn read_anchor(inner: &Vec<char>, o: QueryOptions) -> (r: Option<(QueryType, QueryOptions)>)
    ensures
        r == anchor_of(inner@, o),
{
    proof {
        crate::text::lemma_index_from(inner@, ',', 0);
    }
    let e = match find_char(inner, 0, ',') {
        Some(i) => i,
        None => inner.len(),
    };
    assert(e as int == (match index_from(inner@, ',', 0) {
        Some(i) => i,
        None => inner@.len() as int,
    }));
    let name = trimmed(inner, 0, e);
    let name_text = string_of(&name, 0, name.len());
    assert(name@.subrange(0, name@.len() as int) =~= name@);
    assert(name_text@ == trim(inner@.subrange(0, e as int)));
    let q = match QueryType::parse(name_text.as_str()) {
        Ok(q) => q,
        Err(_) => {
            assert(query_type_of(name_text@) is None);
            return None;
        },
    };
    if e == inner.len() {
        return Some((q, o));
    }
    let mut opts = o;
    let mut p = e + 1;
    let n = inner.len();
    while p <= n
        invariant
            n == inner@.len(),
            e < p <= n + 1,
            e < n,
            options_from(o, inner@, e + 1) == options_from(opts, inner@, p as int),
            anchor_of(inner@, o) == Some((q, options_from(o, inner@, e + 1))),
        decreases n + 1 - p,
    {
        proof {
            crate::text::lemma_index_from(inner@, ',', p as int);
        }
        match find_char(inner, p, ',') {
            Some(i) => {
                let part = slice(inner, p, i);
                opts = apply_option(opts, &part);
                p = i + 1;
            },
            None => {
                let part = slice(inner, p, n);
                let ghost before = opts;
                assert(options_from(before, inner@, p as int) == with_option(
                    before,
                    inner@.subrange(p as int, n as int),
                ));
                opts = apply_option(opts, &part);
                return Some((q, opts));
            },
        }
    }
    Some((q, opts))
}

/// Parses a query file into its fragments, by kind. Anchors of unknown kind
/// open no fragment; a later fragment of a kind replaces an earlier one.
pub fn parse_queries_from_content(content: &str) -> (r: Result<KeyedMap<Query>, QueryError>)
    ensures
        r matches Ok(m) && m@ == parse_spec(content@),
{
    let v = chars_of(content);
    let n = v.len();
    let mut current: Option<QueryType> = None;
    let mut options = QueryOptions::standard();
    let mut buffer: Vec<char> = Vec::new();
    let mut found: KeyedMap<Query> = KeyedMap::new();
    let mut p: usize = 0;
    while p < n
        invariant
            n == v@.len(),
            v@ == content@,
            lines_from(initial_state(), v@, 0) == lines_from(
                ParseState { current, options, buffer: buffer@, found: found@ },
                v@,
                p as int,
            ),
        decreases n - p,
    {
        proof {
            crate::text::lemma_index_from(v@, '\n', p as int);
        }
        let e = match find_char(&v, p, '\n') {
            Some(i) => i,
            None => n,
        };
        let ghost st0 = ParseState { current, options, buffer: buffer@, found: found@ };
        let l = trimmed(&v, p, e);
        let mut is_anchor = false;
        let mut close: usize = 0;
        if l.len() >= 3 && l[0] == '/' && l[1] == '*' && l[2] == '+' {
            proof {
                crate::text::lemma_pair_from(l@, '*', '/', 0);
            }
            match find_pair(&l, 0, '*', '/') {
                Some(k) => {
                    is_anchor = true;
                    close = k;
                },
                None => {},
            }
        }
        if is_anchor {
            if let Some(q) = current {
                if buffer.len() > 0 {
                    let b = trimmed(&buffer, 0, buffer.len());
                    assert(buffer@.subrange(0, buffer@.len() as int) =~= buffer@);
                    let sql = string_of(&b, 0, b.len());
                    assert(b@.subrange(0, b@.len() as int) =~= b@);
                    found.insert(q, Query { query_type: q, sql, options });
                    buffer = Vec::new();
                    options = QueryOptions::standard();
                }
            }
            current = None;
            options = QueryOptions::standard();
            assert(ParseState { current, options, buffer: buffer@, found: found@ } == flush(st0));
            if close >= 3 {
                let inner = trimmed(&l, 3, close);
                match read_anchor(&inner, QueryOptions::standard()) {
                    Some((q, o)) => {
                        current = Some(q);
                        options = o;
                    },
                    None => {},
                }
            }
        } else if current.is_some() {
            let mut i: usize = 0;
            let ghost b0 = buffer@;
            while i < l.len()
                invariant
                    i <= l@.len(),
                    buffer@ == b0 + l@.subrange(0, i as int),
                decreases l@.len() - i,
            {
                buffer.push(l[i]);
                i = i + 1;
                assert(buffer@ =~= b0 + l@.subrange(0, i as int));
            }
            buffer.push('\n');
            assert(buffer@ =~= b0 + l@ + seq!['\n']);
        }
        assert(ParseState { current, options, buffer: buffer@, found: found@ } == step_line(
            st0,
            v@.subrange(p as int, e as int),
        ));
        if e == n {
            p = n;
        } else {
            p = e + 1;
        }
    }
    if let Some(q) = current {
        if buffer.len() > 0 {
            let b = trimmed(&buffer, 0, buffer.len());
            assert(buffer@.subrange(0, buffer@.len() as int) =~= buffer@);
            let sql = string_of(&b, 0, b.len());
            assert(b@.subrange(0, b@.len() as int) =~= b@);
            found.insert(q, Query { query_type: q, sql, options });
        }
    }
    Ok(found)
}

/// The text of each fragment, by kind.
pub fn get_queries_as_map(queries: &KeyedMap<Query>) -> (r: KeyedMap<String>)
    ensures
        r@.dom() == queries@.dom(),
        forall|q: QueryType| #[trigger] r@.contains_key(q) ==> r@[q] == queries@[q].1,
{
    let mut out: KeyedMap<String> = KeyedMap::new();
    let n = queries.entry_count();
    let mut i: usize = 0;
    proof {
        use_type_invariant(queries);
        queries.lemma_key_order();
    }
    let ghost order = queries.key_order();
    while i < n
        invariant
            n == order.len(),
            order == queries.key_order(),
            i <= n,
            forall|j: int| 0 <= j < order.len() ==> #[trigger] queries@.contains_key(order[j]),
            queries@.dom() == order.to_set(),
            out@.dom() == order.subrange(0, i as int).to_set(),
            forall|q: QueryType| #[trigger] out@.contains_key(q) ==> out@[q] == queries@[q].1,
        decreases n - i,
    {
        let (q, query) = queries.entry_at(i);
        out.insert(q, query.sql.clone());
        proof {
            assert(order.subrange(0, i + 1).to_set() =~= order.subrange(0, i as int).to_set().insert(order[i as int])) by {
                assert(order.subrange(0, i + 1) =~= order.subrange(0, i as int).push(order[i as int]));
                order.subrange(0, i as int).lemma_push_to_set_commute(order[i as int]);
            }
        }
        i = i + 1;
    }
    assert(order.subrange(0, n as int) =~= order);
    out
}

/// The fragments under their current names: `preflight` counts as `exists`
/// and `postdeploy` as `statecheck`, where the current name is absent.
pub open spec fn canonical(m: Map<QueryType, (QueryType, Seq<char>, QueryOptions)>) -> Map<QueryType, (Seq<char>, QueryOptions)> {
    Map::new(
        |q: QueryType|
            q != QueryType::Preflight && q != QueryType::PostDeploy && (m.contains_key(q) || (q
                == QueryType::Exists && m.contains_key(QueryType::Preflight)) || (q == QueryType::StateCheck
                && m.contains_key(QueryType::PostDeploy))),
        |q: QueryType|
            if m.contains_key(q) {
                (m[q].1, m[q].2)
            } else if q == QueryType::Exists {
                (m[QueryType::Preflight].1, m[QueryType::Preflight].2)
            } else {
                (m[QueryType::PostDeploy].1, m[QueryType::PostDeploy].2)
            },
    )
}

fn pick(m: &KeyedMap<Query>, q: QueryType, alias: Option<QueryType>, out: &mut KeyedMap<ParsedQuery>)
    ensures
        match (if m@.contains_key(q) {
            Some(q)
        } else {
            match alias {
                Some(a) => if m@.contains_key(a) {
                    Some(a)
                } else {
                    None
                },
                None => None,
            }
        }) {
            Some(k) => final(out)@ == old(out)@.insert(q, (m@[k].1, m@[k].2)),
            None => final(out)@ == old(out)@,
        },
{
    let found = match m.get(&q) {
        Some(x) => Some(x),
        None => match alias {
            Some(a) => m.get(&a),
            None => None,
        },
    };
    match found {
        Some(x) => {
            out.insert(q, ParsedQuery { template: x.sql.clone(), options: x.options });
        },
        None => {},
    }
}

/// Parses a query file and puts its fragments under their current names.
pub fn get_queries(content: &str) -> (r: Result<KeyedMap<ParsedQuery>, QueryError>)
    ensures
        r matches Ok(m) && m@ == canonical(parse_spec(content@)),
{
    let parsed = match parse_queries_from_content(content) {
        Ok(m) => m,
        Err(e) => {
            return Err(e);
        },
    };
    let mut out: KeyedMap<ParsedQuery> = KeyedMap::new();
    pick(&parsed, QueryType::Exists, Some(QueryType::Preflight), &mut out);
    pick(&parsed, QueryType::Create, None, &mut out);
    pick(&parsed, QueryType::Update, None, &mut out);
    pick(&parsed, QueryType::CreateOrUpdate, None, &mut out);
    pick(&parsed, QueryType::StateCheck, Some(QueryType::PostDeploy), &mut out);
    pick(&parsed, QueryType::Exports, None, &mut out);
    pick(&parsed, QueryType::Delete, None, &mut out);
    pick(&parsed, QueryType::Command, None, &mut out);
    assert(out@ =~= canonical(parse_spec(content@)));
    Ok(out)
}

} // verus!
