//! Retry policy for statements sent to the execution engine.
//!
//! Each machine here decides, from the engine's answer to one attempt, whether
//! to try again after the configured delay, to return a result, or to stop the
//! run. The caller performs the attempts and the waiting.

use vstd::prelude::*;
use crate::num::{parse_i64, signed_value};
use crate::strmap::StrMap;
use crate::text::{chars_of, has_at, owned, push_str};

verus! {

/// One answer of the execution engine to one statement.
pub enum EngineResponse {
    /// Rows, with the column names and any notices the engine sent.
    Data { columns: Vec<String>, rows: Vec<Vec<String>>, notices: Vec<String> },
    /// The completion message of a statement that returns no rows.
    Command(String),
    /// Nothing at all.
    Empty,
    /// The statement could not be executed.
    Failure(String),
}

/// Why a statement's outcome ends the run.
#[derive(Debug, PartialEq, Eq)]
pub enum ExecFailure {
    /// A query reported an error after its last attempt.
    QueryError(String),
    /// A query could not be executed at its last attempt.
    QueryException(String),
    /// A probe matched more than one resource.
    Cardinality(i64),
    /// A command reported an error after its last attempt.
    CommandError(String),
    /// A command could not be executed at its last attempt.
    CommandException(String),
}

/// `ExecFailure` over plain values.
pub enum Fault {
    QueryError(Seq<char>),
    QueryException(Seq<char>),
    Cardinality(int),
    CommandError(Seq<char>),
    CommandException(Seq<char>),
}

impl View for ExecFailure {
    type V = Fault;

    open spec fn view(&self) -> Fault {
        match self {
            ExecFailure::QueryError(m) => Fault::QueryError(m@),
            ExecFailure::QueryException(m) => Fault::QueryException(m@),
            ExecFailure::Cardinality(c) => Fault::Cardinality(*c as int),
            ExecFailure::CommandError(m) => Fault::CommandError(m@),
            ExecFailure::CommandException(m) => Fault::CommandException(m@),
        }
    }
}

/// The text an optional string holds.
pub open spec fn text_opt(o: Option<String>) -> Option<Seq<char>> {
    match o {
        Some(s) => Some(s@),
        None => None,
    }
}

/// The value an optional integer holds.
pub open spec fn int_opt(o: Option<i64>) -> Option<int> {
    match o {
        Some(c) => Some(c as int),
        None => None,
    }
}

/// Column name under which a suppressed error is reported.
pub open spec fn error_marker() -> Seq<char> {
    "_stackql_deploy_error"@
}

/// Whether `pat` occurs in `s`.
pub open spec fn has_sub(s: Seq<char>, pat: Seq<char>) -> bool {
    exists|i: int| 0 <= i && i + pat.len() <= s.len() && #[trigger] s.subrange(i, i + pat.len()) == pat
}

/// Whether `s` begins with `pat`.
pub open spec fn begins(s: Seq<char>, pat: Seq<char>) -> bool {
    pat.len() <= s.len() && s.subrange(0, pat.len() as int) == pat
}

/// A notice that marks a failed query.
pub open spec fn notice_is_error(n: Seq<char>) -> bool {
    has_sub(n, "error"@) || begins(n, "ERROR"@)
}

/// A notice that marks a failed command.
pub open spec fn notice_is_command_error(n: Seq<char>) -> bool {
    ||| begins(n, "http response status code: 4"@)
    ||| begins(n, "http response status code: 5"@)
    ||| begins(n, "error:"@)
    ||| begins(n, "disparity in fields to insert"@)
    ||| begins(n, "cannot find matching operation"@)
}

/// The first notice among `ns[i..]` that `p` holds of.
pub open spec fn first_notice(ns: Seq<String>, i: int, p: spec_fn(Seq<char>) -> bool) -> Option<
    Seq<char>,
>
    decreases ns.len() - i,
{
    if i < 0 || i >= ns.len() {
        None
    } else if p(ns[i]@) {
        Some(ns[i]@)
    } else {
        first_notice(ns, i + 1, p)
    }
}

/// Value of column `i` of a row; a missing value reads as `NULL`.
pub open spec fn cell(vals: Seq<String>, i: int) -> Seq<char> {
    if 0 <= i < vals.len() {
        vals[i]@
    } else {
        "NULL"@
    }
}

/// The first `n` columns of a row, by name; a later column of one name wins.
pub open spec fn row_upto(cols: Seq<String>, vals: Seq<String>, n: int) -> Map<Seq<char>, Seq<char>>
    decreases n,
{
    if n <= 0 {
        Map::empty()
    } else {
        row_upto(cols, vals, n - 1).insert(cols[n - 1]@, cell(vals, n - 1))
    }
}

/// A row, by column name.
pub open spec fn row_of(cols: Seq<String>, vals: Seq<String>) -> Map<Seq<char>, Seq<char>> {
    row_upto(cols, vals, cols.len() as int)
}

/// The rows of a result, by column name.
pub open spec fn rows_of(cols: Seq<String>, rows: Seq<Vec<String>>) -> Seq<Map<Seq<char>, Seq<char>>> {
    rows.map_values(|r: Vec<String>| row_of(cols, r@))
}

/// Abstract contents of result rows.
pub open spec fn rows_view(rows: Seq<StrMap>) -> Seq<Map<Seq<char>, Seq<char>>> {
    rows.map_values(|r: StrMap| r@)
}

/// The row that reports a suppressed error `e`.
pub open spec fn marker_row(e: Seq<char>) -> Map<Seq<char>, Seq<char>> {
    Map::empty().insert(error_marker(), e)
}

/// The count a row reports, where it holds a `count` column read as an `i64`.
pub open spec fn row_count(row: Map<Seq<char>, Seq<char>>) -> Option<int> {
    if row.contains_key("count"@) {
        match signed_value(row["count"@]) {
            Some(c) => if i64::MIN <= c <= i64::MAX {
                Some(c)
            } else {
                None
            },
            None => None,
        }
    } else {
        None
    }
}

/// What one attempt of a query leads to.
pub enum ReadOutcome {
    Retry,
    Rows(Seq<Map<Seq<char>, Seq<char>>>),
    Fatal(Fault),
}

/// The decision on attempt `a` of `r + 1` for a query; with `suppress`, errors
/// of the last attempt come back as a marker row instead of ending the run.
/// A `count` above one ends the run at any attempt.
pub open spec fn read_outcome(a: int, r: int, suppress: bool, resp: EngineResponse) -> ReadOutcome {
    let last = a >= r;
    match resp {
        EngineResponse::Data { columns, rows, notices } => {
            if !suppress && last && first_notice(notices@, 0, |n| notice_is_error(n)) is Some {
                ReadOutcome::Fatal(
                    Fault::QueryError(first_notice(notices@, 0, |n| notice_is_error(n))->Some_0),
                )
            } else if rows@.len() == 0 {
                if last {
                    ReadOutcome::Rows(Seq::empty())
                } else {
                    ReadOutcome::Retry
                }
            } else {
                let first = row_of(columns@, rows@[0]@);
                if first.contains_key("error"@) {
                    if !suppress && last {
                        ReadOutcome::Fatal(Fault::QueryError(first["error"@]))
                    } else if !last {
                        ReadOutcome::Retry
                    } else {
                        ReadOutcome::Rows(seq![marker_row(first["error"@])])
                    }
                } else if row_count(first) is Some && row_count(first)->Some_0 > 1 {
                    ReadOutcome::Fatal(Fault::Cardinality(row_count(first)->Some_0))
                } else {
                    ReadOutcome::Rows(rows_of(columns@, rows@))
                }
            }
        },
        EngineResponse::Command(_) => ReadOutcome::Rows(Seq::empty()),
        EngineResponse::Empty => if last {
            ReadOutcome::Rows(Seq::empty())
        } else {
            ReadOutcome::Retry
        },
        EngineResponse::Failure(e) => if !last {
            ReadOutcome::Retry
        } else if !suppress {
            ReadOutcome::Fatal(Fault::QueryException(e@))
        } else {
            ReadOutcome::Rows(seq![marker_row(e@)])
        },
    }
}

/// Whether `pat` occurs in `s`.
pub fn contains_text(s: &Vec<char>, pat: &Vec<char>) -> (r: bool)
    ensures
        r == has_sub(s@, pat@),
{
    let mut i: usize = 0;
    while i < s.len()
        invariant
            i <= s@.len(),
            forall|j: int| 0 <= j < i ==> j + pat@.len() > s@.len() || #[trigger] s@.subrange(j, j + pat@.len()) != pat@,
        decreases s@.len() - i,
    {
        if has_at(s, i, pat) {
            assert(s@.subrange(i as int, i + pat@.len()) == pat@);
            return true;
        }
        i = i + 1;
    }
    if pat.len() == 0 {
        assert(s@.subrange(s@.len() as int, s@.len() as int + pat@.len()) =~= pat@);
        return true;
    }
    false
}

fn begins_with(s: &Vec<char>, pat: &str) -> (r: bool)
    ensures
        r == begins(s@, pat@),
{
    let p = chars_of(pat);
    has_at(s, 0, &p)
}

/// Whether a notice marks a failed query.
pub fn is_error_notice(n: &str) -> (r: bool)
    ensures
        r == notice_is_error(n@),
{
    let v = chars_of(n);
    contains_text(&v, &chars_of("error")) || begins_with(&v, "ERROR")
}

/// Whether a notice marks a failed command.
pub fn error_detected_in_notice(msg: &str) -> (r: bool)
    ensures
        r == notice_is_command_error(msg@),
{
    let v = chars_of(msg);
    begins_with(&v, "http response status code: 4") || begins_with(
        &v,
        "http response status code: 5",
    ) || begins_with(&v, "error:") || begins_with(&v, "disparity in fields to insert")
        || begins_with(&v, "cannot find matching operation")
}

/// The first notice that marks a failed query, or, with `command`, a failed command.
fn first_error_notice(notices: &Vec<String>, command: bool) -> (r: Option<String>)
    ensures
        command ==> text_opt(r) == first_notice(
            notices@,
            0,
            |n| notice_is_command_error(n),
        ),
        !command ==> text_opt(r) == first_notice(notices@, 0, |n| notice_is_error(n)),
{
    let mut i: usize = 0;
    while i < notices.len()
        invariant
            i <= notices@.len(),
            command ==> first_notice(notices@, 0, |n| notice_is_command_error(n)) == first_notice(
                notices@,
                i as int,
                |n| notice_is_command_error(n),
            ),
            !command ==> first_notice(notices@, 0, |n| notice_is_error(n)) == first_notice(
                notices@,
                i as int,
                |n| notice_is_error(n),
            ),
        decreases notices@.len() - i,
    {
        let hit = if command {
            error_detected_in_notice(notices[i].as_str())
        } else {
            is_error_notice(notices[i].as_str())
        };
        if hit {
            return Some(notices[i].clone());
        }
        i = i + 1;
    }
    None
}

/// A row of a result, by column name.
pub fn build_row(columns: &Vec<String>, vals: &Vec<String>) -> (r: StrMap)
    ensures
        r@ == row_of(columns@, vals@),
{
    let mut m = StrMap::new();
    let mut i: usize = 0;
    while i < columns.len()
        invariant
            i <= columns@.len(),
            m@ == row_upto(columns@, vals@, i as int),
        decreases columns@.len() - i,
    {
        let v = if i < vals.len() {
            vals[i].clone()
        } else {
            owned("NULL")
        };
        m.insert(columns[i].clone(), v);
        i = i + 1;
    }
    m
}

/// All rows of a result, by column name.
pub fn build_rows(columns: &Vec<String>, rows: &Vec<Vec<String>>) -> (r: Vec<StrMap>)
    ensures
        rows_view(r@) == rows_of(columns@, rows@),
{
    let mut out: Vec<StrMap> = Vec::new();
    let mut i: usize = 0;
    while i < rows.len()
        invariant
            i <= rows@.len(),
            out@.len() == i,
            rows_view(out@) == rows_of(columns@, rows@.subrange(0, i as int)),
        decreases rows@.len() - i,
    {
        let ghost prev = out@;
        out.push(build_row(columns, &rows[i]));
        proof {
            let a = rows_view(out@);
            let b = rows_of(columns@, rows@.subrange(0, i + 1));
            assert(a.len() == b.len());
            assert forall|j: int| 0 <= j < a.len() implies a[j] == b[j] by {
                if j < i {
                    assert(out@[j] == prev[j]);
                    assert(rows_view(prev)[j] == rows_of(columns@, rows@.subrange(0, i as int))[j]);
                }
            }
            assert(a =~= b);
        }
        i = i + 1;
    }
    assert(rows@.subrange(0, rows@.len() as int) =~= rows@);
    out
}

/// The row that reports a suppressed error.
pub fn error_row(e: String) -> (r: StrMap)
    ensures
        r@ == marker_row(e@),
{
    let mut m = StrMap::new();
    m.insert(owned("_stackql_deploy_error"), e);
    m
}

/// The count a row reports.
pub fn count_of(row: &StrMap) -> (r: Option<i64>)
    ensures
        int_opt(r) == row_count(row@),
{
    match row.get("count") {
        Some(text) => {
            let v = chars_of(text.as_str());
            let r = parse_i64(&v, 0, v.len());
            assert(v@.subrange(0, v@.len() as int) =~= v@);
            r
        },
        None => None,
    }
}

/// A result without rows.
pub fn no_rows() -> (r: Vec<StrMap>)
    ensures
        r@.len() == 0,
        rows_view(r@) == Seq::<Map<Seq<char>, Seq<char>>>::empty(),
{
    let r: Vec<StrMap> = Vec::new();
    assert(rows_view(r@) =~= Seq::<Map<Seq<char>, Seq<char>>>::empty());
    r
}

/// Decision of one query attempt.
pub enum QueryStep {
    /// Wait the delay, then run the statement again.
    Retry,
    /// The query's result.
    Rows(Vec<StrMap>),
    /// End the run.
    Fatal(ExecFailure),
}

/// Retry state of one query.
pub struct QueryRetry {
    attempt: u32,
    retries: u32,
    suppress_errors: bool,
}

impl QueryRetry {
    pub closed spec fn attempt(&self) -> int {
        self.attempt as int
    }

    pub closed spec fn retries(&self) -> int {
        self.retries as int
    }

    pub closed spec fn suppress(&self) -> bool {
        self.suppress_errors
    }

    /// A query of `retries + 1` attempts at most.
    pub fn new(retries: u32, suppress_errors: bool) -> (r: QueryRetry)
        ensures
            r.attempt() == 0,
            r.retries() == retries,
            r.suppress() == suppress_errors,
    {
        QueryRetry { attempt: 0, retries, suppress_errors }
    }

    /// Decides on the engine's answer to the current attempt.
    pub fn step(&mut self, response: EngineResponse) -> (r: QueryStep)
        ensures
            final(self).retries() == old(self).retries(),
            final(self).suppress() == old(self).suppress(),
            match r {
                QueryStep::Retry => read_outcome(
                    old(self).attempt(),
                    old(self).retries(),
                    old(self).suppress(),
                    response,
                ) is Retry && final(self).attempt() == old(self).attempt() + 1,
                QueryStep::Rows(rows) => read_outcome(
                    old(self).attempt(),
                    old(self).retries(),
                    old(self).suppress(),
                    response,
                ) == ReadOutcome::Rows(rows_view(rows@)),
                QueryStep::Fatal(f) => read_outcome(
                    old(self).attempt(),
                    old(self).retries(),
                    old(self).suppress(),
                    response,
                ) == ReadOutcome::Fatal(f@),
            },
    {
        let last = self.attempt >= self.retries;
        let suppress = self.suppress_errors;
        match response {
            EngineResponse::Data { columns, rows, notices } => {
                if !suppress && last {
                    if let Some(n) = first_error_notice(&notices, false) {
                        return QueryStep::Fatal(ExecFailure::QueryError(n));
                    }
                }
                if rows.len() == 0 {
                    if last {
                        return QueryStep::Rows(no_rows());
                    }
                    self.attempt = self.attempt + 1;
                    return QueryStep::Retry;
                }
                let result = build_rows(&columns, &rows);
                assert(rows_view(result@).len() == result@.len());
                assert(rows_of(columns@, rows@).len() == rows@.len());
                assert(rows_view(result@)[0] == result@[0]@);
                assert(result@[0]@ == row_of(columns@, rows@[0]@));
                match result[0].get("error") {
                    Some(err) => {
                        if !suppress && last {
                            return QueryStep::Fatal(ExecFailure::QueryError(err.clone()));
                        }
                        if !last {
                            self.attempt = self.attempt + 1;
                            return QueryStep::Retry;
                        }
                        let marker = error_row(err.clone());
                        let out = vec![marker];
                        assert(rows_view(out@) =~= seq![marker_row(err@)]);
                        QueryStep::Rows(out)
                    },
                    None => {
                        match count_of(&result[0]) {
                            Some(c) => {
                                if c > 1 {
                                    return QueryStep::Fatal(ExecFailure::Cardinality(c));
                                }
                            },
                            None => {},
                        }
                        QueryStep::Rows(result)
                    },
                }
            },
            EngineResponse::Command(_) => QueryStep::Rows(no_rows()),
            EngineResponse::Empty => {
                if last {
                    QueryStep::Rows(no_rows())
                } else {
                    self.attempt = self.attempt + 1;
                    QueryStep::Retry
                }
            },
            EngineResponse::Failure(e) => {
                if !last {
                    self.attempt = self.attempt + 1;
                    QueryStep::Retry
                } else if !suppress {
                    QueryStep::Fatal(ExecFailure::QueryException(e))
                } else {
                    let ghost ev = e@;
                    let out = vec![error_row(e)];
                    assert(rows_view(out@) =~= seq![marker_row(ev)]);
                    QueryStep::Rows(out)
                }
            },
        }
    }
}

/// What one attempt of a command leads to.
pub enum WriteOutcome {
    Retry,
    Done(Seq<char>),
    Fatal(Fault),
}

/// Notices joined by line breaks.
pub open spec fn join_lines(ns: Seq<String>) -> Seq<char>
    decreases ns.len(),
{
    if ns.len() == 0 {
        Seq::empty()
    } else if ns.len() == 1 {
        ns[0]@
    } else {
        join_lines(ns.drop_last()) + seq!['\n'] + ns.last()@
    }
}

/// The decision on attempt `a` of `r + 1` for a command; with `ignore`, every
/// failure, by notice or by error, is swallowed and reported as an empty success.
pub open spec fn write_outcome(a: int, r: int, ignore: bool, resp: EngineResponse) -> WriteOutcome {
    let last = a >= r;
    match resp {
        EngineResponse::Data { notices, .. } => {
            if first_notice(notices@, 0, |n| notice_is_command_error(n)) is Some {
                if ignore {
                    WriteOutcome::Done(Seq::empty())
                } else if last {
                    WriteOutcome::Fatal(
                        Fault::CommandError(
                            first_notice(notices@, 0, |n| notice_is_command_error(n))->Some_0,
                        ),
                    )
                } else {
                    WriteOutcome::Retry
                }
            } else {
                WriteOutcome::Done(join_lines(notices@))
            }
        },
        EngineResponse::Command(m) => WriteOutcome::Done(m@),
        EngineResponse::Empty => WriteOutcome::Done(Seq::empty()),
        EngineResponse::Failure(e) => if ignore {
            WriteOutcome::Done(Seq::empty())
        } else if !last {
            WriteOutcome::Retry
        } else {
            WriteOutcome::Fatal(Fault::CommandException(e@))
        },
    }
}

/// Notices joined by line breaks.
pub fn join_notices(notices: &Vec<String>) -> (r: String)
    ensures
        r@ == join_lines(notices@),
{
    let mut out = String::new();
    let mut i: usize = 0;
    while i < notices.len()
        invariant
            i <= notices@.len(),
            out@ == join_lines(notices@.subrange(0, i as int)),
        decreases notices@.len() - i,
    {
        let ghost before = out@;
        if i > 0 {
            crate::text::push_char(&mut out, '\n');
        }
        push_str(&mut out, notices[i].as_str());
        proof {
            let t = notices@.subrange(0, i + 1);
            assert(t.drop_last() =~= notices@.subrange(0, i as int));
            if i == 0 {
                assert(out@ =~= t[0]@);
            } else {
                assert(out@ =~= before + seq!['\n'] + t.last()@);
            }
        }
        i = i + 1;
    }
    assert(notices@.subrange(0, notices@.len() as int) =~= notices@);
    out
}

/// Decision of one command attempt.
pub enum CommandStep {
    /// Wait the delay, then run the statement again.
    Retry,
    /// The command's message.
    Done(String),
    /// End the run.
    Fatal(ExecFailure),
}

/// Retry state of one command.
pub struct CommandRetry {
    attempt: u32,
    retries: u32,
    ignore_errors: bool,
}

impl CommandRetry {
    pub closed spec fn attempt(&self) -> int {
        self.attempt as int
    }

    pub closed spec fn retries(&self) -> int {
        self.retries as int
    }

    pub closed spec fn ignore(&self) -> bool {
        self.ignore_errors
    }

    /// A command of `retries + 1` attempts at most.
    pub fn new(retries: u32, ignore_errors: bool) -> (r: CommandRetry)
        ensures
            r.attempt() == 0,
            r.retries() == retries,
            r.ignore() == ignore_errors,
    {
        CommandRetry { attempt: 0, retries, ignore_errors }
    }

    /// Decides on the engine's answer to the current attempt.
    pub fn step(&mut self, response: EngineResponse) -> (r: CommandStep)
        ensures
            final(self).retries() == old(self).retries(),
            final(self).ignore() == old(self).ignore(),
            match r {
                CommandStep::Retry => write_outcome(
                    old(self).attempt(),
                    old(self).retries(),
                    old(self).ignore(),
                    response,
                ) is Retry && final(self).attempt() == old(self).attempt() + 1,
                CommandStep::Done(m) => write_outcome(
                    old(self).attempt(),
                    old(self).retries(),
                    old(self).ignore(),
                    response,
                ) == WriteOutcome::Done(m@),
                CommandStep::Fatal(f) => write_outcome(
                    old(self).attempt(),
                    old(self).retries(),
                    old(self).ignore(),
                    response,
                ) == WriteOutcome::Fatal(f@),
            },
    {
        let last = self.attempt >= self.retries;
        match response {
            EngineResponse::Data { notices, .. } => {
                if let Some(n) = first_error_notice(&notices, true) {
                    if self.ignore_errors {
                        return CommandStep::Done(String::new());
                    }
                    if last {
                        return CommandStep::Fatal(ExecFailure::CommandError(n));
                    }
                    self.attempt = self.attempt + 1;
                    return CommandStep::Retry;
                }
                CommandStep::Done(join_notices(&notices))
            },
            EngineResponse::Command(m) => CommandStep::Done(m),
            EngineResponse::Empty => CommandStep::Done(String::new()),
            EngineResponse::Failure(e) => {
                if self.ignore_errors {
                    CommandStep::Done(String::new())
                } else if !last {
                    self.attempt = self.attempt + 1;
                    CommandStep::Retry
                } else {
                    CommandStep::Fatal(ExecFailure::CommandException(e))
                }
            },
        }
    }
}

/// What the pattern `(REGISTRY PULL \w+)(::v[\d\.]+)?` captures in `s`: the
/// text of groups one and two of the first match.
pub uninterp spec fn registry_pull_captures(s: Seq<char>) -> Option<(Seq<char>, Option<Seq<char>>)>;

/// The captured groups over plain values.
pub open spec fn captures_view(c: Option<(String, Option<String>)>) -> Option<(Seq<char>, Option<Seq<char>>)> {
    match c {
        Some((a, b)) => Some((a@, text_opt(b))),
        None => None,
    }
}

/// Relies on `regex::Regex::new` and `regex::Regex::captures` with the pattern
/// `(REGISTRY PULL \w+)(::v[\d\.]+)?`, which is valid: groups one and two of
/// the first match. Group two, where present, begins with `::v`.
#[verifier::external_body]
fn registry_captures(command: &str) -> (r: Option<(String, Option<String>)>)
    ensures
        captures_view(r) == registry_pull_captures(command@),
        r matches Some((_, Some(v))) ==> v@.len() >= 3 && v@[0] == ':' && v@[1] == ':' && v@[2] == 'v',
{
    let re = regex::Regex::new(r"(REGISTRY PULL \w+)(::v[\d\.]+)?").unwrap();
    let caps = re.captures(command)?;
    let provider = caps.get(1)?.as_str().to_string();
    Some((provider, caps.get(2).map(|m| m.as_str().to_string())))
}

/// A registry pull statement in the engine's two-token form.
pub open spec fn rewritten(command: Seq<char>, caps: Option<(Seq<char>, Option<Seq<char>>)>) -> Seq<char> {
    match caps {
        Some((provider, Some(version))) => if version.len() >= 2 {
            provider + seq![' '] + version.subrange(2, version.len() as int)
        } else {
            command
        },
        _ => command,
    }
}

/// Rewrites a registry pull statement from the groups the pattern captured:
/// `REGISTRY PULL aws::v1.2` becomes `REGISTRY PULL aws v1.2`.
pub fn rewrite_registry_pull_with(command: &str, caps: Option<(String, Option<String>)>) -> (r: String)
    ensures
        r@ == rewritten(command@, captures_view(caps)),
{
    match caps {
        Some((provider, Some(version))) => {
            let v = chars_of(version.as_str());
            if v.len() >= 2 {
                let mut out = provider;
                crate::text::push_char(&mut out, ' ');
                let rest = crate::text::slice(&v, 2, v.len());
                crate::text::push_all(&mut out, &rest);
                out
            } else {
                owned(command)
            }
        },
        _ => owned(command),
    }
}

/// The statement as it is sent: a `REGISTRY PULL provider::vVersion` statement
/// is put in the engine's two-token form; others are unchanged.
pub fn prepare_command(command: &str) -> (r: String)
    ensures
        begins(command@, "REGISTRY PULL"@) ==> r@ == rewritten(
            command@,
            registry_pull_captures(command@),
        ),
        !begins(command@, "REGISTRY PULL"@) ==> r@ == command@,
{
    let v = chars_of(command);
    if begins_with(&v, "REGISTRY PULL") {
        let caps = registry_captures(command);
        rewrite_registry_pull_with(command, caps)
    } else {
        owned(command)
    }
}

/// Whether a probe's rows show the resource present (or, for `delete_test`,
/// gone): one matching row, a `count` of one (of zero), or any row at all.
pub open spec fn probe_verdict(rows: Seq<Map<Seq<char>, Seq<char>>>, delete_test: bool) -> bool {
    if rows.len() == 0 {
        delete_test
    } else if rows[0].contains_key(error_marker()) || rows[0].contains_key("error"@) {
        delete_test
    } else if row_count(rows[0]) is Some {
        if delete_test {
            row_count(rows[0])->Some_0 == 0
        } else {
            row_count(rows[0])->Some_0 == 1
        }
    } else {
        !delete_test
    }
}

/// The verdict of one probe attempt on its rows.
pub fn run_test(rows: &Vec<StrMap>, delete_test: bool) -> (r: bool)
    ensures
        r == probe_verdict(rows_view(rows@), delete_test),
{
    if rows.len() == 0 {
        return delete_test;
    }
    assert(rows_view(rows@)[0] == rows@[0]@);
    let first = &rows[0];
    if first.contains_key("_stackql_deploy_error") || first.contains_key("error") {
        return delete_test;
    }
    match count_of(first) {
        Some(c) => {
            if delete_test {
                c == 0
            } else {
                c == 1
            }
        },
        None => !delete_test,
    }
}

/// Whether an exports result stands for a resource in its desired state: at
/// least one row, and no error in the first.
pub open spec fn proxy_ok(rows: Seq<Map<Seq<char>, Seq<char>>>) -> bool {
    rows.len() > 0 && !rows[0].contains_key(error_marker()) && !rows[0].contains_key("error"@)
}

/// Whether an exports result can stand in for a state check.
pub fn check_exports_as_statecheck_proxy(rows: &Vec<StrMap>) -> (r: bool)
    ensures
        r == proxy_ok(rows_view(rows@)),
{
    if rows.len() == 0 {
        return false;
    }
    assert(rows_view(rows@)[0] == rows@[0]@);
    !rows[0].contains_key("_stackql_deploy_error") && !rows[0].contains_key("error")
}

/// Decision of a probe.
pub enum ProbeStep {
    /// Run the probe's query once.
    Query,
    /// Wait the delay, then run the query again.
    Wait,
    /// The probe's verdict.
    Done(bool),
}

/// Retry state of a probe: up to `retries` query attempts until one gives a
/// positive verdict.
pub struct ProbeRetry {
    attempt: u32,
    retries: u32,
    delete_test: bool,
}

impl ProbeRetry {
    pub closed spec fn attempt(&self) -> int {
        self.attempt as int
    }

    pub closed spec fn retries(&self) -> int {
        self.retries as int
    }

    pub closed spec fn delete_test(&self) -> bool {
        self.delete_test
    }

    pub fn new(retries: u32, delete_test: bool) -> (r: ProbeRetry)
        ensures
            r.attempt() == 0,
            r.retries() == retries,
            r.delete_test() == delete_test,
    {
        ProbeRetry { attempt: 0, retries, delete_test }
    }

    /// The first decision: a probe of no attempts is negative without a query.
    pub fn first(&self) -> (r: ProbeStep)
        ensures
            self.retries() == 0 ==> r == ProbeStep::Done(false),
            self.retries() > 0 ==> r == ProbeStep::Query,
    {
        if self.retries == 0 {
            ProbeStep::Done(false)
        } else {
            ProbeStep::Query
        }
    }

    /// Decides on the rows of the current attempt. The rows are those a
    /// `QueryRetry` of no retries, errors suppressed, returned for the attempt:
    /// that machine has already ended the run on a `count` above one.
    pub fn observe(&mut self, rows: &Vec<StrMap>) -> (r: ProbeStep)
        ensures
            final(self).retries() == old(self).retries(),
            final(self).delete_test() == old(self).delete_test(),
            probe_verdict(rows_view(rows@), old(self).delete_test()) ==> r == ProbeStep::Done(true),
            !probe_verdict(rows_view(rows@), old(self).delete_test()) ==> {
                if old(self).attempt() + 1 < old(self).retries() {
                    r == ProbeStep::Wait && final(self).attempt() == old(self).attempt() + 1
                } else {
                    r == ProbeStep::Done(false)
                }
            },
    {
        if run_test(rows, self.delete_test) {
            return ProbeStep::Done(true);
        }
        if self.retries > 0 && self.attempt < self.retries - 1 {
            self.attempt = self.attempt + 1;
            ProbeStep::Wait
        } else {
            ProbeStep::Done(false)
        }
    }
}

/// A result row that reports a `count` above one ends the run at any attempt,
/// whatever the retry budget, and is never retried.
pub proof fn lemma_count_over_one_is_fatal(
    a: int,
    r: int,
    suppress: bool,
    columns: Vec<String>,
    rows: Vec<Vec<String>>,
    notices: Vec<String>,
)
    requires
        rows@.len() > 0,
        !row_of(columns@, rows@[0]@).contains_key("error"@),
        row_count(row_of(columns@, rows@[0]@)) matches Some(c) && c > 1,
    ensures
        read_outcome(a, r, suppress, EngineResponse::Data { columns, rows, notices }) is Fatal,
        first_notice(notices@, 0, |n| notice_is_error(n)) is None ==> read_outcome(
            a,
            r,
            suppress,
            EngineResponse::Data { columns, rows, notices },
        ) == ReadOutcome::Fatal(Fault::Cardinality(row_count(row_of(columns@, rows@[0]@))->Some_0)),
{
}

} // verus!
