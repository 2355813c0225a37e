//! Per-resource decisions of build, test and teardown.
//!
//! Each machine takes the outcome of the last action it asked for and says
//! what to do next: run a probe, fetch rows, run a mutating statement, show a
//! statement (dry run), or finish. The caller performs the actions.

use vstd::prelude::*;
use crate::executor::{proxy_ok, rows_view};
use crate::keyed::KeyedMap;
use crate::queries::{ParsedQuery, QueryOptions, QueryType, default_options};
use crate::strmap::StrMap;

verus! {

/// Which fragments a resource has, with their settings.
#[derive(Debug, Clone, Copy, PartialEq, Eq, Structural)]
pub struct AnchorPlan {
    pub exists: Option<QueryOptions>,
    pub create: Option<QueryOptions>,
    pub update: Option<QueryOptions>,
    pub createorupdate: Option<QueryOptions>,
    pub statecheck: Option<QueryOptions>,
    pub exports: Option<QueryOptions>,
    pub delete: Option<QueryOptions>,
    pub command: Option<QueryOptions>,
}

/// The settings of a fragment in `m`, if present.
pub open spec fn options_in(m: Map<QueryType, (Seq<char>, QueryOptions)>, q: QueryType) -> Option<QueryOptions> {
    if m.contains_key(q) {
        Some(m[q].1)
    } else {
        None
    }
}

/// The fragment settings of a resource; an inline statement stands for the
/// exports and command fragments it lacks.
pub open spec fn plan_of(m: Map<QueryType, (Seq<char>, QueryOptions)>, inline: bool) -> AnchorPlan {
    AnchorPlan {
        exists: options_in(m, QueryType::Exists),
        create: options_in(m, QueryType::Create),
        update: options_in(m, QueryType::Update),
        createorupdate: options_in(m, QueryType::CreateOrUpdate),
        statecheck: options_in(m, QueryType::StateCheck),
        exports: if m.contains_key(QueryType::Exports) {
            Some(m[QueryType::Exports].1)
        } else if inline {
            Some(default_options())
        } else {
            None
        },
        delete: options_in(m, QueryType::Delete),
        command: if m.contains_key(QueryType::Command) {
            Some(m[QueryType::Command].1)
        } else if inline {
            Some(default_options())
        } else {
            None
        },
    }
}

fn options_of(m: &KeyedMap<ParsedQuery>, q: QueryType) -> (r: Option<QueryOptions>)
    ensures
        r == options_in(m@, q),
{
    match m.get(&q) {
        Some(p) => Some(p.options),
        None => None,
    }
}

impl AnchorPlan {
    /// The plan of a resource's fragments.
    pub fn from_queries(m: &KeyedMap<ParsedQuery>, inline: bool) -> (r: AnchorPlan)
        ensures
            r == plan_of(m@, inline),
    {
        let exports = match options_of(m, QueryType::Exports) {
            Some(o) => Some(o),
            None => if inline {
                Some(QueryOptions::standard())
            } else {
                None
            },
        };
        let command = match options_of(m, QueryType::Command) {
            Some(o) => Some(o),
            None => if inline {
                Some(QueryOptions::standard())
            } else {
                None
            },
        };
        AnchorPlan {
            exists: options_of(m, QueryType::Exists),
            create: options_of(m, QueryType::Create),
            update: options_of(m, QueryType::Update),
            createorupdate: options_of(m, QueryType::CreateOrUpdate),
            statecheck: options_of(m, QueryType::StateCheck),
            exports,
            delete: options_of(m, QueryType::Delete),
            command,
        }
    }
}

/// How a resource's existence and state are determined.
#[derive(Debug, Clone, Copy, PartialEq, Eq, Structural)]
pub enum Strategy {
    /// Create-or-update unconditionally, with no checks.
    Upsert,
    /// Probe existence, then check state with the state check.
    StateCheck,
    /// Take a good exports result as proof of a correct state.
    ExportsProxy,
    /// Probe existence only.
    ExistsOnly,
}

/// The strategy the fragments call for, in order of precedence.
pub open spec fn strategy_of(p: AnchorPlan) -> Option<Strategy> {
    if p.createorupdate is Some {
        Some(Strategy::Upsert)
    } else if p.statecheck is Some {
        Some(Strategy::StateCheck)
    } else if p.exports is Some {
        Some(Strategy::ExportsProxy)
    } else if p.exists is Some {
        Some(Strategy::ExistsOnly)
    } else {
        None
    }
}

/// The strategy for a plan; `None` where the resource has none of the
/// fragments that a strategy needs.
pub fn select_strategy(p: &AnchorPlan) -> (r: Option<Strategy>)
    ensures
        r == strategy_of(*p),
{
    if p.createorupdate.is_some() {
        Some(Strategy::Upsert)
    } else if p.statecheck.is_some() {
        Some(Strategy::StateCheck)
    } else if p.exports.is_some() {
        Some(Strategy::ExportsProxy)
    } else if p.exists.is_some() {
        Some(Strategy::ExistsOnly)
    } else {
        None
    }
}

/// Why a resource's processing ends the run.
#[derive(Debug, Clone, Copy, PartialEq, Eq, Structural)]
pub enum ReconcileError {
    /// The resource has none of `exists`, `statecheck`, `exports` (nor `createorupdate`).
    MissingAnchors,
    /// The resource must be created and has no `create` fragment.
    MissingCreate,
    /// After a change, or in a test, the resource is not in its desired state.
    NotDesiredState,
    /// The exports query returned nothing.
    ExportsMissing,
    /// The exports query reported an error.
    ExportsFailed,
    /// The exports query returned more than one row.
    TooManyExportRows,
    /// The resource is still there after its deletion.
    DeleteFailed,
    /// An outcome arrived that the current step did not ask for.
    UnexpectedEvent,
}

/// Where the exported values come from.
pub enum ExportSource {
    /// The resource exports nothing.
    Nothing,
    /// Dry run: every export gets a placeholder.
    Placeholders,
    /// The single row of an exports result.
    Rows(Vec<StrMap>),
}

/// How a resource's deletion ended.
#[derive(Debug, Clone, Copy, PartialEq, Eq, Structural)]
pub enum DeleteStatus {
    /// The resource has no delete fragment.
    NoDeleteQuery,
    /// The resource was not found.
    NotPresent,
    /// Deleted (and, where a probe exists, confirmed gone).
    Deleted,
    /// A `multi` resource still found after its deletion.
    Unconfirmed,
    /// Dry run: the deletion was shown, not run.
    Shown,
}

/// The next action for the caller.
pub enum Step {
    /// Run a probe with the fragment; `delete_test` asks whether it is gone.
    Probe { anchor: QueryType, retries: u32, delay: u32, delete_test: bool },
    /// Run the fragment as a query, errors suppressed, and report its rows.
    Fetch { anchor: QueryType, retries: u32, delay: u32 },
    /// Run the fragment as a command.
    Mutate { anchor: QueryType, retries: u32, delay: u32, ignore_errors: bool },
    /// Dry run: show the fragment without running it.
    Preview { anchor: QueryType },
    /// Build or test of the resource is complete; exports come from the source.
    Done(ExportSource),
    /// Teardown of the resource is complete.
    Removed(DeleteStatus),
    /// End the run.
    Fail(ReconcileError),
}

/// What the last action came to.
pub enum Event {
    /// Start processing the resource.
    Begin,
    /// A probe's verdict.
    Checked(bool),
    /// A query's rows.
    Fetched(Vec<StrMap>),
    /// A command ran.
    Mutated,
    /// A fragment was shown.
    Previewed,
}

/// `ExportSource` over plain values.
pub enum SourceV {
    Nothing,
    Placeholders,
    Rows(Seq<Map<Seq<char>, Seq<char>>>),
}

/// `Step` over plain values.
pub enum StepV {
    Probe { anchor: QueryType, retries: u32, delay: u32, delete_test: bool },
    Fetch { anchor: QueryType, retries: u32, delay: u32 },
    Mutate { anchor: QueryType, retries: u32, delay: u32, ignore_errors: bool },
    Preview { anchor: QueryType },
    Done(SourceV),
    Removed(DeleteStatus),
    Fail(ReconcileError),
}

/// `Event` over plain values.
pub enum EventV {
    Begin,
    Checked(bool),
    Fetched(Seq<Map<Seq<char>, Seq<char>>>),
    Mutated,
    Previewed,
}

impl View for ExportSource {
    type V = SourceV;

    open spec fn view(&self) -> SourceV {
        match self {
            ExportSource::Nothing => SourceV::Nothing,
            ExportSource::Placeholders => SourceV::Placeholders,
            ExportSource::Rows(r) => SourceV::Rows(rows_view(r@)),
        }
    }
}

impl View for Step {
    type V = StepV;

    open spec fn view(&self) -> StepV {
        match self {
            Step::Probe { anchor, retries, delay, delete_test } => StepV::Probe {
                anchor: *anchor,
                retries: *retries,
                delay: *delay,
                delete_test: *delete_test,
            },
            Step::Fetch { anchor, retries, delay } => StepV::Fetch {
                anchor: *anchor,
                retries: *retries,
                delay: *delay,
            },
            Step::Mutate { anchor, retries, delay, ignore_errors } => StepV::Mutate {
                anchor: *anchor,
                retries: *retries,
                delay: *delay,
                ignore_errors: *ignore_errors,
            },
            Step::Preview { anchor } => StepV::Preview { anchor: *anchor },
            Step::Done(s) => StepV::Done(s@),
            Step::Removed(d) => StepV::Removed(*d),
            Step::Fail(e) => StepV::Fail(*e),
        }
    }
}

impl View for Event {
    type V = EventV;

    open spec fn view(&self) -> EventV {
        match self {
            Event::Begin => EventV::Begin,
            Event::Checked(b) => EventV::Checked(*b),
            Event::Fetched(r) => EventV::Fetched(rows_view(r@)),
            Event::Mutated => EventV::Mutated,
            Event::Previewed => EventV::Previewed,
        }
    }
}

/// Whether a step sends a statement to the engine.
pub open spec fn issues_statement(s: StepV) -> bool {
    s is Probe || s is Fetch || s is Mutate
}

/// Settings of a resource's processing.
#[derive(Debug, Clone, Copy, PartialEq, Eq, Structural)]
pub struct Config {
    pub plan: AnchorPlan,
    /// A `multi` resource: failures of its statements are ignored.
    pub multi: bool,
    pub skip_validation: bool,
    pub dry_run: bool,
    /// The resource declares exports.
    pub has_exports: bool,
}

/// The statement action `s`, or, in a dry run, the showing of its fragment.
pub open spec fn issue(cfg: Config, s: StepV) -> StepV {
    if cfg.dry_run {
        match s {
            StepV::Probe { anchor, .. } => StepV::Preview { anchor },
            StepV::Fetch { anchor, .. } => StepV::Preview { anchor },
            StepV::Mutate { anchor, .. } => StepV::Preview { anchor },
            other => other,
        }
    } else {
        s
    }
}

fn issue_exec(cfg: &Config, s: Step) -> (r: Step)
    ensures
        r@ == issue(*cfg, s@),
{
    if cfg.dry_run {
        match s {
            Step::Probe { anchor, .. } => Step::Preview { anchor },
            Step::Fetch { anchor, .. } => Step::Preview { anchor },
            Step::Mutate { anchor, .. } => Step::Preview { anchor },
            other => other,
        }
    } else {
        s
    }
}

/// Phases of building a resource.
#[derive(Debug, Clone, Copy, PartialEq, Eq, Structural)]
pub enum BuildPhase {
    Start,
    /// Awaiting the existence probe.
    ExistsProbe,
    /// Awaiting the state check.
    StateProbe,
    /// Awaiting the exports result that stands in for a state check.
    ProxyCheck,
    /// Awaiting the existence probe after a failed proxy check.
    FallbackExists,
    Creating,
    Updating,
    Upserting,
    /// Awaiting the state check after a change.
    PostStateProbe,
    /// Awaiting the exports result after a change.
    PostProxy,
    /// Awaiting the exports result.
    FetchExports,
    Finished,
}

/// The exports step, reusing rows kept from a proxy check.
pub open spec fn enter_exports(cfg: Config, proxy: Option<Seq<Map<Seq<char>, Seq<char>>>>) -> (BuildPhase, StepV) {
    if !cfg.has_exports || cfg.plan.exports is None {
        (BuildPhase::Finished, StepV::Done(SourceV::Nothing))
    } else if proxy is Some {
        (BuildPhase::Finished, StepV::Done(SourceV::Rows(proxy->Some_0)))
    } else {
        let o = cfg.plan.exports->Some_0;
        (
            BuildPhase::FetchExports,
            issue(cfg, StepV::Fetch { anchor: QueryType::Exports, retries: o.retries, delay: o.retry_delay }),
        )
    }
}

/// The creation step.
pub open spec fn enter_create(cfg: Config) -> (BuildPhase, StepV) {
    match cfg.plan.create {
        Some(o) => (
            BuildPhase::Creating,
            issue(
                cfg,
                StepV::Mutate {
                    anchor: QueryType::Create,
                    retries: o.retries,
                    delay: o.retry_delay,
                    ignore_errors: cfg.multi,
                },
            ),
        ),
        None => (BuildPhase::Finished, StepV::Fail(ReconcileError::MissingCreate)),
    }
}

/// The update step; without an update fragment, the exports step.
pub open spec fn enter_update(cfg: Config) -> (BuildPhase, StepV) {
    match cfg.plan.update {
        Some(o) => (
            BuildPhase::Updating,
            issue(
                cfg,
                StepV::Mutate {
                    anchor: QueryType::Update,
                    retries: o.retries,
                    delay: o.retry_delay,
                    ignore_errors: cfg.multi,
                },
            ),
        ),
        None => enter_exports(cfg, None),
    }
}

/// The check after a change: the state check, else the exports proxy.
pub open spec fn enter_post(cfg: Config) -> (BuildPhase, StepV) {
    match cfg.plan.statecheck {
        Some(o) => (
            BuildPhase::PostStateProbe,
            issue(
                cfg,
                StepV::Probe {
                    anchor: QueryType::StateCheck,
                    retries: o.retries,
                    delay: o.retry_delay,
                    delete_test: false,
                },
            ),
        ),
        None => match cfg.plan.exports {
            Some(o) => (
                BuildPhase::PostProxy,
                issue(cfg, StepV::Fetch { anchor: QueryType::Exports, retries: o.retries, delay: o.retry_delay }),
            ),
            None => enter_exports(cfg, None),
        },
    }
}

/// The fragment that probes existence: `exists`, else `statecheck`.
pub open spec fn exists_anchor(p: AnchorPlan) -> Option<(QueryType, QueryOptions)> {
    match p.exists {
        Some(o) => Some((QueryType::Exists, o)),
        None => match p.statecheck {
            Some(o) => Some((QueryType::StateCheck, o)),
            None => None,
        },
    }
}

/// The first step of building a resource.
pub open spec fn build_begin(cfg: Config) -> (BuildPhase, StepV) {
    match strategy_of(cfg.plan) {
        None => (BuildPhase::Finished, StepV::Fail(ReconcileError::MissingAnchors)),
        Some(Strategy::Upsert) => {
            let o = cfg.plan.createorupdate->Some_0;
            (
                BuildPhase::Upserting,
                issue(
                    cfg,
                    StepV::Mutate {
                        anchor: QueryType::CreateOrUpdate,
                        retries: o.retries,
                        delay: o.retry_delay,
                        ignore_errors: cfg.multi,
                    },
                ),
            )
        },
        Some(Strategy::ExportsProxy) => (
            BuildPhase::ProxyCheck,
            issue(cfg, StepV::Fetch { anchor: QueryType::Exports, retries: 1, delay: 0 }),
        ),
        Some(_) => {
            let (a, o) = exists_anchor(cfg.plan)->Some_0;
            (
                BuildPhase::ExistsProbe,
                issue(cfg, StepV::Probe { anchor: a, retries: o.retries, delay: o.retry_delay, delete_test: false }),
            )
        },
    }
}

/// A probe verdict, or in a dry run the verdict `assumed`.
pub open spec fn verdict(e: EventV, assumed: bool) -> Option<bool> {
    match e {
        EventV::Checked(b) => Some(b),
        EventV::Previewed => Some(assumed),
        _ => None,
    }
}

/// The end of processing on an outcome that was not asked for.
pub open spec fn unexpected() -> (BuildPhase, StepV) {
    (BuildPhase::Finished, StepV::Fail(ReconcileError::UnexpectedEvent))
}

/// Checks the rows of an exports query.
pub open spec fn exports_result(rows: Seq<Map<Seq<char>, Seq<char>>>) -> StepV {
    if rows.len() == 0 {
        StepV::Fail(ReconcileError::ExportsMissing)
    } else if rows[0].contains_key(crate::executor::error_marker()) || rows[0].contains_key("error"@) {
        StepV::Fail(ReconcileError::ExportsFailed)
    } else if rows.len() > 1 {
        StepV::Fail(ReconcileError::TooManyExportRows)
    } else {
        StepV::Done(SourceV::Rows(rows))
    }
}

/// One transition of building a resource. In a dry run, shown probes count as
/// "absent" for existence and "correct" for state, and nothing is changed.
pub open spec fn build_next(cfg: Config, phase: BuildPhase, e: EventV) -> (BuildPhase, StepV) {
    match phase {
        BuildPhase::Start => match e {
            EventV::Begin => build_begin(cfg),
            _ => unexpected(),
        },
        BuildPhase::ExistsProbe => match verdict(e, false) {
            Some(false) => enter_create(cfg),
            Some(true) => {
                if strategy_of(cfg.plan) == Some(Strategy::StateCheck) && cfg.plan.exists is Some
                    && !cfg.skip_validation {
                    let o = cfg.plan.statecheck->Some_0;
                    (
                        BuildPhase::StateProbe,
                        issue(
                            cfg,
                            StepV::Probe {
                                anchor: QueryType::StateCheck,
                                retries: o.retries,
                                delay: o.retry_delay,
                                delete_test: false,
                            },
                        ),
                    )
                } else {
                    enter_exports(cfg, None)
                }
            },
            None => unexpected(),
        },
        BuildPhase::StateProbe => match verdict(e, true) {
            Some(true) => enter_exports(cfg, None),
            Some(false) => enter_update(cfg),
            None => unexpected(),
        },
        BuildPhase::ProxyCheck => match e {
            EventV::Fetched(rows) => if proxy_ok(rows) {
                enter_exports(cfg, Some(rows))
            } else {
                match cfg.plan.exists {
                    Some(o) => (
                        BuildPhase::FallbackExists,
                        issue(
                            cfg,
                            StepV::Probe {
                                anchor: QueryType::Exists,
                                retries: o.retries,
                                delay: o.retry_delay,
                                delete_test: false,
                            },
                        ),
                    ),
                    None => enter_create(cfg),
                }
            },
            EventV::Previewed => enter_exports(cfg, None),
            _ => unexpected(),
        },
        BuildPhase::FallbackExists => match verdict(e, false) {
            Some(true) => enter_update(cfg),
            Some(false) => enter_create(cfg),
            None => unexpected(),
        },
        BuildPhase::Creating | BuildPhase::Updating => match e {
            EventV::Mutated => enter_post(cfg),
            EventV::Previewed => enter_exports(cfg, None),
            _ => unexpected(),
        },
        BuildPhase::Upserting => match e {
            EventV::Mutated => enter_exports(cfg, None),
            EventV::Previewed => enter_exports(cfg, None),
            _ => unexpected(),
        },
        BuildPhase::PostStateProbe => match verdict(e, true) {
            Some(true) => enter_exports(cfg, None),
            Some(false) => (
                BuildPhase::Finished,
                StepV::Fail(ReconcileError::NotDesiredState),
            ),
            None => unexpected(),
        },
        BuildPhase::PostProxy => match e {
            EventV::Fetched(rows) => if proxy_ok(rows) {
                enter_exports(cfg, Some(rows))
            } else {
                (
                    BuildPhase::Finished,
                    StepV::Fail(ReconcileError::NotDesiredState),
                )
            },
            EventV::Previewed => enter_exports(cfg, None),
            _ => unexpected(),
        },
        BuildPhase::FetchExports => match e {
            EventV::Fetched(rows) => (BuildPhase::Finished, exports_result(rows)),
            EventV::Previewed => (
                BuildPhase::Finished,
                StepV::Done(SourceV::Placeholders),
            ),
            _ => unexpected(),
        },
        BuildPhase::Finished => unexpected(),
    }
}

fn exports_step(cfg: &Config, proxy: Option<Vec<StrMap>>) -> (r: (BuildPhase, Step))
    ensures
        (r.0, r.1@) == enter_exports(
            *cfg,
            match proxy {
                Some(v) => Some(rows_view(v@)),
                None => None,
            },
        ),
{
    if !cfg.has_exports || cfg.plan.exports.is_none() {
        return (BuildPhase::Finished, Step::Done(ExportSource::Nothing));
    }
    match proxy {
        Some(rows) => (BuildPhase::Finished, Step::Done(ExportSource::Rows(rows))),
        None => {
            let o = cfg.plan.exports.unwrap();
            (
                BuildPhase::FetchExports,
                issue_exec(cfg, Step::Fetch { anchor: QueryType::Exports, retries: o.retries, delay: o.retry_delay }),
            )
        },
    }
}

fn create_step(cfg: &Config) -> (r: (BuildPhase, Step))
    ensures
        (r.0, r.1@) == enter_create(*cfg),
{
    match cfg.plan.create {
        Some(o) => (
            BuildPhase::Creating,
            issue_exec(
                cfg,
                Step::Mutate {
                    anchor: QueryType::Create,
                    retries: o.retries,
                    delay: o.retry_delay,
                    ignore_errors: cfg.multi,
                },
            ),
        ),
        None => (BuildPhase::Finished, Step::Fail(ReconcileError::MissingCreate)),
    }
}

fn update_step(cfg: &Config) -> (r: (BuildPhase, Step))
    ensures
        (r.0, r.1@) == enter_update(*cfg),
{
    match cfg.plan.update {
        Some(o) => (
            BuildPhase::Updating,
            issue_exec(
                cfg,
                Step::Mutate {
                    anchor: QueryType::Update,
                    retries: o.retries,
                    delay: o.retry_delay,
                    ignore_errors: cfg.multi,
                },
            ),
        ),
        None => exports_step(cfg, None),
    }
}

fn post_step(cfg: &Config) -> (r: (BuildPhase, Step))
    ensures
        (r.0, r.1@) == enter_post(*cfg),
{
    match cfg.plan.statecheck {
        Some(o) => (
            BuildPhase::PostStateProbe,
            issue_exec(
                cfg,
                Step::Probe {
                    anchor: QueryType::StateCheck,
                    retries: o.retries,
                    delay: o.retry_delay,
                    delete_test: false,
                },
            ),
        ),
        None => match cfg.plan.exports {
            Some(o) => (
                BuildPhase::PostProxy,
                issue_exec(cfg, Step::Fetch { anchor: QueryType::Exports, retries: o.retries, delay: o.retry_delay }),
            ),
            None => exports_step(cfg, None),
        },
    }
}

fn unexpected_step() -> (r: (BuildPhase, Step))
    ensures
        (r.0, r.1@) == unexpected(),
{
    (BuildPhase::Finished, Step::Fail(ReconcileError::UnexpectedEvent))
}

fn verdict_exec(e: &Event, assumed: bool) -> (r: Option<bool>)
    ensures
        r == verdict(e@, assumed),
{
    match e {
        Event::Checked(b) => Some(*b),
        Event::Previewed => Some(assumed),
        _ => None,
    }
}

/// Checks the rows of an exports query.
pub fn check_export_rows(rows: Vec<StrMap>) -> (r: Step)
    ensures
        r@ == exports_result(rows_view(rows@)),
{
    if rows.len() == 0 {
        return Step::Fail(ReconcileError::ExportsMissing);
    }
    assert(rows_view(rows@)[0] == rows@[0]@);
    if rows[0].contains_key("_stackql_deploy_error") || rows[0].contains_key("error") {
        return Step::Fail(ReconcileError::ExportsFailed);
    }
    if rows.len() > 1 {
        return Step::Fail(ReconcileError::TooManyExportRows);
    }
    Step::Done(ExportSource::Rows(rows))
}

/// The decisions of building one resource.
pub struct BuildMachine {
    cfg: Config,
    phase: BuildPhase,
}

impl BuildMachine {
    pub closed spec fn config(&self) -> Config {
        self.cfg
    }

    pub closed spec fn phase(&self) -> BuildPhase {
        self.phase
    }

    pub fn new(cfg: Config) -> (r: BuildMachine)
        ensures
            r.config() == cfg,
            r.phase() == BuildPhase::Start,
    {
        BuildMachine { cfg, phase: BuildPhase::Start }
    }

    /// The next action, given the outcome of the last one.
    pub fn step(&mut self, e: Event) -> (r: Step)
        ensures
            final(self).config() == old(self).config(),
            (final(self).phase(), r@) == build_next(old(self).config(), old(self).phase(), e@),
    {
        let cfg = self.cfg;
        let (phase, step) = match self.phase {
            BuildPhase::Start => match e {
                Event::Begin => self.begin(),
                _ => unexpected_step(),
            },
            BuildPhase::ExistsProbe => match verdict_exec(&e, false) {
                Some(false) => create_step(&cfg),
                Some(true) => {
                    if select_strategy(&cfg.plan) == Some(Strategy::StateCheck) && cfg.plan.exists.is_some()
                        && !cfg.skip_validation {
                        let o = cfg.plan.statecheck.unwrap();
                        (
                            BuildPhase::StateProbe,
                            issue_exec(
                                &cfg,
                                Step::Probe {
                                    anchor: QueryType::StateCheck,
                                    retries: o.retries,
                                    delay: o.retry_delay,
                                    delete_test: false,
                                },
                            ),
                        )
                    } else {
                        exports_step(&cfg, None)
                    }
                },
                None => unexpected_step(),
            },
            BuildPhase::StateProbe => match verdict_exec(&e, true) {
                Some(true) => exports_step(&cfg, None),
                Some(false) => update_step(&cfg),
                None => unexpected_step(),
            },
            BuildPhase::ProxyCheck => match e {
                Event::Fetched(rows) => {
                    if crate::executor::check_exports_as_statecheck_proxy(&rows) {
                        exports_step(&cfg, Some(rows))
                    } else {
                        match cfg.plan.exists {
                            Some(o) => (
                                BuildPhase::FallbackExists,
                                issue_exec(
                                    &cfg,
                                    Step::Probe {
                                        anchor: QueryType::Exists,
                                        retries: o.retries,
                                        delay: o.retry_delay,
                                        delete_test: false,
                                    },
                                ),
                            ),
                            None => create_step(&cfg),
                        }
                    }
                },
                Event::Previewed => exports_step(&cfg, None),
                _ => unexpected_step(),
            },
            BuildPhase::FallbackExists => match verdict_exec(&e, false) {
                Some(true) => update_step(&cfg),
                Some(false) => create_step(&cfg),
                None => unexpected_step(),
            },
            BuildPhase::Creating | BuildPhase::Updating => match e {
                Event::Mutated => post_step(&cfg),
                Event::Previewed => exports_step(&cfg, None),
                _ => unexpected_step(),
            },
            BuildPhase::Upserting => match e {
                Event::Mutated => exports_step(&cfg, None),
                Event::Previewed => exports_step(&cfg, None),
                _ => unexpected_step(),
            },
            BuildPhase::PostStateProbe => match verdict_exec(&e, true) {
                Some(true) => exports_step(&cfg, None),
                Some(false) => (BuildPhase::Finished, Step::Fail(ReconcileError::NotDesiredState)),
                None => unexpected_step(),
            },
            BuildPhase::PostProxy => match e {
                Event::Fetched(rows) => {
                    if crate::executor::check_exports_as_statecheck_proxy(&rows) {
                        exports_step(&cfg, Some(rows))
                    } else {
                        (BuildPhase::Finished, Step::Fail(ReconcileError::NotDesiredState))
                    }
                },
                Event::Previewed => exports_step(&cfg, None),
                _ => unexpected_step(),
            },
            BuildPhase::FetchExports => match e {
                Event::Fetched(rows) => (BuildPhase::Finished, check_export_rows(rows)),
                Event::Previewed => (BuildPhase::Finished, Step::Done(ExportSource::Placeholders)),
                _ => unexpected_step(),
            },
            BuildPhase::Finished => unexpected_step(),
        };
        self.phase = phase;
        step
    }

    fn begin(&self) -> (r: (BuildPhase, Step))
        ensures
            (r.0, r.1@) == build_begin(self.config()),
    {
        let cfg = self.cfg;
        match select_strategy(&cfg.plan) {
            None => (BuildPhase::Finished, Step::Fail(ReconcileError::MissingAnchors)),
            Some(Strategy::Upsert) => {
                let o = cfg.plan.createorupdate.unwrap();
                (
                    BuildPhase::Upserting,
                    issue_exec(
                        &cfg,
                        Step::Mutate {
                            anchor: QueryType::CreateOrUpdate,
                            retries: o.retries,
                            delay: o.retry_delay,
                            ignore_errors: cfg.multi,
                        },
                    ),
                )
            },
            Some(Strategy::ExportsProxy) => (
                BuildPhase::ProxyCheck,
                issue_exec(&cfg, Step::Fetch { anchor: QueryType::Exports, retries: 1, delay: 0 }),
            ),
            Some(_) => {
                let (a, o) = match cfg.plan.exists {
                    Some(o) => (QueryType::Exists, o),
                    None => (QueryType::StateCheck, cfg.plan.statecheck.unwrap()),
                };
                (
                    BuildPhase::ExistsProbe,
                    issue_exec(
                        &cfg,
                        Step::Probe { anchor: a, retries: o.retries, delay: o.retry_delay, delete_test: false },
                    ),
                )
            },
        }
    }
}

/// The steps a build gives for a sequence of outcomes.
pub open spec fn build_run(cfg: Config, phase: BuildPhase, es: Seq<EventV>) -> Seq<StepV>
    decreases es.len(),
{
    if es.len() == 0 {
        Seq::empty()
    } else {
        let (next, step) = build_next(cfg, phase, es[0]);
        seq![step] + build_run(cfg, next, es.drop_first())
    }
}

proof fn lemma_build_run_index(cfg: Config, phase: BuildPhase, es: Seq<EventV>, i: int)
    requires
        0 < i < es.len(),
    ensures
        build_run(cfg, phase, es)[i] == build_run(cfg, build_next(cfg, phase, es[0]).0, es.drop_first())[i - 1],
        build_run(cfg, phase, es).len() == es.len(),
{
    lemma_build_run_len(cfg, build_next(cfg, phase, es[0]).0, es.drop_first());
}

proof fn lemma_build_run_len(cfg: Config, phase: BuildPhase, es: Seq<EventV>)
    ensures
        build_run(cfg, phase, es).len() == es.len(),
    decreases es.len(),
{
    if es.len() > 0 {
        lemma_build_run_len(cfg, build_next(cfg, phase, es[0]).0, es.drop_first());
    }
}

/// Once finished, a build sends nothing more.
proof fn lemma_finished_silent(cfg: Config, es: Seq<EventV>)
    ensures
        forall|i: int| 0 <= i < es.len() ==> !issues_statement(#[trigger] build_run(cfg, BuildPhase::Finished, es)[i]),
    decreases es.len(),
{
    lemma_build_run_len(cfg, BuildPhase::Finished, es);
    if es.len() > 0 {
        lemma_finished_silent(cfg, es.drop_first());
        assert forall|i: int| 0 <= i < es.len() implies !issues_statement(
            #[trigger] build_run(cfg, BuildPhase::Finished, es)[i],
        ) by {
            if i > 0 {
                lemma_build_run_index(cfg, BuildPhase::Finished, es, i);
            }
        }
    }
}

/// A dry-run build sends no statement to the engine, whatever outcomes it is given.
pub proof fn lemma_dry_run_issues_nothing(cfg: Config, phase: BuildPhase, es: Seq<EventV>)
    requires
        cfg.dry_run,
    ensures
        forall|i: int| 0 <= i < es.len() ==> !issues_statement(#[trigger] build_run(cfg, phase, es)[i]),
    decreases es.len(),
{
    lemma_build_run_len(cfg, phase, es);
    if es.len() > 0 {
        let (next, step) = build_next(cfg, phase, es[0]);
        lemma_dry_run_issues_nothing(cfg, next, es.drop_first());
        assert forall|i: int| 0 <= i < es.len() implies !issues_statement(
            #[trigger] build_run(cfg, phase, es)[i],
        ) by {
            if i > 0 {
                lemma_build_run_index(cfg, phase, es, i);
            }
        }
    }
}

/// A resource with none of `exists`, `statecheck`, `exports` (and no
/// `createorupdate`) fails at once, before any statement is sent.
pub proof fn lemma_missing_anchors_fail_fast(cfg: Config, es: Seq<EventV>)
    requires
        cfg.plan.exists is None,
        cfg.plan.statecheck is None,
        cfg.plan.exports is None,
        cfg.plan.createorupdate is None,
        es.len() > 0,
        es[0] == EventV::Begin,
    ensures
        build_run(cfg, BuildPhase::Start, es)[0] == StepV::Fail(ReconcileError::MissingAnchors),
        forall|i: int| 0 <= i < es.len() ==> !issues_statement(#[trigger] build_run(cfg, BuildPhase::Start, es)[i]),
{
    lemma_build_run_len(cfg, BuildPhase::Start, es);
    lemma_finished_silent(cfg, es.drop_first());
    assert forall|i: int| 0 <= i < es.len() implies !issues_statement(
        #[trigger] build_run(cfg, BuildPhase::Start, es)[i],
    ) by {
        if i > 0 {
            lemma_build_run_index(cfg, BuildPhase::Start, es, i);
        }
    }
}

/// Whether a step probes existence or state, or changes the resource.
pub open spec fn probes_or_mutates(s: StepV) -> bool {
    s is Probe || s is Mutate
}

proof fn lemma_upsert_tail(cfg: Config, phase: BuildPhase, es: Seq<EventV>)
    requires
        cfg.plan.createorupdate is Some,
        phase == BuildPhase::Upserting || phase == BuildPhase::FetchExports || phase == BuildPhase::Finished,
    ensures
        forall|i: int| 0 <= i < es.len() ==> !probes_or_mutates(#[trigger] build_run(cfg, phase, es)[i]),
    decreases es.len(),
{
    lemma_build_run_len(cfg, phase, es);
    if es.len() > 0 {
        let (next, step) = build_next(cfg, phase, es[0]);
        lemma_upsert_tail(cfg, next, es.drop_first());
        assert forall|i: int| 0 <= i < es.len() implies !probes_or_mutates(
            #[trigger] build_run(cfg, phase, es)[i],
        ) by {
            if i > 0 {
                lemma_build_run_index(cfg, phase, es, i);
            }
        }
    }
}

/// A `createorupdate` resource is upserted by its first step; no existence or
/// state probe is ever sent, and no second change follows.
pub proof fn lemma_upsert_once(cfg: Config, es: Seq<EventV>)
    requires
        cfg.plan.createorupdate is Some,
        !cfg.dry_run,
        es.len() > 0,
        es[0] == EventV::Begin,
    ensures
        build_run(cfg, BuildPhase::Start, es)[0] matches StepV::Mutate { anchor, .. } && anchor
            == QueryType::CreateOrUpdate,
        forall|i: int| 1 <= i < es.len() ==> !probes_or_mutates(#[trigger] build_run(cfg, BuildPhase::Start, es)[i]),
{
    lemma_build_run_len(cfg, BuildPhase::Start, es);
    lemma_upsert_tail(cfg, BuildPhase::Upserting, es.drop_first());
    assert forall|i: int| 1 <= i < es.len() implies !probes_or_mutates(
        #[trigger] build_run(cfg, BuildPhase::Start, es)[i],
    ) by {
        lemma_build_run_index(cfg, BuildPhase::Start, es, i);
    }
}

/// Rows of a successful proxy check become the exports as they are: the
/// build finishes at once, with no second query.
pub proof fn lemma_proxy_rows_reused(cfg: Config, rows: Seq<Map<Seq<char>, Seq<char>>>)
    requires
        cfg.plan.exports is Some,
        cfg.has_exports,
        proxy_ok(rows),
    ensures
        build_next(cfg, BuildPhase::ProxyCheck, EventV::Fetched(rows)) == (
            BuildPhase::Finished,
            StepV::Done(SourceV::Rows(rows)),
        ),
        build_next(cfg, BuildPhase::PostProxy, EventV::Fetched(rows)) == (
            BuildPhase::Finished,
            StepV::Done(SourceV::Rows(rows)),
        ),
{
}

/// The first step of testing a resource: a state check, else an exports
/// proxy check, else an existence probe; with `skip_validation`, none.
pub open spec fn test_begin(cfg: Config) -> (BuildPhase, StepV) {
    if cfg.skip_validation {
        enter_exports(cfg, None)
    } else if cfg.plan.statecheck is Some {
        let o = cfg.plan.statecheck->Some_0;
        (
            BuildPhase::StateProbe,
            issue(cfg, StepV::Probe { anchor: QueryType::StateCheck, retries: o.retries, delay: o.retry_delay, delete_test: false }),
        )
    } else if cfg.plan.exports is Some {
        (
            BuildPhase::ProxyCheck,
            issue(cfg, StepV::Fetch { anchor: QueryType::Exports, retries: 1, delay: 0 }),
        )
    } else if cfg.plan.exists is Some {
        let o = cfg.plan.exists->Some_0;
        (
            BuildPhase::ExistsProbe,
            issue(cfg, StepV::Probe { anchor: QueryType::Exists, retries: o.retries, delay: o.retry_delay, delete_test: false }),
        )
    } else {
        (BuildPhase::Finished, StepV::Fail(ReconcileError::MissingAnchors))
    }
}

/// One transition of testing a resource; a resource not in its desired
/// state fails the run.
pub open spec fn test_next(cfg: Config, phase: BuildPhase, e: EventV) -> (BuildPhase, StepV) {
    match phase {
        BuildPhase::Start => match e {
            EventV::Begin => test_begin(cfg),
            _ => unexpected(),
        },
        BuildPhase::StateProbe | BuildPhase::ExistsProbe => match verdict(e, true) {
            Some(true) => enter_exports(cfg, None),
            Some(false) => (BuildPhase::Finished, StepV::Fail(ReconcileError::NotDesiredState)),
            None => unexpected(),
        },
        BuildPhase::ProxyCheck => match e {
            EventV::Fetched(rows) => if proxy_ok(rows) {
                enter_exports(cfg, Some(rows))
            } else {
                (BuildPhase::Finished, StepV::Fail(ReconcileError::NotDesiredState))
            },
            EventV::Previewed => enter_exports(cfg, None),
            _ => unexpected(),
        },
        BuildPhase::FetchExports => match e {
            EventV::Fetched(rows) => (BuildPhase::Finished, exports_result(rows)),
            EventV::Previewed => (BuildPhase::Finished, StepV::Done(SourceV::Placeholders)),
            _ => unexpected(),
        },
        _ => unexpected(),
    }
}

/// The decisions of testing one resource.
pub struct TestMachine {
    cfg: Config,
    phase: BuildPhase,
}

impl TestMachine {
    pub closed spec fn config(&self) -> Config {
        self.cfg
    }

    pub closed spec fn phase(&self) -> BuildPhase {
        self.phase
    }

    pub fn new(cfg: Config) -> (r: TestMachine)
        ensures
            r.config() == cfg,
            r.phase() == BuildPhase::Start,
    {
        TestMachine { cfg, phase: BuildPhase::Start }
    }

    /// The next action, given the outcome of the last one.
    pub fn step(&mut self, e: Event) -> (r: Step)
        ensures
            final(self).config() == old(self).config(),
            (final(self).phase(), r@) == test_next(old(self).config(), old(self).phase(), e@),
    {
        let cfg = self.cfg;
        let (phase, step) = match self.phase {
            BuildPhase::Start => match e {
                Event::Begin => {
                    if cfg.skip_validation {
                        exports_step(&cfg, None)
                    } else if cfg.plan.statecheck.is_some() {
                        let o = cfg.plan.statecheck.unwrap();
                        (
                            BuildPhase::StateProbe,
                            issue_exec(&cfg, Step::Probe { anchor: QueryType::StateCheck, retries: o.retries, delay: o.retry_delay, delete_test: false }),
                        )
                    } else if cfg.plan.exports.is_some() {
                        (
                            BuildPhase::ProxyCheck,
                            issue_exec(&cfg, Step::Fetch { anchor: QueryType::Exports, retries: 1, delay: 0 }),
                        )
                    } else if cfg.plan.exists.is_some() {
                        let o = cfg.plan.exists.unwrap();
                        (
                            BuildPhase::ExistsProbe,
                            issue_exec(&cfg, Step::Probe { anchor: QueryType::Exists, retries: o.retries, delay: o.retry_delay, delete_test: false }),
                        )
                    } else {
                        (BuildPhase::Finished, Step::Fail(ReconcileError::MissingAnchors))
                    }
                },
                _ => unexpected_step(),
            },
            BuildPhase::StateProbe | BuildPhase::ExistsProbe => match verdict_exec(&e, true) {
                Some(true) => exports_step(&cfg, None),
                Some(false) => (BuildPhase::Finished, Step::Fail(ReconcileError::NotDesiredState)),
                None => unexpected_step(),
            },
            BuildPhase::ProxyCheck => match e {
                Event::Fetched(rows) => {
                    if crate::executor::check_exports_as_statecheck_proxy(&rows) {
                        exports_step(&cfg, Some(rows))
                    } else {
                        (BuildPhase::Finished, Step::Fail(ReconcileError::NotDesiredState))
                    }
                },
                Event::Previewed => exports_step(&cfg, None),
                _ => unexpected_step(),
            },
            BuildPhase::FetchExports => match e {
                Event::Fetched(rows) => (BuildPhase::Finished, check_export_rows(rows)),
                Event::Previewed => (BuildPhase::Finished, Step::Done(ExportSource::Placeholders)),
                _ => unexpected_step(),
            },
            _ => unexpected_step(),
        };
        self.phase = phase;
        step
    }
}

/// A test run against an engine in state `st`: `answer` gives the outcome of a
/// step, `effect` the engine state after it; at most `n` steps.
pub open spec fn test_session<S>(
    cfg: Config,
    phase: BuildPhase,
    e: EventV,
    st: S,
    answer: spec_fn(S, StepV) -> EventV,
    effect: spec_fn(S, StepV) -> S,
    n: nat,
) -> (Seq<StepV>, S)
    decreases n,
{
    if n == 0 {
        (Seq::empty(), st)
    } else {
        let (next, step) = test_next(cfg, phase, e);
        let st2 = effect(st, step);
        let (rest, fin) = test_session(cfg, next, answer(st2, step), st2, answer, effect, (n - 1) as nat);
        (seq![step] + rest, fin)
    }
}

/// Testing changes nothing: a test step never mutates.
pub proof fn lemma_test_step_reads_only(cfg: Config, phase: BuildPhase, e: EventV)
    ensures
        !(test_next(cfg, phase, e).1 is Mutate),
{
}

/// Testing twice with no change in between gives the same steps, so the same
/// verdict and the same exports: a test leaves the engine's state as it found
/// it wherever statements other than changes leave it unchanged.
pub proof fn lemma_test_repeatable<S>(
    cfg: Config,
    st: S,
    answer: spec_fn(S, StepV) -> EventV,
    effect: spec_fn(S, StepV) -> S,
    n: nat,
)
    requires
        forall|x: S, s: StepV| !(s is Mutate) ==> #[trigger] effect(x, s) == x,
    ensures
        test_session(cfg, BuildPhase::Start, EventV::Begin, st, answer, effect, n).1 == st,
        test_session(
            cfg,
            BuildPhase::Start,
            EventV::Begin,
            test_session(cfg, BuildPhase::Start, EventV::Begin, st, answer, effect, n).1,
            answer,
            effect,
            n,
        ) == test_session(cfg, BuildPhase::Start, EventV::Begin, st, answer, effect, n),
{
    lemma_test_session_keeps_state(cfg, BuildPhase::Start, EventV::Begin, st, answer, effect, n);
}

proof fn lemma_test_session_keeps_state<S>(
    cfg: Config,
    phase: BuildPhase,
    e: EventV,
    st: S,
    answer: spec_fn(S, StepV) -> EventV,
    effect: spec_fn(S, StepV) -> S,
    n: nat,
)
    requires
        forall|x: S, s: StepV| !(s is Mutate) ==> #[trigger] effect(x, s) == x,
    ensures
        test_session(cfg, phase, e, st, answer, effect, n).1 == st,
    decreases n,
{
    if n > 0 {
        let (next, step) = test_next(cfg, phase, e);
        lemma_test_step_reads_only(cfg, phase, e);
        assert(effect(st, step) == st);
        lemma_test_session_keeps_state(cfg, next, answer(st, step), st, answer, effect, (n - 1) as nat);
    }
}

/// Kinds of resource.
#[derive(Debug, Clone, Copy, PartialEq, Eq, Structural)]
pub enum ResourceKind {
    Resource,
    Query,
    Script,
    Multi,
    Command,
}

/// The kind a resource type names.
pub open spec fn kind_named(t: Seq<char>) -> Option<ResourceKind> {
    if t == "resource"@ {
        Some(ResourceKind::Resource)
    } else if t == "query"@ {
        Some(ResourceKind::Query)
    } else if t == "script"@ {
        Some(ResourceKind::Script)
    } else if t == "multi"@ {
        Some(ResourceKind::Multi)
    } else if t == "command"@ {
        Some(ResourceKind::Command)
    } else {
        None
    }
}

/// The kind a resource type names; other names are invalid.
pub fn get_resource_type(t: &str) -> (r: Option<ResourceKind>)
    ensures
        r == kind_named(t@),
{
    let v = crate::text::chars_of(t);
    if crate::text::same_chars(&v, &crate::text::chars_of("resource")) {
        Some(ResourceKind::Resource)
    } else if crate::text::same_chars(&v, &crate::text::chars_of("query")) {
        Some(ResourceKind::Query)
    } else if crate::text::same_chars(&v, &crate::text::chars_of("script")) {
        Some(ResourceKind::Script)
    } else if crate::text::same_chars(&v, &crate::text::chars_of("multi")) {
        Some(ResourceKind::Multi)
    } else if crate::text::same_chars(&v, &crate::text::chars_of("command")) {
        Some(ResourceKind::Command)
    } else {
        None
    }
}

/// Kinds whose exports are collected before a teardown.
pub open spec fn collectable(k: ResourceKind) -> bool {
    k == ResourceKind::Resource || k == ResourceKind::Multi || k == ResourceKind::Query
}

/// Kinds that a teardown deletes (a `query` resource only where it has a
/// delete fragment; scripts and commands have no state to remove).
pub open spec fn deletable(k: ResourceKind) -> bool {
    k == ResourceKind::Resource || k == ResourceKind::Multi || k == ResourceKind::Query
}

/// A task of a teardown.
#[derive(Debug, Clone, Copy, PartialEq, Eq, Structural)]
pub enum TeardownTask {
    /// Collect the exports of the resource at this position.
    Collect(usize),
    /// Delete the resource at this position.
    Delete(usize),
}

/// Export collection, in manifest order, over the first `n` resources.
pub open spec fn collect_tasks(kinds: Seq<ResourceKind>, n: int) -> Seq<TeardownTask>
    decreases n,
{
    if n <= 0 {
        Seq::empty()
    } else if collectable(kinds[n - 1]) {
        collect_tasks(kinds, n - 1).push(TeardownTask::Collect((n - 1) as usize))
    } else {
        collect_tasks(kinds, n - 1)
    }
}

/// Deletion, in reverse manifest order, over the first `n` resources.
pub open spec fn delete_tasks(kinds: Seq<ResourceKind>, n: int) -> Seq<TeardownTask>
    decreases n,
{
    if n <= 0 {
        Seq::empty()
    } else if deletable(kinds[n - 1]) {
        seq![TeardownTask::Delete((n - 1) as usize)] + delete_tasks(kinds, n - 1)
    } else {
        delete_tasks(kinds, n - 1)
    }
}

/// The tasks of a teardown: every export collection, then every deletion.
pub open spec fn teardown_schedule(kinds: Seq<ResourceKind>) -> Seq<TeardownTask> {
    collect_tasks(kinds, kinds.len() as int) + delete_tasks(kinds, kinds.len() as int)
}

/// The tasks of a teardown of resources of these kinds, in manifest order.
pub fn teardown_order(kinds: &Vec<ResourceKind>) -> (r: Vec<TeardownTask>)
    ensures
        r@ == teardown_schedule(kinds@),
{
    let n = kinds.len();
    let mut out: Vec<TeardownTask> = Vec::new();
    let mut i: usize = 0;
    while i < n
        invariant
            n == kinds@.len(),
            i <= n,
            out@ == collect_tasks(kinds@, i as int),
        decreases n - i,
    {
        let k = kinds[i];
        if k == ResourceKind::Resource || k == ResourceKind::Multi || k == ResourceKind::Query {
            out.push(TeardownTask::Collect(i));
        }
        i = i + 1;
    }
    let mut j: usize = n;
    let ghost collected = out@;
    while j > 0
        invariant
            n == kinds@.len(),
            j <= n,
            collected == collect_tasks(kinds@, n as int),
            out@ + delete_tasks(kinds@, j as int) == collected + delete_tasks(kinds@, n as int),
        decreases j,
    {
        let k = kinds[j - 1];
        let ghost before = out@;
        if k == ResourceKind::Resource || k == ResourceKind::Multi || k == ResourceKind::Query {
            out.push(TeardownTask::Delete(j - 1));
            assert(out@ + delete_tasks(kinds@, j - 1) =~= before + delete_tasks(kinds@, j as int));
        } else {
            assert(out@ + delete_tasks(kinds@, j - 1) =~= before + delete_tasks(kinds@, j as int));
        }
        j = j - 1;
    }
    assert(out@ + delete_tasks(kinds@, 0) =~= out@);
    out
}

proof fn lemma_collect_all(kinds: Seq<ResourceKind>, n: int)
    requires
        0 <= n <= kinds.len(),
        forall|i: int| 0 <= i < kinds.len() ==> deletable(#[trigger] kinds[i]),
    ensures
        collect_tasks(kinds, n).len() == n,
        forall|i: int| 0 <= i < n ==> #[trigger] collect_tasks(kinds, n)[i] == TeardownTask::Collect(i as usize),
    decreases n,
{
    if n > 0 {
        lemma_collect_all(kinds, n - 1);
        assert(deletable(kinds[n - 1]));
    }
}

proof fn lemma_delete_all(kinds: Seq<ResourceKind>, n: int)
    requires
        0 <= n <= kinds.len(),
        forall|i: int| 0 <= i < kinds.len() ==> deletable(#[trigger] kinds[i]),
    ensures
        delete_tasks(kinds, n).len() == n,
        forall|i: int| 0 <= i < n ==> #[trigger] delete_tasks(kinds, n)[i] == TeardownTask::Delete((n - 1 - i) as usize),
    decreases n,
{
    if n > 0 {
        lemma_delete_all(kinds, n - 1);
        assert(deletable(kinds[n - 1]));
        let d = delete_tasks(kinds, n);
        assert forall|i: int| 0 <= i < n implies #[trigger] d[i] == TeardownTask::Delete((n - 1 - i) as usize) by {
            if i > 0 {
                assert(d[i] == delete_tasks(kinds, n - 1)[i - 1]);
            }
        }
    }
}

/// Teardown collects the exports of every resource first, in manifest order,
/// then deletes the resources in reverse manifest order.
pub proof fn lemma_teardown_reverses(kinds: Seq<ResourceKind>)
    requires
        forall|i: int| 0 <= i < kinds.len() ==> deletable(#[trigger] kinds[i]),
    ensures
        teardown_schedule(kinds).len() == 2 * kinds.len(),
        forall|i: int| 0 <= i < kinds.len() ==> #[trigger] teardown_schedule(kinds)[i] == TeardownTask::Collect(i as usize),
        forall|i: int| 0 <= i < kinds.len() ==> #[trigger] teardown_schedule(kinds)[kinds.len() + i]
            == TeardownTask::Delete((kinds.len() - 1 - i) as usize),
{
    let n = kinds.len() as int;
    lemma_collect_all(kinds, n);
    lemma_delete_all(kinds, n);
    let t = teardown_schedule(kinds);
    assert forall|i: int| 0 <= i < n implies #[trigger] t[n + i] == TeardownTask::Delete((n - 1 - i) as usize) by {
        assert(t[n + i] == delete_tasks(kinds, n)[i]);
    }
}

/// Phases of deleting a resource.
#[derive(Debug, Clone, Copy, PartialEq, Eq, Structural)]
pub enum DeletePhase {
    Start,
    /// Awaiting the existence probe.
    ExistsProbe,
    /// Awaiting the deletion.
    Deleting,
    /// Awaiting the probe that confirms the deletion.
    Confirming,
    Finished,
}

/// The deletion of a resource, or its showing in a dry run.
pub open spec fn delete_action(cfg: Config) -> StepV {
    let d = cfg.plan.delete->Some_0;
    issue(cfg, StepV::Mutate { anchor: QueryType::Delete, retries: d.retries, delay: d.retry_delay, ignore_errors: cfg.multi })
}

/// One transition of deleting a resource. A resource that is not found is
/// skipped; one still found after deletion fails the run unless it is `multi`.
pub open spec fn delete_next(cfg: Config, phase: DeletePhase, e: EventV) -> (DeletePhase, StepV) {
    let fail = (DeletePhase::Finished, StepV::Fail(ReconcileError::UnexpectedEvent));
    match phase {
        DeletePhase::Start => match e {
            EventV::Begin => if cfg.plan.delete is None {
                (DeletePhase::Finished, StepV::Removed(DeleteStatus::NoDeleteQuery))
            } else {
                match exists_anchor(cfg.plan) {
                    Some((a, o)) => (
                        DeletePhase::ExistsProbe,
                        issue(cfg, StepV::Probe { anchor: a, retries: o.retries, delay: o.retry_delay, delete_test: false }),
                    ),
                    None => (DeletePhase::Deleting, delete_action(cfg)),
                }
            },
            _ => fail,
        },
        DeletePhase::ExistsProbe => match verdict(e, false) {
            Some(true) => if cfg.plan.delete is Some {
                (DeletePhase::Deleting, delete_action(cfg))
            } else {
                fail
            },
            Some(false) => (DeletePhase::Finished, StepV::Removed(DeleteStatus::NotPresent)),
            None => fail,
        },
        DeletePhase::Deleting => match e {
            EventV::Mutated => match exists_anchor(cfg.plan) {
                Some((a, o)) => (
                    DeletePhase::Confirming,
                    issue(cfg, StepV::Probe { anchor: a, retries: o.postdelete_retries, delay: o.postdelete_retry_delay, delete_test: true }),
                ),
                None => (DeletePhase::Finished, StepV::Removed(DeleteStatus::Deleted)),
            },
            EventV::Previewed => (DeletePhase::Finished, StepV::Removed(DeleteStatus::Shown)),
            _ => fail,
        },
        DeletePhase::Confirming => match verdict(e, true) {
            Some(true) => (DeletePhase::Finished, StepV::Removed(DeleteStatus::Deleted)),
            Some(false) => if cfg.multi {
                (DeletePhase::Finished, StepV::Removed(DeleteStatus::Unconfirmed))
            } else {
                (DeletePhase::Finished, StepV::Fail(ReconcileError::DeleteFailed))
            },
            None => fail,
        },
        DeletePhase::Finished => fail,
    }
}

/// The decisions of deleting one resource.
pub struct DeleteMachine {
    cfg: Config,
    phase: DeletePhase,
}

impl DeleteMachine {
    pub closed spec fn config(&self) -> Config {
        self.cfg
    }

    pub closed spec fn phase(&self) -> DeletePhase {
        self.phase
    }

    pub fn new(cfg: Config) -> (r: DeleteMachine)
        ensures
            r.config() == cfg,
            r.phase() == DeletePhase::Start,
    {
        DeleteMachine { cfg, phase: DeletePhase::Start }
    }

    fn delete_step(&self) -> (r: Step)
        requires
            self.config().plan.delete is Some,
        ensures
            r@ == delete_action(self.config()),
    {
        let d = self.cfg.plan.delete.unwrap();
        issue_exec(
            &self.cfg,
            Step::Mutate { anchor: QueryType::Delete, retries: d.retries, delay: d.retry_delay, ignore_errors: self.cfg.multi },
        )
    }

    /// The next action, given the outcome of the last one.
    pub fn step(&mut self, e: Event) -> (r: Step)
        ensures
            final(self).config() == old(self).config(),
            (final(self).phase(), r@) == delete_next(old(self).config(), old(self).phase(), e@),
    {
        let cfg = self.cfg;
        let probe = match cfg.plan.exists {
            Some(o) => Some((QueryType::Exists, o)),
            None => match cfg.plan.statecheck {
                Some(o) => Some((QueryType::StateCheck, o)),
                None => None,
            },
        };
        assert(probe == exists_anchor(cfg.plan));
        let (phase, step) = match self.phase {
            DeletePhase::Start => match e {
                Event::Begin => {
                    if cfg.plan.delete.is_none() {
                        (DeletePhase::Finished, Step::Removed(DeleteStatus::NoDeleteQuery))
                    } else {
                        match probe {
                            Some((a, o)) => (
                                DeletePhase::ExistsProbe,
                                issue_exec(&cfg, Step::Probe { anchor: a, retries: o.retries, delay: o.retry_delay, delete_test: false }),
                            ),
                            None => (DeletePhase::Deleting, self.delete_step()),
                        }
                    }
                },
                _ => (DeletePhase::Finished, Step::Fail(ReconcileError::UnexpectedEvent)),
            },
            DeletePhase::ExistsProbe => match verdict_exec(&e, false) {
                Some(true) => {
                    if cfg.plan.delete.is_some() {
                        (DeletePhase::Deleting, self.delete_step())
                    } else {
                        (DeletePhase::Finished, Step::Fail(ReconcileError::UnexpectedEvent))
                    }
                },
                Some(false) => (DeletePhase::Finished, Step::Removed(DeleteStatus::NotPresent)),
                None => (DeletePhase::Finished, Step::Fail(ReconcileError::UnexpectedEvent)),
            },
            DeletePhase::Deleting => match e {
                Event::Mutated => match probe {
                    Some((a, o)) => (
                        DeletePhase::Confirming,
                        issue_exec(&cfg, Step::Probe { anchor: a, retries: o.postdelete_retries, delay: o.postdelete_retry_delay, delete_test: true }),
                    ),
                    None => (DeletePhase::Finished, Step::Removed(DeleteStatus::Deleted)),
                },
                Event::Previewed => (DeletePhase::Finished, Step::Removed(DeleteStatus::Shown)),
                _ => (DeletePhase::Finished, Step::Fail(ReconcileError::UnexpectedEvent)),
            },
            DeletePhase::Confirming => match verdict_exec(&e, true) {
                Some(true) => (DeletePhase::Finished, Step::Removed(DeleteStatus::Deleted)),
                Some(false) => {
                    if cfg.multi {
                        (DeletePhase::Finished, Step::Removed(DeleteStatus::Unconfirmed))
                    } else {
                        (DeletePhase::Finished, Step::Fail(ReconcileError::DeleteFailed))
                    }
                },
                None => (DeletePhase::Finished, Step::Fail(ReconcileError::UnexpectedEvent)),
            },
            DeletePhase::Finished => (DeletePhase::Finished, Step::Fail(ReconcileError::UnexpectedEvent)),
        };
        self.phase = phase;
        step
    }
}

} // verus!
