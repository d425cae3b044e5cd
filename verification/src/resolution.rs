//! Resolving the selected backend to an executable.
//!
//! The resolution order, for each concrete backend of the selection in turn:
//!
//! 1. the backend-specific override (`CHROME_PATH`, `CHROMIUM_PATH`,
//!    `EDGE_PATH`): when set and non-empty it is authoritative, and a path
//!    that does not exist is an error;
//! 2. for Chrome, the build-time baked Chrome for Testing path, when it is
//!    non-empty and exists;
//! 3. the first executable on `$PATH` or at a well-known location;
//!
//! and, when no backend resolves, a runtime fetch of Chrome for Testing, which
//! resolves to the Chrome backend whatever was selected. A foreign backend
//! (Firefox, Servo) has no executable and is refused at once.
//!
//! Reading variables, probing the file system and fetching are done by the
//! caller: [`Resolver`] says what to look at next ([`Probe`]) and takes what
//! was found ([`Answer`]).
use vstd::prelude::*;

use crate::backend::{Backend, engine_id_spec, env_overrides_spec, label_spec, order_spec};
use crate::text::{push_str, result_view};

verus! {

/// Why no executable was resolved.
pub enum ResolveError {
    /// A foreign backend was selected; it is opened through the vendor engine
    /// library, not spawned as an executable.
    Foreign { backend: Backend },
    /// A backend override variable names a path that does not exist.
    MissingOverride { var: String, value: String },
    /// Every backend failed to resolve and the runtime fetch failed too.
    Fetch { message: String },
}

/// The mathematical form of a [`ResolveError`].
pub enum ErrorView {
    Foreign(Backend),
    MissingOverride(Seq<char>, Seq<char>),
    Fetch(Seq<char>),
}

impl View for ResolveError {
    type V = ErrorView;

    open spec fn view(&self) -> ErrorView {
        match self {
            ResolveError::Foreign { backend } => ErrorView::Foreign(*backend),
            ResolveError::MissingOverride { var, value } => ErrorView::MissingOverride(
                var@,
                value@,
            ),
            ResolveError::Fetch { message } => ErrorView::Fetch(message@),
        }
    }
}

/// The result of a resolution: the backend and the path of its executable.
pub open spec fn outcome_view(r: Result<(Backend, String), ResolveError>) -> Result<
    (Backend, Seq<char>),
    ErrorView,
> {
    match r {
        Ok((b, p)) => Ok((b, p@)),
        Err(e) => Err(e@),
    }
}

/// The rendering `{:?}` gives a string: quoted, with escapes.
pub uninterp spec fn debug_quoted(s: Seq<char>) -> Seq<char>;

/// Calls `<str as Debug>::fmt` through `format!("{:?}")`; the contract
/// only names the result.
#[verifier::external_body]
fn debug_quote(s: &str) -> (r: String)
    ensures
        r@ == debug_quoted(s@),
{
    format!("{:?}", s)
}

/// The message an error is displayed with.
pub open spec fn message_spec(e: ErrorView) -> Seq<char> {
    match e {
        ErrorView::Foreign(b) => "backend `"@ + label_spec(b)
            + "` is driven through the FFI engine contract, not as a spawned executable. Open it via shirabe::ffi::CdylibEngine::open; the vendor lib `libshirabe_engine_"@
            + engine_id_spec(b).unwrap_or(Seq::empty()) + "` is resolved separately."@,
        ErrorView::MissingOverride(var, value) => var + " is set to "@ + debug_quoted(value)
            + " but it does not exist"@,
        ErrorView::Fetch(m) => m,
    }
}

impl ResolveError {
    /// The human-readable message of this error.
    pub fn message(&self) -> (r: String)
        ensures
            r@ == message_spec(self@),
    {
        match self {
            ResolveError::Foreign { backend } => {
                let mut s = String::new();
                push_str(&mut s, "backend `");
                push_str(&mut s, backend.label());
                push_str(
                    &mut s,
                    "` is driven through the FFI engine contract, not as a spawned executable. Open it via shirabe::ffi::CdylibEngine::open; the vendor lib `libshirabe_engine_",
                );
                match backend.engine_id() {
                    Some(id) => push_str(&mut s, id),
                    None => {},
                }
                push_str(&mut s, "` is resolved separately.");
                assert(s@ =~= message_spec(self@));
                s
            },
            ResolveError::MissingOverride { var, value } => {
                let mut s = String::new();
                push_str(&mut s, var.as_str());
                push_str(&mut s, " is set to ");
                let q = debug_quote(value.as_str());
                push_str(&mut s, q.as_str());
                push_str(&mut s, " but it does not exist");
                assert(s@ =~= message_spec(self@));
                s
            },
            ResolveError::Fetch { message } => message.clone(),
        }
    }

    /// A copy of this error.
    pub fn duplicate(&self) -> (r: ResolveError)
        ensures
            r@ == self@,
    {
        match self {
            ResolveError::Foreign { backend } => ResolveError::Foreign { backend: *backend },
            ResolveError::MissingOverride { var, value } => ResolveError::MissingOverride {
                var: var.clone(),
                value: value.clone(),
            },
            ResolveError::Fetch { message } => ResolveError::Fetch { message: message.clone() },
        }
    }
}

/// The path of the executable, or the error message, of a resolution.
pub open spec fn resolve_executable_spec(r: Result<(Backend, Seq<char>), ErrorView>) -> Result<
    Seq<char>,
    Seq<char>,
> {
    match r {
        Ok((_, p)) => Ok(p),
        Err(e) => Err(message_spec(e)),
    }
}

/// Stringly-typed form of a resolution, for callers that only need the path.
pub fn resolve_executable(outcome: Result<(Backend, String), ResolveError>) -> (r: Result<
    String,
    String,
>)
    ensures
        result_view(r) == resolve_executable_spec(outcome_view(outcome)),
{
    match outcome {
        Ok((_, p)) => Ok(p),
        Err(e) => Err(e.message()),
    }
}

/// The result of a resolution, as values.
pub type Outcome = Result<(Backend, Seq<char>), ErrorView>;

/// What the surroundings of a resolution hold: the set environment variables,
/// the paths that exist, the first executable found for each backend, and what
/// a runtime fetch gives.
pub struct World {
    pub vars: Map<Seq<char>, Seq<char>>,
    pub existing: Set<Seq<char>>,
    pub first: Map<Backend, Seq<char>>,
    pub fetched: Result<Seq<char>, Seq<char>>,
}

/// The override variables of backend `b` from `vars` on: the first one that
/// is set to a non-empty value decides, by whether that path exists.
pub open spec fn try_vars(b: Backend, vars: Seq<Seq<char>>, w: World) -> Option<Outcome>
    decreases vars.len(),
{
    if vars.len() == 0 {
        None
    } else {
        let v = vars[0];
        if w.vars.contains_key(v) && w.vars[v].len() > 0 {
            let p = w.vars[v];
            if w.existing.contains(p) {
                Some(Ok((b, p)))
            } else {
                Some(Err(ErrorView::MissingOverride(v, p)))
            }
        } else {
            try_vars(b, vars.drop_first(), w)
        }
    }
}

/// Whether the baked path is usable: set, non-empty and existing.
pub open spec fn baked_usable(baked: Option<Seq<char>>, w: World) -> bool {
    match baked {
        Some(p) => p.len() > 0 && w.existing.contains(p),
        None => false,
    }
}

/// What backend `b` resolves to on its own: its override, then (for Chrome)
/// the baked path, then the first executable found for it.
pub open spec fn try_backend(b: Backend, baked: Option<Seq<char>>, w: World) -> Option<Outcome> {
    match try_vars(b, env_overrides_spec(b), w) {
        Some(r) => Some(r),
        None => if b is Chrome && baked_usable(baked, w) {
            Some(Ok((Backend::Chrome, baked->0)))
        } else if w.first.contains_key(b) {
            Some(Ok((b, w.first[b])))
        } else {
            None
        },
    }
}

/// The first of `bs` that resolves, or else the runtime fetch (as Chrome).
pub open spec fn try_backends(bs: Seq<Backend>, baked: Option<Seq<char>>, w: World) -> Outcome
    decreases bs.len(),
{
    if bs.len() == 0 {
        match w.fetched {
            Ok(p) => Ok((Backend::Chrome, p)),
            Err(e) => Err(ErrorView::Fetch(e)),
        }
    } else {
        match try_backend(bs[0], baked, w) {
            Some(r) => r,
            None => try_backends(bs.drop_first(), baked, w),
        }
    }
}

/// The documented resolution of `selected` in world `w`.
pub open spec fn resolve_spec(selected: Backend, baked: Option<Seq<char>>, w: World) -> Outcome {
    if engine_id_spec(selected) is Some {
        Err(ErrorView::Foreign(selected))
    } else {
        try_backends(order_spec(selected), baked, w)
    }
}

/// Where a resolution stands.
pub enum Stage {
    /// Reading the override variable with this index.
    Var(usize),
    /// Checking that the value of the override variable with this index exists.
    Check(usize, String),
    /// Checking that the baked path exists.
    Baked,
    /// Looking for the first executable of the current backend.
    Scan,
    /// Fetching Chrome for Testing.
    Fetch,
    /// Done.
    Finished(Result<(Backend, String), ResolveError>),
}

/// The mathematical form of a [`Stage`].
pub enum StageView {
    Var(int),
    Check(int, Seq<char>),
    Baked,
    Scan,
    Fetch,
    Finished(Outcome),
}

/// A resolution in progress.
pub struct Resolver {
    selected: Backend,
    baked: Option<String>,
    pos: usize,
    stage: Stage,
}

/// The mathematical form of a [`Resolver`].
pub struct ResolverView {
    pub selected: Backend,
    pub baked: Option<Seq<char>>,
    pub pos: int,
    pub stage: StageView,
}

impl View for Resolver {
    type V = ResolverView;

    closed spec fn view(&self) -> ResolverView {
        ResolverView {
            selected: self.selected,
            baked: match self.baked {
                Some(p) => Some(p@),
                None => None,
            },
            pos: self.pos as int,
            stage: match self.stage {
                Stage::Var(i) => StageView::Var(i as int),
                Stage::Check(i, v) => StageView::Check(i as int, v@),
                Stage::Baked => StageView::Baked,
                Stage::Scan => StageView::Scan,
                Stage::Fetch => StageView::Fetch,
                Stage::Finished(r) => StageView::Finished(outcome_view(r)),
            },
        }
    }
}

/// What a resolution needs to know next.
pub enum Probe {
    /// The value of this environment variable, if it is set.
    ReadVar(&'static str),
    /// Whether this path exists.
    PathExists(String),
    /// The first executable found for this backend (see `Backend::candidates`).
    FirstCandidate(Backend),
    /// The path of a runtime-fetched Chrome for Testing, or why the fetch failed.
    Fetch,
    /// Nothing: the resolution is over.
    Done(Result<(Backend, String), ResolveError>),
}

/// The mathematical form of a [`Probe`].
pub enum ProbeView {
    ReadVar(Seq<char>),
    PathExists(Seq<char>),
    FirstCandidate(Backend),
    Fetch,
    Done(Outcome),
}

impl View for Probe {
    type V = ProbeView;

    open spec fn view(&self) -> ProbeView {
        match self {
            Probe::ReadVar(v) => ProbeView::ReadVar(v@),
            Probe::PathExists(p) => ProbeView::PathExists(p@),
            Probe::FirstCandidate(b) => ProbeView::FirstCandidate(*b),
            Probe::Fetch => ProbeView::Fetch,
            Probe::Done(r) => ProbeView::Done(outcome_view(*r)),
        }
    }
}

/// What the caller found for a [`Probe`].
pub enum Answer {
    /// The value of the variable, if it is set.
    Var(Option<String>),
    /// Whether the path exists.
    Exists(bool),
    /// The first executable found, if any.
    Candidate(Option<String>),
    /// The fetched executable, or the fetch's error message.
    Fetched(Result<String, String>),
}

/// The mathematical form of an [`Answer`].
pub enum AnswerView {
    Var(Option<Seq<char>>),
    Exists(bool),
    Candidate(Option<Seq<char>>),
    Fetched(Result<Seq<char>, Seq<char>>),
}

impl View for Answer {
    type V = AnswerView;

    open spec fn view(&self) -> AnswerView {
        match self {
            Answer::Var(o) => AnswerView::Var(
                match o {
                    Some(v) => Some(v@),
                    None => None,
                },
            ),
            Answer::Exists(e) => AnswerView::Exists(*e),
            Answer::Candidate(o) => AnswerView::Candidate(
                match o {
                    Some(v) => Some(v@),
                    None => None,
                },
            ),
            Answer::Fetched(r) => AnswerView::Fetched(result_view(*r)),
        }
    }
}

/// The backend a resolution is currently trying.
pub open spec fn current(st: ResolverView) -> Backend {
    order_spec(st.selected)[st.pos]
}

/// `st` with stage `stage`.
pub open spec fn with_stage(st: ResolverView, stage: StageView) -> ResolverView {
    ResolverView { stage, ..st }
}

/// After the override variables of the current backend: the baked path for
/// Chrome when there is a non-empty one, else the executable scan.
pub open spec fn enter_baked(st: ResolverView) -> ResolverView {
    if current(st) is Chrome && st.baked is Some && st.baked->0.len() > 0 {
        with_stage(st, StageView::Baked)
    } else {
        with_stage(st, StageView::Scan)
    }
}

/// At override variable `i` of the current backend, or past the last one.
pub open spec fn enter_vars(st: ResolverView, i: int) -> ResolverView {
    if i < env_overrides_spec(current(st)).len() {
        with_stage(st, StageView::Var(i))
    } else {
        enter_baked(st)
    }
}

/// At backend `pos` of the order, or at the fetch past the last one.
pub open spec fn enter_backend(st: ResolverView, pos: int) -> ResolverView {
    let st2 = ResolverView { pos, ..st };
    if pos < order_spec(st.selected).len() {
        enter_vars(st2, 0)
    } else {
        with_stage(st2, StageView::Fetch)
    }
}

/// How a resolution of `selected` starts.
pub open spec fn start_spec(selected: Backend, baked: Option<Seq<char>>) -> ResolverView {
    let st = ResolverView { selected, baked, pos: 0, stage: StageView::Fetch };
    if engine_id_spec(selected) is Some {
        with_stage(st, StageView::Finished(Err(ErrorView::Foreign(selected))))
    } else {
        enter_backend(st, 0)
    }
}

/// What a resolution at `st` needs to know next.
pub open spec fn probe_spec(st: ResolverView) -> ProbeView {
    match st.stage {
        StageView::Var(i) => ProbeView::ReadVar(env_overrides_spec(current(st))[i]),
        StageView::Check(_, v) => ProbeView::PathExists(v),
        StageView::Baked => ProbeView::PathExists(st.baked->0),
        StageView::Scan => ProbeView::FirstCandidate(current(st)),
        StageView::Fetch => ProbeView::Fetch,
        StageView::Finished(r) => ProbeView::Done(r),
    }
}

/// Where a resolution at `st` goes on answer `a`. An answer of the wrong kind
/// leaves it where it is.
pub open spec fn next_spec(st: ResolverView, a: AnswerView) -> ResolverView {
    match st.stage {
        StageView::Var(i) => match a {
            AnswerView::Var(Some(v)) => if v.len() > 0 {
                with_stage(st, StageView::Check(i, v))
            } else {
                enter_vars(st, i + 1)
            },
            AnswerView::Var(None) => enter_vars(st, i + 1),
            _ => st,
        },
        StageView::Check(i, v) => match a {
            AnswerView::Exists(e) => with_stage(
                st,
                StageView::Finished(
                    if e {
                        Ok((current(st), v))
                    } else {
                        Err(ErrorView::MissingOverride(env_overrides_spec(current(st))[i], v))
                    },
                ),
            ),
            _ => st,
        },
        StageView::Baked => match a {
            AnswerView::Exists(e) => if e {
                with_stage(st, StageView::Finished(Ok((Backend::Chrome, st.baked->0))))
            } else {
                with_stage(st, StageView::Scan)
            },
            _ => st,
        },
        StageView::Scan => match a {
            AnswerView::Candidate(Some(p)) => with_stage(
                st,
                StageView::Finished(Ok((current(st), p))),
            ),
            AnswerView::Candidate(None) => enter_backend(st, st.pos + 1),
            _ => st,
        },
        StageView::Fetch => match a {
            AnswerView::Fetched(Ok(p)) => with_stage(
                st,
                StageView::Finished(Ok((Backend::Chrome, p))),
            ),
            AnswerView::Fetched(Err(e)) => with_stage(
                st,
                StageView::Finished(Err(ErrorView::Fetch(e))),
            ),
            _ => st,
        },
        StageView::Finished(_) => st,
    }
}

/// The states a resolution can be in.
pub open spec fn wf_spec(st: ResolverView) -> bool {
    &&& 0 <= st.pos
    &&& match st.stage {
        StageView::Var(i) => st.pos < order_spec(st.selected).len() && 0 <= i
            < env_overrides_spec(current(st)).len(),
        StageView::Check(i, _) => st.pos < order_spec(st.selected).len() && 0 <= i
            < env_overrides_spec(current(st)).len(),
        StageView::Baked => st.pos < order_spec(st.selected).len() && current(st) is Chrome
            && st.baked is Some,
        StageView::Scan => st.pos < order_spec(st.selected).len(),
        StageView::Fetch => st.pos <= order_spec(st.selected).len(),
        StageView::Finished(_) => true,
    }
}

impl Resolver {
    #[verifier::type_invariant]
    spec fn inv(self) -> bool {
        wf_spec(self@)
    }

    /// The baked path, when it holds one.
    fn baked_copy(&self) -> (r: String)
        requires
            self@.baked is Some,
        ensures
            r@ == self@.baked->0,
    {
        match &self.baked {
            Some(p) => p.clone(),
            None => String::new(),
        }
    }

    /// Moves to the baked-path check or the scan of the current backend.
    fn go_baked(&mut self)
        requires
            wf_spec(old(self)@),
            old(self)@.pos < order_spec(old(self)@.selected).len(),
        ensures
            final(self)@ == enter_baked(old(self)@),
    {
        let order = self.selected.order();
        let b = order[self.pos];
        let usable = match &self.baked {
            Some(p) => !p.as_str().is_empty(),
            None => false,
        };
        if b == Backend::Chrome && usable {
            self.stage = Stage::Baked;
        } else {
            self.stage = Stage::Scan;
        }
    }

    /// Moves to override variable `i` of the current backend, or past it.
    fn go_vars(&mut self, i: usize)
        requires
            wf_spec(old(self)@),
            old(self)@.pos < order_spec(old(self)@.selected).len(),
        ensures
            final(self)@ == enter_vars(old(self)@, i as int),
    {
        let order = self.selected.order();
        let b = order[self.pos];
        let vars = b.env_overrides();
        if i < vars.len() {
            self.stage = Stage::Var(i);
        } else {
            self.go_baked();
        }
    }

    /// Moves to backend `pos` of the order, or to the fetch past the last one.
    fn go_backend(&mut self, pos: usize)
        requires
            wf_spec(old(self)@),
            old(self)@.pos <= order_spec(old(self)@.selected).len(),
            pos <= order_spec(old(self)@.selected).len(),
        ensures
            final(self)@ == enter_backend(old(self)@, pos as int),
    {
        let n = self.selected.order().len();
        self.stage = Stage::Fetch;
        self.pos = pos;
        if pos < n {
            self.go_vars(0);
        }
    }

    /// Starts resolving `selected`; `baked` is the build-time baked Chrome for
    /// Testing path, if the build has one.
    pub fn start(selected: Backend, baked: Option<String>) -> (r: Resolver)
        ensures
            r@ == start_spec(
                selected,
                match baked {
                    Some(p) => Some(p@),
                    None => None,
                },
            ),
    {
        if selected.engine_id().is_some() {
            return Resolver {
                selected,
                baked,
                pos: 0,
                stage: Stage::Finished(Err(ResolveError::Foreign { backend: selected })),
            };
        }
        let mut r = Resolver { selected, baked, pos: 0, stage: Stage::Fetch };
        r.go_backend(0);
        r
    }

    /// What the resolution needs to know next.
    pub fn probe(&self) -> (p: Probe)
        ensures
            p@ == probe_spec(self@),
    {
        proof {
            use_type_invariant(self);
        }
        match &self.stage {
            Stage::Var(i) => {
                let order = self.selected.order();
                let vars = order[self.pos].env_overrides();
                assert(vars.deep_view()[*i as int] == vars@[*i as int]@);
                Probe::ReadVar(vars[*i])
            },
            Stage::Check(_, v) => Probe::PathExists(v.clone()),
            Stage::Baked => Probe::PathExists(self.baked_copy()),
            Stage::Scan => {
                let order = self.selected.order();
                Probe::FirstCandidate(order[self.pos])
            },
            Stage::Fetch => Probe::Fetch,
            Stage::Finished(r) => Probe::Done(
                match r {
                    Ok((b, p)) => Ok((*b, p.clone())),
                    Err(e) => Err(e.duplicate()),
                },
            ),
        }
    }

    /// Takes the answer to the current probe and moves on.
    pub fn step(&mut self, a: Answer)
        ensures
            final(self)@ == next_spec(old(self)@, a@),
    {
        proof {
            use_type_invariant(&*self);
        }
        let order = self.selected.order();
        match &self.stage {
            Stage::Var(i) => {
                let i = *i;
                match a {
                    Answer::Var(Some(v)) => {
                        if !v.as_str().is_empty() {
                            self.stage = Stage::Check(i, v);
                        } else {
                            self.go_vars(i + 1);
                        }
                    },
                    Answer::Var(None) => {
                        self.go_vars(i + 1);
                    },
                    _ => {},
                }
            },
            Stage::Check(i, v) => {
                let i = *i;
                let v = v.clone();
                match a {
                    Answer::Exists(e) => {
                        let b = order[self.pos];
                        if e {
                            self.stage = Stage::Finished(Ok((b, v)));
                        } else {
                            let vars = b.env_overrides();
                            assert(vars.deep_view()[i as int] == vars@[i as int]@);
                            let mut var = String::new();
                            crate::text::push_str(&mut var, vars[i]);
                            self.stage = Stage::Finished(
                                Err(ResolveError::MissingOverride { var, value: v }),
                            );
                        }
                    },
                    _ => {},
                }
            },
            Stage::Baked => {
                match a {
                    Answer::Exists(e) => {
                        if e {
                            let p = self.baked_copy();
                            self.stage = Stage::Finished(Ok((Backend::Chrome, p)));
                        } else {
                            self.stage = Stage::Scan;
                        }
                    },
                    _ => {},
                }
            },
            Stage::Scan => {
                match a {
                    Answer::Candidate(Some(p)) => {
                        let b = order[self.pos];
                        self.stage = Stage::Finished(Ok((b, p)));
                    },
                    Answer::Candidate(None) => {
                        let next = self.pos + 1;
                        self.go_backend(next);
                    },
                    _ => {},
                }
            },
            Stage::Fetch => {
                match a {
                    Answer::Fetched(Ok(p)) => {
                        self.stage = Stage::Finished(Ok((Backend::Chrome, p)));
                    },
                    Answer::Fetched(Err(e)) => {
                        self.stage = Stage::Finished(Err(ResolveError::Fetch { message: e }));
                    },
                    _ => {},
                }
            },
            Stage::Finished(_) => {},
        }
    }
}


/// What world `w` answers to probe `p`.
pub open spec fn answer_spec(w: World, p: ProbeView) -> AnswerView {
    match p {
        ProbeView::ReadVar(v) => AnswerView::Var(
            if w.vars.contains_key(v) {
                Some(w.vars[v])
            } else {
                None
            },
        ),
        ProbeView::PathExists(path) => AnswerView::Exists(w.existing.contains(path)),
        ProbeView::FirstCandidate(b) => AnswerView::Candidate(
            if w.first.contains_key(b) {
                Some(w.first[b])
            } else {
                None
            },
        ),
        ProbeView::Fetch => AnswerView::Fetched(w.fetched),
        ProbeView::Done(_) => AnswerView::Exists(false),
    }
}

/// An upper bound on the steps left to a resolution at `st`.
pub open spec fn measure(st: ResolverView) -> nat {
    let rest = if st.pos < 3 {
        (3 - st.pos) as nat
    } else {
        0nat
    };
    match st.stage {
        StageView::Finished(_) => 0,
        StageView::Fetch => 1,
        StageView::Scan => 2 + 8 * rest,
        StageView::Baked => 3 + 8 * rest,
        StageView::Check(_, _) => 4 + 8 * rest,
        StageView::Var(i) => if 0 <= i < 2 {
            (6 - i) as nat + 8 * rest
        } else {
            0
        },
    }
}

/// Where a resolution at `st` ends when every probe is answered by `w`.
pub open spec fn run(st: ResolverView, w: World) -> Outcome
    decreases measure(st),
    when wf_spec(st)
{
    match st.stage {
        StageView::Finished(r) => r,
        _ => run(next_spec(st, answer_spec(w, probe_spec(st))), w),
    }
}


/// A resolution at the override variables of the current backend ends with
/// the first override that decides, or else where the baked-path step ends.
proof fn lemma_run_vars(st: ResolverView, i: int, w: World)
    requires
        0 <= st.pos < order_spec(st.selected).len(),
        0 <= i <= env_overrides_spec(current(st)).len(),
    ensures
        run(enter_vars(st, i), w) == match try_vars(
            current(st),
            env_overrides_spec(current(st)).skip(i),
            w,
        ) {
            Some(r) => r,
            None => run(enter_baked(st), w),
        },
    decreases env_overrides_spec(current(st)).len() - i,
{
    let vars = env_overrides_spec(current(st));
    if i < vars.len() {
        assert(vars.skip(i)[0] == vars[i]);
        assert(vars.skip(i).drop_first() =~= vars.skip(i + 1));
        let s1 = enter_vars(st, i);
        let s2 = next_spec(s1, answer_spec(w, probe_spec(s1)));
        if w.vars.contains_key(vars[i]) && w.vars[vars[i]].len() > 0 {
            let s3 = next_spec(s2, answer_spec(w, probe_spec(s2)));
            assert(run(s2, w) == run(s3, w));
        } else {
            lemma_run_vars(st, i + 1, w);
        }
    } else {
        assert(vars.skip(i) =~= Seq::<Seq<char>>::empty());
    }
}

/// A resolution past the override variables of the current backend ends with
/// the baked path (for Chrome), else the first executable found, else the
/// next backend.
proof fn lemma_run_baked(st: ResolverView, w: World)
    requires
        0 <= st.pos < order_spec(st.selected).len(),
    ensures
        run(enter_baked(st), w) == if current(st) is Chrome && baked_usable(st.baked, w) {
            Ok((Backend::Chrome, st.baked->0))
        } else if w.first.contains_key(current(st)) {
            Ok((current(st), w.first[current(st)]))
        } else {
            run(enter_backend(st, st.pos + 1), w)
        },
{
    let s1 = enter_baked(st);
    let scan = with_stage(st, StageView::Scan);
    let after_scan = next_spec(scan, answer_spec(w, probe_spec(scan)));
    assert(run(scan, w) == run(after_scan, w));
    if s1.stage is Baked {
        let s2 = next_spec(s1, answer_spec(w, probe_spec(s1)));
        assert(run(s1, w) == run(s2, w));
    }
}

/// A resolution entering backend `pos` ends as the documented order says for
/// the backends from `pos` on.
proof fn lemma_run_backends(st: ResolverView, pos: int, w: World)
    requires
        0 <= pos <= order_spec(st.selected).len(),
    ensures
        run(enter_backend(st, pos), w) == try_backends(
            order_spec(st.selected).skip(pos),
            st.baked,
            w,
        ),
    decreases order_spec(st.selected).len() - pos,
{
    let order = order_spec(st.selected);
    let st2 = ResolverView { pos, ..st };
    if pos < order.len() {
        assert(order.skip(pos)[0] == order[pos]);
        assert(order.skip(pos).drop_first() =~= order.skip(pos + 1));
        lemma_run_vars(st2, 0, w);
        assert(env_overrides_spec(current(st2)).skip(0) =~= env_overrides_spec(current(st2)));
        lemma_run_baked(st2, w);
        lemma_run_backends(st, pos + 1, w);
        assert(enter_backend(st2, pos + 1) == enter_backend(st, pos + 1));
    } else {
        assert(order.skip(pos) =~= Seq::<Backend>::empty());
        let f = enter_backend(st, pos);
        let g = next_spec(f, answer_spec(w, probe_spec(f)));
        assert(run(f, w) == run(g, w));
    }
}

/// The resolution order: a resolution of `selected`, with every probe
/// answered by world `w`, ends as `resolve_spec` says. A foreign backend is
/// refused at once; otherwise each concrete backend of the selection is tried
/// in order (its override, which is authoritative when set and non-empty;
/// for Chrome the baked path; the first executable found), and when none
/// resolves the runtime fetch decides, as the Chrome backend.
pub proof fn resolution_order(selected: Backend, baked: Option<Seq<char>>, w: World)
    ensures
        run(start_spec(selected, baked), w) == resolve_spec(selected, baked, w),
{
    let st = ResolverView { selected, baked, pos: 0, stage: StageView::Fetch };
    if engine_id_spec(selected) is None {
        lemma_run_backends(st, 0, w);
        assert(order_spec(selected).skip(0) =~= order_spec(selected));
    }
}

/// A foreign backend never resolves to an executable, whatever the world: it
/// is refused at once, pointing at the vendor engine library.
pub proof fn foreign_backend_refused(selected: Backend, baked: Option<Seq<char>>, w: World)
    requires
        selected is Firefox || selected is Servo,
    ensures
        run(start_spec(selected, baked), w) == Err::<(Backend, Seq<char>), ErrorView>(
            ErrorView::Foreign(selected),
        ),
{
    resolution_order(selected, baked, w);
}

/// A backend override is authoritative: when the first backend tried has its
/// override variable set to a non-empty path, the resolution ends with that
/// path if it exists, and with an error naming the variable if it does not.
pub proof fn override_is_authoritative(selected: Backend, baked: Option<Seq<char>>, w: World)
    requires
        !(selected is Firefox || selected is Servo),
        env_overrides_spec(order_spec(selected)[0]).len() > 0,
        w.vars.contains_key(env_overrides_spec(order_spec(selected)[0])[0]),
        w.vars[env_overrides_spec(order_spec(selected)[0])[0]].len() > 0,
    ensures
        ({
            let b = order_spec(selected)[0];
            let var = env_overrides_spec(b)[0];
            let p = w.vars[var];
            run(start_spec(selected, baked), w) == if w.existing.contains(p) {
                Ok::<(Backend, Seq<char>), ErrorView>((b, p))
            } else {
                Err::<(Backend, Seq<char>), ErrorView>(ErrorView::MissingOverride(var, p))
            }
        }),
{
    resolution_order(selected, baked, w);
}

/// When no backend of `bs` resolves on its own, the fetch decides.
proof fn lemma_none_resolves(bs: Seq<Backend>, baked: Option<Seq<char>>, w: World)
    requires
        forall|i: int| 0 <= i < bs.len() ==> try_backend(#[trigger] bs[i], baked, w) is None,
    ensures
        try_backends(bs, baked, w) == try_backends(Seq::empty(), baked, w),
    decreases bs.len(),
{
    if bs.len() > 0 {
        assert(try_backend(bs[0], baked, w) is None);
        assert forall|i: int| 0 <= i < bs.drop_first().len() implies try_backend(
            #[trigger] bs.drop_first()[i],
            baked,
            w,
        ) is None by {
            assert(bs.drop_first()[i] == bs[i + 1]);
        }
        lemma_none_resolves(bs.drop_first(), baked, w);
    }
}

/// When no backend of the selection resolves on its own, the runtime fetch
/// decides, and what it fetches resolves as the Chrome backend whatever was
/// selected.
pub proof fn fetch_resolves_as_chrome(selected: Backend, baked: Option<Seq<char>>, w: World)
    requires
        !(selected is Firefox || selected is Servo),
        forall|i: int|
            0 <= i < order_spec(selected).len() ==> try_backend(
                #[trigger] order_spec(selected)[i],
                baked,
                w,
            ) is None,
    ensures
        run(start_spec(selected, baked), w) == match w.fetched {
            Ok(p) => Ok::<(Backend, Seq<char>), ErrorView>((Backend::Chrome, p)),
            Err(e) => Err::<(Backend, Seq<char>), ErrorView>(ErrorView::Fetch(e)),
        },
{
    resolution_order(selected, baked, w);
    lemma_none_resolves(order_spec(selected), baked, w);
}

/// Only `Auto` expands to several backends: any other selection is tried
/// alone.
pub proof fn pinned_backend_tried_alone(b: Backend)
    requires
        !(b is Auto),
    ensures
        order_spec(b) == seq![b],
{
}

/// An override variable of `b` only ever resolves to `b` itself.
proof fn lemma_try_vars_backend(b: Backend, vars: Seq<Seq<char>>, w: World)
    ensures
        try_vars(b, vars, w) matches Some(Ok((b2, _))) ==> b2 == b,
    decreases vars.len(),
{
    if vars.len() > 0 {
        lemma_try_vars_backend(b, vars.drop_first(), w);
    }
}

/// A pinned CDP backend never resolves to another CDP backend: the result is
/// the pinned backend itself, or Chrome through the runtime fetch.
pub proof fn pinned_backend_resolves_to_itself(b: Backend, baked: Option<Seq<char>>, w: World)
    requires
        b is Chrome || b is Chromium || b is Edge,
    ensures
        run(start_spec(b, baked), w) matches Ok((b2, p)) ==> b2 == b || (b2 is Chrome
            && w.fetched == Ok::<Seq<char>, Seq<char>>(p)),
{
    resolution_order(b, baked, w);
    let bs = order_spec(b);
    assert(bs =~= seq![b]);
    lemma_try_vars_backend(b, env_overrides_spec(b), w);
    assert(bs[0] == b);
    assert(bs.drop_first() =~= Seq::<Backend>::empty());
    assert(try_backends(bs, baked, w) == match try_backend(b, baked, w) {
        Some(r) => r,
        None => try_backends(Seq::empty(), baked, w),
    });
}

} // verus!
