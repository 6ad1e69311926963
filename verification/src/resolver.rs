//! The resolver: which install of the debug adapter a session uses.
//!
//! A resolution needs the host several times: for the working directory, the
//! latest release, the entries of the working directory, a download, a look
//! at the disk. The resolver itself never touches any of them. It hands out
//! one [`Action`] at a time, is told what came of it by an [`Event`], and
//! decides what to ask next, until it hands out [`Action::Finish`].

use crate::candidate::{DapBinarySource, DapBinarySourceView, UnityDapBinary, UnityDapBinaryView};
use crate::errors::{Failure, FailureView, ResolveError, ResolveErrorView};
use crate::inventory::{local_candidates, local_candidates_of};
use crate::names::UNITY_DAP_GITHUB;
use crate::provisioner::{absolute_path, absolute_path_of, binary_path, binary_path_of};
use crate::ranker::{pool_of, rank, ranking};
use crate::release::{
    answer_view, query_options, remote_candidate, remote_candidate_of, GithubRelease,
    GithubReleaseOptions, GithubReleaseView,
};
use vstd::pervasive::unreached;
use vstd::prelude::*;

verus! {

/// What the host is asked to do next.
#[derive(Debug, PartialEq, Eq)]
pub enum Action {
    /// Tell the working directory. Answered by [`Event::WorkingDirectory`].
    GetWorkingDirectory,
    /// Ask the registry for the latest release of `repository`. Answered by
    /// [`Event::Release`].
    QueryLatestRelease { repository: String, options: GithubReleaseOptions },
    /// List the entries directly under `path`. Answered by
    /// [`Event::Listing`].
    ListDirectory { path: String },
    /// Download the zip archive at `url` and unpack it into the new
    /// directory `directory`. Answered by [`Event::Downloaded`].
    Download { url: String, directory: String },
    /// Tell whether a file exists at `path`. Answered by [`Event::Exists`].
    CheckExists { path: String },
    /// Mark the file at `path` as executable. Answered by
    /// [`Event::MadeExecutable`].
    MakeExecutable { path: String },
    /// Nothing more: the resolution has ended, with the absolute path of the
    /// executable or with the reason why there is none.
    Finish(Result<String, ResolveError>),
}

/// What came of the last [`Action`].
#[derive(Debug, PartialEq, Eq)]
pub enum Event {
    WorkingDirectory(Result<String, String>),
    Release(Result<GithubRelease, String>),
    /// The names of the entries, or why they could not be read.
    Listing(Result<Vec<String>, String>),
    Downloaded(Result<(), String>),
    Exists(bool),
    MadeExecutable(Result<(), String>),
}

/// How far the provisioning of one candidate has come.
#[derive(Clone, Copy, Debug, PartialEq, Eq, Structural)]
pub enum Stage {
    /// The archive is being downloaded and unpacked.
    Downloading,
    /// The executable is being looked for.
    Verifying,
    /// The executable is being marked as one.
    Marking,
}

/// Mathematical model of an [`Action`].
#[verifier::ext_equal]
pub enum ActionView {
    GetWorkingDirectory,
    QueryLatestRelease { repository: Seq<char>, options: GithubReleaseOptions },
    ListDirectory { path: Seq<char> },
    Download { url: Seq<char>, directory: Seq<char> },
    CheckExists { path: Seq<char> },
    MakeExecutable { path: Seq<char> },
    Finish(Result<Seq<char>, ResolveErrorView>),
}

/// Mathematical model of an [`Event`].
#[verifier::ext_equal]
pub enum EventView {
    WorkingDirectory(Result<Seq<char>, Seq<char>>),
    Release(Result<GithubReleaseView, Seq<char>>),
    Listing(Result<Seq<Seq<char>>, Seq<char>>),
    Downloaded(Result<(), Seq<char>>),
    Exists(bool),
    MadeExecutable(Result<(), Seq<char>>),
}

/// What a resolver is in the middle of.
#[verifier::ext_equal]
pub enum PhaseView {
    /// Nothing: no resolution is under way.
    Idle,
    /// The working directory has been asked for.
    LocatingDirectory,
    /// The latest release has been asked for.
    QueryingRelease { cwd: Seq<char> },
    /// The entries of the working directory have been asked for.
    ListingDirectory {
        cwd: Seq<char>,
        remote: Option<UnityDapBinaryView>,
        errors: Seq<FailureView>,
    },
    /// The candidate at `index` of `ranked` is being provisioned; those
    /// before it have failed, and `errors` holds why.
    Provisioning {
        cwd: Seq<char>,
        ranked: Seq<UnityDapBinaryView>,
        index: int,
        stage: Stage,
        errors: Seq<FailureView>,
    },
}

/// Mathematical model of a [`UnityEngineExtension`].
#[verifier::ext_equal]
pub struct ResolverView {
    /// The absolute path that the first successful resolution gave.
    pub cached: Option<Seq<char>>,
    pub phase: PhaseView,
}

impl ResolverView {
    /// A path in the cache means that nothing is under way: the cache is
    /// filled when a resolution ends, and with a filled cache none starts.
    pub open spec fn coherent(self) -> bool {
        self.cached is Some ==> self.phase is Idle
    }
}

/// The model of a text or of the reason why there is none.
pub open spec fn text_result_view(r: Result<String, String>) -> Result<Seq<char>, Seq<char>> {
    match r {
        Ok(text) => Ok(text@),
        Err(reason) => Err(reason@),
    }
}

/// The model of the end of a resolution.
pub open spec fn outcome_view(r: Result<String, ResolveError>) -> Result<
    Seq<char>,
    ResolveErrorView,
> {
    match r {
        Ok(path) => Ok(path@),
        Err(error) => Err(error@),
    }
}

/// The model of a listing or of the reason why there is none.
pub open spec fn listing_view(r: Result<Vec<String>, String>) -> Result<
    Seq<Seq<char>>,
    Seq<char>,
> {
    match r {
        Ok(entries) => Ok(entries.deep_view()),
        Err(reason) => Err(reason@),
    }
}

/// The model of a success without a value or of the reason for a failure.
pub open spec fn done_view(r: Result<(), String>) -> Result<(), Seq<char>> {
    match r {
        Ok(_) => Ok(()),
        Err(reason) => Err(reason@),
    }
}

impl View for Action {
    type V = ActionView;

    open spec fn view(&self) -> ActionView {
        match self {
            Action::GetWorkingDirectory => ActionView::GetWorkingDirectory,
            Action::QueryLatestRelease { repository, options } => ActionView::QueryLatestRelease {
                repository: repository@,
                options: *options,
            },
            Action::ListDirectory { path } => ActionView::ListDirectory { path: path@ },
            Action::Download { url, directory } => ActionView::Download {
                url: url@,
                directory: directory@,
            },
            Action::CheckExists { path } => ActionView::CheckExists { path: path@ },
            Action::MakeExecutable { path } => ActionView::MakeExecutable { path: path@ },
            Action::Finish(outcome) => ActionView::Finish(outcome_view(*outcome)),
        }
    }
}

impl View for Event {
    type V = EventView;

    open spec fn view(&self) -> EventView {
        match self {
            Event::WorkingDirectory(r) => EventView::WorkingDirectory(text_result_view(*r)),
            Event::Release(r) => EventView::Release(answer_view(*r)),
            Event::Listing(r) => EventView::Listing(listing_view(*r)),
            Event::Downloaded(r) => EventView::Downloaded(done_view(*r)),
            Event::Exists(found) => EventView::Exists(*found),
            Event::MadeExecutable(r) => EventView::MadeExecutable(done_view(*r)),
        }
    }
}

/// The address that a source is downloaded from; a local source has none.
pub open spec fn url_of(source: DapBinarySourceView) -> Seq<char> {
    match source {
        DapBinarySourceView::Github { url } => url,
        DapBinarySourceView::Local => Seq::empty(),
    }
}

/// The action that asks for what a resolver in `phase` is waiting for.
pub open spec fn pending(phase: PhaseView) -> ActionView {
    match phase {
        PhaseView::Idle => ActionView::GetWorkingDirectory,
        PhaseView::LocatingDirectory => ActionView::GetWorkingDirectory,
        PhaseView::QueryingRelease { .. } => ActionView::QueryLatestRelease {
            repository: UNITY_DAP_GITHUB@,
            options: query_options(),
        },
        PhaseView::ListingDirectory { cwd, .. } => ActionView::ListDirectory { path: cwd },
        PhaseView::Provisioning { ranked, index, stage, .. } => match stage {
            Stage::Downloading => ActionView::Download {
                url: url_of(ranked[index].source),
                directory: ranked[index].dir_name,
            },
            Stage::Verifying => ActionView::CheckExists {
                path: binary_path_of(ranked[index].dir_name),
            },
            Stage::Marking => ActionView::MakeExecutable {
                path: binary_path_of(ranked[index].dir_name),
            },
        },
    }
}

/// The start of a resolution. With a path in the cache it ends at once, with
/// that path and without a question to the host. Without one it drops what
/// may have been under way and asks for the working directory.
pub open spec fn begin(m: ResolverView) -> (ResolverView, ActionView) {
    match m.cached {
        Some(path) => (
            ResolverView { cached: m.cached, phase: PhaseView::Idle },
            ActionView::Finish(Ok(path)),
        ),
        None => (
            ResolverView { cached: None, phase: PhaseView::LocatingDirectory },
            ActionView::GetWorkingDirectory,
        ),
    }
}

/// Turning to the candidate at `index`: a local one is looked for on disk, a
/// remote one is downloaded first. When no candidate is left the resolution
/// ends as a failure that reports everything on record.
pub open spec fn attempt(
    cwd: Seq<char>,
    ranked: Seq<UnityDapBinaryView>,
    index: int,
    errors: Seq<FailureView>,
) -> (PhaseView, ActionView) {
    if 0 <= index < ranked.len() {
        let stage = match ranked[index].source {
            DapBinarySourceView::Local => Stage::Verifying,
            DapBinarySourceView::Github { .. } => Stage::Downloading,
        };
        let phase = PhaseView::Provisioning { cwd, ranked, index, stage, errors };
        (phase, pending(phase))
    } else {
        (
            PhaseView::Idle,
            ActionView::Finish(Err(ResolveErrorView::Exhausted { failures: errors })),
        )
    }
}

/// The absolute path of the executable of the candidate at `index`.
pub open spec fn resolved_path(
    cwd: Seq<char>,
    ranked: Seq<UnityDapBinaryView>,
    index: int,
) -> Seq<char> {
    absolute_path_of(cwd, binary_path_of(ranked[index].dir_name))
}

/// What the event says went wrong with the candidate that is being
/// provisioned, if it says so.
pub open spec fn failure_of(
    ranked: Seq<UnityDapBinaryView>,
    index: int,
    stage: Stage,
    e: EventView,
) -> Option<FailureView> {
    match (stage, e) {
        (Stage::Downloading, EventView::Downloaded(Err(reason))) => Some(
            FailureView::Download { url: url_of(ranked[index].source), reason },
        ),
        (Stage::Verifying, EventView::Exists(false)) => Some(
            FailureView::Missing { path: binary_path_of(ranked[index].dir_name) },
        ),
        (Stage::Marking, EventView::MadeExecutable(Err(reason))) => Some(
            FailureView::Marking { path: binary_path_of(ranked[index].dir_name), reason },
        ),
        _ => None,
    }
}

/// Tells whether the event reports that the candidate that is being
/// provisioned is ready for use: a local one has been found, a remote one has
/// been downloaded, found and marked as executable.
pub open spec fn completes(
    ranked: Seq<UnityDapBinaryView>,
    index: int,
    stage: Stage,
    e: EventView,
) -> bool {
    match (stage, e) {
        (Stage::Verifying, EventView::Exists(true)) => ranked[index].source is Local,
        (Stage::Marking, EventView::MadeExecutable(Ok(_))) => true,
        _ => false,
    }
}

/// The stage that follows when the event reports that the present stage went
/// well and the candidate is not ready yet.
pub open spec fn next_stage(
    ranked: Seq<UnityDapBinaryView>,
    index: int,
    stage: Stage,
    e: EventView,
) -> Option<Stage> {
    match (stage, e) {
        (Stage::Downloading, EventView::Downloaded(Ok(_))) => Some(Stage::Verifying),
        (Stage::Verifying, EventView::Exists(true)) => if ranked[index].source is Local {
            None
        } else {
            Some(Stage::Marking)
        },
        _ => None,
    }
}

/// One step of a resolution: the state after the event, and what is asked
/// next.
///
/// - The working directory cannot be told: the resolution fails at once.
/// - The registry's answer gives no remote candidate: the failure goes on
///   record and the resolution goes on with the local candidates alone.
/// - The working directory cannot be listed: with a remote candidate the
///   failure goes on record and the resolution goes on with that candidate
///   alone; without one the resolution fails at once.
/// - A candidate fails: the failure goes on record and the next candidate in
///   rank is tried; when none is left the resolution fails with everything on
///   record.
/// - A candidate is ready: its absolute path is stored in the cache and
///   handed out, and no further candidate is touched.
/// - The event answers nothing that was asked: the state stays as it is and
///   the question is asked again. A resolver at rest starts a resolution.
pub open spec fn step(m: ResolverView, e: EventView) -> (ResolverView, ActionView) {
    match m.phase {
        PhaseView::Idle => begin(m),
        PhaseView::LocatingDirectory => match e {
            EventView::WorkingDirectory(Ok(cwd)) => {
                let phase = PhaseView::QueryingRelease { cwd };
                (ResolverView { cached: m.cached, phase }, pending(phase))
            },
            EventView::WorkingDirectory(Err(reason)) => (
                ResolverView { cached: m.cached, phase: PhaseView::Idle },
                ActionView::Finish(Err(ResolveErrorView::WorkingDirectory { reason })),
            ),
            _ => (m, pending(m.phase)),
        },
        PhaseView::QueryingRelease { cwd } => match e {
            EventView::Release(answer) => {
                let phase = match remote_candidate_of(answer) {
                    Ok(candidate) => PhaseView::ListingDirectory {
                        cwd,
                        remote: Some(candidate),
                        errors: Seq::empty(),
                    },
                    Err(failure) => PhaseView::ListingDirectory {
                        cwd,
                        remote: None,
                        errors: seq![failure],
                    },
                };
                (ResolverView { cached: m.cached, phase }, pending(phase))
            },
            _ => (m, pending(m.phase)),
        },
        PhaseView::ListingDirectory { cwd, remote, errors } => match e {
            EventView::Listing(Ok(entries)) => {
                let ranked = ranking(pool_of(remote, local_candidates_of(entries)));
                let (phase, action) = attempt(cwd, ranked, 0, errors);
                (ResolverView { cached: m.cached, phase }, action)
            },
            EventView::Listing(Err(reason)) => match remote {
                Some(_) => {
                    let ranked = ranking(pool_of(remote, Seq::empty()));
                    let (phase, action) = attempt(
                        cwd,
                        ranked,
                        0,
                        errors.push(FailureView::Listing { reason }),
                    );
                    (ResolverView { cached: m.cached, phase }, action)
                },
                None => (
                    ResolverView { cached: m.cached, phase: PhaseView::Idle },
                    ActionView::Finish(Err(ResolveErrorView::Listing { reason })),
                ),
            },
            _ => (m, pending(m.phase)),
        },
        PhaseView::Provisioning { cwd, ranked, index, stage, errors } => {
            if completes(ranked, index, stage, e) {
                let path = resolved_path(cwd, ranked, index);
                (
                    ResolverView { cached: Some(path), phase: PhaseView::Idle },
                    ActionView::Finish(Ok(path)),
                )
            } else if let Some(failure) = failure_of(ranked, index, stage, e) {
                let (phase, action) = attempt(cwd, ranked, index + 1, errors.push(failure));
                (ResolverView { cached: m.cached, phase }, action)
            } else if let Some(stage) = next_stage(ranked, index, stage, e) {
                let phase = PhaseView::Provisioning { cwd, ranked, index, stage, errors };
                (ResolverView { cached: m.cached, phase }, pending(phase))
            } else {
                (m, pending(m.phase))
            }
        },
    }
}

enum Phase {
    Idle,
    LocatingDirectory,
    QueryingRelease { cwd: String },
    ListingDirectory { cwd: String, remote: Option<UnityDapBinary>, errors: Vec<Failure> },
    Provisioning {
        cwd: String,
        ranked: Vec<UnityDapBinary>,
        index: usize,
        stage: Stage,
        errors: Vec<Failure>,
    },
}

impl View for Phase {
    type V = PhaseView;

    closed spec fn view(&self) -> PhaseView {
        match self {
            Phase::Idle => PhaseView::Idle,
            Phase::LocatingDirectory => PhaseView::LocatingDirectory,
            Phase::QueryingRelease { cwd } => PhaseView::QueryingRelease { cwd: cwd@ },
            Phase::ListingDirectory { cwd, remote, errors } => PhaseView::ListingDirectory {
                cwd: cwd@,
                remote: remote.deep_view(),
                errors: errors.deep_view(),
            },
            Phase::Provisioning { cwd, ranked, index, stage, errors } => PhaseView::Provisioning {
                cwd: cwd@,
                ranked: ranked.deep_view(),
                index: *index as int,
                stage: *stage,
                errors: errors.deep_view(),
            },
        }
    }
}

impl Phase {
    /// A provisioning phase points at a candidate, and only a remote
    /// candidate is ever downloaded or marked.
    spec fn well_formed(&self) -> bool {
        match self {
            Phase::Provisioning { ranked, index, stage, .. } => {
                &&& *index < ranked.len()
                &&& *stage != Stage::Verifying ==> ranked[*index as int].source is Github
            },
            _ => true,
        }
    }
}

/// The resolver: it owns the cache and knows how far a resolution has come.
///
/// The cache holds one path, is filled by the first resolution that
/// succeeds, and is never emptied: a new resolver is needed to resolve anew.
pub struct UnityEngineExtension {
    cached_dap_binary: Option<String>,
    phase: Phase,
}

impl View for UnityEngineExtension {
    type V = ResolverView;

    closed spec fn view(&self) -> ResolverView {
        ResolverView { cached: self.cached_dap_binary.deep_view(), phase: self.phase@ }
    }
}

impl Default for UnityEngineExtension {
    /// A resolver with an empty cache and nothing under way.
    fn default() -> (r: Self)
        ensures
            r@ == (ResolverView { cached: None, phase: PhaseView::Idle }),
    {
        UnityEngineExtension::new()
    }
}

/// `errors` with `failure` added at its end.
fn recorded(errors: Vec<Failure>, failure: Failure) -> (r: Vec<Failure>)
    ensures
        r.deep_view() == errors.deep_view().push(failure@),
{
    let mut r = errors;
    r.push(failure);
    assert(r.deep_view() =~= errors.deep_view().push(failure@));
    r
}

impl UnityEngineExtension {
    #[verifier::type_invariant]
    spec fn well_formed(&self) -> bool {
        &&& self.phase.well_formed()
        &&& self.cached_dap_binary is Some ==> self.phase is Idle
    }

    /// A resolver with an empty cache and nothing under way.
    pub fn new() -> (r: Self)
        ensures
            r@ == (ResolverView { cached: None, phase: PhaseView::Idle }),
            r@.coherent(),
    {
        UnityEngineExtension { cached_dap_binary: None, phase: Phase::Idle }
    }

    /// The path in the cache, if a resolution has succeeded.
    pub fn cached_dap_binary(&self) -> (r: Option<String>)
        ensures
            r.deep_view() == self@.cached,
    {
        match &self.cached_dap_binary {
            Some(path) => Some(path.clone()),
            None => None,
        }
    }

    /// Starts a resolution and says what the host is to do first. Once a
    /// resolution has succeeded, this hands out its path at once.
    pub fn get_unity_dap_binary(&mut self) -> (action: Action)
        ensures
            (final(self)@, action@) == begin(old(self)@),
            final(self)@.coherent(),
    {
        match &self.cached_dap_binary {
            Some(path) => {
                let path = path.clone();
                self.phase = Phase::Idle;
                Action::Finish(Ok(path))
            },
            None => {
                self.phase = Phase::LocatingDirectory;
                Action::GetWorkingDirectory
            },
        }
    }

    /// Takes what came of the last action and says what the host is to do
    /// next.
    pub fn advance(&mut self, event: Event) -> (action: Action)
        ensures
            (final(self)@, action@) == step(old(self)@, event@),
            final(self)@.coherent(),
    {
        proof {
            use_type_invariant(&*self);
        }
        let mut phase = Phase::Idle;
        std::mem::swap(&mut self.phase, &mut phase);
        match phase {
            Phase::Idle => self.get_unity_dap_binary(),
            Phase::LocatingDirectory => match event {
                Event::WorkingDirectory(Ok(cwd)) => {
                    self.phase = Phase::QueryingRelease { cwd };
                    release_query()
                },
                Event::WorkingDirectory(Err(reason)) => Action::Finish(
                    Err(ResolveError::WorkingDirectory { reason }),
                ),
                _ => {
                    self.phase = Phase::LocatingDirectory;
                    Action::GetWorkingDirectory
                },
            },
            Phase::QueryingRelease { cwd } => match event {
                Event::Release(answer) => {
                    let path = cwd.clone();
                    match remote_candidate(answer) {
                        Ok(candidate) => {
                            let errors: Vec<Failure> = Vec::new();
                            assert(errors.deep_view() =~= Seq::empty());
                            self.phase = Phase::ListingDirectory {
                                cwd,
                                remote: Some(candidate),
                                errors,
                            };
                        },
                        Err(failure) => {
                            let ghost first = failure@;
                            let errors = recorded(Vec::new(), failure);
                            assert(errors.deep_view() =~= seq![first]);
                            self.phase = Phase::ListingDirectory { cwd, remote: None, errors };
                        },
                    }
                    Action::ListDirectory { path }
                },
                _ => {
                    self.phase = Phase::QueryingRelease { cwd };
                    release_query()
                },
            },
            Phase::ListingDirectory { cwd, remote, errors } => match event {
                Event::Listing(Ok(entries)) => {
                    let ranked = rank(remote, local_candidates(&entries));
                    self.attempt(cwd, ranked, 0, errors)
                },
                Event::Listing(Err(reason)) => match remote {
                    Some(candidate) => {
                        let locals: Vec<UnityDapBinary> = Vec::new();
                        assert(locals.deep_view() =~= Seq::empty());
                        let ranked = rank(Some(candidate), locals);
                        let errors = recorded(errors, Failure::Listing { reason });
                        self.attempt(cwd, ranked, 0, errors)
                    },
                    None => Action::Finish(Err(ResolveError::Listing { reason })),
                },
                _ => {
                    let path = cwd.clone();
                    self.phase = Phase::ListingDirectory { cwd, remote, errors };
                    Action::ListDirectory { path }
                },
            },
            Phase::Provisioning { cwd, ranked, index, stage, errors } => {
                let path = binary_path(ranked[index].dir_name.as_str());
                match (stage, event) {
                    (Stage::Downloading, Event::Downloaded(Ok(_))) => {
                        self.phase = Phase::Provisioning {
                            cwd,
                            ranked,
                            index,
                            stage: Stage::Verifying,
                            errors,
                        };
                        Action::CheckExists { path }
                    },
                    (Stage::Downloading, Event::Downloaded(Err(reason))) => {
                        let failure = match &ranked[index].source {
                            DapBinarySource::Github { url } => Failure::Download {
                                url: url.clone(),
                                reason,
                            },
                            DapBinarySource::Local => unreached(),
                        };
                        let errors = recorded(errors, failure);
                        self.attempt(cwd, ranked, index + 1, errors)
                    },
                    (Stage::Verifying, Event::Exists(true)) => match &ranked[index].source {
                        DapBinarySource::Local => self.finish(cwd, path),
                        DapBinarySource::Github { .. } => {
                            self.phase = Phase::Provisioning {
                                cwd,
                                ranked,
                                index,
                                stage: Stage::Marking,
                                errors,
                            };
                            Action::MakeExecutable { path }
                        },
                    },
                    (Stage::Verifying, Event::Exists(false)) => {
                        let errors = recorded(errors, Failure::Missing { path });
                        self.attempt(cwd, ranked, index + 1, errors)
                    },
                    (Stage::Marking, Event::MadeExecutable(Ok(_))) => self.finish(cwd, path),
                    (Stage::Marking, Event::MadeExecutable(Err(reason))) => {
                        let errors = recorded(errors, Failure::Marking { path, reason });
                        self.attempt(cwd, ranked, index + 1, errors)
                    },
                    _ => {
                        let action = match stage {
                            Stage::Downloading => match &ranked[index].source {
                                DapBinarySource::Github { url } => Action::Download {
                                    url: url.clone(),
                                    directory: ranked[index].dir_name.clone(),
                                },
                                DapBinarySource::Local => unreached(),
                            },
                            Stage::Verifying => Action::CheckExists { path },
                            Stage::Marking => Action::MakeExecutable { path },
                        };
                        self.phase = Phase::Provisioning { cwd, ranked, index, stage, errors };
                        action
                    },
                }
            },
        }
    }

    /// Turns to the candidate at `index`, or gives up when there is none.
    fn attempt(
        &mut self,
        cwd: String,
        ranked: Vec<UnityDapBinary>,
        index: usize,
        errors: Vec<Failure>,
    ) -> (action: Action)
        requires
            old(self).phase is Idle,
            old(self).cached_dap_binary is None,
            index <= ranked.len(),
        ensures
            final(self)@.cached == old(self)@.cached,
            (final(self)@.phase, action@) == attempt(
                cwd@,
                ranked.deep_view(),
                index as int,
                errors.deep_view(),
            ),
    {
        if index < ranked.len() {
            let action = match &ranked[index].source {
                DapBinarySource::Local => Action::CheckExists {
                    path: binary_path(ranked[index].dir_name.as_str()),
                },
                DapBinarySource::Github { url } => Action::Download {
                    url: url.clone(),
                    directory: ranked[index].dir_name.clone(),
                },
            };
            let stage = match &ranked[index].source {
                DapBinarySource::Local => Stage::Verifying,
                DapBinarySource::Github { .. } => Stage::Downloading,
            };
            self.phase = Phase::Provisioning { cwd, ranked, index, stage, errors };
            action
        } else {
            Action::Finish(Err(ResolveError::Exhausted { failures: errors }))
        }
    }

    /// Ends a resolution with the executable at `path` under `cwd`.
    fn finish(&mut self, cwd: String, path: String) -> (action: Action)
        requires
            old(self).phase is Idle,
        ensures
            final(self)@ == (ResolverView {
                cached: Some(absolute_path_of(cwd@, path@)),
                phase: PhaseView::Idle,
            }),
            action@ == ActionView::Finish(Ok(absolute_path_of(cwd@, path@))),
    {
        let absolute = absolute_path(cwd.as_str(), path.as_str());
        self.cached_dap_binary = Some(absolute.clone());
        Action::Finish(Ok(absolute))
    }
}

/// The question for the latest release.
fn release_query() -> (action: Action)
    ensures
        action@ == (ActionView::QueryLatestRelease {
            repository: UNITY_DAP_GITHUB@,
            options: query_options(),
        }),
{
    Action::QueryLatestRelease {
        repository: String::from_str(UNITY_DAP_GITHUB),
        options: GithubReleaseOptions { require_assets: true, pre_release: false },
    }
}

} // verus!
