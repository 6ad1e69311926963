//! What can go wrong, and how it is reported.
//!
//! There are three kinds. A [`Failure`] is survived: it goes on record and
//! the resolution goes on with what is left. A [`ResolveError`] ends a
//! resolution. A [`ConfigError`] says what is wrong with what the host
//! handed in, before anything outside is touched.

use crate::names::{UNITY_DAP_GITHUB, UNITY_DAP_NAME};
use crate::text::{glue, join, joined, lemma_joined_holds_every_part, offset_of};
use vstd::prelude::*;

verus! {

/// A failure that a resolution survives.
#[derive(Debug, PartialEq, Eq)]
pub enum Failure {
    /// The registry could not be asked for the latest release.
    Registry { reason: String },
    /// The latest release `version` has no asset with the adapter's archive.
    Asset { version: String },
    /// The working directory could not be listed.
    Listing { reason: String },
    /// The archive at `url` could not be downloaded and unpacked.
    Download { url: String, reason: String },
    /// No executable was found at `path`.
    Missing { path: String },
    /// The executable at `path` could not be marked as one.
    Marking { path: String, reason: String },
}

/// Why a resolution ended without a path.
#[derive(Debug, PartialEq, Eq)]
pub enum ResolveError {
    /// The working directory could not be told.
    WorkingDirectory { reason: String },
    /// The working directory could not be listed, and there was no remote
    /// candidate to go on with.
    Listing { reason: String },
    /// No candidate could be used. `failures` holds every failure that was
    /// met, in the order in which they were met.
    Exhausted { failures: Vec<Failure> },
}

/// What is wrong with what the host handed in.
#[derive(Debug, PartialEq, Eq)]
pub enum ConfigError {
    /// Another adapter than this one is asked for.
    Adapter { requested: String },
    /// The settings of the task are not JSON.
    Parse { reason: String },
    /// The address is no internet address of version 4.
    Address { address: String },
    /// There is no port, or none that fits 16 bits.
    Port,
    /// The session is to start a new process, and only running processes
    /// can be joined.
    Launch,
}

/// Mathematical model of a [`Failure`].
#[verifier::ext_equal]
pub enum FailureView {
    Registry { reason: Seq<char> },
    Asset { version: Seq<char> },
    Listing { reason: Seq<char> },
    Download { url: Seq<char>, reason: Seq<char> },
    Missing { path: Seq<char> },
    Marking { path: Seq<char>, reason: Seq<char> },
}

/// Mathematical model of a [`ResolveError`].
#[verifier::ext_equal]
pub enum ResolveErrorView {
    WorkingDirectory { reason: Seq<char> },
    Listing { reason: Seq<char> },
    Exhausted { failures: Seq<FailureView> },
}

/// Mathematical model of a [`ConfigError`].
#[verifier::ext_equal]
pub enum ConfigErrorView {
    Adapter { requested: Seq<char> },
    Parse { reason: Seq<char> },
    Address { address: Seq<char> },
    Port,
    Launch,
}

impl View for Failure {
    type V = FailureView;

    open spec fn view(&self) -> FailureView {
        match self {
            Failure::Registry { reason } => FailureView::Registry { reason: reason@ },
            Failure::Asset { version } => FailureView::Asset { version: version@ },
            Failure::Listing { reason } => FailureView::Listing { reason: reason@ },
            Failure::Download { url, reason } => FailureView::Download {
                url: url@,
                reason: reason@,
            },
            Failure::Missing { path } => FailureView::Missing { path: path@ },
            Failure::Marking { path, reason } => FailureView::Marking {
                path: path@,
                reason: reason@,
            },
        }
    }
}

impl DeepView for Failure {
    type V = FailureView;

    open spec fn deep_view(&self) -> FailureView {
        self@
    }
}

impl View for ResolveError {
    type V = ResolveErrorView;

    open spec fn view(&self) -> ResolveErrorView {
        match self {
            ResolveError::WorkingDirectory { reason } => ResolveErrorView::WorkingDirectory {
                reason: reason@,
            },
            ResolveError::Listing { reason } => ResolveErrorView::Listing { reason: reason@ },
            ResolveError::Exhausted { failures } => ResolveErrorView::Exhausted {
                failures: failures.deep_view(),
            },
        }
    }
}

impl View for ConfigError {
    type V = ConfigErrorView;

    open spec fn view(&self) -> ConfigErrorView {
        match self {
            ConfigError::Adapter { requested } => ConfigErrorView::Adapter {
                requested: requested@,
            },
            ConfigError::Parse { reason } => ConfigErrorView::Parse { reason: reason@ },
            ConfigError::Address { address } => ConfigErrorView::Address { address: address@ },
            ConfigError::Port => ConfigErrorView::Port,
            ConfigError::Launch => ConfigErrorView::Launch,
        }
    }
}

/// The wording of a failure.
pub open spec fn failure_message(f: FailureView) -> Seq<char> {
    match f {
        FailureView::Registry { reason } => "failed to fetch latest release of `"@
            + UNITY_DAP_GITHUB@ + "`: "@ + reason,
        FailureView::Asset { version } => "failed to find a suitable asset for latest release `"@
            + version + "` of `"@ + UNITY_DAP_GITHUB@ + "`"@,
        FailureView::Listing { reason } => "failed to read working directory: "@ + reason,
        FailureView::Download { url, reason } =>
            "failed to download latest release of unity-debug-adapter from `"@ + url + "`: "@
            + reason,
        FailureView::Missing { path } =>
            "cannot find unity-debug-adapter binary at expected path: "@ + path,
        FailureView::Marking { path, reason } =>
            "failed to make unity-debug-adapter binary executable at `"@ + path + "`: "@ + reason,
    }
}

/// The step from failures to their wordings.
pub open spec fn as_message() -> spec_fn(FailureView) -> Seq<char> {
    |f: FailureView| failure_message(f)
}

/// What the report of an exhausted resolution begins with.
pub open spec fn exhaustion_head() -> Seq<char> {
    "failed to find a suitable install of `"@ + UNITY_DAP_GITHUB@ + "`: \n  "@
}

/// The wording of the end of a resolution without a path. When no candidate
/// could be used, it lists the wording of every failure on record, in the
/// order of the record.
pub open spec fn resolve_error_message(e: ResolveErrorView) -> Seq<char> {
    match e {
        ResolveErrorView::WorkingDirectory { reason } => "failed to open working directory: "@
            + reason,
        ResolveErrorView::Listing { reason } => "failed to read working directory: "@ + reason,
        ResolveErrorView::Exhausted { failures } => exhaustion_head() + joined(
            failures.map_values(as_message()),
            "; \n  "@,
        ),
    }
}

/// The report of an exhausted resolution holds one entry for each failure,
/// in the order of the failures: the wording of failure `k` stands in the
/// report, behind the wordings of the failures before it.
pub proof fn lemma_exhaustion_message_holds_every_failure(failures: Seq<FailureView>, k: int)
    requires
        0 <= k < failures.len(),
    ensures
        ({
            let report = resolve_error_message(ResolveErrorView::Exhausted { failures });
            let entries = failures.map_values(as_message());
            let from = exhaustion_head().len() + offset_of(entries, "; \n  "@, k);
            &&& from + failure_message(failures[k]).len() <= report.len()
            &&& report.subrange(from, from + failure_message(failures[k]).len())
                == failure_message(failures[k])
            &&& k > 0 ==> from > exhaustion_head().len() + offset_of(entries, "; \n  "@, k - 1)
                + failure_message(failures[k - 1]).len()
        }),
{
    let report = resolve_error_message(ResolveErrorView::Exhausted { failures });
    let entries = failures.map_values(as_message());
    let separator = "; \n  "@;
    let list = joined(entries, separator);
    let at = offset_of(entries, separator, k);
    let from = exhaustion_head().len() + at;
    lemma_joined_holds_every_part(entries, separator, k);
    assert(entries[k] == failure_message(failures[k]));
    assert(report == exhaustion_head() + list);
    assert(report.subrange(from, from + entries[k].len()) =~= list.subrange(
        at,
        at + entries[k].len(),
    ));
    if k > 0 {
        reveal_strlit("; \n  ");
        assert(entries[k - 1] == failure_message(failures[k - 1]));
    }
}

/// The wording of what is wrong with what the host handed in.
pub open spec fn config_error_message(e: ConfigErrorView) -> Seq<char> {
    match e {
        ConfigErrorView::Adapter { requested } => "debug adapter must be set to `"@
            + UNITY_DAP_NAME@ + "` (requested `"@ + requested + "`)"@,
        ConfigErrorView::Parse { reason } => "failed to parse config: "@ + reason,
        ConfigErrorView::Address { address } => "failed to parse valid address `"@ + address
            + "`: invalid IPv4 address syntax"@,
        ConfigErrorView::Port => "must provide a valid port"@,
        ConfigErrorView::Launch => "UnityDAP only supports attaching to running processes"@,
    }
}

impl Failure {
    /// The failure in words.
    pub fn message(&self) -> (r: String)
        ensures
            r@ == failure_message(self@),
    {
        match self {
            Failure::Registry { reason } => {
                let head = glue("failed to fetch latest release of `", UNITY_DAP_GITHUB);
                let head = glue(head.as_str(), "`: ");
                glue(head.as_str(), reason.as_str())
            },
            Failure::Asset { version } => {
                let head = glue(
                    "failed to find a suitable asset for latest release `",
                    version.as_str(),
                );
                let head = glue(head.as_str(), "` of `");
                let head = glue(head.as_str(), UNITY_DAP_GITHUB);
                glue(head.as_str(), "`")
            },
            Failure::Listing { reason } => glue(
                "failed to read working directory: ",
                reason.as_str(),
            ),
            Failure::Download { url, reason } => {
                let head = glue(
                    "failed to download latest release of unity-debug-adapter from `",
                    url.as_str(),
                );
                let head = glue(head.as_str(), "`: ");
                glue(head.as_str(), reason.as_str())
            },
            Failure::Missing { path } => glue(
                "cannot find unity-debug-adapter binary at expected path: ",
                path.as_str(),
            ),
            Failure::Marking { path, reason } => {
                let head = glue(
                    "failed to make unity-debug-adapter binary executable at `",
                    path.as_str(),
                );
                let head = glue(head.as_str(), "`: ");
                glue(head.as_str(), reason.as_str())
            },
        }
    }
}

/// The wordings of the failures, in their order.
pub fn messages(failures: &Vec<Failure>) -> (r: Vec<String>)
    ensures
        r.deep_view() == failures.deep_view().map_values(as_message()),
{
    let mut r: Vec<String> = Vec::new();
    let mut i: usize = 0;
    while i < failures.len()
        invariant
            i <= failures.len(),
            r.len() == i,
            forall|k: int| 0 <= k < i ==> (#[trigger] r[k])@ == failure_message(failures[k]@),
        decreases failures.len() - i,
    {
        r.push(failures[i].message());
        i = i + 1;
    }
    assert(r.deep_view() =~= failures.deep_view().map_values(as_message()));
    r
}

impl ResolveError {
    /// The error in words.
    pub fn message(&self) -> (r: String)
        ensures
            r@ == resolve_error_message(self@),
    {
        match self {
            ResolveError::WorkingDirectory { reason } => glue(
                "failed to open working directory: ",
                reason.as_str(),
            ),
            ResolveError::Listing { reason } => glue(
                "failed to read working directory: ",
                reason.as_str(),
            ),
            ResolveError::Exhausted { failures } => {
                let head = glue("failed to find a suitable install of `", UNITY_DAP_GITHUB);
                let head = glue(head.as_str(), "`: \n  ");
                let list = join(&messages(failures), "; \n  ");
                glue(head.as_str(), list.as_str())
            },
        }
    }
}

impl ConfigError {
    /// The error in words.
    pub fn message(&self) -> (r: String)
        ensures
            r@ == config_error_message(self@),
    {
        match self {
            ConfigError::Adapter { requested } => {
                let head = glue("debug adapter must be set to `", UNITY_DAP_NAME);
                let head = glue(head.as_str(), "` (requested `");
                let head = glue(head.as_str(), requested.as_str());
                glue(head.as_str(), "`)")
            },
            ConfigError::Parse { reason } => glue("failed to parse config: ", reason.as_str()),
            ConfigError::Address { address } => {
                let head = glue("failed to parse valid address `", address.as_str());
                glue(head.as_str(), "`: invalid IPv4 address syntax")
            },
            ConfigError::Port => String::from_str("must provide a valid port"),
            ConfigError::Launch => String::from_str(
                "UnityDAP only supports attaching to running processes",
            ),
        }
    }
}

} // verus!
