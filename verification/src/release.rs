//! The release query: what the registry's answer means for the resolution.

use crate::candidate::{DapBinarySource, DapBinarySourceView, UnityDapBinary, UnityDapBinaryView};
use crate::errors::{Failure, FailureView};
use crate::names::{UNITY_DAP_ASSET_NAME, UNITY_DAP_DIR_NAME};
use crate::text::{glue, same_text};
use vstd::prelude::*;

verus! {

/// One downloadable file of a release.
#[derive(Debug, PartialEq, Eq)]
pub struct GithubReleaseAsset {
    pub name: String,
    pub download_url: String,
}

/// A published release as the registry reports it.
#[derive(Debug, PartialEq, Eq)]
pub struct GithubRelease {
    pub version: String,
    pub assets: Vec<GithubReleaseAsset>,
}

/// Which releases the registry is asked to consider.
#[derive(Clone, Copy, Debug, PartialEq, Eq, Structural)]
pub struct GithubReleaseOptions {
    /// Leave out releases that have no asset.
    pub require_assets: bool,
    /// Consider pre-releases too.
    pub pre_release: bool,
}

/// Mathematical model of a [`GithubReleaseAsset`].
pub struct GithubReleaseAssetView {
    pub name: Seq<char>,
    pub download_url: Seq<char>,
}

/// Mathematical model of a [`GithubRelease`].
pub struct GithubReleaseView {
    pub version: Seq<char>,
    pub assets: Seq<GithubReleaseAssetView>,
}

impl View for GithubReleaseAsset {
    type V = GithubReleaseAssetView;

    open spec fn view(&self) -> GithubReleaseAssetView {
        GithubReleaseAssetView { name: self.name@, download_url: self.download_url@ }
    }
}

impl DeepView for GithubReleaseAsset {
    type V = GithubReleaseAssetView;

    open spec fn deep_view(&self) -> GithubReleaseAssetView {
        self@
    }
}

impl View for GithubRelease {
    type V = GithubReleaseView;

    open spec fn view(&self) -> GithubReleaseView {
        GithubReleaseView { version: self.version@, assets: self.assets.deep_view() }
    }
}

impl DeepView for GithubRelease {
    type V = GithubReleaseView;

    open spec fn deep_view(&self) -> GithubReleaseView {
        self@
    }
}

/// The options every release query is made with: a release must have
/// assets, and pre-releases are left out.
pub open spec fn query_options() -> GithubReleaseOptions {
    GithubReleaseOptions { require_assets: true, pre_release: false }
}

/// `i` is the place of the first asset called `name`.
pub open spec fn is_first_named(
    assets: Seq<GithubReleaseAssetView>,
    name: Seq<char>,
    i: int,
) -> bool {
    &&& 0 <= i < assets.len()
    &&& assets[i].name == name
    &&& forall|j: int| 0 <= j < i ==> (#[trigger] assets[j]).name != name
}

/// The place of the first asset called `name`, if there is one.
pub open spec fn first_named(assets: Seq<GithubReleaseAssetView>, name: Seq<char>) -> Option<int> {
    if exists|i: int| is_first_named(assets, name, i) {
        Some(choose|i: int| is_first_named(assets, name, i))
    } else {
        None
    }
}

/// The directory that holds the install of `version`.
pub open spec fn install_dir_name(version: Seq<char>) -> Seq<char> {
    UNITY_DAP_DIR_NAME@ + seq!['-'] + version
}

/// The remote candidate that the registry's answer gives, or the failure
/// that left none: the registry could not be asked, or its latest release has
/// no asset with the adapter's archive name. Of several assets with that
/// name the first counts.
pub open spec fn remote_candidate_of(
    answer: Result<GithubReleaseView, Seq<char>>,
) -> Result<UnityDapBinaryView, FailureView> {
    match answer {
        Err(reason) => Err(FailureView::Registry { reason }),
        Ok(release) => match first_named(release.assets, UNITY_DAP_ASSET_NAME@) {
            Some(i) => Ok(
                UnityDapBinaryView {
                    dir_name: install_dir_name(release.version),
                    source: DapBinarySourceView::Github { url: release.assets[i].download_url },
                },
            ),
            None => Err(FailureView::Asset { version: release.version }),
        },
    }
}

/// The model of a registry answer.
pub open spec fn answer_view(
    answer: Result<GithubRelease, String>,
) -> Result<GithubReleaseView, Seq<char>> {
    match answer {
        Ok(release) => Ok(release@),
        Err(reason) => Err(reason@),
    }
}

/// The model of a candidate or of the failure that left none.
pub open spec fn candidate_result_view(
    r: Result<UnityDapBinary, Failure>,
) -> Result<UnityDapBinaryView, FailureView> {
    match r {
        Ok(candidate) => Ok(candidate@),
        Err(failure) => Err(failure@),
    }
}

/// Finds the first asset called `name`.
pub fn find_asset(assets: &Vec<GithubReleaseAsset>, name: &str) -> (r: Option<usize>)
    ensures
        match r {
            Some(i) => first_named(assets.deep_view(), name@) == Some(i as int),
            None => first_named(assets.deep_view(), name@) is None,
        },
{
    let mut i: usize = 0;
    while i < assets.len()
        invariant
            i <= assets.len(),
            forall|j: int| 0 <= j < i ==> (#[trigger] assets.deep_view()[j]).name != name@,
        decreases assets.len() - i,
    {
        if same_text(assets[i].name.as_str(), name) {
            assert(is_first_named(assets.deep_view(), name@, i as int));
            return Some(i);
        }
        i = i + 1;
    }
    None
}

/// Turns the registry's answer into the remote candidate, or into the
/// failure that left none. The failure is for the record: a resolution goes
/// on without a remote candidate.
pub fn remote_candidate(answer: Result<GithubRelease, String>) -> (r: Result<
    UnityDapBinary,
    Failure,
>)
    ensures
        candidate_result_view(r) == remote_candidate_of(answer_view(answer)),
{
    match answer {
        Err(reason) => Err(Failure::Registry { reason }),
        Ok(release) => {
            let found = find_asset(&release.assets, UNITY_DAP_ASSET_NAME);
            match found {
                Some(i) => {
                    let head = glue(UNITY_DAP_DIR_NAME, "-");
                    proof {
                        reveal_strlit("-");
                        assert("-"@ =~= seq!['-']);
                    }
                    let dir_name = glue(head.as_str(), release.version.as_str());
                    let url = release.assets[i].download_url.clone();
                    Ok(UnityDapBinary { dir_name, source: DapBinarySource::Github { url } })
                },
                None => Err(Failure::Asset { version: release.version }),
            }
        },
    }
}

} // verus!
