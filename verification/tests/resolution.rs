use unity_debug_adapter::errors::{Failure, ResolveError};
use unity_debug_adapter::release::{GithubRelease, GithubReleaseAsset, GithubReleaseOptions};
use unity_debug_adapter::resolver::{Action, Event, UnityEngineExtension};

/// A host made of plain values: a registry answer, a directory listing and
/// the files that exist. It notes every question it is asked.
struct Host {
    cwd: Result<String, String>,
    release: Result<GithubRelease, String>,
    entries: Result<Vec<String>, String>,
    files: Vec<String>,
    /// Downloads that work put the executable in place.
    download_works: bool,
    marking_works: bool,
    asked: Vec<String>,
}

impl Host {
    fn new() -> Host {
        Host {
            cwd: Ok("/work".to_string()),
            release: Err("offline".to_string()),
            entries: Ok(Vec::new()),
            files: Vec::new(),
            download_works: true,
            marking_works: true,
            asked: Vec::new(),
        }
    }

    fn with_release(mut self, version: &str) -> Host {
        self.release = Ok(release(version));
        self
    }

    fn with_install(mut self, name: &str, complete: bool) -> Host {
        if let Ok(entries) = &mut self.entries {
            entries.push(name.to_string());
        }
        if complete {
            self.files.push(format!("{name}/Release/unity-debug-adapter.exe"));
        }
        self
    }

    fn answer(&mut self, action: &Action) -> Event {
        match action {
            Action::GetWorkingDirectory => {
                self.asked.push("cwd".to_string());
                Event::WorkingDirectory(self.cwd.clone())
            }
            Action::QueryLatestRelease { repository, options } => {
                assert_eq!(repository, "walcht/unity-dap");
                assert_eq!(*options, GithubReleaseOptions { require_assets: true, pre_release: false });
                self.asked.push("release".to_string());
                Event::Release(match &self.release {
                    Ok(r) => Ok(release_copy(r)),
                    Err(e) => Err(e.clone()),
                })
            }
            Action::ListDirectory { path } => {
                self.asked.push(format!("list {path}"));
                Event::Listing(self.entries.clone())
            }
            Action::Download { url, directory } => {
                self.asked.push(format!("download {url} {directory}"));
                if self.download_works {
                    self.files.push(format!("{directory}/Release/unity-debug-adapter.exe"));
                    Event::Downloaded(Ok(()))
                } else {
                    Event::Downloaded(Err("no route to host".to_string()))
                }
            }
            Action::CheckExists { path } => {
                self.asked.push(format!("exists {path}"));
                Event::Exists(self.files.contains(path))
            }
            Action::MakeExecutable { path } => {
                self.asked.push(format!("chmod {path}"));
                if self.marking_works {
                    Event::MadeExecutable(Ok(()))
                } else {
                    Event::MadeExecutable(Err("read-only file system".to_string()))
                }
            }
            Action::Finish(_) => unreachable!(),
        }
    }

    fn resolve(&mut self, extension: &mut UnityEngineExtension) -> Result<String, ResolveError> {
        let mut action = extension.get_unity_dap_binary();
        for _ in 0..100 {
            if let Action::Finish(outcome) = action {
                return outcome;
            }
            let event = self.answer(&action);
            action = extension.advance(event);
        }
        panic!("the resolution does not end");
    }
}

fn release(version: &str) -> GithubRelease {
    GithubRelease {
        version: version.to_string(),
        assets: vec![GithubReleaseAsset {
            name: "unity-debug-adapter.zip".to_string(),
            download_url: format!("https://example.org/{version}/unity-debug-adapter.zip"),
        }],
    }
}

fn release_copy(r: &GithubRelease) -> GithubRelease {
    GithubRelease {
        version: r.version.clone(),
        assets: r
            .assets
            .iter()
            .map(|a| GithubReleaseAsset { name: a.name.clone(), download_url: a.download_url.clone() })
            .collect(),
    }
}

#[test]
fn empty_directory_downloads_latest_release() {
    let mut host = Host::new().with_release("2.0.0");
    let mut extension = UnityEngineExtension::new();
    let outcome = host.resolve(&mut extension);
    assert_eq!(outcome, Ok("/work/unity-debug-adapter-2.0.0/Release/unity-debug-adapter.exe".to_string()));
    assert_eq!(
        host.asked,
        vec![
            "cwd",
            "release",
            "list /work",
            "download https://example.org/2.0.0/unity-debug-adapter.zip unity-debug-adapter-2.0.0",
            "exists unity-debug-adapter-2.0.0/Release/unity-debug-adapter.exe",
            "chmod unity-debug-adapter-2.0.0/Release/unity-debug-adapter.exe",
        ]
    );
    assert_eq!(
        extension.cached_dap_binary(),
        Some("/work/unity-debug-adapter-2.0.0/Release/unity-debug-adapter.exe".to_string())
    );
}

#[test]
fn local_copy_of_latest_release_is_not_downloaded_again() {
    let mut host = Host::new().with_release("2.0.0").with_install("unity-debug-adapter-2.0.0", true);
    let mut extension = UnityEngineExtension::new();
    let outcome = host.resolve(&mut extension);
    assert_eq!(outcome, Ok("/work/unity-debug-adapter-2.0.0/Release/unity-debug-adapter.exe".to_string()));
    assert_eq!(
        host.asked,
        vec!["cwd", "release", "list /work", "exists unity-debug-adapter-2.0.0/Release/unity-debug-adapter.exe"]
    );
}

#[test]
fn registry_failure_falls_back_to_local_copy() {
    let mut host = Host::new().with_install("unity-debug-adapter-1.5.0", true);
    host.release = Err("network unreachable".to_string());
    let mut extension = UnityEngineExtension::new();
    let outcome = host.resolve(&mut extension);
    assert_eq!(outcome, Ok("/work/unity-debug-adapter-1.5.0/Release/unity-debug-adapter.exe".to_string()));
}

#[test]
fn registry_failure_and_empty_directory_exhaust() {
    let mut host = Host::new();
    host.release = Err("network unreachable".to_string());
    let mut extension = UnityEngineExtension::new();
    let error = host.resolve(&mut extension).unwrap_err();
    assert_eq!(
        error,
        ResolveError::Exhausted {
            failures: vec![Failure::Registry { reason: "network unreachable".to_string() }]
        }
    );
    assert_eq!(
        error.message(),
        "failed to find a suitable install of `walcht/unity-dap`: \n  failed to fetch latest release of `walcht/unity-dap`: network unreachable"
    );
    assert_eq!(extension.cached_dap_binary(), None);
    assert_eq!(host.asked, vec!["cwd", "release", "list /work"]);
}

#[test]
fn second_call_is_served_from_cache() {
    let mut host = Host::new().with_release("2.0.0");
    let mut extension = UnityEngineExtension::new();
    let first = host.resolve(&mut extension);
    let asked = host.asked.len();
    let second = host.resolve(&mut extension);
    assert_eq!(first, second);
    assert!(first.is_ok());
    assert_eq!(host.asked.len(), asked);
    assert_eq!(
        extension.get_unity_dap_binary(),
        Action::Finish(Ok("/work/unity-debug-adapter-2.0.0/Release/unity-debug-adapter.exe".to_string()))
    );
    assert_eq!(
        extension.advance(Event::Exists(false)),
        Action::Finish(Ok("/work/unity-debug-adapter-2.0.0/Release/unity-debug-adapter.exe".to_string()))
    );
}

#[test]
fn failed_resolution_is_not_cached() {
    let mut host = Host::new();
    let mut extension = UnityEngineExtension::new();
    assert!(host.resolve(&mut extension).is_err());
    let mut better = Host::new().with_install("unity-debug-adapter-1.0.0", true);
    assert_eq!(
        better.resolve(&mut extension),
        Ok("/work/unity-debug-adapter-1.0.0/Release/unity-debug-adapter.exe".to_string())
    );
}

#[test]
fn broken_top_candidate_falls_back_to_next() {
    let mut host = Host::new()
        .with_install("unity-debug-adapter-1.5.0", true)
        .with_install("unity-debug-adapter-2.0.0", false);
    let mut extension = UnityEngineExtension::new();
    let outcome = host.resolve(&mut extension);
    assert_eq!(outcome, Ok("/work/unity-debug-adapter-1.5.0/Release/unity-debug-adapter.exe".to_string()));
    assert_eq!(
        host.asked,
        vec![
            "cwd",
            "release",
            "list /work",
            "exists unity-debug-adapter-2.0.0/Release/unity-debug-adapter.exe",
            "exists unity-debug-adapter-1.5.0/Release/unity-debug-adapter.exe",
        ]
    );
}

#[test]
fn failed_download_falls_back_to_local_copy() {
    let mut host = Host::new().with_release("2.0.0").with_install("unity-debug-adapter-1.5.0", true);
    host.download_works = false;
    let mut extension = UnityEngineExtension::new();
    let outcome = host.resolve(&mut extension);
    assert_eq!(outcome, Ok("/work/unity-debug-adapter-1.5.0/Release/unity-debug-adapter.exe".to_string()));
}

#[test]
fn no_candidate_is_tried_after_success() {
    let mut host = Host::new()
        .with_release("3.0.0")
        .with_install("unity-debug-adapter-2.0.0", true)
        .with_install("unity-debug-adapter-1.0.0", true);
    let mut extension = UnityEngineExtension::new();
    assert_eq!(
        host.resolve(&mut extension),
        Ok("/work/unity-debug-adapter-3.0.0/Release/unity-debug-adapter.exe".to_string())
    );
    assert!(!host.asked.iter().any(|q| q.contains("2.0.0") || q.contains("1.0.0")));
}

#[test]
fn total_failure_lists_every_failure_in_order() {
    let mut host = Host::new()
        .with_release("3.0.0")
        .with_install("unity-debug-adapter-2.0.0", false)
        .with_install("unity-debug-adapter-1.0.0", false);
    host.download_works = false;
    let mut extension = UnityEngineExtension::new();
    let error = host.resolve(&mut extension).unwrap_err();
    assert_eq!(
        error,
        ResolveError::Exhausted {
            failures: vec![
                Failure::Download {
                    url: "https://example.org/3.0.0/unity-debug-adapter.zip".to_string(),
                    reason: "no route to host".to_string(),
                },
                Failure::Missing {
                    path: "unity-debug-adapter-2.0.0/Release/unity-debug-adapter.exe".to_string()
                },
                Failure::Missing {
                    path: "unity-debug-adapter-1.0.0/Release/unity-debug-adapter.exe".to_string()
                },
            ]
        }
    );
    assert_eq!(
        error.message(),
        concat_lines(
            "failed to find a suitable install of `walcht/unity-dap`: \n  ",
            &[
                "failed to download latest release of unity-debug-adapter from `https://example.org/3.0.0/unity-debug-adapter.zip`: no route to host",
                "cannot find unity-debug-adapter binary at expected path: unity-debug-adapter-2.0.0/Release/unity-debug-adapter.exe",
                "cannot find unity-debug-adapter binary at expected path: unity-debug-adapter-1.0.0/Release/unity-debug-adapter.exe",
            ]
        )
    );
}

fn concat_lines(head: &str, lines: &[&str]) -> String {
    format!("{head}{}", lines.join("; \n  "))
}

#[test]
fn total_failure_names_registry_and_candidates() {
    let mut host = Host::new().with_install("unity-debug-adapter-1.0.0", false);
    host.release = Ok(GithubRelease { version: "9".to_string(), assets: Vec::new() });
    let mut extension = UnityEngineExtension::new();
    let error = host.resolve(&mut extension).unwrap_err();
    assert_eq!(
        error,
        ResolveError::Exhausted {
            failures: vec![
                Failure::Asset { version: "9".to_string() },
                Failure::Missing {
                    path: "unity-debug-adapter-1.0.0/Release/unity-debug-adapter.exe".to_string()
                },
            ]
        }
    );
    assert_eq!(
        error.message(),
        concat_lines(
            "failed to find a suitable install of `walcht/unity-dap`: \n  ",
            &[
                "failed to find a suitable asset for latest release `9` of `walcht/unity-dap`",
                "cannot find unity-debug-adapter binary at expected path: unity-debug-adapter-1.0.0/Release/unity-debug-adapter.exe",
            ]
        )
    );
}

#[test]
fn download_without_executable_is_a_failure() {
    let mut extension = UnityEngineExtension::new();
    assert_eq!(extension.get_unity_dap_binary(), Action::GetWorkingDirectory);
    extension.advance(Event::WorkingDirectory(Ok("/w".to_string())));
    extension.advance(Event::Release(Ok(release("1.0"))));
    let action = extension.advance(Event::Listing(Ok(Vec::new())));
    assert_eq!(
        action,
        Action::Download {
            url: "https://example.org/1.0/unity-debug-adapter.zip".to_string(),
            directory: "unity-debug-adapter-1.0".to_string(),
        }
    );
    assert_eq!(
        extension.advance(Event::Downloaded(Ok(()))),
        Action::CheckExists { path: "unity-debug-adapter-1.0/Release/unity-debug-adapter.exe".to_string() }
    );
    assert_eq!(
        extension.advance(Event::Exists(false)),
        Action::Finish(Err(ResolveError::Exhausted {
            failures: vec![Failure::Missing {
                path: "unity-debug-adapter-1.0/Release/unity-debug-adapter.exe".to_string()
            }]
        }))
    );
}

#[test]
fn executable_that_cannot_be_marked_is_a_failure() {
    let mut host = Host::new().with_release("2.0.0").with_install("unity-debug-adapter-1.0.0", true);
    host.marking_works = false;
    let mut extension = UnityEngineExtension::new();
    assert_eq!(
        host.resolve(&mut extension),
        Ok("/work/unity-debug-adapter-1.0.0/Release/unity-debug-adapter.exe".to_string())
    );
    let mut alone = Host::new().with_release("2.0.0");
    alone.marking_works = false;
    let mut extension = UnityEngineExtension::new();
    let error = alone.resolve(&mut extension).unwrap_err();
    assert_eq!(
        error,
        ResolveError::Exhausted {
            failures: vec![Failure::Marking {
                path: "unity-debug-adapter-2.0.0/Release/unity-debug-adapter.exe".to_string(),
                reason: "read-only file system".to_string(),
            }]
        }
    );
    assert_eq!(
        error.message(),
        concat_lines(
            "failed to find a suitable install of `walcht/unity-dap`: \n  ",
            &["failed to make unity-debug-adapter binary executable at `unity-debug-adapter-2.0.0/Release/unity-debug-adapter.exe`: read-only file system"]
        )
    );
}

#[test]
fn unknown_working_directory_ends_resolution() {
    let mut host = Host::new().with_release("2.0.0");
    host.cwd = Err("permission denied".to_string());
    let mut extension = UnityEngineExtension::new();
    let error = host.resolve(&mut extension).unwrap_err();
    assert_eq!(error, ResolveError::WorkingDirectory { reason: "permission denied".to_string() });
    assert_eq!(error.message(), "failed to open working directory: permission denied");
    assert_eq!(host.asked, vec!["cwd"]);
}

#[test]
fn unreadable_directory_without_remote_candidate_ends_resolution() {
    let mut host = Host::new();
    host.entries = Err("permission denied".to_string());
    let mut extension = UnityEngineExtension::new();
    let error = host.resolve(&mut extension).unwrap_err();
    assert_eq!(error, ResolveError::Listing { reason: "permission denied".to_string() });
    assert_eq!(error.message(), "failed to read working directory: permission denied");
}

#[test]
fn unreadable_directory_with_remote_candidate_goes_on() {
    let mut host = Host::new().with_release("2.0.0");
    host.entries = Err("permission denied".to_string());
    let mut extension = UnityEngineExtension::new();
    assert_eq!(
        host.resolve(&mut extension),
        Ok("/work/unity-debug-adapter-2.0.0/Release/unity-debug-adapter.exe".to_string())
    );
    let mut failing = Host::new().with_release("2.0.0");
    failing.entries = Err("permission denied".to_string());
    failing.download_works = false;
    let mut extension = UnityEngineExtension::new();
    let error = failing.resolve(&mut extension).unwrap_err();
    assert_eq!(
        error,
        ResolveError::Exhausted {
            failures: vec![
                Failure::Listing { reason: "permission denied".to_string() },
                Failure::Download {
                    url: "https://example.org/2.0.0/unity-debug-adapter.zip".to_string(),
                    reason: "no route to host".to_string(),
                },
            ]
        }
    );
    assert_eq!(
        error.message(),
        concat_lines(
            "failed to find a suitable install of `walcht/unity-dap`: \n  ",
            &[
                "failed to read working directory: permission denied",
                "failed to download latest release of unity-debug-adapter from `https://example.org/2.0.0/unity-debug-adapter.zip`: no route to host",
            ]
        )
    );
}

#[test]
fn lexicographic_ranking_selects_1_9_0_over_1_10_0() {
    let mut host = Host::new()
        .with_install("unity-debug-adapter-1.9.0", true)
        .with_install("unity-debug-adapter-1.10.0", true);
    let mut extension = UnityEngineExtension::new();
    assert_eq!(
        host.resolve(&mut extension),
        Ok("/work/unity-debug-adapter-1.9.0/Release/unity-debug-adapter.exe".to_string())
    );
}

#[test]
fn event_that_answers_nothing_repeats_the_question() {
    let mut extension = UnityEngineExtension::new();
    assert_eq!(extension.advance(Event::Exists(true)), Action::GetWorkingDirectory);
    assert_eq!(extension.advance(Event::Exists(true)), Action::GetWorkingDirectory);
    let query = Action::QueryLatestRelease {
        repository: "walcht/unity-dap".to_string(),
        options: GithubReleaseOptions { require_assets: true, pre_release: false },
    };
    assert_eq!(extension.advance(Event::WorkingDirectory(Ok("/w/".to_string()))), query);
    assert_eq!(extension.advance(Event::Downloaded(Ok(()))), query);
    let list = Action::ListDirectory { path: "/w/".to_string() };
    assert_eq!(extension.advance(Event::Release(Ok(release("1")))), list);
    assert_eq!(extension.advance(Event::MadeExecutable(Ok(()))), list);
    let download = Action::Download {
        url: "https://example.org/1/unity-debug-adapter.zip".to_string(),
        directory: "unity-debug-adapter-1".to_string(),
    };
    assert_eq!(extension.advance(Event::Listing(Ok(vec!["x".to_string()]))), download);
    assert_eq!(extension.advance(Event::Exists(true)), download);
    let check = Action::CheckExists { path: "unity-debug-adapter-1/Release/unity-debug-adapter.exe".to_string() };
    assert_eq!(extension.advance(Event::Downloaded(Ok(()))), check);
    assert_eq!(extension.advance(Event::Downloaded(Ok(()))), check);
    let mark = Action::MakeExecutable { path: "unity-debug-adapter-1/Release/unity-debug-adapter.exe".to_string() };
    assert_eq!(extension.advance(Event::Exists(true)), mark);
    assert_eq!(extension.advance(Event::Exists(false)), mark);
    assert_eq!(
        extension.advance(Event::MadeExecutable(Ok(()))),
        Action::Finish(Ok("/w/unity-debug-adapter-1/Release/unity-debug-adapter.exe".to_string()))
    );
}

#[test]
fn new_start_drops_what_was_under_way() {
    let mut extension = UnityEngineExtension::new();
    extension.get_unity_dap_binary();
    extension.advance(Event::WorkingDirectory(Ok("/w".to_string())));
    assert_eq!(extension.get_unity_dap_binary(), Action::GetWorkingDirectory);
    assert_eq!(
        extension.advance(Event::Release(Err("late".to_string()))),
        Action::GetWorkingDirectory
    );
}

#[test]
fn default_resolver_is_fresh() {
    let mut extension = UnityEngineExtension::default();
    assert_eq!(extension.cached_dap_binary(), None);
    assert_eq!(extension.get_unity_dap_binary(), Action::GetWorkingDirectory);
}

#[test]
fn reported_path_starts_with_working_directory() {
    for cwd in ["/", "/work", "/work/", "/a b/ünï"] {
        let mut host = Host::new().with_install("unity-debug-adapter-1", true);
        host.cwd = Ok(cwd.to_string());
        let mut extension = UnityEngineExtension::new();
        let path = host.resolve(&mut extension).unwrap();
        assert!(path.starts_with(cwd));
        assert!(path.ends_with("/unity-debug-adapter-1/Release/unity-debug-adapter.exe"));
        assert!(!path.contains("//"));
    }
}

#[test]
fn entries_that_are_no_installs_are_ignored() {
    let mut host = Host::new()
        .with_install("unity-debug", true)
        .with_install("my-unity-debug-adapter-9", true)
        .with_install("unity-debug-adapter-0.1", true)
        .with_install("zzz", true);
    let mut extension = UnityEngineExtension::new();
    assert_eq!(
        host.resolve(&mut extension),
        Ok("/work/unity-debug-adapter-0.1/Release/unity-debug-adapter.exe".to_string())
    );
    assert_eq!(
        host.asked,
        vec!["cwd", "release", "list /work", "exists unity-debug-adapter-0.1/Release/unity-debug-adapter.exe"]
    );
}

#[test]
fn older_remote_release_ranks_behind_newer_local_copy() {
    let mut host = Host::new().with_release("1.0.0").with_install("unity-debug-adapter-2.0.0", false);
    let mut extension = UnityEngineExtension::new();
    assert_eq!(
        host.resolve(&mut extension),
        Ok("/work/unity-debug-adapter-1.0.0/Release/unity-debug-adapter.exe".to_string())
    );
    assert_eq!(
        host.asked,
        vec![
            "cwd",
            "release",
            "list /work",
            "exists unity-debug-adapter-2.0.0/Release/unity-debug-adapter.exe",
            "download https://example.org/1.0.0/unity-debug-adapter.zip unity-debug-adapter-1.0.0",
            "exists unity-debug-adapter-1.0.0/Release/unity-debug-adapter.exe",
            "chmod unity-debug-adapter-1.0.0/Release/unity-debug-adapter.exe",
        ]
    );
}
