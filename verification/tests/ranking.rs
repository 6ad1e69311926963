use unity_debug_adapter::candidate::{DapBinarySource, UnityDapBinary};
use unity_debug_adapter::errors::Failure;
use unity_debug_adapter::inventory::local_candidates;
use unity_debug_adapter::ranker::rank;
use unity_debug_adapter::release::{remote_candidate, GithubRelease, GithubReleaseAsset};

fn local(name: &str) -> UnityDapBinary {
    UnityDapBinary { dir_name: name.to_string(), source: DapBinarySource::Local }
}

fn github(name: &str, url: &str) -> UnityDapBinary {
    UnityDapBinary { dir_name: name.to_string(), source: DapBinarySource::Github { url: url.to_string() } }
}

#[test]
fn rank_of_nothing_is_empty() {
    assert_eq!(rank(None, Vec::new()), Vec::new());
}

#[test]
fn rank_sorts_descending_by_directory_name() {
    let ranked = rank(
        None,
        vec![
            local("unity-debug-adapter-1.0.0"),
            local("unity-debug-adapter-3.0.0"),
            local("unity-debug-adapter-2.0.0"),
        ],
    );
    assert_eq!(
        ranked,
        vec![
            local("unity-debug-adapter-3.0.0"),
            local("unity-debug-adapter-2.0.0"),
            local("unity-debug-adapter-1.0.0"),
        ]
    );
}

#[test]
fn rank_prefers_local_over_remote_of_same_name() {
    let ranked = rank(
        Some(github("unity-debug-adapter-2.0.0", "https://example.org/a.zip")),
        vec![local("unity-debug-adapter-1.5.0"), local("unity-debug-adapter-2.0.0")],
    );
    assert_eq!(
        ranked,
        vec![
            local("unity-debug-adapter-2.0.0"),
            github("unity-debug-adapter-2.0.0", "https://example.org/a.zip"),
            local("unity-debug-adapter-1.5.0"),
        ]
    );
}

#[test]
fn rank_puts_newer_remote_first() {
    let ranked = rank(
        Some(github("unity-debug-adapter-2.1.0", "https://example.org/a.zip")),
        vec![local("unity-debug-adapter-2.0.0")],
    );
    assert_eq!(
        ranked,
        vec![
            github("unity-debug-adapter-2.1.0", "https://example.org/a.zip"),
            local("unity-debug-adapter-2.0.0"),
        ]
    );
}

#[test]
fn rank_orders_names_as_plain_text() {
    let ranked = rank(
        None,
        vec![local("unity-debug-adapter-1.10.0"), local("unity-debug-adapter-1.9.0")],
    );
    assert_eq!(
        ranked,
        vec![local("unity-debug-adapter-1.9.0"), local("unity-debug-adapter-1.10.0")]
    );
}

#[test]
fn rank_gives_same_order_for_every_input_order() {
    let names = ["unity-debug-adapter-b", "unity-debug-adapter-a", "unity-debug-adapter-c", "unity-debug-adapter-a"];
    let orders: [[usize; 4]; 6] =
        [[0, 1, 2, 3], [3, 2, 1, 0], [1, 0, 3, 2], [2, 3, 0, 1], [0, 2, 1, 3], [3, 0, 2, 1]];
    let expected = vec![
        local("unity-debug-adapter-c"),
        local("unity-debug-adapter-b"),
        github("unity-debug-adapter-b", "u"),
        local("unity-debug-adapter-a"),
        local("unity-debug-adapter-a"),
    ];
    for order in orders {
        let locals = order.iter().map(|&i| local(names[i])).collect();
        assert_eq!(rank(Some(github("unity-debug-adapter-b", "u")), locals), expected);
    }
}

#[test]
fn rank_orders_downloads_of_same_name_by_address() {
    let ranked = rank(
        Some(github("d", "https://a")),
        vec![github("d", "https://b"), local("d"), github("d", "https://")],
    );
    assert_eq!(
        ranked,
        vec![local("d"), github("d", "https://b"), github("d", "https://a"), github("d", "https://")]
    );
}

#[test]
fn is_below_follows_name_then_source() {
    assert!(local("a").is_below(&local("b")));
    assert!(!local("b").is_below(&local("a")));
    assert!(!local("a").is_below(&local("a")));
    assert!(github("a", "u").is_below(&local("a")));
    assert!(!local("a").is_below(&github("a", "u")));
    assert!(local("a").is_below(&github("b", "u")));
    assert!(github("a", "u").is_below(&github("a", "v")));
    assert!(!github("a", "u").is_below(&github("a", "u")));
}

#[test]
fn local_candidates_keeps_installs_in_order() {
    let entries = vec![
        "notes.txt".to_string(),
        "unity-debug-adapter-1.5.0".to_string(),
        "unity-debug".to_string(),
        "unity-debug-adapter".to_string(),
        "old-unity-debug-adapter-1.0.0".to_string(),
        "unity-debug-adapter-2.0.0".to_string(),
    ];
    assert_eq!(
        local_candidates(&entries),
        vec![
            local("unity-debug-adapter-1.5.0"),
            local("unity-debug-adapter"),
            local("unity-debug-adapter-2.0.0"),
        ]
    );
}

#[test]
fn local_candidates_of_empty_directory() {
    assert_eq!(local_candidates(&Vec::new()), Vec::new());
}

fn asset(name: &str, url: &str) -> GithubReleaseAsset {
    GithubReleaseAsset { name: name.to_string(), download_url: url.to_string() }
}

#[test]
fn remote_candidate_takes_first_asset_of_that_name() {
    let release = GithubRelease {
        version: "2.0.0".to_string(),
        assets: vec![
            asset("source.zip", "https://example.org/source.zip"),
            asset("unity-debug-adapter.zip", "https://example.org/first.zip"),
            asset("unity-debug-adapter.zip", "https://example.org/second.zip"),
        ],
    };
    assert_eq!(
        remote_candidate(Ok(release)),
        Ok(github("unity-debug-adapter-2.0.0", "https://example.org/first.zip"))
    );
}

#[test]
fn remote_candidate_reports_missing_asset() {
    let release = GithubRelease {
        version: "v3".to_string(),
        assets: vec![asset("unity-debug-adapter.tar.gz", "https://example.org/a.tar.gz")],
    };
    assert_eq!(remote_candidate(Ok(release)), Err(Failure::Asset { version: "v3".to_string() }));
    let bare = GithubRelease { version: "v4".to_string(), assets: Vec::new() };
    assert_eq!(remote_candidate(Ok(bare)), Err(Failure::Asset { version: "v4".to_string() }));
}

#[test]
fn remote_candidate_reports_failed_query() {
    assert_eq!(
        remote_candidate(Err("connection refused".to_string())),
        Err(Failure::Registry { reason: "connection refused".to_string() })
    );
}
