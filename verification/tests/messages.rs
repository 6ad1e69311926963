use unity_debug_adapter::errors::{messages, ConfigError, Failure, ResolveError};

fn failures() -> Vec<Failure> {
    vec![
        Failure::Registry { reason: "timeout".to_string() },
        Failure::Asset { version: "1.2.3".to_string() },
        Failure::Listing { reason: "gone".to_string() },
        Failure::Download { url: "https://x".to_string(), reason: "timeout".to_string() },
        Failure::Missing { path: "d/Release/unity-debug-adapter.exe".to_string() },
        Failure::Marking { path: "p".to_string(), reason: "denied".to_string() },
    ]
}

fn wordings() -> Vec<String> {
    vec![
        "failed to fetch latest release of `walcht/unity-dap`: timeout".to_string(),
        "failed to find a suitable asset for latest release `1.2.3` of `walcht/unity-dap`".to_string(),
        "failed to read working directory: gone".to_string(),
        "failed to download latest release of unity-debug-adapter from `https://x`: timeout".to_string(),
        "cannot find unity-debug-adapter binary at expected path: d/Release/unity-debug-adapter.exe".to_string(),
        "failed to make unity-debug-adapter binary executable at `p`: denied".to_string(),
    ]
}

#[test]
fn failures_have_fixed_wording() {
    let expected = wordings();
    for (failure, wording) in failures().iter().zip(expected.iter()) {
        assert_eq!(&failure.message(), wording);
    }
    assert_eq!(messages(&failures()), expected);
    assert_eq!(messages(&Vec::new()), Vec::<String>::new());
}

#[test]
fn resolve_errors_have_fixed_wording() {
    assert_eq!(
        ResolveError::WorkingDirectory { reason: "gone".to_string() }.message(),
        "failed to open working directory: gone"
    );
    assert_eq!(
        ResolveError::Listing { reason: "gone".to_string() }.message(),
        "failed to read working directory: gone"
    );
}

#[test]
fn exhaustion_lists_failures_in_order() {
    assert_eq!(
        ResolveError::Exhausted { failures: Vec::new() }.message(),
        "failed to find a suitable install of `walcht/unity-dap`: \n  "
    );
    assert_eq!(
        ResolveError::Exhausted { failures: vec![Failure::Missing { path: "a".to_string() }] }.message(),
        "failed to find a suitable install of `walcht/unity-dap`: \n  cannot find unity-debug-adapter binary at expected path: a"
    );
    assert_eq!(
        ResolveError::Exhausted { failures: failures() }.message(),
        format!(
            "failed to find a suitable install of `walcht/unity-dap`: \n  {}",
            wordings().join("; \n  ")
        )
    );
}

#[test]
fn config_errors_have_fixed_wording() {
    assert_eq!(
        ConfigError::Adapter { requested: "GDB".to_string() }.message(),
        "debug adapter must be set to `UnityDAP` (requested `GDB`)"
    );
    assert_eq!(
        ConfigError::Parse { reason: "expected value at line 1 column 1".to_string() }.message(),
        "failed to parse config: expected value at line 1 column 1"
    );
    assert_eq!(
        ConfigError::Address { address: "::1".to_string() }.message(),
        "failed to parse valid address `::1`: invalid IPv4 address syntax"
    );
    assert_eq!(ConfigError::Port.message(), "must provide a valid port");
    assert_eq!(ConfigError::Launch.message(), "UnityDAP only supports attaching to running processes");
}
