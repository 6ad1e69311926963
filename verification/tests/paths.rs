use unity_debug_adapter::provisioner::{absolute_path, binary_path};

#[test]
fn binary_path_is_under_release() {
    assert_eq!(
        binary_path("unity-debug-adapter-2.0.0"),
        "unity-debug-adapter-2.0.0/Release/unity-debug-adapter.exe"
    );
    assert_eq!(binary_path(""), "/Release/unity-debug-adapter.exe");
}

#[test]
fn absolute_path_joins_with_one_slash() {
    assert_eq!(absolute_path("/work", "a/b"), "/work/a/b");
    assert_eq!(absolute_path("/work/", "a/b"), "/work/a/b");
    assert_eq!(absolute_path("/", "a"), "/a");
    assert_eq!(absolute_path("", "a/b"), "a/b");
    assert_eq!(absolute_path("/work", ""), "/work/");
}
