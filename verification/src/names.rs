//! The fixed names: the adapter, the repository its releases come from, and
//! how an install is laid out on disk.

use vstd::prelude::*;

verus! {

/// The one debug adapter that is served.
pub const UNITY_DAP_NAME: &'static str = "UnityDAP";

/// The repository whose releases are asked for, as owner and name.
pub const UNITY_DAP_GITHUB: &'static str = "walcht/unity-dap";

/// The release asset that holds the adapter.
pub const UNITY_DAP_ASSET_NAME: &'static str = "unity-debug-adapter.zip";

/// What the name of every install directory begins with.
pub const UNITY_DAP_DIR_NAME: &'static str = "unity-debug-adapter";

/// The adapter's executable, inside the `Release` directory of an install.
pub const UNITY_DAP_BINARY_NAME: &'static str = "unity-debug-adapter.exe";

} // verus!
