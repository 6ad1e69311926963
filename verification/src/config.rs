//! Configuration: from what the host hands in to what the host is handed
//! back, for the scenario of a session and for the start of the adapter.

use crate::errors::{ConfigError, ConfigErrorView};
use crate::ipv4::{is_dotted_quad_at, is_ipv4, is_ipv4_address, is_octet};
use crate::json::{
    empty_object, empty_object_text, is_plain, is_plain_text, number_object, number_object_text,
    parse_document, parsed_document, text_member, text_number_object, text_number_object_text,
    unsigned_member,
};
use crate::names::UNITY_DAP_NAME;
use crate::text::{glue, lex_lt, numeral_value, same_text};
use vstd::prelude::*;

verus! {

/// The operating system that the host runs on.
#[derive(Clone, Copy, Debug, PartialEq, Eq, Structural)]
pub enum Os {
    Mac,
    Linux,
    Windows,
}

/// How a debug session begins.
#[derive(Clone, Copy, Debug, PartialEq, Eq, Structural)]
pub enum StartDebuggingRequestArgumentsRequest {
    /// A new process is started.
    Launch,
    /// A running process is joined.
    Attach,
}

/// The wish to join a running process.
#[derive(Clone, Copy, Debug, PartialEq, Eq, Structural)]
pub struct AttachRequest {
    pub process_id: Option<u32>,
}

/// What a session is asked to debug.
#[derive(Clone, Copy, Debug, PartialEq, Eq, Structural)]
pub enum DebugRequest {
    /// Start a new process. How it would be started plays no part here.
    Launch,
    Attach(AttachRequest),
}

/// A session as the user asks for it, before any adapter has a say.
#[derive(Debug, PartialEq, Eq)]
pub struct DebugConfig {
    pub label: String,
    pub adapter: String,
    pub request: DebugRequest,
    pub stop_on_entry: Option<bool>,
}

/// Wishes for a connection to the adapter over TCP.
#[derive(Clone, Copy, Debug, PartialEq, Eq, Structural)]
pub struct TcpArgumentsTemplate {
    pub port: Option<u16>,
    pub host: Option<u32>,
    pub timeout: Option<u64>,
}

/// A connection to the adapter over TCP.
#[derive(Clone, Copy, Debug, PartialEq, Eq, Structural)]
pub struct TcpArguments {
    pub port: u16,
    pub host: u32,
    pub timeout: Option<u64>,
}

/// A session in the form in which it is stored and started.
#[derive(Debug, PartialEq, Eq)]
pub struct DebugScenario {
    pub label: String,
    pub adapter: String,
    /// The name of a task to run before the session starts.
    pub build: Option<String>,
    /// The adapter's own settings, as JSON.
    pub config: String,
    pub tcp_connection: Option<TcpArgumentsTemplate>,
}

/// The settings that a task may carry, as far as they are of the right
/// kind: a member of another kind counts as absent.
#[derive(Debug, PartialEq, Eq)]
pub struct TaskSettings {
    /// `monoPath`, a string.
    pub mono_path: Option<String>,
    /// `logLevel`, a string.
    pub log_level: Option<String>,
    /// `address`, a string.
    pub address: Option<String>,
    /// `port`, a number that is not negative and is written without
    /// fraction and exponent.
    pub port: Option<u64>,
}

/// Mathematical model of [`TaskSettings`].
#[verifier::ext_equal]
pub struct TaskSettingsView {
    pub mono_path: Option<Seq<char>>,
    pub log_level: Option<Seq<char>>,
    pub address: Option<Seq<char>>,
    pub port: Option<u64>,
}

impl View for TaskSettings {
    type V = TaskSettingsView;

    open spec fn view(&self) -> TaskSettingsView {
        TaskSettingsView {
            mono_path: self.mono_path.deep_view(),
            log_level: self.log_level.deep_view(),
            address: self.address.deep_view(),
            port: self.port,
        }
    }
}

/// The settings with which the adapter is started, checked and complete.
///
/// The address is an internet address of version 4 in dotted-quad form.
pub struct LaunchSettings {
    mono_path: String,
    log_level: String,
    address: String,
    port: u16,
    request: StartDebuggingRequestArgumentsRequest,
}

/// Mathematical model of [`LaunchSettings`].
#[verifier::ext_equal]
pub struct LaunchSettingsView {
    /// The runtime that runs the adapter.
    pub mono_path: Seq<char>,
    pub log_level: Seq<char>,
    /// Where the session to debug listens.
    pub address: Seq<char>,
    pub port: u16,
    pub request: StartDebuggingRequestArgumentsRequest,
}

impl View for LaunchSettings {
    type V = LaunchSettingsView;

    closed spec fn view(&self) -> LaunchSettingsView {
        LaunchSettingsView {
            mono_path: self.mono_path@,
            log_level: self.log_level@,
            address: self.address@,
            port: self.port,
            request: self.request,
        }
    }
}

/// How the session is reached and begun.
#[derive(Debug, PartialEq, Eq)]
pub struct StartDebuggingRequestArguments {
    /// The adapter's own settings, as JSON.
    pub configuration: String,
    pub request: StartDebuggingRequestArgumentsRequest,
}

/// How the adapter is started, and how a session is begun with it.
#[derive(Debug, PartialEq, Eq)]
pub struct DebugAdapterBinary {
    pub command: Option<String>,
    pub arguments: Vec<String>,
    pub envs: Vec<(String, String)>,
    pub cwd: Option<String>,
    pub connection: Option<TcpArguments>,
    pub request_args: StartDebuggingRequestArguments,
}

/// The port on which the editor of process `process_id` listens for a
/// debugger.
pub open spec fn attach_port(process_id: u32) -> nat {
    (56000 + process_id % 1000) as nat
}

/// The adapter's settings for a session that joins a running process: the
/// port of that process where the process is known, and nothing otherwise.
pub open spec fn scenario_config(process_id: Option<u32>) -> Seq<char> {
    match process_id {
        Some(id) => number_object_text("port"@, attach_port(id)),
        None => empty_object_text(),
    }
}

/// The runtime that is used where none is named.
pub open spec fn default_mono_path(os: Os) -> Seq<char> {
    if os is Windows {
        "mono.exe"@
    } else {
        "mono"@
    }
}

/// The log level that is used where none is named.
pub open spec fn default_log_level(debug_build: bool) -> Seq<char> {
    if debug_build {
        "debug"@
    } else {
        "warn"@
    }
}

/// The address that is used where none is named: this machine.
pub open spec fn default_address() -> Seq<char> {
    "127.0.0.1"@
}

/// What a map holds under a key, if it holds anything.
pub open spec fn lookup<V>(members: Map<Seq<char>, V>, key: Seq<char>) -> Option<V> {
    if members.contains_key(key) {
        Some(members[key])
    } else {
        None
    }
}

/// The settings that a parsed document carries, or why there are none.
pub open spec fn task_settings_of(
    document: Result<(Map<Seq<char>, Seq<char>>, Map<Seq<char>, u64>), Seq<char>>,
) -> Result<TaskSettingsView, ConfigErrorView> {
    match document {
        Ok((texts, numbers)) => Ok(
            TaskSettingsView {
                mono_path: lookup(texts, "monoPath"@),
                log_level: lookup(texts, "logLevel"@),
                address: lookup(texts, "address"@),
                port: lookup(numbers, "port"@),
            },
        ),
        Err(reason) => Err(ConfigErrorView::Parse { reason }),
    }
}

/// The settings with which the adapter is started, or the first thing that
/// is wrong:
///
/// 1. another adapter than this one is asked for;
/// 2. the task's settings could not be read;
/// 3. an address is given and is no internet address of version 4;
/// 4. no port is given, or one that does not fit 16 bits.
///
/// The runtime is the one that the task names, else the one that the user
/// has set, else the usual one of the system. Log level and address are
/// those that the task names, else the usual ones.
pub open spec fn launch_settings_of(
    adapter_name: Seq<char>,
    settings: Result<TaskSettingsView, ConfigErrorView>,
    user_path: Option<Seq<char>>,
    os: Os,
    debug_build: bool,
) -> Result<LaunchSettingsView, ConfigErrorView> {
    if adapter_name != UNITY_DAP_NAME@ {
        Err(ConfigErrorView::Adapter { requested: adapter_name })
    } else {
        match settings {
            Err(error) => Err(error),
            Ok(task) => {
                if task.address is Some && !is_ipv4_address(task.address->0) {
                    Err(ConfigErrorView::Address { address: task.address->0 })
                } else if task.port is None || task.port->0 > 0xffff {
                    Err(ConfigErrorView::Port)
                } else {
                    Ok(
                        LaunchSettingsView {
                            mono_path: match (task.mono_path, user_path) {
                                (Some(path), _) => path,
                                (None, Some(path)) => path,
                                (None, None) => default_mono_path(os),
                            },
                            log_level: match task.log_level {
                                Some(level) => level,
                                None => default_log_level(debug_build),
                            },
                            address: match task.address {
                                Some(address) => address,
                                None => default_address(),
                            },
                            port: task.port->0 as u16,
                            request: StartDebuggingRequestArgumentsRequest::Attach,
                        },
                    )
                }
            },
        }
    }
}

/// The model of settings or of the reason why there are none.
pub open spec fn task_settings_view(r: Result<TaskSettings, ConfigError>) -> Result<
    TaskSettingsView,
    ConfigErrorView,
> {
    match r {
        Ok(settings) => Ok(settings@),
        Err(error) => Err(error@),
    }
}

/// The model of settings or of the reason why there are none.
pub open spec fn launch_settings_view(r: Result<LaunchSettings, ConfigError>) -> Result<
    LaunchSettingsView,
    ConfigErrorView,
> {
    match r {
        Ok(settings) => Ok(settings@),
        Err(error) => Err(error@),
    }
}

/// An internet address is written with digits and dots alone.
pub proof fn lemma_address_is_plain(s: Seq<char>)
    requires
        is_ipv4_address(s),
    ensures
        is_plain_text(s),
{
    let (i, j, k) = choose|i: int, j: int, k: int| is_dotted_quad_at(s, i, j, k);
    assert forall|p: int| 0 <= p < s.len() implies is_plain(#[trigger] s[p]) by {
        if p < i {
            assert(s.subrange(0, i)[p] == s[p]);
        } else if i < p < j {
            assert(s.subrange(i + 1, j)[p - i - 1] == s[p]);
        } else if j < p < k {
            assert(s.subrange(j + 1, k)[p - j - 1] == s[p]);
        } else if k < p {
            assert(s.subrange(k + 1, s.len() as int)[p - k - 1] == s[p]);
        }
    }
}

/// The address of this machine is an internet address.
pub proof fn lemma_default_address_is_valid()
    ensures
        is_ipv4_address(default_address()),
{
    let s = default_address();
    reveal_strlit("127.0.0.1");
    reveal_with_fuel(numeral_value, 4);
    assert(s.subrange(0, 3) =~= seq!['1', '2', '7']);
    assert(s.subrange(4, 5) =~= seq!['0']);
    assert(s.subrange(6, 7) =~= seq!['0']);
    assert(s.subrange(8, 9) =~= seq!['1']);
    assert(seq!['1', '2', '7'].drop_last() =~= seq!['1', '2']);
    assert(seq!['1', '2'].drop_last() =~= seq!['1']);
    assert(is_octet(seq!['1', '2', '7']));
    assert(is_octet(seq!['0']));
    assert(is_octet(seq!['1']));
    assert(is_dotted_quad_at(s, 3, 5, 7));
}

/// Tells how a session with this adapter begins: always by joining a running
/// process.
pub fn dap_request_kind() -> (r: Result<StartDebuggingRequestArgumentsRequest, ConfigError>)
    ensures
        r == Ok::<StartDebuggingRequestArgumentsRequest, ConfigError>(
            StartDebuggingRequestArgumentsRequest::Attach,
        ),
{
    Ok(StartDebuggingRequestArgumentsRequest::Attach)
}

/// Turns what the user asks for into a scenario for this adapter. Only the
/// wish to join a running process is served. Where the process is known,
/// the scenario names the port on which its editor listens; no build task
/// and no TCP connection are asked for.
pub fn dap_config_to_scenario(config: DebugConfig) -> (r: Result<DebugScenario, ConfigError>)
    ensures
        match r {
            Ok(scenario) => {
                &&& config.request matches DebugRequest::Attach(request)
                &&& scenario.label@ == config.label@
                &&& scenario.adapter@ == config.adapter@
                &&& scenario.build is None
                &&& scenario.config@ == scenario_config(request.process_id)
                &&& scenario.tcp_connection is None
            },
            Err(error) => config.request is Launch && error is Launch,
        },
{
    match config.request {
        DebugRequest::Launch => Err(ConfigError::Launch),
        DebugRequest::Attach(request) => {
            let text = match request.process_id {
                Some(process_id) => {
                    let port: u32 = 56000 + process_id % 1000;
                    proof {
                        lemma_keys();
                    }
                    number_object("port", port as u64)
                },
                None => empty_object(),
            };
            Ok(
                DebugScenario {
                    label: config.label,
                    adapter: config.adapter,
                    build: None,
                    config: text,
                    tcp_connection: None,
                },
            )
        },
    }
}

/// The two keys of the adapter's settings are plain, and `address` comes
/// before `port`.
proof fn lemma_keys()
    ensures
        is_plain_text("address"@),
        is_plain_text("port"@),
        lex_lt("address"@, "port"@),
{
    reveal_strlit("address");
    reveal_strlit("port");
}

/// Reads the settings of a task from their JSON text.
pub fn read_task_settings(config: &str) -> (r: Result<TaskSettings, ConfigError>)
    ensures
        task_settings_view(r) == task_settings_of(parsed_document(config@)),
{
    match parse_document(config) {
        Err(reason) => Err(ConfigError::Parse { reason }),
        Ok(value) => Ok(
            TaskSettings {
                mono_path: text_member(&value, "monoPath"),
                log_level: text_member(&value, "logLevel"),
                address: text_member(&value, "address"),
                port: unsigned_member(&value, "port"),
            },
        ),
    }
}

/// Checks and completes the settings of a task.
pub fn launch_settings(
    adapter_name: &str,
    settings: Result<TaskSettings, ConfigError>,
    user_provided_debug_adapter_path: Option<String>,
    os: Os,
    debug_build: bool,
) -> (r: Result<LaunchSettings, ConfigError>)
    ensures
        launch_settings_view(r) == launch_settings_of(
            adapter_name@,
            task_settings_view(settings),
            user_provided_debug_adapter_path.deep_view(),
            os,
            debug_build,
        ),
{
    if !same_text(adapter_name, UNITY_DAP_NAME) {
        return Err(ConfigError::Adapter { requested: String::from_str(adapter_name) });
    }
    let task = match settings {
        Err(error) => {
            return Err(error);
        },
        Ok(task) => task,
    };
    let mono_path = match task.mono_path {
        Some(path) => path,
        None => match user_provided_debug_adapter_path {
            Some(path) => path,
            None => match os {
                Os::Windows => String::from_str("mono.exe"),
                _ => String::from_str("mono"),
            },
        },
    };
    let log_level = match task.log_level {
        Some(level) => level,
        None => if debug_build {
            String::from_str("debug")
        } else {
            String::from_str("warn")
        },
    };
    let address = match task.address {
        Some(address) => {
            if !is_ipv4(address.as_str()) {
                return Err(ConfigError::Address { address });
            }
            address
        },
        None => {
            proof {
                lemma_default_address_is_valid();
            }
            String::from_str("127.0.0.1")
        },
    };
    let port: u16 = match task.port {
        Some(port) if port <= 0xffff => port as u16,
        _ => {
            return Err(ConfigError::Port);
        },
    };
    Ok(
        LaunchSettings {
            mono_path,
            log_level,
            address,
            port,
            request: StartDebuggingRequestArgumentsRequest::Attach,
        },
    )
}

/// Reads, checks and completes the settings of a task. Nothing outside is
/// touched: what is wrong with a task is known before any install is looked
/// for.
pub fn prepare_dap_binary(
    adapter_name: &str,
    config: &str,
    user_provided_debug_adapter_path: Option<String>,
    os: Os,
    debug_build: bool,
) -> (r: Result<LaunchSettings, ConfigError>)
    ensures
        launch_settings_view(r) == launch_settings_of(
            adapter_name@,
            task_settings_of(parsed_document(config@)),
            user_provided_debug_adapter_path.deep_view(),
            os,
            debug_build,
        ),
{
    launch_settings(
        adapter_name,
        read_task_settings(config),
        user_provided_debug_adapter_path,
        os,
        debug_build,
    )
}

impl LaunchSettings {
    #[verifier::type_invariant]
    spec fn well_formed(&self) -> bool {
        is_ipv4_address(self.address@)
    }

    /// The runtime that runs the adapter.
    pub fn mono_path(&self) -> (r: &String)
        ensures
            r@ == self@.mono_path,
    {
        &self.mono_path
    }

    pub fn log_level(&self) -> (r: &String)
        ensures
            r@ == self@.log_level,
    {
        &self.log_level
    }

    /// Where the session to debug listens.
    pub fn address(&self) -> (r: &String)
        ensures
            r@ == self@.address,
            is_ipv4_address(r@),
    {
        proof {
            use_type_invariant(self);
        }
        &self.address
    }

    pub fn port(&self) -> (r: u16)
        ensures
            r == self@.port,
    {
        self.port
    }

    pub fn request(&self) -> (r: StartDebuggingRequestArgumentsRequest)
        ensures
            r == self@.request,
    {
        self.request
    }
}

/// The adapter's settings for a session: where the process to debug
/// listens.
pub open spec fn session_config(address: Seq<char>, port: u16) -> Seq<char> {
    text_number_object_text("address"@, address, "port"@, port as nat)
}

/// Says how the adapter is started and how the session is begun: the
/// runtime runs the adapter's executable at the chosen log level, in the
/// root of the worktree, with no variables added and no TCP connection.
pub fn debug_adapter_binary(
    settings: LaunchSettings,
    unity_dap_binary: String,
    worktree_root: String,
) -> (r: DebugAdapterBinary)
    ensures
        r.command.deep_view() == Some(settings@.mono_path),
        r.arguments.deep_view() == seq![unity_dap_binary@, "--log-level="@ + settings@.log_level],
        r.envs@.len() == 0,
        r.cwd.deep_view() == Some(worktree_root@),
        r.connection is None,
        r.request_args.configuration@ == session_config(settings@.address, settings@.port),
        r.request_args.request == settings@.request,
{
    proof {
        use_type_invariant(&settings);
        lemma_address_is_plain(settings.address@);
        lemma_keys();
    }
    let configuration = text_number_object(
        "address",
        settings.address.as_str(),
        "port",
        settings.port as u64,
    );
    let level = glue("--log-level=", settings.log_level.as_str());
    let mut arguments: Vec<String> = Vec::new();
    arguments.push(unity_dap_binary);
    arguments.push(level);
    assert(arguments.deep_view() =~= seq![
        unity_dap_binary@,
        "--log-level="@ + settings@.log_level,
    ]);
    DebugAdapterBinary {
        command: Some(settings.mono_path),
        arguments,
        envs: Vec::new(),
        cwd: Some(worktree_root),
        connection: None,
        request_args: StartDebuggingRequestArguments {
            configuration,
            request: settings.request,
        },
    }
}

} // verus!
