use unity_debug_adapter::errors::ConfigError;
use unity_debug_adapter::config::{
    dap_config_to_scenario, dap_request_kind, debug_adapter_binary, launch_settings, prepare_dap_binary,
    read_task_settings, AttachRequest, DebugConfig, DebugRequest, DebugScenario, Os,
    StartDebuggingRequestArgumentsRequest, TaskSettings,
};

fn attach(process_id: Option<u32>) -> DebugConfig {
    DebugConfig {
        label: "Attach to Unity".to_string(),
        adapter: "UnityDAP".to_string(),
        request: DebugRequest::Attach(AttachRequest { process_id }),
        stop_on_entry: None,
    }
}

#[test]
fn request_kind_is_always_attach() {
    assert_eq!(dap_request_kind(), Ok(StartDebuggingRequestArgumentsRequest::Attach));
}

#[test]
fn scenario_derives_port_from_process_id() {
    assert_eq!(
        dap_config_to_scenario(attach(Some(12345))),
        Ok(DebugScenario {
            label: "Attach to Unity".to_string(),
            adapter: "UnityDAP".to_string(),
            build: None,
            config: "{\"port\":56345}".to_string(),
            tcp_connection: None,
        })
    );
    assert_eq!(dap_config_to_scenario(attach(Some(0))).unwrap().config, "{\"port\":56000}");
    assert_eq!(dap_config_to_scenario(attach(Some(999))).unwrap().config, "{\"port\":56999}");
    assert_eq!(dap_config_to_scenario(attach(Some(1000))).unwrap().config, "{\"port\":56000}");
    assert_eq!(dap_config_to_scenario(attach(Some(u32::MAX))).unwrap().config, "{\"port\":56295}");
}

#[test]
fn scenario_without_process_id_has_empty_config() {
    assert_eq!(dap_config_to_scenario(attach(None)).unwrap().config, "{}");
}

#[test]
fn scenario_refuses_launch() {
    let config = DebugConfig {
        label: "Run".to_string(),
        adapter: "UnityDAP".to_string(),
        request: DebugRequest::Launch,
        stop_on_entry: Some(true),
    };
    assert_eq!(dap_config_to_scenario(config), Err(ConfigError::Launch));
}

#[test]
fn task_config_without_port_is_refused() {
    let outcome = prepare_dap_binary("UnityDAP", "{}", None, Os::Linux, false);
    assert_eq!(outcome.err(), Some(ConfigError::Port));
}

#[test]
fn port_must_fit_sixteen_bits() {
    for config in [
        "{\"port\":65536}",
        "{\"port\":-1}",
        "{\"port\":80.5}",
        "{\"port\":80.0}",
        "{\"port\":8e1}",
        "{\"port\":\"80\"}",
        "{\"port\":null}",
        "{\"port\":18446744073709551616}",
        "{\"Port\":80}",
        "[80]",
        "80",
    ] {
        let outcome = prepare_dap_binary("UnityDAP", config, None, Os::Linux, false);
        assert_eq!(outcome.err(), Some(ConfigError::Port), "{config}");
    }
    for (config, port) in [("{\"port\":0}", 0), ("{\"port\":65535}", 65535), ("{\"port\": 56123 }", 56123)] {
        let settings = prepare_dap_binary("UnityDAP", config, None, Os::Linux, false).unwrap();
        assert_eq!(settings.port(), port);
    }
}

#[test]
fn other_adapter_is_refused_first() {
    let outcome = prepare_dap_binary("CodeLLDB", "not json", None, Os::Linux, false);
    let error = outcome.err().unwrap();
    assert_eq!(error, ConfigError::Adapter { requested: "CodeLLDB".to_string() });
    assert_eq!(error.message(), "debug adapter must be set to `UnityDAP` (requested `CodeLLDB`)");
}

#[test]
fn malformed_config_is_refused() {
    let outcome = prepare_dap_binary("UnityDAP", "{\"port\": ", None, Os::Linux, false);
    let error = outcome.err().unwrap();
    assert_eq!(
        error,
        ConfigError::Parse { reason: "EOF while parsing a value at line 1 column 9".to_string() }
    );
    assert_eq!(error.message(), "failed to parse config: EOF while parsing a value at line 1 column 9");
    let outcome = prepare_dap_binary("UnityDAP", "", None, Os::Linux, false);
    assert_eq!(
        outcome.err(),
        Some(ConfigError::Parse { reason: "EOF while parsing a value at line 1 column 0".to_string() })
    );
}

#[test]
fn bad_address_is_refused_before_port() {
    let outcome = prepare_dap_binary("UnityDAP", "{\"address\":\"localhost\"}", None, Os::Linux, false);
    let error = outcome.err().unwrap();
    assert_eq!(error, ConfigError::Address { address: "localhost".to_string() });
    assert_eq!(error.message(), "failed to parse valid address `localhost`: invalid IPv4 address syntax");
    let outcome =
        prepare_dap_binary("UnityDAP", "{\"address\":\"10.0.0.256\",\"port\":1}", None, Os::Linux, false);
    assert_eq!(outcome.err(), Some(ConfigError::Address { address: "10.0.0.256".to_string() }));
}

#[test]
fn defaults_fill_what_the_task_leaves_out() {
    let settings = prepare_dap_binary("UnityDAP", "{\"port\":56001}", None, Os::Linux, false).unwrap();
    assert_eq!(settings.mono_path(), "mono");
    assert_eq!(settings.log_level(), "warn");
    assert_eq!(settings.address(), "127.0.0.1");
    assert_eq!(settings.port(), 56001);
    assert_eq!(settings.request(), StartDebuggingRequestArgumentsRequest::Attach);
    let settings = prepare_dap_binary("UnityDAP", "{\"port\":56001}", None, Os::Mac, true).unwrap();
    assert_eq!(settings.mono_path(), "mono");
    assert_eq!(settings.log_level(), "debug");
    let settings = prepare_dap_binary("UnityDAP", "{\"port\":56001}", None, Os::Windows, false).unwrap();
    assert_eq!(settings.mono_path(), "mono.exe");
}

#[test]
fn mono_path_of_task_beats_user_path_beats_default() {
    let user = Some("/opt/mono/bin/mono".to_string());
    let settings = prepare_dap_binary(
        "UnityDAP",
        "{\"port\":1,\"monoPath\":\"/usr/bin/mono\"}",
        user.clone(),
        Os::Windows,
        false,
    )
    .unwrap();
    assert_eq!(settings.mono_path(), "/usr/bin/mono");
    let settings = prepare_dap_binary("UnityDAP", "{\"port\":1}", user.clone(), Os::Windows, false).unwrap();
    assert_eq!(settings.mono_path(), "/opt/mono/bin/mono");
    let settings =
        prepare_dap_binary("UnityDAP", "{\"port\":1,\"monoPath\":7}", user, Os::Windows, false).unwrap();
    assert_eq!(settings.mono_path(), "/opt/mono/bin/mono");
}

#[test]
fn task_settings_are_read_by_kind() {
    let text = "{\"monoPath\":\"m\",\"logLevel\":\"trace\",\"address\":\"1.2.3.4\",\"port\":8080,\"extra\":[1]}";
    assert_eq!(
        read_task_settings(text),
        Ok(TaskSettings {
            mono_path: Some("m".to_string()),
            log_level: Some("trace".to_string()),
            address: Some("1.2.3.4".to_string()),
            port: Some(8080),
        })
    );
    assert_eq!(
        read_task_settings("{\"monoPath\":1,\"logLevel\":null,\"address\":{},\"port\":\"1\"}"),
        Ok(TaskSettings { mono_path: None, log_level: None, address: None, port: None })
    );
    assert_eq!(
        read_task_settings("\"port\""),
        Ok(TaskSettings { mono_path: None, log_level: None, address: None, port: None })
    );
    assert_eq!(
        read_task_settings("{\"port\":18446744073709551615}").unwrap().port,
        Some(u64::MAX)
    );
    assert_eq!(
        read_task_settings("{\"logLevel\":\"a\\\"b\\u00e9\"}").unwrap().log_level,
        Some("a\"bé".to_string())
    );
    assert_eq!(
        read_task_settings("{port:1}"),
        Err(ConfigError::Parse { reason: "key must be a string at line 1 column 2".to_string() })
    );
}

#[test]
fn launch_settings_take_parsed_settings() {
    let task = TaskSettings {
        mono_path: None,
        log_level: Some("info".to_string()),
        address: Some("192.168.0.7".to_string()),
        port: Some(56789),
    };
    let settings = launch_settings("UnityDAP", Ok(task), None, Os::Linux, true).unwrap();
    assert_eq!(settings.log_level(), "info");
    assert_eq!(settings.address(), "192.168.0.7");
    assert_eq!(settings.port(), 56789);
    let unread = || Err(ConfigError::Parse { reason: "x".to_string() });
    let outcome = launch_settings("UnityDAP", unread(), None, Os::Linux, true);
    assert_eq!(outcome.err(), Some(ConfigError::Parse { reason: "x".to_string() }));
    let outcome = launch_settings("", unread(), None, Os::Linux, true);
    assert_eq!(outcome.err(), Some(ConfigError::Adapter { requested: String::new() }));
}

#[test]
fn binary_runs_adapter_under_mono() {
    let settings = prepare_dap_binary(
        "UnityDAP",
        "{\"address\":\"10.1.2.3\",\"port\":56123,\"logLevel\":\"trace\"}",
        None,
        Os::Linux,
        false,
    )
    .unwrap();
    let binary = debug_adapter_binary(
        settings,
        "/work/unity-debug-adapter-2.0.0/Release/unity-debug-adapter.exe".to_string(),
        "/home/me/game".to_string(),
    );
    assert_eq!(binary.command, Some("mono".to_string()));
    assert_eq!(
        binary.arguments,
        vec![
            "/work/unity-debug-adapter-2.0.0/Release/unity-debug-adapter.exe".to_string(),
            "--log-level=trace".to_string(),
        ]
    );
    assert_eq!(binary.envs, Vec::new());
    assert_eq!(binary.cwd, Some("/home/me/game".to_string()));
    assert_eq!(binary.connection, None);
    assert_eq!(binary.request_args.configuration, "{\"address\":\"10.1.2.3\",\"port\":56123}");
    assert_eq!(binary.request_args.request, StartDebuggingRequestArgumentsRequest::Attach);
}

#[test]
fn binary_uses_loopback_by_default() {
    let settings = prepare_dap_binary("UnityDAP", "{\"port\":0}", None, Os::Windows, true).unwrap();
    let binary = debug_adapter_binary(settings, "b".to_string(), "r".to_string());
    assert_eq!(binary.request_args.configuration, "{\"address\":\"127.0.0.1\",\"port\":0}");
    assert_eq!(binary.arguments, vec!["b".to_string(), "--log-level=debug".to_string()]);
    assert_eq!(binary.command, Some("mono.exe".to_string()));
}
