use codemcp::config::{ServerSpec, UpstreamConfig};
use codemcp::error::Error;
use codemcp::json::compact;
use codemcp::names::NameMap;
use codemcp::runtime::{
    Runtime, SdkState, SwitchAction, SwitchEvent, SwitchOutcome, SwitchStage,
};
use codemcp::upstream::{ConnectOutcome, Tool, Upstream, UpstreamManager};

fn remote(name: &str, enabled: bool) -> UpstreamConfig {
    UpstreamConfig {
        name: name.to_string(),
        spec: ServerSpec::Remote {
            url: format!("http://{name}"),
            headers: NameMap::new(),
            enabled: None,
            timeout: None,
        },
        enabled,
    }
}

fn local(name: &str, enabled: bool) -> UpstreamConfig {
    UpstreamConfig {
        name: name.to_string(),
        spec: ServerSpec::Local {
            command: vec![name.to_string()],
            environment: NameMap::new(),
            cwd: None,
            enabled: Some(enabled),
            timeout: None,
        },
        enabled,
    }
}

fn sdk(registry: u32, description: &str) -> SdkState<u32> {
    SdkState { registry, description: description.to_string() }
}

fn runtime() -> Runtime<u32, &'static str> {
    let list = vec![remote("sentry", true), local("brave", false)];
    Runtime::new("/etc/mcp.json", "opencode", Ok(list), sdk(1, "first")).unwrap()
}

fn manager() -> UpstreamManager<u32> {
    UpstreamManager::connect_all(vec![ConnectOutcome::Connected {
        name: "sentry".to_string(),
        upstream: Upstream {
            service: 0,
            tools: vec![
                Tool { name: "a".to_string(), definition: String::new() },
                Tool { name: "b".to_string(), definition: String::new() },
            ],
        },
    }])
}

fn defaults(rt: &Runtime<u32, &'static str>) -> Vec<bool> {
    rt.list(&manager()).iter().map(|s| s.enabled_in_config).collect()
}

#[test]
fn status_of_every_server_is_listed() {
    let rt = runtime();
    assert_eq!(rt.config_path(), "/etc/mcp.json");
    assert_eq!(rt.launcher(), "opencode");
    let list = rt.list(&manager());
    assert_eq!(list.len(), 2);
    assert_eq!(list[0].name, "brave");
    assert_eq!(list[0].kind, "local");
    assert!(!list[0].enabled_in_config);
    assert!(!list[0].connected);
    assert_eq!(list[0].tools, 0);
    assert_eq!(list[1].name, "sentry");
    assert_eq!(list[1].kind, "remote");
    assert!(list[1].enabled_in_config);
    assert!(list[1].connected);
    assert_eq!(list[1].tools, 2);
    let own = manager().all_tools().iter().filter(|t| t.server == "sentry").count();
    assert_eq!(list[1].tools, own);
}

#[test]
fn connecting_shows_in_the_status() {
    let rt = runtime();
    let mut upstreams = manager();
    let tools = vec![Tool { name: "t".to_string(), definition: String::new() }];
    let (count, _) = upstreams.connect_one("brave", Ok(Upstream { service: 1, tools })).unwrap();
    let list = rt.list(&upstreams);
    assert!(list[0].connected && !list[0].enabled_in_config);
    assert_eq!(list[0].tools, count);
    assert_eq!(list[1].tools, 2);
    upstreams.disconnect_one("brave");
    let list = rt.list(&upstreams);
    assert!(!list[0].connected);
    assert_eq!(list[0].tools, 0);
    assert!(list[1].connected);
}

#[test]
fn later_entry_of_a_name_counts() {
    let list = vec![local("x", true), remote("x", false)];
    let rt: Runtime<u32, u8> = Runtime::new("c", "l", Ok(list), sdk(1, "d")).unwrap();
    let status = rt.list(&manager());
    assert_eq!(status.len(), 1);
    assert_eq!(status[0].kind, "remote");
    assert!(!status[0].enabled_in_config);
}

#[test]
fn broken_configuration_is_no_runtime() {
    let r: Result<Runtime<u32, u8>, Error> =
        Runtime::new("c", "l", Err(Error::Config("bad".to_string())), sdk(1, "d"));
    match r {
        Err(e) => assert_eq!(e.message(), "bad"),
        Ok(_) => panic!("made"),
    }
}

#[test]
fn enabling_lasts_as_long_as_the_gateway() {
    let mut rt = runtime();
    let (switch, action) = rt.enable("brave", false);
    assert!(matches!(
        action,
        SwitchAction::Connect(name, ServerSpec::Local { .. }) if name == "brave"
    ));
    assert_eq!(switch.name(), "brave");
    let (switch, action) = rt.step(switch, SwitchEvent::Connected(Ok(3)));
    assert!(matches!(action, SwitchAction::Reload));
    let (switch, action) = rt.step(switch, SwitchEvent::Reloaded(Ok(())));
    assert!(matches!(action, SwitchAction::Finish(Ok(SwitchOutcome::Connected(3)))));
    assert_eq!(switch.stage(), SwitchStage::Over);
    assert_eq!(defaults(&rt), vec![false, true]);
}

#[test]
fn enabling_by_default_is_written_down() {
    let mut rt = runtime();
    let (switch, _) = rt.enable("brave", true);
    let (switch, _) = rt.step(switch, SwitchEvent::Connected(Ok(1)));
    let (switch, action) = rt.step(switch, SwitchEvent::Reloaded(Ok(())));
    assert!(matches!(
        action,
        SwitchAction::Persist { path, name, enabled: true }
            if path == "/etc/mcp.json" && name == "brave"
    ));
    assert_eq!(defaults(&rt), vec![false, true]);
    let (_, action) = rt.step(switch, SwitchEvent::Persisted(Ok(())));
    assert!(matches!(action, SwitchAction::Finish(Ok(SwitchOutcome::Connected(1)))));
    assert_eq!(defaults(&rt), vec![true, true]);
}

#[test]
fn disabling_by_default_is_written_down() {
    let mut rt = runtime();
    let (switch, action) = rt.disable("sentry", true);
    assert!(matches!(action, SwitchAction::Disconnect(name) if name == "sentry"));
    let (switch, _) = rt.step(switch, SwitchEvent::Disconnected(true));
    let (switch, action) = rt.step(switch, SwitchEvent::Reloaded(Ok(())));
    assert!(matches!(
        action,
        SwitchAction::Persist { path, name, enabled: false }
            if path == "/etc/mcp.json" && name == "sentry"
    ));
    let (_, action) = rt.step(switch, SwitchEvent::Persisted(Ok(())));
    assert!(matches!(action, SwitchAction::Finish(Ok(SwitchOutcome::Disconnected(true)))));
    assert_eq!(defaults(&rt), vec![false, false]);
}

fn failed(action: SwitchAction) -> String {
    match action {
        SwitchAction::Finish(Err(e)) => e.message().to_string(),
        other => panic!("{other:?}"),
    }
}

#[test]
fn unknown_server_cannot_be_switched() {
    let rt = runtime();
    let (switch, action) = rt.enable("nobody", true);
    assert_eq!(switch.stage(), SwitchStage::Over);
    assert_eq!(failed(action), "unknown server: nobody");
    let (_, action) = rt.disable("nobody", false);
    assert_eq!(failed(action), "unknown server: nobody");
}

#[test]
fn failed_switch_leaves_the_defaults() {
    let mut rt = runtime();
    let bad = || Error::Other("bad".to_string());
    let (switch, _) = rt.enable("brave", true);
    let (_, action) = rt.step(switch, SwitchEvent::Connected(Err(bad())));
    assert_eq!(failed(action), "bad");
    let (switch, _) = rt.disable("sentry", true);
    let (switch, _) = rt.step(switch, SwitchEvent::Disconnected(false));
    let (_, action) = rt.step(switch, SwitchEvent::Reloaded(Err(bad())));
    assert_eq!(failed(action), "bad");
    let (switch, _) = rt.enable("brave", true);
    let (switch, _) = rt.step(switch, SwitchEvent::Connected(Ok(0)));
    let (switch, _) = rt.step(switch, SwitchEvent::Reloaded(Ok(())));
    let (_, action) = rt.step(switch, SwitchEvent::Persisted(Err(bad())));
    assert_eq!(failed(action), "bad");
    assert_eq!(defaults(&rt), vec![false, true]);
}

#[test]
fn sdk_changes_only_with_the_worker() {
    let mut rt = runtime();
    assert!(rt.regenerate_and_reload(Err(Error::Other("x".to_string())), sdk(2, "second")).is_err());
    assert_eq!(rt.description(), "first");
    assert_eq!(*rt.registry(), 1);
    assert!(rt.regenerate_and_reload(Ok(()), sdk(2, "second")).is_ok());
    assert_eq!(rt.description(), "second");
    assert_eq!(*rt.registry(), 2);
}

#[test]
fn clients_that_are_gone_are_forgotten() {
    let mut rt = runtime();
    rt.register_peer("a");
    rt.register_peer("b");
    rt.register_peer("c");
    rt.keep_notified(&vec![true, false, true]);
    assert_eq!(*rt.peers(), vec!["a", "c"]);
    rt.keep_notified(&vec![false, false]);
    assert!(rt.peers().is_empty());
}

#[test]
fn tool_takes_one_string() {
    assert_eq!(
        compact(&runtime().tool_definition()).unwrap(),
        concat_lines(&[
            r#"{"description":"first","inputSchema":{"additionalProperties":false,"#,
            r#""properties":{"code":{"description":"Python source to execute. SDK functions are "#,
            r#"preloaded; assign to `result` (or leave a final expression) to return a value.","#,
            r#""type":"string"}},"required":["code"],"type":"object"},"name":"execute_python"}"#,
        ])
    );
}

fn concat_lines(parts: &[&str]) -> String {
    parts.concat()
}
