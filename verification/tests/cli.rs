use codemcp::admin::{error_response, list_response, switch_response, EnableParams};
use codemcp::cli::{
    print_action, print_instances, print_list, print_sdk, print_tool, route, run_admin, run_local,
    AdminAction, AdminEvent, Cli, Command, Harness, Instance, InstanceSel, Output, Route,
    DEFAULT_HTTP_PORT,
};
use codemcp::error::Error;
use codemcp::json::{compact, parse};
use codemcp::runtime::{ServerStatus, SwitchOutcome};

fn sel(instance: Option<&str>) -> InstanceSel {
    InstanceSel { instance: instance.map(|s| s.to_string()) }
}

fn lines(outputs: Vec<Output>) -> Vec<String> {
    outputs
        .into_iter()
        .map(|o| match o {
            Output::Line(s) => format!("out: {s}"),
            Output::ErrorLine(s) => format!("err: {s}"),
            Output::Raw(s) => format!("raw: {s}"),
        })
        .collect()
}

#[test]
fn commands_know_where_they_run() {
    let setup = Command::Setup { harness: Harness::Opencode };
    assert!(setup.is_local() && !setup.is_gateway());
    let start = Command::Start { port: DEFAULT_HTTP_PORT, host: "127.0.0.1".to_string() };
    assert!(start.is_gateway() && !start.is_local());
    assert!(!Command::Instances.is_local() && !Command::Instances.is_gateway());
    assert_eq!(DEFAULT_HTTP_PORT, 3388);
}

#[test]
fn local_commands_set_their_harness_up() {
    let setup = || Command::Setup { harness: Harness::Opencode };
    let mut seen = Vec::new();
    let done = run_local(setup(), |harness| {
        seen.push(harness);
        Ok(())
    });
    assert!(done.is_ok());
    assert_eq!(seen, vec![Harness::Opencode]);
    let failed = run_local(setup(), |_| Err(Error::Config("no opencode.json".to_string())));
    assert_eq!(failed.unwrap_err().message(), "no opencode.json");
}

#[test]
fn command_lines_are_routed() {
    assert!(matches!(route(Cli { command: None }), Route::Gateway(None)));
    let start = Command::Start { port: 9, host: "h".to_string() };
    assert!(matches!(
        route(Cli { command: Some(start) }),
        Route::Gateway(Some((9, host))) if host == "h"
    ));
    let setup = Command::Setup { harness: Harness::Opencode };
    assert!(matches!(route(Cli { command: Some(setup) }), Route::Local(_)));
    let list = Command::List { instance: sel(None) };
    assert!(matches!(route(Cli { command: Some(list) }), Route::Admin(Command::List { .. })));
}

fn status(name: &str, enabled: bool, connected: bool, tools: usize) -> ServerStatus {
    ServerStatus {
        name: name.to_string(),
        kind: "local".to_string(),
        enabled_in_config: enabled,
        connected,
        tools,
    }
}

#[test]
fn servers_are_printed_as_a_table() {
    let reply = list_response(&vec![status("github", true, true, 45), status("brave", false, false, 0)]);
    assert_eq!(
        lines(print_list(&reply)),
        vec![
            "out: NAME                   TYPE    DEFAULT   CONNECTED  TOOLS",
            "out: github                 local   yes       yes        45",
            "out: brave                  local   no        no         0",
        ]
    );
}

#[test]
fn unknown_parts_of_a_status_have_defaults() {
    let reply = parse(r#"{"servers": [{}, {"name": "a-name-longer-than-the-column", "tools": -1}]}"#);
    assert_eq!(
        lines(print_list(&reply.unwrap()))[1..],
        [
            "out: ?                      ?       no        no         0".to_string(),
            "out: a-name-longer-than-the-column ?       no        no         0".to_string(),
        ]
    );
}

#[test]
fn other_replies_are_printed_whole() {
    let reply = parse(r#"{"x": [1]}"#).unwrap();
    let whole = vec!["out: {\n  \"x\": [\n    1\n  ]\n}".to_string()];
    assert_eq!(lines(print_list(&reply)), whole);
    assert_eq!(lines(print_tool(&reply)), whole);
    assert_eq!(lines(print_sdk(&reply)), whole);
}

#[test]
fn reported_errors_go_to_standard_error() {
    let reply = error_response("no such server");
    let expected = vec!["err: error: no such server".to_string()];
    assert_eq!(lines(print_list(&reply)), expected);
    assert_eq!(lines(print_tool(&reply)), expected);
    assert_eq!(lines(print_sdk(&reply)), expected);
    assert_eq!(lines(print_action("enabled", &reply)), expected);
}

#[test]
fn switches_are_reported() {
    let params = |make_default| EnableParams { name: "brave".to_string(), make_default };
    let on = Ok(SwitchOutcome::Connected(6));
    assert_eq!(
        lines(print_action("enabled", &switch_response(&params(true), &on))),
        vec!["out: brave enabled (6 tools) [persisted to mcp.json]"]
    );
    assert_eq!(
        lines(print_action("enabled", &switch_response(&params(false), &on))),
        vec!["out: brave enabled (6 tools)"]
    );
    let off = Ok(SwitchOutcome::Disconnected(true));
    assert_eq!(
        lines(print_action("disabled", &switch_response(&params(true), &off))),
        vec!["out: brave disabled [persisted to mcp.json]"]
    );
    let refused = Err(Error::Config("unknown server: brave".to_string()));
    assert_eq!(
        lines(print_action("enabled", &switch_response(&params(false), &refused))),
        vec!["err: error: unknown server: brave"]
    );
    assert_eq!(lines(print_action("enabled", &parse("[]").unwrap())), vec!["out: ? enabled"]);
}

#[test]
fn tool_and_sdk_are_printed() {
    let reply = parse(r#"{"tool": {"name": "t"}}"#).unwrap();
    assert_eq!(lines(print_tool(&reply)), vec!["out: {\n  \"name\": \"t\"\n}"]);
    let reply = parse(r#"{"sdk": "def f(): ...\n"}"#).unwrap();
    assert_eq!(lines(print_sdk(&reply)), vec!["raw: def f(): ...\n"]);
}

fn instance(launcher: &str, pid: u32) -> Instance {
    Instance { launcher: launcher.to_string(), pid, config: "/c/mcp.json".to_string() }
}

#[test]
fn gateways_are_printed_as_a_table() {
    assert_eq!(
        lines(print_instances(&Vec::new())),
        vec!["out: no running codemcp gateways found"]
    );
    assert_eq!(
        lines(print_instances(&vec![instance("opencode", 123456)])),
        vec!["out: LAUNCHER       PID      CONFIG", "out: opencode       123456   /c/mcp.json"]
    );
}

#[test]
fn gateways_are_selected_by_what_is_known_of_them() {
    let gateway = instance("opencode", 42);
    assert!(gateway.is_selected_by("opencode"));
    assert!(gateway.is_selected_by("/c/mcp"));
    assert!(gateway.is_selected_by("json"));
    assert!(gateway.is_selected_by("42"));
    assert!(!gateway.is_selected_by("open"));
    assert!(!gateway.is_selected_by("4"));
    assert!(!gateway.is_selected_by("a path longer than the configuration's"));
}

fn request(action: AdminAction) -> (Option<String>, String, String) {
    match action {
        AdminAction::Request { instance, method, params } => {
            (instance, method, compact(&params).unwrap())
        }
        other => panic!("{other:?}"),
    }
}

#[test]
fn list_selects_a_gateway_first() {
    let step = run_admin(Command::List { instance: sel(Some("open")) });
    assert!(matches!(&step.action, AdminAction::Select { instance: Some(i) } if i == "open"));
    let step = step.run.step(AdminEvent::Selected(Ok(instance("opencode", 7))));
    assert_eq!(lines(step.print), vec!["out: # gateway [opencode] pid 7"]);
    assert_eq!(
        request(step.action),
        (Some("open".to_string()), "list".to_string(), "{}".to_string())
    );
    let step = step.run.step(AdminEvent::Replied(Ok(list_response(&Vec::new()))));
    assert_eq!(lines(step.print).len(), 1);
    assert!(matches!(step.action, AdminAction::Finish(Ok(()))));
}

#[test]
fn tool_and_sdk_select_quietly() {
    for (command, method) in [
        (Command::Tool { instance: sel(None) }, "tool"),
        (Command::Sdk { instance: sel(None) }, "sdk"),
    ] {
        let step = run_admin(command);
        let step = step.run.step(AdminEvent::Selected(Ok(instance("l", 1))));
        assert!(step.print.is_empty());
        assert_eq!(request(step.action), (None, method.to_string(), "{}".to_string()));
        let step = step.run.step(AdminEvent::Replied(Ok(error_response("x"))));
        assert_eq!(lines(step.print), vec!["err: error: x"]);
    }
}

#[test]
fn switches_ask_at_once() {
    let name = || "brave".to_string();
    let step = run_admin(Command::Enable { name: name(), make_default: true, instance: sel(None) });
    assert_eq!(
        request(step.action),
        (None, "enable".to_string(), r#"{"make_default":true,"name":"brave"}"#.to_string())
    );
    let step =
        run_admin(Command::Disable { name: name(), make_default: false, instance: sel(Some("9")) });
    assert_eq!(
        request(step.action),
        (
            Some("9".to_string()),
            "disable".to_string(),
            r#"{"make_default":false,"name":"brave"}"#.to_string()
        )
    );
    let reply = parse(r#"{"name": "brave", "connected": false}"#).unwrap();
    let step = step.run.step(AdminEvent::Replied(Ok(reply)));
    assert_eq!(lines(step.print), vec!["out: brave disabled"]);
}

#[test]
fn unreachable_gateways_end_the_command() {
    let gone = || Error::Other("gone".to_string());
    let step = run_admin(Command::List { instance: sel(None) });
    let step = step.run.step(AdminEvent::Selected(Err(gone())));
    assert!(matches!(step.action, AdminAction::Finish(Err(Error::Other(e))) if e == "gone"));
    let step =
        run_admin(Command::Enable { name: "a".to_string(), make_default: false, instance: sel(None) });
    let step = step.run.step(AdminEvent::Replied(Err(gone())));
    assert!(step.print.is_empty());
    assert!(matches!(step.action, AdminAction::Finish(Err(Error::Other(e))) if e == "gone"));
    let step = run_admin(Command::Instances);
    assert!(matches!(step.action, AdminAction::Find));
    let step = step.run.step(AdminEvent::Found(Vec::new()));
    assert_eq!(lines(step.print), vec!["out: no running codemcp gateways found"]);
}
