use codemcp::error::Error;
use codemcp::gateway::{
    http_mode, print_report, run_gateway, Gateway, GatewayAction, GatewayEvent, GatewayStage,
    GatewayStep, RunOutput, ServeEnd, ServerTransport,
};
use codemcp::config::{ServerSpec, UpstreamConfig};
use codemcp::json::parse;
use codemcp::names::NameMap;
use codemcp::settings::Settings;
use codemcp::upstream::{NamespacedTool, Tool};

fn built() -> GatewayEvent {
    GatewayEvent::Built { sdk_py: "def f(): ...".to_string(), description: "intro".to_string() }
}

fn remote(name: &str) -> UpstreamConfig {
    UpstreamConfig {
        name: name.to_string(),
        spec: ServerSpec::Remote {
            url: "https://x/mcp".to_string(),
            headers: NameMap::new(),
            enabled: None,
            timeout: None,
        },
        enabled: true,
    }
}

fn tool(server: &str, name: &str) -> NamespacedTool {
    NamespacedTool {
        server: server.to_string(),
        tool: Tool { name: name.to_string(), definition: "{}".to_string() },
    }
}

fn settings(smoke: Option<&str>, dump: bool, transport: ServerTransport) -> Settings {
    Settings {
        config: "/etc/mcp.json".to_string(),
        transport,
        http_bind: "127.0.0.1:7777".to_string(),
        http_path: "/mcp".to_string(),
        log: "info".to_string(),
        smoke: smoke.map(|s| s.to_string()),
        dump,
    }
}

fn started(smoke: Option<&str>, dump: bool, transport: ServerTransport) -> GatewayStep {
    let step = run_gateway(settings(smoke, dump, transport));
    assert!(matches!(&step.action, GatewayAction::Load(path) if path == "/etc/mcp.json"));
    let step = step.gateway.step(GatewayEvent::Loaded(Ok(vec![remote("a"), remote("b")])));
    assert!(matches!(
        &step.action,
        GatewayAction::Connect(list) if list.len() == 2 && list[0].name == "a" && list[1].name == "b"
    ));
    let step = step.gateway.step(GatewayEvent::Connected(vec![tool("b", "search")]));
    assert!(matches!(
        &step.action,
        GatewayAction::Build(tools)
            if tools.len() == 1 && tools[0].server == "b" && tools[0].tool.name == "search"
    ));
    let step = step.gateway.step(built());
    assert!(matches!(&step.action, GatewayAction::StartWorker(sdk) if sdk == "def f(): ..."));
    step
}

fn serving(transport: ServerTransport) -> Gateway {
    let step = started(None, false, transport);
    assert!(step.print.is_empty());
    let step = step.gateway.step(GatewayEvent::WorkerStarted(Ok(())));
    assert!(matches!(
        &step.action,
        GatewayAction::Assemble { config, description }
            if config == "/etc/mcp.json" && description == "intro"
    ));
    let step = step.gateway.step(GatewayEvent::Assembled(Ok(())));
    assert!(matches!(step.action, GatewayAction::StartAdmin));
    let step = step.gateway.step(GatewayEvent::AdminStarted);
    assert!(matches!(
        &step.action,
        GatewayAction::Serve { transport: t, bind, path }
            if *t == transport && bind == "127.0.0.1:7777" && path == "/mcp"
    ));
    step.gateway
}

#[test]
fn gateway_serves_and_shuts_down() {
    for transport in [ServerTransport::Stdio, ServerTransport::Http { json_response: true }] {
        let step = serving(transport).step(GatewayEvent::Served(ServeEnd::Ended));
        assert!(matches!(step.action, GatewayAction::StopWorker));
        let step = step.gateway.step(GatewayEvent::WorkerStopped);
        assert!(matches!(step.action, GatewayAction::Disconnect));
        let step = step.gateway.step(GatewayEvent::Disconnected);
        assert!(matches!(step.action, GatewayAction::Finish(Ok(()))));
        assert_eq!(step.gateway.stage(), GatewayStage::Over);
    }
}

fn output(error: Option<&str>) -> RunOutput {
    RunOutput {
        result: parse(r#"{"a": 1}"#).unwrap(),
        stdout: "hello\n".to_string(),
        stderr: String::new(),
        error: error.map(|e| e.to_string()),
    }
}

#[test]
fn trial_runs_one_snippet_and_ends() {
    let step = started(Some("result = 1"), false, ServerTransport::Stdio);
    let step = step.gateway.step(GatewayEvent::WorkerStarted(Ok(())));
    assert!(matches!(&step.action, GatewayAction::Run(code) if code == "result = 1"));
    let step = step.gateway.step(GatewayEvent::Ran(Ok(output(None))));
    assert_eq!(
        step.print,
        vec![
            "=== result ===\n{\n  \"a\": 1\n}".to_string(),
            "=== stdout ===\nhello\n".to_string(),
            "=== stderr ===\n".to_string(),
        ]
    );
    assert!(matches!(step.action, GatewayAction::StopWorker));
    let step = step.gateway.step(GatewayEvent::WorkerStopped);
    let step = step.gateway.step(GatewayEvent::Disconnected);
    assert!(matches!(step.action, GatewayAction::Finish(Ok(()))));
}

#[test]
fn errors_of_a_snippet_are_printed_last() {
    let lines = print_report(&output(Some("ValueError")));
    assert_eq!(lines.len(), 4);
    assert_eq!(lines[3], "=== error ===\nValueError");
}

fn dumped() -> Vec<String> {
    vec![
        "===== sdk.py =====\ndef f(): ...".to_string(),
        "===== execute_python description =====\nintro".to_string(),
    ]
}

#[test]
fn dump_prints_the_sdk_and_serves_nobody() {
    for transport in [ServerTransport::Stdio, ServerTransport::Http { json_response: false }] {
        let step = run_gateway(settings(None, true, transport));
        let step = step.gateway.step(GatewayEvent::Loaded(Ok(Vec::new())));
        let step = step.gateway.step(GatewayEvent::Connected(Vec::new()));
        let step = step.gateway.step(built());
        assert_eq!(step.print, dumped());
        assert!(matches!(step.action, GatewayAction::Disconnect));
        let step = step.gateway.step(GatewayEvent::Disconnected);
        assert!(step.print.is_empty());
        assert!(matches!(step.action, GatewayAction::Finish(Ok(()))));
        assert_eq!(step.gateway.stage(), GatewayStage::Over);
    }
}

#[test]
fn dump_goes_before_a_trial() {
    let step = started(Some("x"), true, ServerTransport::Stdio);
    assert_eq!(step.print, dumped());
    let step = step.gateway.step(GatewayEvent::WorkerStarted(Ok(())));
    assert!(matches!(&step.action, GatewayAction::Run(code) if code == "x"));
}

fn failed(step: GatewayStep) -> String {
    assert_eq!(step.gateway.stage(), GatewayStage::Over);
    match step.action {
        GatewayAction::Finish(Err(e)) => e.message().to_string(),
        other => panic!("{other:?}"),
    }
}

#[test]
fn first_failure_ends_the_gateway() {
    let bad = || Error::Config("bad".to_string());
    let step = run_gateway(settings(None, false, ServerTransport::Stdio));
    assert_eq!(failed(step.gateway.step(GatewayEvent::Loaded(Err(bad())))), "bad");
    let step = started(None, false, ServerTransport::Stdio);
    assert_eq!(failed(step.gateway.step(GatewayEvent::WorkerStarted(Err(bad())))), "bad");
    let step = started(Some("x"), false, ServerTransport::Stdio);
    let step = step.gateway.step(GatewayEvent::WorkerStarted(Ok(())));
    assert_eq!(failed(step.gateway.step(GatewayEvent::Ran(Err(bad())))), "bad");
    let step = started(None, false, ServerTransport::Stdio);
    let step = step.gateway.step(GatewayEvent::WorkerStarted(Ok(())));
    assert_eq!(failed(step.gateway.step(GatewayEvent::Assembled(Err(bad())))), "bad");
}

#[test]
fn broken_serving_is_reported() {
    let end = |end| {
        failed(serving(ServerTransport::Stdio).step(GatewayEvent::Served(end)))
    };
    let e = || "eof".to_string();
    assert_eq!(end(ServeEnd::StdioNotStarted(e())), "failed to start stdio server: eof");
    assert_eq!(end(ServeEnd::StdioBroken(e())), "server task error: eof");
    assert_eq!(end(ServeEnd::NotBound(e())), "eof");
    assert_eq!(end(ServeEnd::HttpBroken(e())), "http server error: eof");
}

#[test]
fn plain_json_goes_without_sessions() {
    assert!(!http_mode(true).stateful && http_mode(true).json_response);
    assert!(http_mode(false).stateful && !http_mode(false).json_response);
}
