use codemcp::config::EnvVars;
use codemcp::gateway::ServerTransport;
use codemcp::settings::Settings;

fn env(vars: &[(&str, &str)]) -> EnvVars {
    EnvVars { vars: vars.iter().map(|(k, v)| (k.to_string(), v.to_string())).collect() }
}

#[test]
fn settings_have_defaults() {
    let s = Settings::from_env(&env(&[]), "/home/u/.config", None).unwrap();
    assert_eq!(s.config, "/home/u/.config/codemcp/mcp.json");
    assert_eq!(s.transport, ServerTransport::Stdio);
    assert_eq!(s.http_bind, "127.0.0.1:3388");
    assert_eq!(s.http_path, "/mcp");
    assert_eq!(s.log, "info");
    assert_eq!(s.smoke, None);
    assert!(!s.dump);
}

#[test]
fn variables_change_settings() {
    let vars = env(&[
        ("CODEMCP_CONFIG", "/c.json"),
        ("CODEMCP_TRANSPORT", "http"),
        ("CODEMCP_HTTP_BIND", "0.0.0.0:1"),
        ("CODEMCP_HTTP_PATH", "/x"),
        ("CODEMCP_HTTP_JSON_RESPONSE", "true"),
        ("CODEMCP_LOG", "debug"),
        ("CODEMCP_SMOKE", "1 + 1"),
        ("CODEMCP_DUMP", ""),
    ]);
    let s = Settings::from_env(&vars, "/b", None).unwrap();
    assert_eq!(s.config, "/c.json");
    assert_eq!(s.transport, ServerTransport::Http { json_response: true });
    assert_eq!(s.http_bind, "0.0.0.0:1");
    assert_eq!(s.http_path, "/x");
    assert_eq!(s.log, "debug");
    assert_eq!(s.smoke, Some("1 + 1".to_string()));
    assert!(s.dump);
}

#[test]
fn started_gateways_serve_http() {
    let vars = env(&[("CODEMCP_TRANSPORT", "stdio"), ("CODEMCP_HTTP_BIND", "0.0.0.0:1")]);
    let s = Settings::from_env(&vars, "", Some((3388, "127.0.0.1".to_string()))).unwrap();
    assert_eq!(s.transport, ServerTransport::Http { json_response: false });
    assert_eq!(s.http_bind, "127.0.0.1:3388");
    assert_eq!(s.config, "codemcp/mcp.json");
}

#[test]
fn unknown_transports_are_refused() {
    let e = Settings::from_env(&env(&[("CODEMCP_TRANSPORT", "pigeon")]), "", None).unwrap_err();
    assert_eq!(e.message(), "unknown CODEMCP_TRANSPORT: pigeon");
}
