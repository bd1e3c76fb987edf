use codemcp::config::{
    interpolate, interpolate_spec, load, load_all, set_enabled, unwritable, ConfigFile,
    ConfigSource, EnvVars, ServerSpec,
};
use codemcp::error::Error;
use codemcp::names::NameMap;

fn env(vars: &[(&str, &str)]) -> EnvVars {
    EnvVars { vars: vars.iter().map(|(k, v)| (k.to_string(), v.to_string())).collect() }
}

#[test]
fn interpolates_env() {
    let env = env(&[("CODEMCP_TEST_TOKEN", "abc123")]);
    let out = interpolate("Bearer {env:CODEMCP_TEST_TOKEN}", &env).unwrap();
    assert_eq!(out, "Bearer abc123");
}

#[test]
fn missing_env_errors() {
    assert!(interpolate("{env:CODEMCP_DEFINITELY_UNSET_XYZ}", &env(&[])).is_err());
}

#[test]
fn no_placeholder_passthrough() {
    assert_eq!(interpolate("plain", &env(&[])).unwrap(), "plain");
}

fn text(e: Error) -> String {
    e.message().to_string()
}

#[test]
fn every_placeholder_is_replaced_once() {
    let env = env(&[("A", "{env:B}"), ("B", "two"), ("A", "later")]);
    let out = interpolate("x{env:A}y{env:B}z", &env).unwrap();
    assert_eq!(out, "x{env:B}ytwoz");
}

#[test]
fn first_faulty_placeholder_is_reported() {
    let vars = env(&[("A", "1")]);
    assert_eq!(
        text(interpolate("{env:A}{env:GONE}{env:", &vars).unwrap_err()),
        "env var GONE referenced in config is not set"
    );
    assert_eq!(
        text(interpolate("a \"{env:A", &vars).unwrap_err()),
        "unterminated {env:...} in \"a \\\"{env:A\""
    );
    assert_eq!(
        text(interpolate("{env:}", &vars).unwrap_err()),
        "env var  referenced in config is not set"
    );
}

fn pairs(list: &[(&str, &str)]) -> NameMap<String> {
    let mut map = NameMap::new();
    for (k, v) in list {
        let _ = map.insert(k.to_string(), v.to_string());
    }
    map
}

fn local(command: &[&str], enabled: Option<bool>) -> ServerSpec {
    ServerSpec::Local {
        command: command.iter().map(|s| s.to_string()).collect(),
        environment: pairs(&[("Z", "{env:A}"), ("K", "plain")]),
        cwd: Some("/w/{env:A}".to_string()),
        enabled,
        timeout: Some(30),
    }
}

fn remote(url: &str, enabled: Option<bool>) -> ServerSpec {
    ServerSpec::Remote {
        url: url.to_string(),
        headers: pairs(&[("Authorization", "Bearer {env:A}")]),
        enabled,
        timeout: None,
    }
}

#[test]
fn local_server_is_interpolated() {
    let out = interpolate_spec(&local(&["npx", "{env:A}"], None), &env(&[("A", "1")])).unwrap();
    match out {
        ServerSpec::Local { command, environment, cwd, enabled, timeout } => {
            assert_eq!(command, vec!["npx".to_string(), "1".to_string()]);
            assert_eq!(environment.get("Z").unwrap(), "1");
            assert_eq!(environment.get("K").unwrap(), "plain");
            assert_eq!(environment.len(), 2);
            assert_eq!(cwd, Some("/w/1".to_string()));
            assert_eq!(enabled, None);
            assert_eq!(timeout, Some(30));
        }
        other => panic!("{other:?}"),
    }
}

#[test]
fn remote_server_is_interpolated() {
    let out = interpolate_spec(&remote("http://{env:A}/mcp", Some(false)), &env(&[("A", "h")]));
    match out.unwrap() {
        ServerSpec::Remote { url, headers, enabled, timeout } => {
            assert_eq!(url, "http://h/mcp");
            assert_eq!(headers.get("Authorization").unwrap(), "Bearer h");
            assert_eq!(enabled, Some(false));
            assert_eq!(timeout, None);
        }
        other => panic!("{other:?}"),
    }
}

#[test]
fn servers_are_enabled_unless_switched_off() {
    assert!(local(&["a"], None).enabled());
    assert!(remote("u", Some(true)).enabled());
    assert!(!remote("u", Some(false)).enabled());
}

fn file() -> ConfigSource {
    let mut mcp = NameMap::new();
    let _ = mcp.insert("sentry".to_string(), remote("https://mcp.sentry.dev/mcp", None));
    let _ = mcp.insert("brave".to_string(), local(&["b"], Some(false)));
    let _ = mcp.insert("github".to_string(), local(&["g"], Some(true)));
    ConfigSource::Parsed(ConfigFile { mcp })
}

#[test]
fn load_skips_disabled_servers() {
    let vars = env(&[("A", "1")]);
    let all = load_all("mcp.json", file(), &vars).unwrap();
    let names: Vec<&str> = all.iter().map(|c| c.name.as_str()).collect();
    assert_eq!(names, vec!["brave", "github", "sentry"]);
    assert_eq!(all.iter().map(|c| c.enabled).collect::<Vec<bool>>(), vec![false, true, true]);
    let enabled = load("mcp.json", file(), &vars).unwrap();
    let names: Vec<&str> = enabled.iter().map(|c| c.name.as_str()).collect();
    assert_eq!(names, vec!["github", "sentry"]);
}

#[test]
fn load_reports_what_is_wrong() {
    let vars = env(&[]);
    assert_eq!(
        text(load("c.json", ConfigSource::Unreadable("gone".to_string()), &vars).unwrap_err()),
        "cannot read config c.json: gone"
    );
    assert_eq!(
        text(load_all("c.json", ConfigSource::Invalid("line 1".to_string()), &vars).unwrap_err()),
        "invalid config c.json: line 1"
    );
    // A disabled server is interpolated too.
    assert_eq!(
        text(load("c.json", file(), &vars).unwrap_err()),
        "env var A referenced in config is not set"
    );
}

#[test]
fn set_enabled_keeps_everything_else() {
    let raw = r#"{"other": [1, -2, 3.5], "mcp": {"b": {"type": "local", "enabled": false}, "a": {"x": null}}}"#;
    let out = set_enabled("c.json", Ok(raw.to_string()), "b", true).unwrap();
    let expected = "{\n  \"mcp\": {\n    \"a\": {\n      \"x\": null\n    },\n    \"b\": {\n      \"enabled\": true,\n      \"type\": \"local\"\n    }\n  },\n  \"other\": [\n    1,\n    -2,\n    3.5\n  ]\n}\n";
    assert_eq!(out, expected);
    let again = set_enabled("c.json", Ok(out), "b", false).unwrap();
    let direct = set_enabled("c.json", Ok(raw.to_string()), "b", false).unwrap();
    assert_eq!(again, direct);
}

#[test]
fn load_after_a_change_differs_in_one_flag() {
    let vars = env(&[("A", "1")]);
    let changed = || {
        let mut mcp = NameMap::new();
        let _ = mcp.insert("sentry".to_string(), remote("https://mcp.sentry.dev/mcp", None));
        let _ = mcp.insert("brave".to_string(), local(&["b"], Some(true)));
        let _ = mcp.insert("github".to_string(), local(&["g"], Some(true)));
        ConfigSource::Parsed(ConfigFile { mcp })
    };
    let had = load_all("c", file(), &vars).unwrap();
    let has = load_all("c", changed(), &vars).unwrap();
    assert_eq!(had.len(), has.len());
    assert!(!had[0].enabled && has[0].enabled);
    for (one, two) in had.iter().zip(&has).skip(1) {
        assert_eq!(format!("{one:?}"), format!("{two:?}"));
    }
    let flag = "enabled: Some(false)";
    let other = "enabled: Some(true)";
    let spec = format!("{:?}", had[0].spec).replace(flag, other);
    assert_eq!(spec, format!("{:?}", has[0].spec));
}

#[test]
fn set_enabled_adds_a_missing_flag() {
    let out = set_enabled("c", Ok(r#"{"mcp":{"a":{}}}"#.to_string()), "a", false).unwrap();
    assert_eq!(out, "{\n  \"mcp\": {\n    \"a\": {\n      \"enabled\": false\n    }\n  }\n}\n");
}

#[test]
fn set_enabled_reports_what_is_wrong() {
    assert_eq!(
        text(set_enabled("c", Err("gone".to_string()), "a", true).unwrap_err()),
        "cannot read config c: gone"
    );
    assert_eq!(
        text(set_enabled("c", Ok("{".to_string()), "a", true).unwrap_err()),
        "invalid config c: EOF while parsing an object at line 1 column 1"
    );
    for raw in ["{}", "[]", r#"{"mcp":{"a":1}}"#, r#"{"mcp":{"b":{}}}"#] {
        assert_eq!(
            text(set_enabled("c", Ok(raw.to_string()), "a", true).unwrap_err()),
            "server \"a\" not found in c"
        );
    }
    assert_eq!(text(unwritable("c", "full")), "cannot write config c: full");
}

#[test]
fn names_are_kept_in_order() {
    let mut map = NameMap::new();
    assert!(map.insert("b".to_string(), 1).is_none());
    assert!(map.insert("a".to_string(), 2).is_none());
    assert!(map.insert("é".to_string(), 3).is_none());
    assert_eq!(map.insert("a".to_string(), 4), Some(1 + 1));
    assert_eq!(map.len(), 3);
    assert_eq!(map.entry(0).0, "a");
    assert_eq!(map.get("a"), Some(&4));
    assert_eq!(map.remove("zz"), None);
    assert_eq!(map.remove("b"), Some(1));
    assert!(!map.contains("b"));
    let keys: Vec<String> = map.into_entries().into_iter().map(|(k, _)| k).collect();
    assert_eq!(keys, vec!["a".to_string(), "é".to_string()]);
}
