use codemcp::error::Error;
use codemcp::upstream::{
    call_answered, call_failed, connect_and_list, ConnectOutcome, Listing, Tool, Upstream, UpstreamManager,
};

fn tool(name: &str, definition: &str) -> Tool {
    Tool { name: name.to_string(), definition: definition.to_string() }
}

fn upstream(service: u32, tools: &[&str]) -> Upstream<u32> {
    Upstream { service, tools: tools.iter().map(|n| tool(n, "d")).collect() }
}

fn manager() -> UpstreamManager<u32> {
    UpstreamManager::connect_all(vec![
        ConnectOutcome::Connected { name: "sentry".to_string(), upstream: upstream(1, &["z", "a"]) },
        ConnectOutcome::Failed { name: "brave".to_string(), reason: "no key".to_string() },
        ConnectOutcome::Panicked { reason: "boom".to_string() },
        ConnectOutcome::Connected { name: "github".to_string(), upstream: upstream(2, &["m"]) },
    ])
}

fn names(manager: &UpstreamManager<u32>) -> Vec<String> {
    manager.all_tools().iter().map(|t| format!("{}/{}", t.server, t.tool.name)).collect()
}

#[test]
fn servers_that_fail_are_left_out() {
    let m = manager();
    assert!(m.is_connected("sentry"));
    assert!(m.is_connected("github"));
    assert!(!m.is_connected("brave"));
    assert_eq!(m.tool_count("sentry"), 2);
    assert_eq!(m.tool_count("brave"), 0);
}

#[test]
fn tools_are_listed_by_server_and_name() {
    assert_eq!(names(&manager()), vec!["github/m", "sentry/a", "sentry/z"]);
}

#[test]
fn tools_of_one_name_keep_their_order() {
    let upstream = Upstream { service: 0u32, tools: vec![tool("b", "1"), tool("a", "2"), tool("b", "3")] };
    let m = UpstreamManager::connect_all(vec![ConnectOutcome::Connected {
        name: "s".to_string(),
        upstream,
    }]);
    let definitions: Vec<String> =
        m.all_tools().into_iter().map(|t| t.tool.definition).collect();
    assert_eq!(definitions, vec!["2", "1", "3"]);
}

#[test]
fn later_connection_replaces_an_earlier_one() {
    let m = UpstreamManager::connect_all(vec![
        ConnectOutcome::Connected { name: "s".to_string(), upstream: upstream(1, &["a"]) },
        ConnectOutcome::Connected { name: "s".to_string(), upstream: upstream(2, &["b", "c"]) },
    ]);
    assert_eq!(names(&m), vec!["s/b", "s/c"]);
    assert_eq!(*m.call_tool::<u8>("s", "b", None).unwrap().0, 2);
}

#[test]
fn servers_come_and_go() {
    let mut m = manager();
    let (count, replaced) = m.connect_one("brave", Ok(upstream(3, &["x", "y", "w"]))).unwrap();
    assert_eq!(count, 3);
    assert!(replaced.is_none());
    let (count, replaced) = m.connect_one("brave", Ok(upstream(4, &[]))).unwrap();
    assert_eq!(count, 0);
    assert_eq!(replaced.unwrap().service, 3);
    assert!(m.connect_one("github", Err(Error::Upstream("down".to_string()))).is_err());
    assert!(m.is_connected("github"));
    assert_eq!(m.disconnect_one("brave").unwrap().service, 4);
    assert!(m.disconnect_one("brave").is_none());
    assert_eq!(names(&m), names(&manager()));
}

#[test]
fn calls_go_to_the_named_server() {
    let m = manager();
    for listed in m.all_tools() {
        assert!(m.call_tool::<u8>(&listed.server, &listed.tool.name, None).is_ok());
    }
    let (service, call) = m.call_tool("github", "m", Some(vec![1, 2])).unwrap();
    assert_eq!(*service, 2);
    assert_eq!(call.name, "m");
    assert_eq!(call.arguments, Some(vec![1, 2]));
    assert_eq!(
        m.call_tool::<u8>("nobody", "m", None).unwrap_err().message(),
        "unknown upstream server: nobody"
    );
    assert_eq!(call_failed("github", "m", "timeout").message(), "github/m: timeout");
}

#[test]
fn answers_are_handed_on() {
    assert_eq!(call_answered("s", "t", Ok(42)).unwrap(), 42);
    let refused: Result<u8, Error> = call_answered("s", "t", Err("no".to_string()));
    assert_eq!(refused.unwrap_err().message(), "s/t: no");
}

#[test]
fn shutdown_hands_out_every_connection() {
    let mut m = manager();
    let gone: Vec<String> = m.shutdown().into_iter().map(|(name, _)| name).collect();
    assert_eq!(gone, vec!["github", "sentry"]);
    assert!(names(&m).is_empty());
    assert!(!m.is_connected("github"));
}

#[test]
fn service_without_tools_list_is_closed() {
    assert!(matches!(
        connect_and_list("s", 7u32, Ok(vec![tool("a", "d")])),
        Listing::Ready(Upstream { service: 7, tools }) if tools.len() == 1
    ));
    match connect_and_list("s", 7u32, Err("no".to_string())) {
        Listing::Close { service, error } => {
            assert_eq!(service, 7);
            assert_eq!(error.message(), "s: list_tools failed: no");
        }
        Listing::Ready(_) => panic!("ready"),
    }
}
