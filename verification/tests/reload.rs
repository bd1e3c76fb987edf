use codemcp::error::Error;
use codemcp::reload::{Reload, ReloadAction, ReloadEvent};
use codemcp::runtime::{Runtime, SdkState};
use codemcp::upstream::{ConnectOutcome, Tool, Upstream, UpstreamManager};

fn sdk(registry: u32, description: &str) -> SdkState<u32> {
    SdkState { registry, description: description.to_string() }
}

fn runtime(clients: &[&'static str]) -> Runtime<u32, &'static str> {
    let mut rt = Runtime::new("c", "l", Ok(Vec::new()), sdk(1, "first")).unwrap();
    for client in clients {
        rt.register_peer(*client);
    }
    rt
}

fn upstreams() -> UpstreamManager<u32> {
    let tool = |name: &str| Tool { name: name.to_string(), definition: String::new() };
    UpstreamManager::connect_all(vec![ConnectOutcome::Connected {
        name: "s".to_string(),
        upstream: Upstream { service: 0, tools: vec![tool("b"), tool("a")] },
    }])
}

fn loading(rt: &mut Runtime<u32, &'static str>) -> Reload<u32> {
    let (reload, action) = Reload::begin(&upstreams());
    match action {
        ReloadAction::Build(tools) => {
            let names: Vec<String> = tools.into_iter().map(|t| t.tool.name).collect();
            assert_eq!(names, vec!["a", "b"]);
        }
        other => panic!("{other:?}"),
    }
    let built = ReloadEvent::Built { sdk: sdk(2, "second"), sdk_py: "def a(): ...".to_string() };
    let (reload, action) = reload.step(rt, built);
    assert!(matches!(action, ReloadAction::Load(source) if source == "def a(): ..."));
    assert_eq!(rt.description(), "first");
    reload
}

#[test]
fn every_client_is_told_once_in_order() {
    let mut rt = runtime(&["a", "b", "c"]);
    let reload = loading(&mut rt);
    let (reload, action) = reload.step(&mut rt, ReloadEvent::Loaded(Ok(())));
    assert_eq!(rt.description(), "second");
    assert_eq!(*rt.registry(), 2);
    assert!(matches!(action, ReloadAction::Tell(0)));
    let (reload, action) = reload.step(&mut rt, ReloadEvent::Told(true));
    assert!(matches!(action, ReloadAction::Tell(1)));
    let (reload, action) = reload.step(&mut rt, ReloadEvent::Told(false));
    assert!(matches!(action, ReloadAction::Tell(2)));
    assert_eq!(rt.peers().len(), 3);
    let (reload, action) = reload.step(&mut rt, ReloadEvent::Told(true));
    assert!(matches!(action, ReloadAction::Finish(Ok(()))));
    assert!(matches!(reload, Reload::Over));
    assert_eq!(*rt.peers(), vec!["a", "c"]);
}

#[test]
fn refused_sdk_changes_nothing() {
    let mut rt = runtime(&["a"]);
    let reload = loading(&mut rt);
    let refused = ReloadEvent::Loaded(Err(Error::Other("syntax".to_string())));
    let (reload, action) = reload.step(&mut rt, refused);
    assert!(matches!(action, ReloadAction::Finish(Err(Error::Other(e))) if e == "syntax"));
    assert!(matches!(reload, Reload::Over));
    assert_eq!(rt.description(), "first");
    assert_eq!(*rt.registry(), 1);
    assert_eq!(*rt.peers(), vec!["a"]);
}

#[test]
fn renewal_without_clients_ends_at_once() {
    let mut rt = runtime(&[]);
    let reload = loading(&mut rt);
    let (_, action) = reload.step(&mut rt, ReloadEvent::Loaded(Ok(())));
    assert!(matches!(action, ReloadAction::Finish(Ok(()))));
    assert_eq!(rt.description(), "second");
}
