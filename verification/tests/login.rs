use codemcp::login::{
    parse_state_from_url, port_from_parts, resolve_callback_config, start, state_from_query,
    Callback, FinishAction, FinishEvent, FinishStep, LoginError, LoginHandle, LoginStart,
    OAuthConfig, StartAction, StartEvent, UrlParts, CALLBACK_TIMEOUT_SECS,
};

fn config(scope: Option<&str>, redirect: Option<&str>, port: Option<u16>) -> OAuthConfig {
    OAuthConfig {
        scope: scope.map(|s| s.to_string()),
        redirect_uri: redirect.map(|s| s.to_string()),
        callback_port: port,
    }
}

#[test]
fn state_is_read_from_the_url() {
    let state = |url: &str| parse_state_from_url(url);
    assert_eq!(
        state("https://auth.example/authorize?client_id=c&state=a%20b%2Bc&state=later"),
        Some("a b+c".to_string())
    );
    assert_eq!(state("https://auth.example/authorize?x=1"), None);
    assert_eq!(state("https://auth.example/authorize"), None);
    assert_eq!(state("https://auth.example/?state="), Some(String::new()));
    assert_eq!(state("not a url?state=x"), None);
}

#[test]
fn first_state_of_a_query_counts() {
    let pair = |k: &str, v: &str| (k.to_string(), v.to_string());
    assert_eq!(
        state_from_query(&vec![pair("States", "0"), pair("state", "1"), pair("state", "2")]),
        Some("1".to_string())
    );
    assert_eq!(state_from_query(&Vec::new()), None);
}

#[test]
fn callback_port_comes_from_the_configuration() {
    let port = |c: &OAuthConfig| resolve_callback_config(Some(c)).0;
    assert_eq!(resolve_callback_config(None), (None, "/callback"));
    assert_eq!(port(&config(None, None, None)), None);
    assert_eq!(port(&config(None, None, Some(9000))), Some(9000));
    assert_eq!(port(&config(None, Some("http://localhost:8765/cb"), Some(9000))), Some(8765));
    assert_eq!(port(&config(None, Some("http://localhost/cb"), Some(9000))), Some(80));
    assert_eq!(port(&config(None, Some("HTTPS://localhost:443/cb"), None)), Some(443));
    assert_eq!(port(&config(None, Some("nonsense"), Some(9000))), Some(9000));
    assert_eq!(
        resolve_callback_config(Some(&config(None, Some("http://h:1/other"), None))),
        (Some(1), "/callback")
    );
}

#[test]
fn port_follows_the_parts_of_the_redirect() {
    let parts = |scheme: &str, port| {
        Some(UrlParts { scheme: scheme.to_string(), port, query: Vec::new() })
    };
    let c = config(None, None, Some(5));
    assert_eq!(port_from_parts(Some(&c), &parts("https", None)), Some(443));
    assert_eq!(port_from_parts(Some(&c), &parts("custom", None)), Some(80));
    assert_eq!(port_from_parts(Some(&c), &parts("https", Some(1))), Some(1));
    assert_eq!(port_from_parts(Some(&c), &None), Some(5));
    assert_eq!(port_from_parts(None, &parts("https", None)), None);
}

const SERVER: &str = "https://mcp.example/mcp";
const URL: &str = "https://auth.example/authorize?state=tok";

fn asking() -> LoginStart {
    let (login, _) = start::<u8>("gh", SERVER, None);
    let (login, _) = login.step(StartEvent::<u8>::Created(Ok(())));
    let (login, _) = login.step(StartEvent::<u8>::Bound(Ok(())));
    let (login, _) = login.step(StartEvent::<u8>::Addressed(Ok(1)));
    login.step(StartEvent::<u8>::Authorized(Ok(()))).0
}

fn handle() -> LoginHandle {
    let (login, _) = asking().step(StartEvent::<u8>::AuthorizationUrl(Ok(URL.to_string())));
    match login.step(StartEvent::<u8>::Served(Ok(()))).1 {
        StartAction::Finish(Ok((_, handle))) => handle,
        other => panic!("{other:?}"),
    }
}

#[test]
fn login_starts() {
    let c = config(Some("read write"), None, Some(9000));
    let (login, action) = start::<u8>("gh", SERVER, Some(&c));
    assert!(matches!(
        action,
        StartAction::Create { name, url } if name == "gh" && url == SERVER
    ));
    let (login, action) = login.step(StartEvent::<u8>::Created(Ok(())));
    assert!(matches!(action, StartAction::Bind { address } if address == "127.0.0.1:9000"));
    let (login, action) = login.step(StartEvent::<u8>::Bound(Ok(())));
    assert!(matches!(action, StartAction::ReadAddress));
    let (login, action) = login.step(StartEvent::<u8>::Addressed(Ok(9001)));
    match action {
        StartAction::Authorize { scopes, redirect_uri, client_name } => {
            assert_eq!(scopes, vec!["read write".to_string()]);
            assert_eq!(redirect_uri, "http://127.0.0.1:9001/callback");
            assert_eq!(client_name, "codemcp");
        }
        other => panic!("{other:?}"),
    }
    let (login, action) = login.step(StartEvent::<u8>::Authorized(Ok(())));
    assert!(matches!(action, StartAction::AskUrl));
    let (login, action) = login.step(StartEvent::<u8>::AuthorizationUrl(Ok(URL.to_string())));
    match action {
        StartAction::Serve { path, csrf_state } => {
            assert_eq!(path, "/callback");
            assert_eq!(csrf_state, "tok");
        }
        other => panic!("{other:?}"),
    }
    match login.step(StartEvent::<u8>::Served(Ok(()))).1 {
        StartAction::Finish(Ok((result, _))) => {
            assert_eq!(result.authorization_url, URL);
            assert_eq!(result.oauth_state, "tok");
        }
        other => panic!("{other:?}"),
    }
}

#[test]
fn system_picks_a_port_and_scopes_where_none_are_given() {
    let (login, _) = start::<u8>("gh", SERVER, None);
    let (login, action) = login.step(StartEvent::<u8>::Created(Ok(())));
    assert!(matches!(action, StartAction::Bind { address } if address == "127.0.0.1:0"));
    let (login, _) = login.step(StartEvent::<u8>::Bound(Ok(())));
    let (_, action) = login.step(StartEvent::<u8>::Addressed(Ok(65535)));
    assert!(matches!(
        action,
        StartAction::Authorize { scopes, redirect_uri, .. }
            if scopes.is_empty() && redirect_uri == "http://127.0.0.1:65535/callback"
    ));
}

fn refused(action: StartAction<u8>) -> String {
    match action {
        StartAction::Finish(Err(LoginError::Internal(m))) => m,
        StartAction::Finish(Err(LoginError::Client(e))) => format!("client {e}"),
        other => panic!("{other:?}"),
    }
}

#[test]
fn start_reports_what_is_wrong() {
    let begin = || start::<u8>("gh", SERVER, None).0;
    assert_eq!(refused(begin().step(StartEvent::Created(Err(7))).1), "client 7");
    let binding = || begin().step(StartEvent::<u8>::Created(Ok(()))).0;
    assert_eq!(
        refused(binding().step(StartEvent::Bound(Err("in use".to_string()))).1),
        "callback bind failed on 127.0.0.1:0: in use"
    );
    let addressing = || binding().step(StartEvent::<u8>::Bound(Ok(()))).0;
    assert_eq!(
        refused(addressing().step(StartEvent::Addressed(Err("x".to_string()))).1),
        "callback addr: x"
    );
    let authorizing = || addressing().step(StartEvent::<u8>::Addressed(Ok(1))).0;
    assert_eq!(refused(authorizing().step(StartEvent::Authorized(Err(8))).1), "client 8");
    assert_eq!(refused(asking().step(StartEvent::AuthorizationUrl(Err(9))).1), "client 9");
    let (login, action) = asking().step(StartEvent::<u8>::AuthorizationUrl(Ok("https://a/".to_string())));
    assert_eq!(refused(action), "authorization URL missing state parameter");
    assert!(format!("{login:?}").contains("Over"));
    assert_eq!(
        refused(asking().url_given("u".to_string(), None).1),
        "authorization URL missing state parameter"
    );
    let (login, _) = asking().url_given::<u8>("u".to_string(), Some("s".to_string()));
    assert_eq!(refused(login.step(StartEvent::Served(Err("no".to_string()))).1), "no");
}

fn outcome(step: FinishStep<u32, u8>) -> (bool, String) {
    let text = match step.action {
        FinishAction::Finish(Ok(tokens)) => format!("tokens {tokens}"),
        FinishAction::Finish(Err(LoginError::Internal(m))) => format!("internal {m}"),
        FinishAction::Finish(Err(LoginError::AuthorizationFailed(m))) => format!("failed {m}"),
        FinishAction::Finish(Err(LoginError::Client(e))) => format!("client {e}"),
        other => panic!("{other:?}"),
    };
    (step.stop_server, text)
}

fn reading() -> LoginHandle {
    let step = handle().step::<u32, u8>(FinishEvent::Called(Callback::Code("c".to_string())));
    assert!(!step.stop_server);
    match step.action {
        FinishAction::Exchange { code, csrf_state } => {
            assert_eq!(code, "c");
            assert_eq!(csrf_state, "tok");
        }
        other => panic!("{other:?}"),
    }
    let step = step.handle.step::<u32, u8>(FinishEvent::Exchanged(Ok(())));
    assert!(matches!(step.action, FinishAction::ReadCredentials));
    step.handle
}

#[test]
fn login_finishes() {
    assert_eq!(CALLBACK_TIMEOUT_SECS, 300);
    assert_eq!(
        outcome(reading().step(FinishEvent::Credentials(Ok(Some(42))))),
        (true, "tokens 42".to_string())
    );
}

#[test]
fn finish_reports_what_is_wrong() {
    let called = |c| outcome(handle().step(FinishEvent::Called(c)));
    assert_eq!(
        called(Callback::TimedOut),
        (true, "failed OAuth callback timeout - authorization took too long".to_string())
    );
    assert_eq!(called(Callback::Closed), (false, "failed callback channel closed".to_string()));
    assert_eq!(
        called(Callback::Error("access_denied".to_string())),
        (true, "failed access_denied".to_string())
    );
    let step = handle().step::<u32, u8>(FinishEvent::Called(Callback::Code("c".to_string())));
    assert_eq!(
        outcome(step.handle.step(FinishEvent::Exchanged(Err(3)))),
        (false, "client 3".to_string())
    );
    assert_eq!(
        outcome(reading().step(FinishEvent::Credentials(Ok(None)))),
        (true, "internal token exchange succeeded but no token response stored".to_string())
    );
    assert_eq!(
        outcome(reading().step(FinishEvent::Credentials(Err(4)))),
        (false, "client 4".to_string())
    );
}
