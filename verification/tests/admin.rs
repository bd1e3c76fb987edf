use codemcp::admin::{
    client_request, conn_next, dispatch, error_response, line_of, list_response, reply_given,
    socket_path, switch_response, AdminServer, ClientAction, ClientEvent, ConnAction, ConnEvent,
    ConnStage, EnableParams, Request, ServeAction, ServeEvent,
};
use codemcp::error::Error;
use codemcp::json::{compact, parse, Json};
use codemcp::runtime::{ServerStatus, SwitchOutcome};

fn params(name: &str, make_default: bool) -> EnableParams {
    EnableParams { name: name.to_string(), make_default }
}

fn request(method: &str, params: Result<EnableParams, String>) -> Request {
    Request { method: method.to_string(), params }
}

fn status() -> Vec<ServerStatus> {
    vec![
        ServerStatus {
            name: "brave".to_string(),
            kind: "local".to_string(),
            enabled_in_config: false,
            connected: false,
            tools: 0,
        },
        ServerStatus {
            name: "github".to_string(),
            kind: "local".to_string(),
            enabled_in_config: true,
            connected: true,
            tools: 45,
        },
    ]
}

fn reply(action: ConnAction) -> String {
    match action {
        ConnAction::Reply(j) => compact(&j).unwrap(),
        other => panic!("{other:?}"),
    }
}

#[test]
fn socket_lies_under_the_configuration() {
    assert_eq!(socket_path(Some("/run/s".to_string()), "/h/.config"), "/run/s");
    assert_eq!(socket_path(None, "/h/.config"), "/h/.config/codemcp/admin.sock");
    assert_eq!(socket_path(None, "/h/.config/"), "/h/.config/codemcp/admin.sock");
    assert_eq!(socket_path(None, ""), "codemcp/admin.sock");
}

#[test]
fn requests_are_told_apart() {
    assert!(matches!(dispatch(request("list", Err("null".to_string()))).1, ConnAction::List));
    assert!(matches!(
        dispatch(request("enable", Ok(params("a", true)))).1,
        ConnAction::Enable(EnableParams { name, make_default: true }) if name == "a"
    ));
    assert!(matches!(
        dispatch(request("disable", Ok(params("b", false)))).1,
        ConnAction::Disable(EnableParams { name, make_default: false }) if name == "b"
    ));
    assert_eq!(
        reply(dispatch(request("enable", Err("missing field `name`".to_string()))).1),
        r#"{"error":"bad params: missing field `name`"}"#
    );
    assert_eq!(
        reply(dispatch(request("disable", Err("x".to_string()))).1),
        r#"{"error":"bad params: x"}"#
    );
    assert_eq!(
        reply(dispatch(request("tool", Ok(params("a", true)))).1),
        r#"{"error":"unknown method: tool"}"#
    );
}

#[test]
fn connection_is_answered_once() {
    let received = |bytes, request| {
        conn_next(ConnStage::Reading, ConnEvent::Received { bytes, request })
    };
    assert!(matches!(received(0, Err("eof".to_string())).1, ConnAction::Close));
    let (stage, action) = received(1, Err("eof".to_string()));
    assert!(matches!(stage, ConnStage::Over));
    assert_eq!(reply(action), r#"{"error":"invalid request: eof"}"#);
    let (stage, action) = received(20, Ok(request("list", Err(String::new()))));
    assert!(matches!(action, ConnAction::List));
    let (stage, action) = conn_next(stage, ConnEvent::Listed(status()));
    assert!(matches!(stage, ConnStage::Over));
    assert_eq!(reply(action), compact(&list_response(&status())).unwrap());
    let (stage, _) = received(20, Ok(request("enable", Ok(params("a", true)))));
    let (_, action) =
        conn_next(stage, ConnEvent::Switched(Ok(SwitchOutcome::Connected(3))));
    assert_eq!(reply(action), r#"{"connected":true,"made_default":true,"name":"a","tools":3}"#);
    let (stage, _) = received(20, Ok(request("disable", Ok(params("a", false)))));
    let (_, action) =
        conn_next(stage, ConnEvent::Switched(Ok(SwitchOutcome::Disconnected(true))));
    assert_eq!(
        reply(action),
        r#"{"connected":false,"made_default":false,"name":"a","was_connected":true}"#
    );
    let (stage, _) = received(20, Ok(request("disable", Ok(params("a", false)))));
    let failed = Err(Error::Config("unknown server: a".to_string()));
    let (_, action) = conn_next(stage, ConnEvent::Switched(failed));
    assert_eq!(reply(action), r#"{"error":"unknown server: a"}"#);
}

#[test]
fn statuses_are_sent_in_order() {
    assert_eq!(
        compact(&list_response(&status())).unwrap(),
        [
            r#"{"servers":[{"connected":false,"enabled_in_config":false,"kind":"local","#,
            r#""name":"brave","tools":0},{"connected":true,"enabled_in_config":true,"#,
            r#""kind":"local","name":"github","tools":45}]}"#,
        ]
        .concat()
    );
    assert_eq!(compact(&list_response(&Vec::new())).unwrap(), r#"{"servers":[]}"#);
}

#[test]
fn client_reads_what_the_server_wrote() {
    let replies = vec![
        list_response(&status()),
        error_response("two\nlines \"quoted\""),
        switch_response(&params("é", true), &Ok(SwitchOutcome::Connected(7))),
    ];
    for sent in replies {
        let line = line_of(&sent);
        assert_eq!(line.matches('\n').count(), 1);
        assert!(line.ends_with('\n'));
        let (client, _) = client_request("/s", "list", Json::Null);
        let (client, _) = client.step(ClientEvent::Connected(Ok(())));
        let (client, _) = client.step(ClientEvent::Sent(Ok(())));
        match client.step(ClientEvent::Received(Ok(line))).1 {
            ClientAction::Finish(Ok(got)) => {
                assert_eq!(compact(&got).unwrap(), compact(&sent).unwrap())
            }
            other => panic!("{other:?}"),
        }
    }
}

#[test]
fn client_sends_method_and_parameters() {
    let (client, action) =
        client_request("/run/s", "enable", parse(r#"{"name":"x"}"#).unwrap());
    assert!(matches!(action, ClientAction::Connect(p) if p == "/run/s"));
    match client.step(ClientEvent::Connected(Ok(()))).1 {
        ClientAction::Send(line) => {
            assert_eq!(line, "{\"method\":\"enable\",\"params\":{\"name\":\"x\"}}\n")
        }
        other => panic!("{other:?}"),
    }
}

fn failed(action: ClientAction) -> String {
    match action {
        ClientAction::Finish(Err(e)) => e.message().to_string(),
        other => panic!("{other:?}"),
    }
}

#[test]
fn client_reports_what_is_wrong() {
    let begin = || client_request("/run/s", "list", Json::Null).0;
    assert_eq!(
        failed(begin().step(ClientEvent::Connected(Err("refused".to_string()))).1),
        "cannot reach codemcp admin socket at /run/s (refused). Is the gateway running?"
    );
    let sending = || begin().step(ClientEvent::Connected(Ok(()))).0;
    assert_eq!(failed(sending().step(ClientEvent::Sent(Err("pipe".to_string()))).1), "pipe");
    let receiving = || sending().step(ClientEvent::Sent(Ok(()))).0;
    assert_eq!(failed(receiving().step(ClientEvent::Received(Err("cut".to_string()))).1), "cut");
    assert_eq!(
        failed(receiving().step(ClientEvent::Received(Ok(String::new()))).1),
        "invalid admin response: EOF while parsing a value at line 1 column 0"
    );
    assert_eq!(
        reply_given(Err("x".to_string())).unwrap_err().message(),
        "invalid admin response: x"
    );
}

#[test]
fn server_restricts_its_socket_before_it_accepts() {
    let (mut server, action) = AdminServer::serve("/run/s", Some("/run".to_string()));
    assert!(matches!(action, ServeAction::Prepare(dir) if dir == "/run"));
    let action = server.step(ServeEvent::Prepared(Ok(())));
    assert!(matches!(action, ServeAction::Check(path) if path == "/run/s"));
    let action = server.step(ServeEvent::Checked(true));
    assert!(matches!(action, ServeAction::Remove(path) if path == "/run/s"));
    let action = server.step(ServeEvent::Removed);
    assert!(matches!(action, ServeAction::Bind(path) if path == "/run/s"));
    let action = server.step(ServeEvent::Bound(Ok(())));
    assert!(matches!(action, ServeAction::Restrict(path, 0o600) if path == "/run/s"));
    assert!(matches!(server.step(ServeEvent::Restricted), ServeAction::Accept));
    assert!(matches!(
        server.step(ServeEvent::Accepted(Err("emfile".to_string()))),
        ServeAction::Accept
    ));
    assert!(matches!(server.step(ServeEvent::Accepted(Ok(()))), ServeAction::ServeAndAccept));
}

#[test]
fn server_reports_what_is_wrong() {
    let (mut server, _) = AdminServer::serve("/run/s", Some("/run".to_string()));
    match server.step(ServeEvent::Prepared(Err("read-only".to_string()))) {
        ServeAction::Fail(e) => assert_eq!(e.message(), "read-only"),
        other => panic!("{other:?}"),
    }
    let (mut server, action) = AdminServer::serve("s", None);
    assert!(matches!(action, ServeAction::Check(path) if path == "s"));
    let action = server.step(ServeEvent::Checked(false));
    assert!(matches!(action, ServeAction::Bind(path) if path == "s"));
    match server.step(ServeEvent::Bound(Err("in use".to_string()))) {
        ServeAction::Fail(e) => assert_eq!(e.message(), "admin socket bind s failed: in use"),
        other => panic!("{other:?}"),
    }
}
