//! The admin interface: a Unix socket over which a running gateway is asked for
//! its servers and told to switch them on and off.
//!
//! One line of JSON goes each way: the client sends a request, the server
//! answers with a reply, and the connection closes. The methods are `list`,
//! `enable` and `disable`.

use crate::error::{message_of, Error, ErrorView};
use crate::json::{
    compact, json_compact, json_parsed, lemma_list_view, list_view, parse, parse_view,
    plain_within, put, reads_as, reserved_name, text, texts, Json, JsonView, MAX_NESTING,
};
use crate::runtime::{outcome_view, ServerStatus, StatusView, SwitchOutcome};
use crate::text::{join, joined, opt_text, refused_text};
use vstd::prelude::*;
use vstd::string::*;

verus! {

/// The path of the admin socket: the given one, else a fixed place under the
/// directory for configuration.
pub fn socket_path(given: Option<String>, config_base: &str) -> (r: String)
    ensures
        r@ == match given {
            Some(path) => path@,
            None => joined(joined(config_base@, "codemcp"@), "admin.sock"@),
        },
{
    match given {
        Some(path) => path,
        None => join(join(config_base, "codemcp").as_str(), "admin.sock"),
    }
}

/// The parameters of `enable` and `disable`.
#[derive(Debug)]
pub struct EnableParams {
    pub name: String,
    pub make_default: bool,
}

/// The parameters of `enable` and `disable`, by what they mean.
pub struct ParamsView {
    pub name: Seq<char>,
    pub make_default: bool,
}

impl View for EnableParams {
    type V = ParamsView;

    open spec fn view(&self) -> ParamsView {
        ParamsView { name: self.name@, make_default: self.make_default }
    }
}

impl Clone for EnableParams {
    fn clone(&self) -> (r: Self)
        ensures
            r == *self,
    {
        EnableParams { name: self.name.clone(), make_default: self.make_default }
    }
}

/// A request: the method, and its parameters read as those of `enable` and
/// `disable`, or the reason why they cannot be.
#[derive(Debug)]
pub struct Request {
    pub method: String,
    pub params: Result<EnableParams, String>,
}

/// A request by what it means.
pub struct RequestView {
    pub method: Seq<char>,
    pub params: Result<ParamsView, Seq<char>>,
}

impl View for Request {
    type V = RequestView;

    open spec fn view(&self) -> RequestView {
        RequestView {
            method: self.method@,
            params: match self.params {
                Ok(p) => Ok(p@),
                Err(e) => Err(e@),
            },
        }
    }
}

/// A line that was read as a request, or the reason why it cannot be.
pub open spec fn request_view(r: Result<Request, String>) -> Result<RequestView, Seq<char>> {
    match r {
        Ok(request) => Ok(request@),
        Err(e) => Err(e@),
    }
}

/// A reply that reports an error: the message and nothing else.
pub open spec fn error_reply(message: Seq<char>) -> JsonView {
    JsonView::Object(Map::empty().insert("error"@, JsonView::Text(message)))
}

/// The status of a server in a reply.
pub open spec fn status_json(s: StatusView) -> JsonView {
    JsonView::Object(
        Map::empty().insert("name"@, JsonView::Text(s.name)).insert(
            "kind"@,
            JsonView::Text(s.kind),
        ).insert("enabled_in_config"@, JsonView::Bool(s.enabled_in_config)).insert(
            "connected"@,
            JsonView::Bool(s.connected),
        ).insert("tools"@, JsonView::Integer(s.tools as int)),
    )
}

/// The reply to `list`: the status of each server, in order.
pub open spec fn list_reply(servers: Seq<ServerStatus>) -> JsonView {
    JsonView::Object(
        Map::empty().insert(
            "servers"@,
            JsonView::List(Seq::new(servers.len(), |i: int| status_json(servers[i]@))),
        ),
    )
}

/// The reply to `enable` or `disable`.
pub open spec fn switch_reply(
    params: ParamsView,
    result: Result<SwitchOutcome, ErrorView>,
) -> JsonView {
    match result {
        Ok(SwitchOutcome::Connected(tools)) => JsonView::Object(
            Map::empty().insert("name"@, JsonView::Text(params.name)).insert(
                "connected"@,
                JsonView::Bool(true),
            ).insert("tools"@, JsonView::Integer(tools as int)).insert(
                "made_default"@,
                JsonView::Bool(params.make_default),
            ),
        ),
        Ok(SwitchOutcome::Disconnected(was)) => JsonView::Object(
            Map::empty().insert("name"@, JsonView::Text(params.name)).insert(
                "connected"@,
                JsonView::Bool(false),
            ).insert("was_connected"@, JsonView::Bool(was)).insert(
                "made_default"@,
                JsonView::Bool(params.make_default),
            ),
        ),
        Err(e) => error_reply(message_of(e)),
    }
}

/// A reply that reports an error.
pub fn error_response(message: &str) -> (r: Json)
    ensures
        r@ == error_reply(message@),
{
    let mut members: Vec<(String, Json)> = Vec::new();
    put(&mut members, "error", text(message));
    Json::Object(members)
}

/// The reply to `list`.
pub fn list_response(servers: &Vec<ServerStatus>) -> (r: Json)
    ensures
        r@ == list_reply(servers@),
{
    let mut items: Vec<Json> = Vec::new();
    let mut i: usize = 0;
    while i < servers.len()
        invariant
            i <= servers.len(),
            items.len() == i,
            forall|j: int| 0 <= j < i ==> (#[trigger] items@[j])@ == status_json(servers@[j]@),
        decreases servers.len() - i,
    {
        let server = &servers[i];
        let mut members: Vec<(String, Json)> = Vec::new();
        put(&mut members, "name", text(server.name.as_str()));
        put(&mut members, "kind", text(server.kind.as_str()));
        put(&mut members, "enabled_in_config", Json::Bool(server.enabled_in_config));
        put(&mut members, "connected", Json::Bool(server.connected));
        put(&mut members, "tools", Json::Natural(server.tools as u64));
        items.push(Json::Object(members));
        i = i + 1;
    }
    proof {
        lemma_list_view(items@);
        assert(list_view(items@) =~= Seq::new(
            servers@.len(),
            |j: int| status_json(servers@[j]@),
        ));
    }
    let mut members: Vec<(String, Json)> = Vec::new();
    put(&mut members, "servers", Json::List(items));
    Json::Object(members)
}

/// The reply to `enable` or `disable`.
pub fn switch_response(params: &EnableParams, result: &Result<SwitchOutcome, Error>) -> (r: Json)
    ensures
        r@ == switch_reply(params@, outcome_view(*result)),
{
    let mut members: Vec<(String, Json)> = Vec::new();
    match result {
        Ok(SwitchOutcome::Connected(tools)) => {
            put(&mut members, "name", text(params.name.as_str()));
            put(&mut members, "connected", Json::Bool(true));
            put(&mut members, "tools", Json::Natural(*tools as u64));
            put(&mut members, "made_default", Json::Bool(params.make_default));
            Json::Object(members)
        },
        Ok(SwitchOutcome::Disconnected(was)) => {
            put(&mut members, "name", text(params.name.as_str()));
            put(&mut members, "connected", Json::Bool(false));
            put(&mut members, "was_connected", Json::Bool(*was));
            put(&mut members, "made_default", Json::Bool(params.make_default));
            Json::Object(members)
        },
        Err(e) => error_response(e.message()),
    }
}

/// How far the server's side of a connection has come.
#[derive(Debug)]
pub enum ConnStage {
    /// The request is being read.
    Reading,
    /// The servers are being listed.
    Listing,
    /// A server is being switched on.
    Enabling(EnableParams),
    /// A server is being switched off.
    Disabling(EnableParams),
    /// Everything has been said.
    Over,
}

/// How far the server's side of a connection has come, by what it means.
pub enum ConnStageView {
    Reading,
    Listing,
    Enabling(ParamsView),
    Disabling(ParamsView),
    Over,
}

impl View for ConnStage {
    type V = ConnStageView;

    open spec fn view(&self) -> ConnStageView {
        match self {
            ConnStage::Reading => ConnStageView::Reading,
            ConnStage::Listing => ConnStageView::Listing,
            ConnStage::Enabling(p) => ConnStageView::Enabling(p@),
            ConnStage::Disabling(p) => ConnStageView::Disabling(p@),
            ConnStage::Over => ConnStageView::Over,
        }
    }
}

/// What came of an action on the server's side of a connection.
#[derive(Debug)]
pub enum ConnEvent {
    /// So many bytes came up to the end of the line, and this is what they say.
    Received { bytes: usize, request: Result<Request, String> },
    /// These are the servers.
    Listed(Vec<ServerStatus>),
    /// The server was switched, or not.
    Switched(Result<SwitchOutcome, Error>),
}

/// What came of an action on the server's side, by what it means.
pub enum ConnEventView {
    Received { bytes: usize, request: Result<RequestView, Seq<char>> },
    Listed(Seq<ServerStatus>),
    Switched(Result<SwitchOutcome, ErrorView>),
}

impl View for ConnEvent {
    type V = ConnEventView;

    open spec fn view(&self) -> ConnEventView {
        match self {
            ConnEvent::Received { bytes, request } => ConnEventView::Received {
                bytes: *bytes,
                request: request_view(*request),
            },
            ConnEvent::Listed(servers) => ConnEventView::Listed(servers@),
            ConnEvent::Switched(r) => ConnEventView::Switched(outcome_view(*r)),
        }
    }
}

/// What is to be done next on the server's side of a connection.
#[derive(Debug)]
pub enum ConnAction {
    /// Close the connection without a word.
    Close,
    /// List the servers.
    List,
    /// Switch a server on.
    Enable(EnableParams),
    /// Switch a server off.
    Disable(EnableParams),
    /// Send this reply and close the connection.
    Reply(Json),
}

/// What is to be done next on the server's side, by what it means.
pub enum ConnActionView {
    Close,
    List,
    Enable(ParamsView),
    Disable(ParamsView),
    Reply(JsonView),
}

impl View for ConnAction {
    type V = ConnActionView;

    open spec fn view(&self) -> ConnActionView {
        match self {
            ConnAction::Close => ConnActionView::Close,
            ConnAction::List => ConnActionView::List,
            ConnAction::Enable(p) => ConnActionView::Enable(p@),
            ConnAction::Disable(p) => ConnActionView::Disable(p@),
            ConnAction::Reply(j) => ConnActionView::Reply(j@),
        }
    }
}

/// What a request asks for. Parameters that cannot be read matter only to the
/// methods that have some.
pub open spec fn dispatched(request: RequestView) -> (ConnStageView, ConnActionView) {
    if request.method == "list"@ {
        (ConnStageView::Listing, ConnActionView::List)
    } else if request.method == "enable"@ {
        match request.params {
            Ok(p) => (ConnStageView::Enabling(p), ConnActionView::Enable(p)),
            Err(e) => (
                ConnStageView::Over,
                ConnActionView::Reply(error_reply("bad params: "@ + e)),
            ),
        }
    } else if request.method == "disable"@ {
        match request.params {
            Ok(p) => (ConnStageView::Disabling(p), ConnActionView::Disable(p)),
            Err(e) => (
                ConnStageView::Over,
                ConnActionView::Reply(error_reply("bad params: "@ + e)),
            ),
        }
    } else {
        (
            ConnStageView::Over,
            ConnActionView::Reply(error_reply("unknown method: "@ + request.method)),
        )
    }
}

/// Whether an event answers the action that a connection is waiting for.
pub open spec fn conn_expects(stage: ConnStageView, event: ConnEventView) -> bool {
    match event {
        ConnEventView::Received { .. } => stage is Reading,
        ConnEventView::Listed(_) => stage is Listing,
        ConnEventView::Switched(r) => match r {
            Ok(SwitchOutcome::Connected(_)) => stage is Enabling,
            Ok(SwitchOutcome::Disconnected(_)) => stage is Disabling,
            Err(_) => stage is Enabling || stage is Disabling,
        },
    }
}

/// The parameters of the switch that a connection has asked for.
pub open spec fn params_of(stage: ConnStageView) -> ParamsView {
    match stage {
        ConnStageView::Disabling(p) => p,
        _ => stage->Enabling_0,
    }
}

/// How the server's side of a connection goes on.
pub open spec fn conn_step(stage: ConnStageView, event: ConnEventView) -> (
    ConnStageView,
    ConnActionView,
) {
    match event {
        ConnEventView::Received { bytes, request } => if bytes == 0 {
            (ConnStageView::Over, ConnActionView::Close)
        } else {
            match request {
                Ok(r) => dispatched(r),
                Err(e) => (
                    ConnStageView::Over,
                    ConnActionView::Reply(error_reply("invalid request: "@ + e)),
                ),
            }
        },
        ConnEventView::Listed(servers) => (
            ConnStageView::Over,
            ConnActionView::Reply(list_reply(servers)),
        ),
        ConnEventView::Switched(r) => (
            ConnStageView::Over,
            ConnActionView::Reply(switch_reply(params_of(stage), r)),
        ),
    }
}

/// Decides what a request asks for.
pub fn dispatch(request: Request) -> (r: (ConnStage, ConnAction))
    ensures
        (r.0@, r.1@) == dispatched(request@),
{
    if request.method == "list".to_owned() {
        return (ConnStage::Listing, ConnAction::List);
    }
    if request.method == "enable".to_owned() {
        return match request.params {
            Ok(p) => (ConnStage::Enabling(p.clone()), ConnAction::Enable(p)),
            Err(e) => (ConnStage::Over, ConnAction::Reply(bad_params(e.as_str()))),
        };
    }
    if request.method == "disable".to_owned() {
        return match request.params {
            Ok(p) => (ConnStage::Disabling(p.clone()), ConnAction::Disable(p)),
            Err(e) => (ConnStage::Over, ConnAction::Reply(bad_params(e.as_str()))),
        };
    }
    let message = "unknown method: ".to_owned().concat(request.method.as_str());
    (ConnStage::Over, ConnAction::Reply(error_response(message.as_str())))
}

/// The reply to parameters that cannot be read.
fn bad_params(reason: &str) -> (r: Json)
    ensures
        r@ == error_reply("bad params: "@ + reason@),
{
    let message = "bad params: ".to_owned().concat(reason);
    error_response(message.as_str())
}

/// Takes the server's side of a connection on with what came of its last action.
pub fn conn_next(stage: ConnStage, event: ConnEvent) -> (r: (ConnStage, ConnAction))
    requires
        conn_expects(stage@, event@),
    ensures
        (r.0@, r.1@) == conn_step(stage@, event@),
{
    match event {
        ConnEvent::Received { bytes, request } => {
            if bytes == 0 {
                return (ConnStage::Over, ConnAction::Close);
            }
            match request {
                Ok(request) => dispatch(request),
                Err(e) => {
                    let message = "invalid request: ".to_owned().concat(e.as_str());
                    (ConnStage::Over, ConnAction::Reply(error_response(message.as_str())))
                },
            }
        },
        ConnEvent::Listed(servers) => {
            (ConnStage::Over, ConnAction::Reply(list_response(&servers)))
        },
        ConnEvent::Switched(result) => {
            let reply = match &stage {
                ConnStage::Disabling(p) => switch_response(p, &result),
                ConnStage::Enabling(p) => switch_response(p, &result),
                _ => {
                    assert(false);
                    Json::Null
                },
            };
            (ConnStage::Over, ConnAction::Reply(reply))
        },
    }
}

/// Whether a line ends in its only line feed.
pub open spec fn one_line(line: Seq<char>) -> bool {
    line.len() > 0 && line.last() == '\n' && !line.drop_last().contains('\n')
}

/// The line that carries a JSON value.
pub open spec fn carries(line: Seq<char>, value: JsonView) -> bool {
    json_compact(value) matches Ok(written) && line == written.push('\n')
}

/// The line that carries a JSON value. The other side reads the same value from
/// it where no number is floating, no member has the reserved name and the
/// nesting stays within the parser's limit.
pub fn line_of(value: &Json) -> (r: String)
    ensures
        carries(r@, value@),
        one_line(r@),
        r@.len() > 0,
        r@[r@.len() - 1] == '\n',
        json_compact(value@) == Ok::<Seq<char>, Seq<char>>(r@.drop_last()),
        plain_within(value@, MAX_NESTING as nat) ==> reads_as(r@, value@),
{
    match compact(value) {
        Ok(written) => {
            proof {
                reveal_strlit("\n");
                assert(written@ + "\n"@ =~= written@.push('\n'));
                assert(written@.push('\n').drop_last() =~= written@);
            }
            written.concat("\n")
        },
        Err(_) => {
            assert(false);
            String::new()
        },
    }
}

/// How far a client's request has come.
#[derive(Clone, Copy, Debug, PartialEq, Eq, Structural)]
pub enum ClientStage {
    Connecting,
    Sending,
    Receiving,
    Over,
}

/// A client's request to a running gateway.
#[derive(Debug)]
pub struct ClientRequest {
    path: String,
    line: String,
    stage: ClientStage,
}

/// A client's request, by what it means.
pub struct ClientView {
    pub path: Seq<char>,
    pub line: Seq<char>,
    pub stage: ClientStage,
}

impl View for ClientRequest {
    type V = ClientView;

    closed spec fn view(&self) -> ClientView {
        ClientView { path: self.path@, line: self.line@, stage: self.stage }
    }
}

/// What came of an action of the client.
#[derive(Debug)]
pub enum ClientEvent {
    Connected(Result<(), String>),
    Sent(Result<(), String>),
    Received(Result<String, String>),
}

/// What came of an action of the client, by what it means.
pub enum ClientEventView {
    Connected(Result<(), Seq<char>>),
    Sent(Result<(), Seq<char>>),
    Received(Result<Seq<char>, Seq<char>>),
}

impl View for ClientEvent {
    type V = ClientEventView;

    open spec fn view(&self) -> ClientEventView {
        match self {
            ClientEvent::Connected(r) => ClientEventView::Connected(refused_text(*r)),
            ClientEvent::Sent(r) => ClientEventView::Sent(refused_text(*r)),
            ClientEvent::Received(r) => ClientEventView::Received(texts(*r)),
        }
    }
}

/// What the client is to do next.
#[derive(Debug)]
pub enum ClientAction {
    /// Connect to the socket at this path.
    Connect(String),
    /// Send this line.
    Send(String),
    /// Read a line.
    Receive,
    /// Nothing more: this is the reply, or the error.
    Finish(Result<Json, Error>),
}

/// What the client is to do next, by what it means.
pub enum ClientActionView {
    Connect(Seq<char>),
    Send(Seq<char>),
    Receive,
    Finish(Result<JsonView, ErrorView>),
}

/// A reply, or an error, by what it means.
pub open spec fn reply_view(r: Result<Json, Error>) -> Result<JsonView, ErrorView> {
    match r {
        Ok(reply) => Ok(reply@),
        Err(e) => Err(e@),
    }
}

impl View for ClientAction {
    type V = ClientActionView;

    open spec fn view(&self) -> ClientActionView {
        match self {
            ClientAction::Connect(path) => ClientActionView::Connect(path@),
            ClientAction::Send(line) => ClientActionView::Send(line@),
            ClientAction::Receive => ClientActionView::Receive,
            ClientAction::Finish(r) => ClientActionView::Finish(reply_view(*r)),
        }
    }
}

/// A request as a JSON value.
pub open spec fn request_json(method: Seq<char>, params: JsonView) -> JsonView {
    JsonView::Object(
        Map::empty().insert("method"@, JsonView::Text(method)).insert("params"@, params),
    )
}

/// The parameters of `enable` and `disable` as a JSON value.
pub open spec fn params_json(params: ParamsView) -> JsonView {
    JsonView::Object(
        Map::empty().insert("name"@, JsonView::Text(params.name)).insert(
            "make_default"@,
            JsonView::Bool(params.make_default),
        ),
    )
}

/// What a line that came back says, once it has been read as JSON.
pub open spec fn reply_of(parsed: Result<JsonView, Seq<char>>) -> Result<JsonView, ErrorView> {
    match parsed {
        Ok(reply) => Ok(reply),
        Err(e) => Err(ErrorView::Other("invalid admin response: "@ + e)),
    }
}

/// Whether an event answers the action that a client is waiting for.
pub open spec fn client_expects(c: ClientView, event: ClientEventView) -> bool {
    match event {
        ClientEventView::Connected(_) => c.stage == ClientStage::Connecting,
        ClientEventView::Sent(_) => c.stage == ClientStage::Sending,
        ClientEventView::Received(_) => c.stage == ClientStage::Receiving,
    }
}

/// How a client's request goes on. The first failure ends it.
pub open spec fn client_step(c: ClientView, event: ClientEventView) -> (
    ClientView,
    ClientActionView,
) {
    match event {
        ClientEventView::Connected(Ok(_)) => (
            ClientView { stage: ClientStage::Sending, ..c },
            ClientActionView::Send(c.line),
        ),
        ClientEventView::Connected(Err(e)) => (
            ClientView { stage: ClientStage::Over, ..c },
            ClientActionView::Finish(
                Err(
                    ErrorView::Other(
                        "cannot reach codemcp admin socket at "@ + c.path + " ("@ + e
                            + "). Is the gateway running?"@,
                    ),
                ),
            ),
        ),
        ClientEventView::Sent(Ok(_)) => (
            ClientView { stage: ClientStage::Receiving, ..c },
            ClientActionView::Receive,
        ),
        ClientEventView::Sent(Err(e)) => (
            ClientView { stage: ClientStage::Over, ..c },
            ClientActionView::Finish(Err(ErrorView::Other(e))),
        ),
        ClientEventView::Received(Ok(line)) => (
            ClientView { stage: ClientStage::Over, ..c },
            ClientActionView::Finish(reply_of(json_parsed(line))),
        ),
        ClientEventView::Received(Err(e)) => (
            ClientView { stage: ClientStage::Over, ..c },
            ClientActionView::Finish(Err(ErrorView::Other(e))),
        ),
    }
}

/// Begins a request to the gateway at a socket. The first thing to do is to
/// connect.
pub fn client_request(path: &str, method: &str, params: Json) -> (r: (ClientRequest, ClientAction))
    ensures
        r.0@.path == path@,
        r.0@.stage == ClientStage::Connecting,
        carries(r.0@.line, request_json(method@, params@)),
        one_line(r.0@.line),
        r.0@.line.len() > 0,
        r.0@.line[r.0@.line.len() - 1] == '\n',
        json_compact(request_json(method@, params@)) == Ok::<Seq<char>, Seq<char>>(
            r.0@.line.drop_last(),
        ),
        plain_within(request_json(method@, params@), MAX_NESTING as nat) ==> reads_as(
            r.0@.line,
            request_json(method@, params@),
        ),
        r.1@ == ClientActionView::Connect(path@),
{
    let mut members: Vec<(String, Json)> = Vec::new();
    put(&mut members, "method", text(method));
    put(&mut members, "params", params);
    let line = line_of(&Json::Object(members));
    (
        ClientRequest { path: path.to_owned(), line, stage: ClientStage::Connecting },
        ClientAction::Connect(path.to_owned()),
    )
}

/// What a line that came back says, once it has been read as JSON.
pub fn reply_given(parsed: Result<Json, String>) -> (r: Result<Json, Error>)
    ensures
        reply_view(r) == reply_of(parse_view(parsed)),
{
    match parsed {
        Ok(reply) => Ok(reply),
        Err(e) => Err(Error::Other("invalid admin response: ".to_owned().concat(e.as_str()))),
    }
}

impl ClientRequest {
    /// The same request at another stage.
    fn at(self, stage: ClientStage) -> (r: Self)
        ensures
            r@ == (ClientView { stage, ..self@ }),
    {
        ClientRequest { path: self.path, line: self.line, stage }
    }

    /// Takes the request on with what came of its last action.
    pub fn step(self, event: ClientEvent) -> (r: (Self, ClientAction))
        requires
            client_expects(self@, event@),
        ensures
            (r.0@, r.1@) == client_step(self@, event@),
    {
        match event {
            ClientEvent::Connected(Ok(_)) => {
                let line = self.line.clone();
                (self.at(ClientStage::Sending), ClientAction::Send(line))
            },
            ClientEvent::Connected(Err(e)) => {
                let message = "cannot reach codemcp admin socket at ".to_owned().concat(
                    self.path.as_str(),
                ).concat(" (").concat(e.as_str()).concat("). Is the gateway running?");
                (self.at(ClientStage::Over), ClientAction::Finish(Err(Error::Other(message))))
            },
            ClientEvent::Sent(Ok(_)) => (self.at(ClientStage::Receiving), ClientAction::Receive),
            ClientEvent::Sent(Err(e)) => {
                (self.at(ClientStage::Over), ClientAction::Finish(Err(Error::Other(e))))
            },
            ClientEvent::Received(Ok(line)) => {
                let reply = reply_given(parse(line.as_str()));
                (self.at(ClientStage::Over), ClientAction::Finish(reply))
            },
            ClientEvent::Received(Err(e)) => {
                (self.at(ClientStage::Over), ClientAction::Finish(Err(Error::Other(e))))
            },
        }
    }
}

/// The mode of the socket: its owner alone may use it.
pub const SOCKET_MODE: u32 = 0o600;

/// How far the admin server has come.
#[derive(Clone, Copy, Debug, PartialEq, Eq, Structural)]
pub enum ServeStage {
    /// The socket's directory is being made.
    Preparing,
    /// A socket that an earlier run left is being looked for.
    Checking,
    /// That socket is being removed.
    Removing,
    /// The socket is being bound.
    Binding,
    /// The mode of the socket is being set.
    Restricting,
    /// Connections are being taken.
    Accepting,
    /// The server could not start.
    Failed,
}

/// What came of an action of the admin server.
#[derive(Debug)]
pub enum ServeEvent {
    Prepared(Result<(), String>),
    /// Whether there is something at the path already.
    Checked(bool),
    /// The removal was tried.
    Removed,
    Bound(Result<(), String>),
    /// Setting the mode was tried.
    Restricted,
    Accepted(Result<(), String>),
}

/// What came of an action of the admin server, by what it means.
pub enum ServeEventView {
    Prepared(Result<(), Seq<char>>),
    Checked(bool),
    Removed,
    Bound(Result<(), Seq<char>>),
    Restricted,
    Accepted(Result<(), Seq<char>>),
}

impl View for ServeEvent {
    type V = ServeEventView;

    open spec fn view(&self) -> ServeEventView {
        match self {
            ServeEvent::Prepared(r) => ServeEventView::Prepared(refused_text(*r)),
            ServeEvent::Checked(there) => ServeEventView::Checked(*there),
            ServeEvent::Removed => ServeEventView::Removed,
            ServeEvent::Bound(r) => ServeEventView::Bound(refused_text(*r)),
            ServeEvent::Restricted => ServeEventView::Restricted,
            ServeEvent::Accepted(r) => ServeEventView::Accepted(refused_text(*r)),
        }
    }
}

/// What the admin server is to do next.
#[derive(Debug)]
pub enum ServeAction {
    /// Make this directory.
    Prepare(String),
    /// See whether there is something at this path.
    Check(String),
    /// Remove what is at this path.
    Remove(String),
    /// Bind the socket at this path.
    Bind(String),
    /// Give the socket at this path this mode.
    Restrict(String, u32),
    /// Wait for a connection.
    Accept,
    /// Serve the connection on the side and wait for the next one.
    ServeAndAccept,
    /// Give up.
    Fail(Error),
}

/// What the admin server is to do next, by what it means.
pub enum ServeActionView {
    Prepare(Seq<char>),
    Check(Seq<char>),
    Remove(Seq<char>),
    Bind(Seq<char>),
    Restrict(Seq<char>, u32),
    Accept,
    ServeAndAccept,
    Fail(ErrorView),
}

impl View for ServeAction {
    type V = ServeActionView;

    open spec fn view(&self) -> ServeActionView {
        match self {
            ServeAction::Prepare(dir) => ServeActionView::Prepare(dir@),
            ServeAction::Check(path) => ServeActionView::Check(path@),
            ServeAction::Remove(path) => ServeActionView::Remove(path@),
            ServeAction::Bind(path) => ServeActionView::Bind(path@),
            ServeAction::Restrict(path, mode) => ServeActionView::Restrict(path@, *mode),
            ServeAction::Accept => ServeActionView::Accept,
            ServeAction::ServeAndAccept => ServeActionView::ServeAndAccept,
            ServeAction::Fail(e) => ServeActionView::Fail(e@),
        }
    }
}

/// How the admin server begins; a path may have no directory to make.
pub open spec fn serve_begin(path: Seq<char>, parent: Option<Seq<char>>) -> (
    ServeStage,
    ServeActionView,
) {
    match parent {
        Some(dir) => (ServeStage::Preparing, ServeActionView::Prepare(dir)),
        None => (ServeStage::Checking, ServeActionView::Check(path)),
    }
}

/// Whether an event answers the action that the admin server is waiting for.
pub open spec fn serve_expects(stage: ServeStage, event: ServeEventView) -> bool {
    match event {
        ServeEventView::Prepared(_) => stage == ServeStage::Preparing,
        ServeEventView::Checked(_) => stage == ServeStage::Checking,
        ServeEventView::Removed => stage == ServeStage::Removing,
        ServeEventView::Bound(_) => stage == ServeStage::Binding,
        ServeEventView::Restricted => stage == ServeStage::Restricting,
        ServeEventView::Accepted(_) => stage == ServeStage::Accepting,
    }
}

/// How the admin server goes on. A socket that an earlier run left is removed
/// before the new one is bound, and the new one is restricted before the first
/// connection is taken. Once it takes connections, no failure ends it.
pub open spec fn serve_step(path: Seq<char>, event: ServeEventView) -> (
    ServeStage,
    ServeActionView,
) {
    match event {
        ServeEventView::Prepared(Ok(_)) => (ServeStage::Checking, ServeActionView::Check(path)),
        ServeEventView::Prepared(Err(e)) => (
            ServeStage::Failed,
            ServeActionView::Fail(ErrorView::Other(e)),
        ),
        ServeEventView::Checked(there) => if there {
            (ServeStage::Removing, ServeActionView::Remove(path))
        } else {
            (ServeStage::Binding, ServeActionView::Bind(path))
        },
        ServeEventView::Removed => (ServeStage::Binding, ServeActionView::Bind(path)),
        ServeEventView::Bound(Ok(_)) => (
            ServeStage::Restricting,
            ServeActionView::Restrict(path, SOCKET_MODE),
        ),
        ServeEventView::Bound(Err(e)) => (
            ServeStage::Failed,
            ServeActionView::Fail(
                ErrorView::Other("admin socket bind "@ + path + " failed: "@ + e),
            ),
        ),
        ServeEventView::Restricted => (ServeStage::Accepting, ServeActionView::Accept),
        ServeEventView::Accepted(Ok(_)) => (
            ServeStage::Accepting,
            ServeActionView::ServeAndAccept,
        ),
        ServeEventView::Accepted(Err(_)) => (ServeStage::Accepting, ServeActionView::Accept),
    }
}

/// The admin server on its way from start to serving.
#[derive(Debug)]
pub struct AdminServer {
    path: String,
    stage: ServeStage,
}

impl AdminServer {
    /// The path of the socket.
    pub closed spec fn path(&self) -> Seq<char> {
        self.path@
    }

    /// How far it has come.
    pub closed spec fn at(&self) -> ServeStage {
        self.stage
    }

    /// Begins to serve at a path; `parent` is the directory of the path, if it has
    /// one.
    pub fn serve(path: &str, parent: Option<String>) -> (r: (Self, ServeAction))
        ensures
            r.0.path() == path@,
            (r.0.at(), r.1@) == serve_begin(path@, opt_text(parent)),
    {
        let path = path.to_owned();
        match parent {
            Some(dir) => {
                (AdminServer { path, stage: ServeStage::Preparing }, ServeAction::Prepare(dir))
            },
            None => {
                let action = ServeAction::Check(path.clone());
                (AdminServer { path, stage: ServeStage::Checking }, action)
            },
        }
    }

    /// Takes the server on with what came of its last action.
    pub fn step(&mut self, event: ServeEvent) -> (r: ServeAction)
        requires
            serve_expects(old(self).at(), event@),
        ensures
            (final(self).at(), r@) == serve_step(old(self).path(), event@),
            final(self).path() == old(self).path(),
    {
        let (stage, action) = match event {
            ServeEvent::Prepared(Ok(_)) => {
                (ServeStage::Checking, ServeAction::Check(self.path.clone()))
            },
            ServeEvent::Prepared(Err(e)) => {
                (ServeStage::Failed, ServeAction::Fail(Error::Other(e)))
            },
            ServeEvent::Checked(there) => if there {
                (ServeStage::Removing, ServeAction::Remove(self.path.clone()))
            } else {
                (ServeStage::Binding, ServeAction::Bind(self.path.clone()))
            },
            ServeEvent::Removed => {
                (ServeStage::Binding, ServeAction::Bind(self.path.clone()))
            },
            ServeEvent::Bound(Ok(_)) => {
                (ServeStage::Restricting, ServeAction::Restrict(self.path.clone(), SOCKET_MODE))
            },
            ServeEvent::Bound(Err(e)) => {
                let message = "admin socket bind ".to_owned().concat(self.path.as_str()).concat(
                    " failed: ",
                ).concat(e.as_str());
                (ServeStage::Failed, ServeAction::Fail(Error::Other(message)))
            },
            ServeEvent::Restricted => (ServeStage::Accepting, ServeAction::Accept),
            ServeEvent::Accepted(Ok(_)) => (ServeStage::Accepting, ServeAction::ServeAndAccept),
            ServeEvent::Accepted(Err(_)) => (ServeStage::Accepting, ServeAction::Accept),
        };
        self.stage = stage;
        action
    }
}

/// The last action and stage of the admin server after some events.
pub open spec fn serve_run(
    path: Seq<char>,
    parent: Option<Seq<char>>,
    events: Seq<ServeEventView>,
) -> (ServeStage, ServeActionView) {
    if events.len() == 0 {
        serve_begin(path, parent)
    } else {
        serve_step(path, events.last())
    }
}

/// Whether each of the events answers the action before it.
pub open spec fn serve_follows(
    path: Seq<char>,
    parent: Option<Seq<char>>,
    events: Seq<ServeEventView>,
) -> bool
    decreases events.len(),
{
    events.len() > 0 ==> serve_follows(path, parent, events.drop_last()) && serve_expects(
        serve_run(path, parent, events.drop_last()).0,
        events.last(),
    )
}

/// What holds of the events at each stage.
proof fn lemma_serve(path: Seq<char>, parent: Option<Seq<char>>, events: Seq<ServeEventView>)
    requires
        serve_follows(path, parent, events),
    ensures
        ({
            let stage = serve_run(path, parent, events).0;
            &&& stage == ServeStage::Restricting || stage == ServeStage::Accepting ==> exists|
                i: int,
            |
                0 <= i < events.len() && (#[trigger] events[i] matches ServeEventView::Bound(Ok(_)))
            &&& stage == ServeStage::Accepting ==> events.contains(ServeEventView::Restricted)
            &&& stage == ServeStage::Binding && events.contains(ServeEventView::Checked(true))
                ==> events.contains(ServeEventView::Removed)
        }),
    decreases events.len(),
{
    if events.len() > 0 {
        let front = events.drop_last();
        let last = events[events.len() - 1];
        lemma_serve(path, parent, front);
        assert forall|e: ServeEventView| #[trigger] front.contains(e) implies events.contains(
            e,
        ) by {
            let i = front.index_of(e);
            assert(events[i] == e);
        }
        let stage = serve_run(path, parent, events).0;
        if stage == ServeStage::Accepting && last is Accepted {
            let i = choose|i: int|
                0 <= i < front.len() && (#[trigger] front[i] matches ServeEventView::Bound(Ok(_)));
            assert(events[i] == front[i]);
        }
        if last is Restricted {
            let i = choose|i: int|
                0 <= i < front.len() && (#[trigger] front[i] matches ServeEventView::Bound(Ok(_)));
            assert(events[i] == front[i]);
        }
        if stage == ServeStage::Binding && events.contains(ServeEventView::Checked(true)) {
            if last is Removed {
                assert(events[events.len() - 1] == ServeEventView::Removed);
            } else {
                let i = events.index_of(ServeEventView::Checked(true));
                assert(front[i] == events[i]);
                lemma_checked_once(path, parent, front);
            }
        }
    }
}

/// While the path is still to be checked, nothing was found there yet.
proof fn lemma_checked_once(path: Seq<char>, parent: Option<Seq<char>>, events: Seq<ServeEventView>)
    requires
        serve_follows(path, parent, events),
        serve_run(path, parent, events).0 == ServeStage::Checking || serve_run(
            path,
            parent,
            events,
        ).0 == ServeStage::Preparing,
    ensures
        !events.contains(ServeEventView::Checked(true)),
    decreases events.len(),
{
    if events.len() > 0 {
        lemma_checked_once(path, parent, events.drop_last());
        if events.contains(ServeEventView::Checked(true)) {
            let i = events.index_of(ServeEventView::Checked(true));
            assert(i < events.len() - 1);
            assert(events.drop_last()[i] == events[i]);
        }
    }
}

/// The directory that is made is the socket's own, and what is looked for, removed,
/// bound and restricted to its owner is the socket, nothing else.
pub proof fn law_socket_alone_is_touched(
    path: Seq<char>,
    parent: Option<Seq<char>>,
    events: Seq<ServeEventView>,
)
    requires
        serve_follows(path, parent, events),
    ensures
        match serve_run(path, parent, events).1 {
            ServeActionView::Prepare(dir) => parent == Some(dir),
            ServeActionView::Check(at) => at == path,
            ServeActionView::Remove(at) => at == path,
            ServeActionView::Bind(at) => at == path,
            ServeActionView::Restrict(at, mode) => at == path && mode == SOCKET_MODE,
            _ => true,
        },
{
}

/// The admin server takes connections only on a socket that it has bound and
/// restricted to its owner, and goes on taking them whatever happens to one.
pub proof fn law_socket_is_restricted_first(
    path: Seq<char>,
    parent: Option<Seq<char>>,
    events: Seq<ServeEventView>,
    event: ServeEventView,
)
    requires
        serve_follows(path, parent, events),
        serve_run(path, parent, events).0 == ServeStage::Accepting,
        serve_expects(ServeStage::Accepting, event),
    ensures
        exists|i: int|
            0 <= i < events.len() && (#[trigger] events[i] matches ServeEventView::Bound(Ok(_))),
        events.contains(ServeEventView::Restricted),
        serve_step(path, event).0 == ServeStage::Accepting,
{
    lemma_serve(path, parent, events);
}

/// A socket that an earlier run left is out of the way before the new one is
/// bound.
pub proof fn law_stale_socket_is_removed(
    path: Seq<char>,
    parent: Option<Seq<char>>,
    events: Seq<ServeEventView>,
)
    requires
        serve_follows(path, parent, events),
        serve_run(path, parent, events).1 is Bind,
        events.contains(ServeEventView::Checked(true)),
    ensures
        events.contains(ServeEventView::Removed),
{
    lemma_serve(path, parent, events);
}

/// Where the server's side of a connection stands after some events; nothing has
/// been done before the first.
pub open spec fn conn_run(events: Seq<ConnEventView>) -> (ConnStageView, Option<ConnActionView>)
    decreases events.len(),
{
    if events.len() == 0 {
        (ConnStageView::Reading, None)
    } else {
        let (stage, action) = conn_step(conn_run(events.drop_last()).0, events.last());
        (stage, Some(action))
    }
}

/// Whether each of the events answers the action before it.
pub open spec fn conn_follows(events: Seq<ConnEventView>) -> bool
    decreases events.len(),
{
    events.len() > 0 ==> conn_follows(events.drop_last()) && conn_expects(
        conn_run(events.drop_last()).0,
        events.last(),
    )
}

/// How many events lie behind a connection at each stage.
proof fn lemma_conn(events: Seq<ConnEventView>)
    requires
        conn_follows(events),
    ensures
        ({
            let stage = conn_run(events).0;
            &&& stage is Reading <==> events.len() == 0
            &&& stage is Listing || stage is Enabling || stage is Disabling ==> events.len() == 1
            &&& events.len() <= 2
        }),
    decreases events.len(),
{
    if events.len() > 0 {
        lemma_conn(events.drop_last());
    }
}

/// A connection that sends a line gets one reply, after at most one look at the
/// gateway; a connection that sends nothing gets none. A server is switched only
/// at the request of `enable` or `disable`, by its name in the parameters.
pub proof fn law_one_reply_per_request(events: Seq<ConnEventView>)
    requires
        conn_follows(events),
    ensures
        events.len() <= 2,
        conn_run(events).0 is Over <==> (conn_run(events).1 matches Some(ConnActionView::Reply(_))
            || conn_run(events).1 == Some(ConnActionView::Close)),
        conn_run(events).1 == Some(ConnActionView::Close) ==> (events[0] matches
            ConnEventView::Received { bytes: 0, .. }),
        conn_run(events).1 matches Some(ConnActionView::Enable(p)) ==> (events[0] matches
            ConnEventView::Received { request: Ok(r), .. } && r.method == "enable"@ && r.params
            == Ok::<ParamsView, Seq<char>>(p)),
        conn_run(events).1 matches Some(ConnActionView::Disable(p)) ==> (events[0] matches
            ConnEventView::Received { request: Ok(r), .. } && r.method == "disable"@ && r.params
            == Ok::<ParamsView, Seq<char>>(p)),
{
    lemma_conn(events);
    if events.len() > 0 {
        lemma_conn(events.drop_last());
    }
}

/// The names of the members of a reply are not the reserved one.
proof fn lemma_names_are_free()
    ensures
        "error"@ != reserved_name(),
        "servers"@ != reserved_name(),
        "name"@ != reserved_name(),
        "kind"@ != reserved_name(),
        "enabled_in_config"@ != reserved_name(),
        "connected"@ != reserved_name(),
        "tools"@ != reserved_name(),
        "was_connected"@ != reserved_name(),
        "made_default"@ != reserved_name(),
{
    reveal_strlit("$serde_json::private::RawValue");
    reveal_strlit("error");
    assert("error"@.len() == 5);
    reveal_strlit("servers");
    assert("servers"@.len() == 7);
    reveal_strlit("name");
    assert("name"@.len() == 4);
    reveal_strlit("kind");
    assert("kind"@.len() == 4);
    reveal_strlit("enabled_in_config");
    assert("enabled_in_config"@.len() == 17);
    reveal_strlit("connected");
    assert("connected"@.len() == 9);
    reveal_strlit("tools");
    assert("tools"@.len() == 5);
    reveal_strlit("was_connected");
    assert("was_connected"@.len() == 13);
    reveal_strlit("made_default");
    assert("made_default"@.len() == 12);
    assert(reserved_name().len() == 30);
}

/// Every reply is plain and nests only three levels deep, so that the client
/// reads from the line that carries it the reply that was sent.
pub proof fn law_replies_are_plain(stage: ConnStageView, event: ConnEventView)
    requires
        conn_expects(stage, event),
    ensures
        conn_step(stage, event).1 matches ConnActionView::Reply(reply) ==> plain_within(
            reply,
            MAX_NESTING as nat,
        ),
{
    reveal_with_fuel(plain_within, 4);
    lemma_names_are_free();
    if let ConnActionView::Reply(reply) = conn_step(stage, event).1 {
        if let ConnEventView::Listed(servers) = event {
            let items = Seq::new(servers.len(), |i: int| status_json(servers[i]@));
            assert forall|i: int| 0 <= i < items.len() implies plain_within(
                #[trigger] items[i],
                (MAX_NESTING - 2) as nat,
            ) by {
                assert(items[i] == status_json(servers[i]@));
            }
            assert(plain_within(JsonView::List(items), (MAX_NESTING - 1) as nat));
        }
    }
}

/// A line that is no request is answered with an error, and an empty one with nothing. A
/// request is carried out by its method: `list`, or `enable` and `disable` with the
/// parameters that came with it; parameters that cannot be read, and any other method,
/// are answered with an error.
pub proof fn law_requests_are_carried_out_by_method(
    bytes: usize,
    request: RequestView,
    reason: Seq<char>,
)
    requires
        bytes > 0,
    ensures
        ({
            let step = conn_step(
                ConnStageView::Reading,
                ConnEventView::Received { bytes, request: Ok(request) },
            );
            let switches = request.method == "enable"@ || request.method == "disable"@;
            &&& request.method == "list"@ ==> step.1 == ConnActionView::List && conn_expects(
                step.0,
                ConnEventView::Listed(Seq::empty()),
            )
            &&& request.method == "enable"@ ==> (request.params matches Ok(p) ==> step.1
                == ConnActionView::Enable(p) && step.0 == ConnStageView::Enabling(p))
            &&& request.method == "disable"@ ==> (request.params matches Ok(p) ==> step.1
                == ConnActionView::Disable(p) && step.0 == ConnStageView::Disabling(p))
            &&& switches ==> (request.params matches Err(e) ==> says_error(
                step.1,
                "bad params: "@ + e,
            ))
            &&& request.method != "list"@ && !switches ==> says_error(
                step.1,
                "unknown method: "@ + request.method,
            )
        }),
        says_error(
            conn_step(
                ConnStageView::Reading,
                ConnEventView::Received { bytes, request: Err(reason) },
            ).1,
            "invalid request: "@ + reason,
        ),
        conn_step(
            ConnStageView::Reading,
            ConnEventView::Received { bytes: 0, request: Ok(request) },
        ).1 == ConnActionView::Close,
        conn_step(
            ConnStageView::Reading,
            ConnEventView::Received { bytes: 0, request: Err(reason) },
        ).1 == ConnActionView::Close,
{
    reveal_strlit("list");
    reveal_strlit("enable");
    reveal_strlit("disable");
    assert("list"@.len() == 4 && "enable"@.len() == 6 && "disable"@.len() == 7);
    assert forall|message: Seq<char>| says_error(
        ConnActionView::Reply(#[trigger] error_reply(message)),
        message,
    ) by {
        lemma_single("error"@, JsonView::Text(message));
    }
}

/// Whether an action replies with an object whose one member, `error`, is this message.
pub open spec fn says_error(action: ConnActionView, message: Seq<char>) -> bool {
    action matches ConnActionView::Reply(reply) && (reply matches JsonView::Object(m) && m.dom()
        == set!["error"@] && m["error"@] == JsonView::Text(message))
}

/// The names of an object with one member.
proof fn lemma_single(name: Seq<char>, value: JsonView)
    ensures
        Map::<Seq<char>, JsonView>::empty().insert(name, value).dom() == set![name],
{
    assert(Map::<Seq<char>, JsonView>::empty().insert(name, value).dom() =~= set![name]);
}

/// The reply to `list` has one member, `servers`: a list with one object for each server,
/// in order, which says its name, its kind, its startup default, whether it is connected
/// and how many tools it has.
pub proof fn law_list_reply_shows_each_server(
    stage: ConnStageView,
    servers: Seq<ServerStatus>,
    i: int,
)
    requires
        0 <= i < servers.len(),
    ensures
        conn_step(stage, ConnEventView::Listed(servers)).1 matches ConnActionView::Reply(reply) && (
        reply matches JsonView::Object(m) && m.dom() == set!["servers"@] && (
        m["servers"@] matches JsonView::List(items) && items.len() == servers.len() && (
        items[i] matches JsonView::Object(item) && item.dom() == set![
            "name"@,
            "kind"@,
            "enabled_in_config"@,
            "connected"@,
            "tools"@,
        ] && item["name"@] == JsonView::Text(servers[i].name@) && item["kind"@] == JsonView::Text(
            servers[i].kind@,
        ) && item["enabled_in_config"@] == JsonView::Bool(servers[i].enabled_in_config)
            && item["connected"@] == JsonView::Bool(servers[i].connected) && item["tools"@]
            == JsonView::Integer(servers[i].tools as int)))),
{
    lemma_member_names();
    let m = list_reply(servers)->Object_0;
    assert(m.dom() =~= set!["servers"@]);
    let item = status_json(servers[i]@)->Object_0;
    assert(item.dom() =~= set![
        "name"@,
        "kind"@,
        "enabled_in_config"@,
        "connected"@,
        "tools"@,
    ]);
}

/// The reply to a switch repeats the server's name and whether the startup default was to
/// change; it says that the server is connected, with the number of its tools, or that it
/// is not, and whether it was. A switch that failed is answered with the error's message.
pub proof fn law_switch_reply_says_what_came_of_it(
    p: ParamsView,
    tools: usize,
    was: bool,
    e: ErrorView,
)
    ensures
        conn_step(
            ConnStageView::Enabling(p),
            ConnEventView::Switched(Ok(SwitchOutcome::Connected(tools))),
        ).1 matches ConnActionView::Reply(reply) && (reply matches JsonView::Object(m) && m.dom()
            == set!["name"@, "connected"@, "tools"@, "made_default"@] && m["name"@]
            == JsonView::Text(p.name) && m["connected"@] == JsonView::Bool(true) && m["tools"@]
            == JsonView::Integer(tools as int) && m["made_default"@] == JsonView::Bool(
            p.make_default,
        )),
        conn_step(
            ConnStageView::Disabling(p),
            ConnEventView::Switched(Ok(SwitchOutcome::Disconnected(was))),
        ).1 matches ConnActionView::Reply(reply) && (reply matches JsonView::Object(m) && m.dom()
            == set!["name"@, "connected"@, "was_connected"@, "made_default"@] && m["name"@]
            == JsonView::Text(p.name) && m["connected"@] == JsonView::Bool(false)
            && m["was_connected"@] == JsonView::Bool(was) && m["made_default"@] == JsonView::Bool(
            p.make_default,
        )),
        says_error(
            conn_step(ConnStageView::Enabling(p), ConnEventView::Switched(Err(e))).1,
            message_of(e),
        ),
        says_error(
            conn_step(ConnStageView::Disabling(p), ConnEventView::Switched(Err(e))).1,
            message_of(e),
        ),
{
    lemma_member_names();
    lemma_single("error"@, JsonView::Text(message_of(e)));
    let on = switch_reply(p, Ok(SwitchOutcome::Connected(tools)))->Object_0;
    assert(on.dom() =~= set!["name"@, "connected"@, "tools"@, "made_default"@]);
    let off = switch_reply(p, Ok(SwitchOutcome::Disconnected(was)))->Object_0;
    assert(off.dom() =~= set!["name"@, "connected"@, "was_connected"@, "made_default"@]);
}

/// The names of the members of replies are all different.
proof fn lemma_member_names()
    ensures
        "name"@ != "kind"@,
        "name"@ != "enabled_in_config"@,
        "name"@ != "connected"@,
        "name"@ != "tools"@,
        "name"@ != "made_default"@,
        "name"@ != "was_connected"@,
        "kind"@ != "enabled_in_config"@,
        "kind"@ != "connected"@,
        "kind"@ != "tools"@,
        "enabled_in_config"@ != "connected"@,
        "enabled_in_config"@ != "tools"@,
        "connected"@ != "tools"@,
        "connected"@ != "made_default"@,
        "connected"@ != "was_connected"@,
        "tools"@ != "made_default"@,
        "made_default"@ != "was_connected"@,
        "name"@ != "make_default"@,
        "method"@ != "params"@,
{
    reveal_strlit("name");
    reveal_strlit("kind");
    reveal_strlit("enabled_in_config");
    reveal_strlit("connected");
    reveal_strlit("tools");
    reveal_strlit("made_default");
    reveal_strlit("was_connected");
    reveal_strlit("make_default");
    reveal_strlit("method");
    reveal_strlit("params");
    assert("name"@[0] == 'n' && "kind"@[0] == 'k' && "enabled_in_config"@[0] == 'e');
    assert("connected"@[0] == 'c' && "tools"@[0] == 't' && "made_default"@[0] == 'm');
    assert("was_connected"@[0] == 'w' && "make_default"@[0] == 'm');
    assert("method"@[0] == 'm' && "params"@[0] == 'p');
}

/// A request has two members, the method and its parameters; the parameters of a switch
/// are the server's name and whether the startup default is to change.
pub proof fn law_request_holds_method_and_parameters(
    method: Seq<char>,
    params: JsonView,
    p: ParamsView,
)
    ensures
        request_json(method, params) matches JsonView::Object(m) && m.dom() == set![
            "method"@,
            "params"@,
        ] && m["method"@] == JsonView::Text(method) && m["params"@] == params,
        params_json(p) matches JsonView::Object(m) && m.dom() == set!["name"@, "make_default"@]
            && m["name"@] == JsonView::Text(p.name) && m["make_default"@] == JsonView::Bool(
            p.make_default,
        ),
{
    lemma_member_names();
    assert(request_json(method, params)->Object_0.dom() =~= set!["method"@, "params"@]);
    assert(params_json(p)->Object_0.dom() =~= set!["name"@, "make_default"@]);
}

/// A client that connects sends its line, then reads one, and gives the reply that the
/// line holds; the first step that fails ends it, with the reason.
pub proof fn law_client_gives_the_reply(c: ClientView, line: Seq<char>, reason: Seq<char>)
    requires
        c.stage == ClientStage::Connecting,
    ensures
        ({
            let s1 = client_step(c, ClientEventView::Connected(Ok(())));
            let s2 = client_step(s1.0, ClientEventView::Sent(Ok(())));
            let s3 = client_step(s2.0, ClientEventView::Received(Ok(line)));
            &&& client_expects(c, ClientEventView::Connected(Ok(())))
            &&& s1.1 == ClientActionView::Send(c.line)
            &&& client_expects(s1.0, ClientEventView::Sent(Ok(())))
            &&& s2.1 == ClientActionView::Receive
            &&& client_expects(s2.0, ClientEventView::Received(Ok(line)))
            &&& s3.1 == ClientActionView::Finish(
                match json_parsed(line) {
                    Ok(reply) => Ok(reply),
                    Err(e) => Err(ErrorView::Other("invalid admin response: "@ + e)),
                },
            )
            &&& client_step(c, ClientEventView::Connected(Err(reason))).1
                == ClientActionView::Finish(
                Err(
                    ErrorView::Other(
                        "cannot reach codemcp admin socket at "@ + c.path + " ("@ + reason
                            + "). Is the gateway running?"@,
                    ),
                ),
            )
            &&& client_step(s1.0, ClientEventView::Sent(Err(reason))).1 == ClientActionView::Finish(
                Err(ErrorView::Other(reason)),
            )
            &&& client_step(s2.0, ClientEventView::Received(Err(reason))).1
                == ClientActionView::Finish(Err(ErrorView::Other(reason)))
        }),
{
}

/// An admin server whose steps succeed comes to take connections: it makes the directory
/// of its socket, if there is one, looks for a socket that was left, removes it where
/// there is one, binds its own and makes it its owner's alone. Then it serves every
/// connection that it takes and goes on after one that it could not take.
pub proof fn law_admin_server_comes_to_accept(
    path: Seq<char>,
    dir: Seq<char>,
    reason: Seq<char>,
)
    ensures
        serve_begin(path, Some(dir)) == (ServeStage::Preparing, ServeActionView::Prepare(dir)),
        serve_begin(path, None) == (ServeStage::Checking, ServeActionView::Check(path)),
        serve_step(path, ServeEventView::Prepared(Ok(()))) == (
            ServeStage::Checking,
            ServeActionView::Check(path),
        ),
        serve_step(path, ServeEventView::Checked(true)) == (
            ServeStage::Removing,
            ServeActionView::Remove(path),
        ),
        serve_step(path, ServeEventView::Checked(false)) == (
            ServeStage::Binding,
            ServeActionView::Bind(path),
        ),
        serve_step(path, ServeEventView::Removed) == (
            ServeStage::Binding,
            ServeActionView::Bind(path),
        ),
        serve_step(path, ServeEventView::Bound(Ok(()))) == (
            ServeStage::Restricting,
            ServeActionView::Restrict(path, 0o600),
        ),
        serve_step(path, ServeEventView::Restricted) == (
            ServeStage::Accepting,
            ServeActionView::Accept,
        ),
        serve_step(path, ServeEventView::Accepted(Ok(()))) == (
            ServeStage::Accepting,
            ServeActionView::ServeAndAccept,
        ),
        serve_step(path, ServeEventView::Accepted(Err(reason))) == (
            ServeStage::Accepting,
            ServeActionView::Accept,
        ),
        serve_step(path, ServeEventView::Prepared(Err(reason))).1 == ServeActionView::Fail(
            ErrorView::Other(reason),
        ),
        serve_step(path, ServeEventView::Bound(Err(reason))).1 == ServeActionView::Fail(
            ErrorView::Other("admin socket bind "@ + path + " failed: "@ + reason),
        ),
{
}

/// Requests, events and actions of the admin interface mean what they carry.
pub proof fn law_admin_speaks_of_what_it_carries(
    text: String,
    params: EnableParams,
    request: Request,
    reply: Json,
    servers: Vec<ServerStatus>,
    outcome: SwitchOutcome,
    e: Error,
    n: usize,
    mode: u32,
    flag: bool,
)
    ensures
        params@.name == params.name@ && params@.make_default == params.make_default,
        request@.method == request.method@,
        request.params matches Ok(p) ==> request@.params == Ok::<ParamsView, Seq<char>>(p@),
        request.params matches Err(why) ==> request@.params == Err::<ParamsView, Seq<char>>(why@),
        (ConnEvent::Received { bytes: n, request: Ok(request) })@ == (ConnEventView::Received {
            bytes: n,
            request: Ok(request@),
        }),
        (ConnEvent::Received { bytes: n, request: Err(text) })@ == (ConnEventView::Received {
            bytes: n,
            request: Err(text@),
        }),
        ConnEvent::Listed(servers)@ == ConnEventView::Listed(servers@),
        ConnEvent::Switched(Ok(outcome))@ == ConnEventView::Switched(Ok(outcome)),
        ConnEvent::Switched(Err(e))@ == ConnEventView::Switched(Err(e@)),
        ConnAction::Close@ == ConnActionView::Close,
        ConnAction::List@ == ConnActionView::List,
        ConnAction::Enable(params)@ == ConnActionView::Enable(params@),
        ConnAction::Disable(params)@ == ConnActionView::Disable(params@),
        ConnAction::Reply(reply)@ == ConnActionView::Reply(reply@),
        ClientEvent::Connected(Ok(()))@ matches ClientEventView::Connected(Ok(_)),
        ClientEvent::Connected(Err(text))@ == ClientEventView::Connected(Err(text@)),
        ClientEvent::Sent(Ok(()))@ matches ClientEventView::Sent(Ok(_)),
        ClientEvent::Sent(Err(text))@ == ClientEventView::Sent(Err(text@)),
        ClientEvent::Received(Ok(text))@ == ClientEventView::Received(Ok(text@)),
        ClientEvent::Received(Err(text))@ == ClientEventView::Received(Err(text@)),
        ClientAction::Connect(text)@ == ClientActionView::Connect(text@),
        ClientAction::Send(text)@ == ClientActionView::Send(text@),
        ClientAction::Receive@ == ClientActionView::Receive,
        ClientAction::Finish(Ok(reply))@ == ClientActionView::Finish(Ok(reply@)),
        ClientAction::Finish(Err(e))@ == ClientActionView::Finish(Err(e@)),
        ServeEvent::Prepared(Err(text))@ == ServeEventView::Prepared(Err(text@)),
        ServeEvent::Prepared(Ok(()))@ matches ServeEventView::Prepared(Ok(_)),
        ServeEvent::Checked(flag)@ == ServeEventView::Checked(flag),
        ServeEvent::Removed@ == ServeEventView::Removed,
        ServeEvent::Bound(Err(text))@ == ServeEventView::Bound(Err(text@)),
        ServeEvent::Bound(Ok(()))@ matches ServeEventView::Bound(Ok(_)),
        ServeEvent::Restricted@ == ServeEventView::Restricted,
        ServeEvent::Accepted(Err(text))@ == ServeEventView::Accepted(Err(text@)),
        ServeEvent::Accepted(Ok(()))@ matches ServeEventView::Accepted(Ok(_)),
        ServeAction::Prepare(text)@ == ServeActionView::Prepare(text@),
        ServeAction::Check(text)@ == ServeActionView::Check(text@),
        ServeAction::Remove(text)@ == ServeActionView::Remove(text@),
        ServeAction::Bind(text)@ == ServeActionView::Bind(text@),
        ServeAction::Restrict(text, mode)@ == ServeActionView::Restrict(text@, mode),
        ServeAction::Accept@ == ServeActionView::Accept,
        ServeAction::ServeAndAccept@ == ServeActionView::ServeAndAccept,
        ServeAction::Fail(e)@ == ServeActionView::Fail(e@),
{
}

} // verus!
