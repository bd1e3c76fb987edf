//! The interactive OAuth 2.1 login.
//!
//! It has two phases. The first registers with the authorization server, starts
//! a callback server on this machine and gives the URL that the user opens. The
//! second waits for the browser to come back and exchanges the code that it
//! brings for tokens.

use crate::text::{
    copy_texts, decimal, decimal_text, opt_text, pairs_of, refused_text, texts_of,
};
use vstd::prelude::*;
use vstd::string::*;

verus! {

/// What the configuration says of the login to a server.
#[derive(Debug)]
pub struct OAuthConfig {
    pub scope: Option<String>,
    pub redirect_uri: Option<String>,
    pub callback_port: Option<u16>,
}

/// What the configuration says of the login, by what it means.
pub struct OAuthView {
    pub scope: Option<Seq<char>>,
    pub redirect_uri: Option<Seq<char>>,
    pub callback_port: Option<u16>,
}

impl View for OAuthConfig {
    type V = OAuthView;

    open spec fn view(&self) -> OAuthView {
        OAuthView {
            scope: opt_text(self.scope),
            redirect_uri: opt_text(self.redirect_uri),
            callback_port: self.callback_port,
        }
    }
}

/// A configuration that may be missing, by what it means.
pub open spec fn oauth_view(config: Option<&OAuthConfig>) -> Option<OAuthView> {
    match config {
        Some(c) => Some(c@),
        None => None,
    }
}

/// The parts of a URL that a login reads.
#[derive(Debug)]
pub struct UrlParts {
    /// The scheme in lower case.
    pub scheme: String,
    /// The port, where it is given and is not the default of the scheme.
    pub port: Option<u16>,
    /// The decoded names and values of the query, in order.
    pub query: Vec<(String, String)>,
}

/// The parts of a URL by what they mean.
pub struct UrlPartsView {
    pub scheme: Seq<char>,
    pub port: Option<u16>,
    pub query: Seq<(Seq<char>, Seq<char>)>,
}

impl View for UrlParts {
    type V = UrlPartsView;

    open spec fn view(&self) -> UrlPartsView {
        UrlPartsView { scheme: self.scheme@, port: self.port, query: pairs_of(self.query@) }
    }
}

/// The parts of a URL, if there are any, by what they mean.
pub open spec fn parts_view(parts: Option<UrlParts>) -> Option<UrlPartsView> {
    match parts {
        Some(p) => Some(p@),
        None => None,
    }
}

/// The parts of a string read as an absolute URL; nothing where it is none.
pub uninterp spec fn url_parsed(url: Seq<char>) -> Option<UrlPartsView>;

/// Calls `url::Url::parse` and takes the URL apart with `scheme`, `port` and
/// `query_pairs`. What comes out depends on the string alone; how a URL is
/// written is not stated.
#[verifier::external_body]
fn parse_url(url: &str) -> (r: Option<UrlParts>)
    ensures
        parts_view(r) == url_parsed(url@),
{
    let parsed = url::Url::parse(url).ok()?;
    let pairs = parsed.query_pairs();
    Some(
        UrlParts {
            scheme: parsed.scheme().to_owned(),
            port: parsed.port(),
            query: pairs.map(|(name, value)| (name.into_owned(), value.into_owned())).collect(),
        },
    )
}

/// The value of the first pair named `name`.
pub open spec fn first_value(pairs: Seq<(Seq<char>, Seq<char>)>, name: Seq<char>) -> Option<
    Seq<char>,
>
    decreases pairs.len(),
{
    if pairs.len() == 0 {
        None
    } else if pairs[0].0 == name {
        Some(pairs[0].1)
    } else {
        first_value(pairs.drop_first(), name)
    }
}

/// The `state` of a URL's query.
pub open spec fn state_of(parts: Option<UrlPartsView>) -> Option<Seq<char>> {
    match parts {
        Some(p) => first_value(p.query, "state"@),
        None => None,
    }
}

/// The value of the first pair of a query that is named `state`.
pub fn state_from_query(query: &Vec<(String, String)>) -> (r: Option<String>)
    ensures
        opt_text(r) == first_value(pairs_of(query@), "state"@),
{
    let ghost all = pairs_of(query@);
    let wanted = "state".to_owned();
    let mut i: usize = 0;
    assert(all.skip(0) =~= all);
    while i < query.len()
        invariant
            i <= query.len(),
            wanted@ == "state"@,
            all == pairs_of(query@),
            first_value(all, "state"@) == first_value(all.skip(i as int), "state"@),
        decreases query.len() - i,
    {
        assert(all.skip(i as int)[0] == all[i as int]);
        if query[i].0 == wanted {
            return Some(query[i].1.clone());
        }
        assert(all.skip(i as int).drop_first() =~= all.skip(i + 1));
        i = i + 1;
    }
    None
}

/// The `state` parameter of an authorization URL.
pub fn parse_state_from_url(url: &str) -> (r: Option<String>)
    ensures
        opt_text(r) == state_of(url_parsed(url@)),
{
    match parse_url(url) {
        Some(parts) => state_from_query(&parts.query),
        None => None,
    }
}

/// How long a login waits for the browser to come back, in seconds.
pub const CALLBACK_TIMEOUT_SECS: u64 = 300;

/// The path that the callback server answers on.
pub const DEFAULT_CALLBACK_PATH: &'static str = "/callback";

/// The port of a redirect URI: the one that it names, else the usual one of its
/// scheme.
pub open spec fn redirect_port(parts: UrlPartsView) -> u16 {
    match parts.port {
        Some(port) => port,
        None => if parts.scheme == "https"@ {
            443
        } else {
            80
        },
    }
}

/// The port to listen on: that of the redirect URI where there is one that can
/// be read, else the configured one. `redirect` is the redirect URI, taken apart.
pub open spec fn callback_port(
    config: Option<OAuthView>,
    redirect: Option<UrlPartsView>,
) -> Option<u16> {
    match (config, redirect) {
        (None, _) => None,
        (Some(_), Some(parts)) => Some(redirect_port(parts)),
        (Some(c), None) => c.callback_port,
    }
}

/// The redirect URI of a configuration, taken apart.
pub open spec fn redirect_of(config: Option<OAuthView>) -> Option<UrlPartsView> {
    match config {
        Some(c) => match c.redirect_uri {
            Some(uri) => url_parsed(uri),
            None => None,
        },
        None => None,
    }
}

/// The port to listen on, given the redirect URI of the configuration taken
/// apart.
pub fn port_from_parts(config: Option<&OAuthConfig>, redirect: &Option<UrlParts>) -> (r: Option<
    u16,
>)
    ensures
        r == callback_port(oauth_view(config), parts_view(*redirect)),
{
    match config {
        None => None,
        Some(config) => match redirect {
            Some(parts) => match parts.port {
                Some(port) => Some(port),
                None => if parts.scheme == "https".to_owned() {
                    Some(443)
                } else {
                    Some(80)
                },
            },
            None => config.callback_port,
        },
    }
}

/// The port and path of the callback server. The path is always the default one.
pub fn resolve_callback_config(config: Option<&OAuthConfig>) -> (r: (Option<u16>, &'static str))
    ensures
        r.0 == callback_port(oauth_view(config), redirect_of(oauth_view(config))),
        r.1@ == DEFAULT_CALLBACK_PATH@,
{
    let redirect = match config {
        Some(c) => match &c.redirect_uri {
            Some(uri) => parse_url(uri.as_str()),
            None => None,
        },
        None => None,
    };
    (port_from_parts(config, &redirect), DEFAULT_CALLBACK_PATH)
}

/// The address to listen on; without a port, one that the system picks.
pub open spec fn bind_address(port: Option<u16>) -> Seq<char> {
    match port {
        Some(p) => "127.0.0.1:"@ + decimal(p as nat),
        None => "127.0.0.1:0"@,
    }
}

/// The URI that the browser comes back to.
pub open spec fn redirect_uri(port: u16, path: Seq<char>) -> Seq<char> {
    "http://127.0.0.1:"@ + decimal(port as nat) + path
}

/// The scopes to ask for. Without a configured scope none are named, and the
/// authorization server's own list decides.
pub open spec fn scopes_of(config: Option<OAuthView>) -> Seq<Seq<char>> {
    match config {
        Some(c) => match c.scope {
            Some(scope) => seq![scope],
            None => Seq::empty(),
        },
        None => Seq::empty(),
    }
}

/// The name under which the gateway registers.
pub const CLIENT_NAME: &'static str = "codemcp";

/// Why a login failed. `E` is the error of the OAuth client, handed on as it is.
#[derive(Debug)]
pub enum LoginError<E> {
    Internal(String),
    AuthorizationFailed(String),
    Client(E),
}

/// Why a login failed, by what it means.
pub enum LoginErrorView<E> {
    Internal(Seq<char>),
    AuthorizationFailed(Seq<char>),
    Client(E),
}

impl<E> View for LoginError<E> {
    type V = LoginErrorView<E>;

    open spec fn view(&self) -> LoginErrorView<E> {
        match self {
            LoginError::Internal(m) => LoginErrorView::Internal(m@),
            LoginError::AuthorizationFailed(m) => LoginErrorView::AuthorizationFailed(m@),
            LoginError::Client(e) => LoginErrorView::Client(*e),
        }
    }
}

/// What the first phase gives: the URL to open, and the token that ties the
/// answer to it.
#[derive(Debug)]
pub struct AuthStartResult {
    /// The URL to open in the browser.
    pub authorization_url: String,
    /// The token against forged answers, for display.
    pub oauth_state: String,
}

/// How far the first phase has come.
#[derive(Debug)]
pub enum StartStage {
    /// The OAuth client is being made.
    Creating,
    /// The callback address is being bound.
    Binding,
    /// The bound address is being read back.
    Addressing,
    /// The gateway is registering with the authorization server.
    Authorizing,
    /// The authorization URL is being asked for.
    Asking,
    /// The callback server is being started.
    Serving { authorization_url: String, csrf_state: String },
    /// The phase is over.
    Over,
}

/// How far the first phase has come, by what it means.
pub enum StartStageView {
    Creating,
    Binding,
    Addressing,
    Authorizing,
    Asking,
    Serving { authorization_url: Seq<char>, csrf_state: Seq<char> },
    Over,
}

impl View for StartStage {
    type V = StartStageView;

    open spec fn view(&self) -> StartStageView {
        match self {
            StartStage::Creating => StartStageView::Creating,
            StartStage::Binding => StartStageView::Binding,
            StartStage::Addressing => StartStageView::Addressing,
            StartStage::Authorizing => StartStageView::Authorizing,
            StartStage::Asking => StartStageView::Asking,
            StartStage::Serving { authorization_url, csrf_state } => StartStageView::Serving {
                authorization_url: authorization_url@,
                csrf_state: csrf_state@,
            },
            StartStage::Over => StartStageView::Over,
        }
    }
}

/// The first phase of a login.
#[derive(Debug)]
pub struct LoginStart {
    address: String,
    scopes: Vec<String>,
    stage: StartStage,
}

/// The first phase of a login, by what it means.
pub struct LoginStartView {
    pub address: Seq<char>,
    pub scopes: Seq<Seq<char>>,
    pub stage: StartStageView,
}

impl View for LoginStart {
    type V = LoginStartView;

    closed spec fn view(&self) -> LoginStartView {
        LoginStartView {
            address: self.address@,
            scopes: texts_of(self.scopes@),
            stage: self.stage@,
        }
    }
}

/// What came of an action of the first phase.
#[derive(Debug)]
pub enum StartEvent<E> {
    Created(Result<(), E>),
    Bound(Result<(), String>),
    Addressed(Result<u16, String>),
    Authorized(Result<(), E>),
    AuthorizationUrl(Result<String, E>),
    Served(Result<(), String>),
}

/// What came of an action of the first phase, by what it means.
pub enum StartEventView<E> {
    Created(Result<(), E>),
    Bound(Result<(), Seq<char>>),
    Addressed(Result<u16, Seq<char>>),
    Authorized(Result<(), E>),
    AuthorizationUrl(Result<Seq<char>, E>),
    Served(Result<(), Seq<char>>),
}

/// A `Result` with its string by its characters.
pub open spec fn given_text<E>(r: Result<String, E>) -> Result<Seq<char>, E> {
    match r {
        Ok(s) => Ok(s@),
        Err(e) => Err(e),
    }
}

impl<E> View for StartEvent<E> {
    type V = StartEventView<E>;

    open spec fn view(&self) -> StartEventView<E> {
        match self {
            StartEvent::Created(r) => StartEventView::Created(*r),
            StartEvent::Bound(r) => StartEventView::Bound(refused_text(*r)),
            StartEvent::Addressed(r) => StartEventView::Addressed(refused_text(*r)),
            StartEvent::Authorized(r) => StartEventView::Authorized(*r),
            StartEvent::AuthorizationUrl(r) => StartEventView::AuthorizationUrl(given_text(*r)),
            StartEvent::Served(r) => StartEventView::Served(refused_text(*r)),
        }
    }
}

/// What is to be done next in the first phase.
#[derive(Debug)]
pub enum StartAction<E> {
    /// Make the OAuth client for the server at `url`, with the store that keeps the
    /// tokens of the server called `name` at that URL.
    Create { name: String, url: String },
    /// Listen on this address.
    Bind { address: String },
    /// Read back the port that is listened on.
    ReadAddress,
    /// Discover the authorization server and register with it.
    Authorize { scopes: Vec<String>, redirect_uri: String, client_name: String },
    /// Ask the client for the authorization URL.
    AskUrl,
    /// Serve the callback on the listener that is already bound.
    Serve { path: String, csrf_state: String },
    /// Nothing more: this is the result, with what the second phase needs.
    Finish(Result<(AuthStartResult, LoginHandle), LoginError<E>>),
}

/// What is to be done next in the first phase, by what it means.
pub enum StartActionView<E> {
    Create { name: Seq<char>, url: Seq<char> },
    Bind { address: Seq<char> },
    ReadAddress,
    Authorize { scopes: Seq<Seq<char>>, redirect_uri: Seq<char>, client_name: Seq<char> },
    AskUrl,
    Serve { path: Seq<char>, csrf_state: Seq<char> },
    Failed(LoginErrorView<E>),
    Started { authorization_url: Seq<char>, oauth_state: Seq<char>, handle: HandleView },
}

impl<E> View for StartAction<E> {
    type V = StartActionView<E>;

    open spec fn view(&self) -> StartActionView<E> {
        match self {
            StartAction::Create { name, url } => StartActionView::Create { name: name@, url: url@ },
            StartAction::Bind { address } => StartActionView::Bind { address: address@ },
            StartAction::ReadAddress => StartActionView::ReadAddress,
            StartAction::Authorize { scopes, redirect_uri, client_name } => {
                StartActionView::Authorize {
                    scopes: texts_of(scopes@),
                    redirect_uri: redirect_uri@,
                    client_name: client_name@,
                }
            },
            StartAction::AskUrl => StartActionView::AskUrl,
            StartAction::Serve { path, csrf_state } => StartActionView::Serve {
                path: path@,
                csrf_state: csrf_state@,
            },
            StartAction::Finish(Err(e)) => StartActionView::Failed(e@),
            StartAction::Finish(Ok((result, handle))) => StartActionView::Started {
                authorization_url: result.authorization_url@,
                oauth_state: result.oauth_state@,
                handle: handle@,
            },
        }
    }
}

/// How the first phase begins.
pub open spec fn start_begin(config: Option<OAuthView>) -> LoginStartView {
    LoginStartView {
        address: bind_address(callback_port(config, redirect_of(config))),
        scopes: scopes_of(config),
        stage: StartStageView::Creating,
    }
}

/// Whether an event answers the action that the first phase is waiting for.
pub open spec fn start_expects<E>(s: LoginStartView, event: StartEventView<E>) -> bool {
    match event {
        StartEventView::Created(_) => s.stage is Creating,
        StartEventView::Bound(_) => s.stage is Binding,
        StartEventView::Addressed(_) => s.stage is Addressing,
        StartEventView::Authorized(_) => s.stage is Authorizing,
        StartEventView::AuthorizationUrl(_) => s.stage is Asking,
        StartEventView::Served(_) => s.stage is Serving,
    }
}

/// The first phase at another stage, with the next action.
pub open spec fn start_at<E>(
    s: LoginStartView,
    stage: StartStageView,
    action: StartActionView<E>,
) -> (LoginStartView, StartActionView<E>) {
    (LoginStartView { stage, ..s }, action)
}

/// The first phase, failed.
pub open spec fn start_failed<E>(s: LoginStartView, error: LoginErrorView<E>) -> (
    LoginStartView,
    StartActionView<E>,
) {
    start_at(s, StartStageView::Over, StartActionView::Failed(error))
}

/// How the first phase goes on once the authorization URL is known, with the
/// `state` in it: without one it fails.
pub open spec fn url_step<E>(
    s: LoginStartView,
    authorization_url: Seq<char>,
    state: Option<Seq<char>>,
) -> (LoginStartView, StartActionView<E>) {
    match state {
        Some(csrf_state) => start_at(
            s,
            StartStageView::Serving { authorization_url, csrf_state },
            StartActionView::Serve { path: DEFAULT_CALLBACK_PATH@, csrf_state },
        ),
        None => start_failed(
            s,
            LoginErrorView::Internal("authorization URL missing state parameter"@),
        ),
    }
}

/// How the first phase goes on. The first failure ends it.
pub open spec fn start_step<E>(s: LoginStartView, event: StartEventView<E>) -> (
    LoginStartView,
    StartActionView<E>,
) {
    match event {
        StartEventView::Created(Ok(_)) => start_at(
            s,
            StartStageView::Binding,
            StartActionView::Bind { address: s.address },
        ),
        StartEventView::Created(Err(e)) => start_failed(s, LoginErrorView::Client(e)),
        StartEventView::Bound(Ok(_)) => start_at(
            s,
            StartStageView::Addressing,
            StartActionView::ReadAddress,
        ),
        StartEventView::Bound(Err(e)) => start_failed(
            s,
            LoginErrorView::Internal("callback bind failed on "@ + s.address + ": "@ + e),
        ),
        StartEventView::Addressed(Ok(port)) => start_at(
            s,
            StartStageView::Authorizing,
            StartActionView::Authorize {
                scopes: s.scopes,
                redirect_uri: redirect_uri(port, DEFAULT_CALLBACK_PATH@),
                client_name: CLIENT_NAME@,
            },
        ),
        StartEventView::Addressed(Err(e)) => start_failed(
            s,
            LoginErrorView::Internal("callback addr: "@ + e),
        ),
        StartEventView::Authorized(Ok(_)) => start_at(
            s,
            StartStageView::Asking,
            StartActionView::AskUrl,
        ),
        StartEventView::Authorized(Err(e)) => start_failed(s, LoginErrorView::Client(e)),
        StartEventView::AuthorizationUrl(Ok(url)) => url_step(s, url, state_of(url_parsed(url))),
        StartEventView::AuthorizationUrl(Err(e)) => start_failed(s, LoginErrorView::Client(e)),
        StartEventView::Served(Ok(_)) => start_at(
            s,
            StartStageView::Over,
            StartActionView::Started {
                authorization_url: s.stage->authorization_url,
                oauth_state: s.stage->csrf_state,
                handle: HandleView {
                    csrf_state: s.stage->csrf_state,
                    stage: FinishStage::Waiting,
                },
            },
        ),
        StartEventView::Served(Err(e)) => start_failed(s, LoginErrorView::Internal(e)),
    }
}

/// Begins a login to the server called `name` at `url`. The first thing to do is to
/// make the OAuth client.
pub fn start<E>(name: &str, url: &str, config: Option<&OAuthConfig>) -> (r: (
    LoginStart,
    StartAction<E>,
))
    ensures
        r.0@ == start_begin(oauth_view(config)),
        r.1@ == (StartActionView::<E>::Create { name: name@, url: url@ }),
{
    let (port, _) = resolve_callback_config(config);
    let address = match port {
        Some(p) => "127.0.0.1:".to_owned().concat(decimal_text(p as u64).as_str()),
        None => "127.0.0.1:0".to_owned(),
    };
    let mut scopes: Vec<String> = Vec::new();
    if let Some(c) = config {
        if let Some(scope) = &c.scope {
            scopes.push(scope.clone());
        }
    }
    assert(texts_of(scopes@) =~= scopes_of(oauth_view(config)));
    (
        LoginStart { address, scopes, stage: StartStage::Creating },
        StartAction::Create { name: name.to_owned(), url: url.to_owned() },
    )
}

impl LoginStart {
    /// The same phase at another stage.
    fn at(self, stage: StartStage) -> (r: Self)
        ensures
            r@ == (LoginStartView { stage: stage@, ..self@ }),
    {
        LoginStart { address: self.address, scopes: self.scopes, stage }
    }

    /// Takes the authorization URL with the `state` in it, if there is one.
    pub fn url_given<E>(self, authorization_url: String, state: Option<String>) -> (r: (
        Self,
        StartAction<E>,
    ))
        requires
            self@.stage is Asking,
        ensures
            (r.0@, r.1@) == url_step::<E>(self@, authorization_url@, opt_text(state)),
    {
        match state {
            Some(csrf_state) => {
                let action = StartAction::Serve {
                    path: DEFAULT_CALLBACK_PATH.to_owned(),
                    csrf_state: csrf_state.clone(),
                };
                (self.at(StartStage::Serving { authorization_url, csrf_state }), action)
            },
            None => {
                let message = "authorization URL missing state parameter".to_owned();
                (self.at(StartStage::Over), StartAction::Finish(Err(LoginError::Internal(message))))
            },
        }
    }

    /// Takes the phase on with what came of its last action.
    pub fn step<E>(self, event: StartEvent<E>) -> (r: (Self, StartAction<E>))
        requires
            start_expects(self@, event@),
        ensures
            (r.0@, r.1@) == start_step(self@, event@),
    {
        match event {
            StartEvent::Created(Ok(_)) => {
                let address = self.address.clone();
                (self.at(StartStage::Binding), StartAction::Bind { address })
            },
            StartEvent::Bound(Ok(_)) => (self.at(StartStage::Addressing), StartAction::ReadAddress),
            StartEvent::Addressed(Ok(port)) => {
                let redirect_uri = "http://127.0.0.1:".to_owned().concat(
                    decimal_text(port as u64).as_str(),
                ).concat(DEFAULT_CALLBACK_PATH);
                let scopes = copy_texts(&self.scopes);
                let client_name = CLIENT_NAME.to_owned();
                (
                    self.at(StartStage::Authorizing),
                    StartAction::Authorize { scopes, redirect_uri, client_name },
                )
            },
            StartEvent::Authorized(Ok(_)) => (self.at(StartStage::Asking), StartAction::AskUrl),
            StartEvent::AuthorizationUrl(Ok(url)) => {
                let state = parse_state_from_url(url.as_str());
                self.url_given(url, state)
            },
            StartEvent::Served(Ok(_)) => {
                let action = match &self.stage {
                    StartStage::Serving { authorization_url, csrf_state } => {
                        let result = AuthStartResult {
                            authorization_url: authorization_url.clone(),
                            oauth_state: csrf_state.clone(),
                        };
                        let handle = LoginHandle {
                            csrf_state: csrf_state.clone(),
                            stage: FinishStage::Waiting,
                        };
                        StartAction::Finish(Ok((result, handle)))
                    },
                    _ => {
                        assert(false);
                        StartAction::AskUrl
                    },
                };
                (self.at(StartStage::Over), action)
            },
            StartEvent::Created(Err(e)) => {
                (self.at(StartStage::Over), StartAction::Finish(Err(LoginError::Client(e))))
            },
            StartEvent::Bound(Err(e)) => {
                let message = "callback bind failed on ".to_owned().concat(
                    self.address.as_str(),
                ).concat(": ").concat(e.as_str());
                (self.at(StartStage::Over), StartAction::Finish(Err(LoginError::Internal(message))))
            },
            StartEvent::Addressed(Err(e)) => {
                let message = "callback addr: ".to_owned().concat(e.as_str());
                (self.at(StartStage::Over), StartAction::Finish(Err(LoginError::Internal(message))))
            },
            StartEvent::Authorized(Err(e)) => {
                (self.at(StartStage::Over), StartAction::Finish(Err(LoginError::Client(e))))
            },
            StartEvent::AuthorizationUrl(Err(e)) => {
                (self.at(StartStage::Over), StartAction::Finish(Err(LoginError::Client(e))))
            },
            StartEvent::Served(Err(e)) => {
                (self.at(StartStage::Over), StartAction::Finish(Err(LoginError::Internal(e))))
            },
        }
    }
}

/// How far the second phase has come.
#[derive(Clone, Copy, Debug, PartialEq, Eq, Structural)]
pub enum FinishStage {
    /// The browser is being waited for.
    Waiting,
    /// The code is being exchanged for tokens.
    Exchanging,
    /// The tokens are being read from the client.
    Reading,
    /// The phase is over.
    Over,
}

/// A login between its two phases, and the second phase itself.
#[derive(Debug)]
pub struct LoginHandle {
    csrf_state: String,
    stage: FinishStage,
}

/// A login between its two phases, by what it means.
pub struct HandleView {
    pub csrf_state: Seq<char>,
    pub stage: FinishStage,
}

impl View for LoginHandle {
    type V = HandleView;

    closed spec fn view(&self) -> HandleView {
        HandleView { csrf_state: self.csrf_state@, stage: self.stage }
    }
}

/// What came of waiting for the browser.
#[derive(Debug)]
pub enum Callback {
    /// It did not come back in time.
    TimedOut,
    /// The callback server went away.
    Closed,
    /// It brought a code.
    Code(String),
    /// It brought an error.
    Error(String),
}

/// What came of waiting for the browser, by what it means.
pub enum CallbackView {
    TimedOut,
    Closed,
    Code(Seq<char>),
    Error(Seq<char>),
}

impl View for Callback {
    type V = CallbackView;

    open spec fn view(&self) -> CallbackView {
        match self {
            Callback::TimedOut => CallbackView::TimedOut,
            Callback::Closed => CallbackView::Closed,
            Callback::Code(c) => CallbackView::Code(c@),
            Callback::Error(e) => CallbackView::Error(e@),
        }
    }
}

/// What came of an action of the second phase. `T` are the tokens.
#[derive(Debug)]
pub enum FinishEvent<T, E> {
    Called(Callback),
    Exchanged(Result<(), E>),
    Credentials(Result<Option<T>, E>),
}

/// What came of an action of the second phase, by what it means.
pub enum FinishEventView<T, E> {
    Called(CallbackView),
    Exchanged(Result<(), E>),
    Credentials(Result<Option<T>, E>),
}

impl<T, E> View for FinishEvent<T, E> {
    type V = FinishEventView<T, E>;

    open spec fn view(&self) -> FinishEventView<T, E> {
        match self {
            FinishEvent::Called(c) => FinishEventView::Called(c@),
            FinishEvent::Exchanged(r) => FinishEventView::Exchanged(*r),
            FinishEvent::Credentials(r) => FinishEventView::Credentials(*r),
        }
    }
}

/// What is to be done next in the second phase.
#[derive(Debug)]
pub enum FinishAction<T, E> {
    /// Exchange the code, which must come with this token.
    Exchange { code: String, csrf_state: String },
    /// Read the tokens from the client.
    ReadCredentials,
    /// Nothing more: this is the result.
    Finish(Result<T, LoginError<E>>),
}

/// What is to be done next in the second phase, by what it means.
pub enum FinishActionView<T, E> {
    Exchange { code: Seq<char>, csrf_state: Seq<char> },
    ReadCredentials,
    Finish(Result<T, LoginErrorView<E>>),
}

impl<T, E> View for FinishAction<T, E> {
    type V = FinishActionView<T, E>;

    open spec fn view(&self) -> FinishActionView<T, E> {
        match self {
            FinishAction::Exchange { code, csrf_state } => FinishActionView::Exchange {
                code: code@,
                csrf_state: csrf_state@,
            },
            FinishAction::ReadCredentials => FinishActionView::ReadCredentials,
            FinishAction::Finish(Ok(tokens)) => FinishActionView::Finish(Ok(*tokens)),
            FinishAction::Finish(Err(e)) => FinishActionView::Finish(Err(e@)),
        }
    }
}

/// A step of the second phase: whether the callback server is to be stopped, and
/// what is to be done next.
#[derive(Debug)]
pub struct FinishStep<T, E> {
    pub handle: LoginHandle,
    pub stop_server: bool,
    pub action: FinishAction<T, E>,
}

/// A step of the second phase, by what it means.
pub struct FinishStepView<T, E> {
    pub handle: HandleView,
    pub stop_server: bool,
    pub action: FinishActionView<T, E>,
}

impl<T, E> View for FinishStep<T, E> {
    type V = FinishStepView<T, E>;

    open spec fn view(&self) -> FinishStepView<T, E> {
        FinishStepView {
            handle: self.handle@,
            stop_server: self.stop_server,
            action: self.action@,
        }
    }
}

/// Whether an event answers the action that the second phase is waiting for.
pub open spec fn finish_expects<T, E>(h: HandleView, event: FinishEventView<T, E>) -> bool {
    match event {
        FinishEventView::Called(_) => h.stage == FinishStage::Waiting,
        FinishEventView::Exchanged(_) => h.stage == FinishStage::Exchanging,
        FinishEventView::Credentials(_) => h.stage == FinishStage::Reading,
    }
}

/// The end of the second phase.
pub open spec fn finish_over<T, E>(
    h: HandleView,
    stop_server: bool,
    result: Result<T, LoginErrorView<E>>,
) -> FinishStepView<T, E> {
    FinishStepView {
        handle: HandleView { stage: FinishStage::Over, ..h },
        stop_server,
        action: FinishActionView::Finish(result),
    }
}

/// How the second phase goes on. The first failure ends it.
pub open spec fn finish_step<T, E>(h: HandleView, event: FinishEventView<T, E>) -> FinishStepView<
    T,
    E,
> {
    match event {
        FinishEventView::Called(CallbackView::TimedOut) => finish_over(
            h,
            true,
            Err(
                LoginErrorView::AuthorizationFailed(
                    "OAuth callback timeout - authorization took too long"@,
                ),
            ),
        ),
        FinishEventView::Called(CallbackView::Closed) => finish_over(
            h,
            false,
            Err(LoginErrorView::AuthorizationFailed("callback channel closed"@)),
        ),
        FinishEventView::Called(CallbackView::Error(e)) => finish_over(
            h,
            true,
            Err(LoginErrorView::AuthorizationFailed(e)),
        ),
        FinishEventView::Called(CallbackView::Code(code)) => FinishStepView {
            handle: HandleView { stage: FinishStage::Exchanging, ..h },
            stop_server: false,
            action: FinishActionView::Exchange { code, csrf_state: h.csrf_state },
        },
        FinishEventView::Exchanged(Ok(_)) => FinishStepView {
            handle: HandleView { stage: FinishStage::Reading, ..h },
            stop_server: false,
            action: FinishActionView::ReadCredentials,
        },
        FinishEventView::Exchanged(Err(e)) => finish_over(h, false, Err(LoginErrorView::Client(e))),
        FinishEventView::Credentials(Ok(Some(tokens))) => finish_over(h, true, Ok(tokens)),
        FinishEventView::Credentials(Ok(None)) => finish_over(
            h,
            true,
            Err(
                LoginErrorView::Internal("token exchange succeeded but no token response stored"@),
            ),
        ),
        FinishEventView::Credentials(Err(e)) => finish_over(
            h,
            false,
            Err(LoginErrorView::Client(e)),
        ),
    }
}

impl LoginHandle {
    /// The end of the second phase.
    fn over<T, E>(self, stop_server: bool, result: Result<T, LoginError<E>>) -> (r: FinishStep<
        T,
        E,
    >)
        ensures
            r@ == finish_over(
                self@,
                stop_server,
                match result {
                    Ok(tokens) => Ok(tokens),
                    Err(e) => Err(e@),
                },
            ),
    {
        FinishStep {
            handle: LoginHandle { csrf_state: self.csrf_state, stage: FinishStage::Over },
            stop_server,
            action: FinishAction::Finish(result),
        }
    }

    /// Takes the second phase on with what came of its last action. It begins by
    /// waiting for the browser.
    pub fn step<T, E>(self, event: FinishEvent<T, E>) -> (r: FinishStep<T, E>)
        requires
            finish_expects(self@, event@),
        ensures
            r@ == finish_step(self@, event@),
    {
        match event {
            FinishEvent::Called(Callback::TimedOut) => {
                let message = "OAuth callback timeout - authorization took too long".to_owned();
                self.over(true, Err(LoginError::AuthorizationFailed(message)))
            },
            FinishEvent::Called(Callback::Closed) => {
                let message = "callback channel closed".to_owned();
                self.over(false, Err(LoginError::AuthorizationFailed(message)))
            },
            FinishEvent::Called(Callback::Error(e)) => {
                self.over(true, Err(LoginError::AuthorizationFailed(e)))
            },
            FinishEvent::Called(Callback::Code(code)) => {
                let csrf_state = self.csrf_state.clone();
                FinishStep {
                    handle: LoginHandle {
                        csrf_state: self.csrf_state,
                        stage: FinishStage::Exchanging,
                    },
                    stop_server: false,
                    action: FinishAction::Exchange { code, csrf_state },
                }
            },
            FinishEvent::Exchanged(Ok(_)) => FinishStep {
                handle: LoginHandle { csrf_state: self.csrf_state, stage: FinishStage::Reading },
                stop_server: false,
                action: FinishAction::ReadCredentials,
            },
            FinishEvent::Exchanged(Err(e)) => self.over(false, Err(LoginError::Client(e))),
            FinishEvent::Credentials(Ok(Some(tokens))) => self.over(true, Ok(tokens)),
            FinishEvent::Credentials(Ok(None)) => {
                let message = "token exchange succeeded but no token response stored".to_owned();
                self.over(true, Err(LoginError::Internal(message)))
            },
            FinishEvent::Credentials(Err(e)) => self.over(false, Err(LoginError::Client(e))),
        }
    }
}

/// Where the first phase stands after some events.
pub open spec fn start_run<E>(
    name: Seq<char>,
    url: Seq<char>,
    config: Option<OAuthView>,
    events: Seq<StartEventView<E>>,
) -> (LoginStartView, StartActionView<E>)
    decreases events.len(),
{
    if events.len() == 0 {
        (start_begin(config), StartActionView::Create { name, url })
    } else {
        start_step(start_run(name, url, config, events.drop_last()).0, events.last())
    }
}

/// Whether each of the events answers the action before it.
pub open spec fn start_follows<E>(
    name: Seq<char>,
    url: Seq<char>,
    config: Option<OAuthView>,
    events: Seq<StartEventView<E>>,
) -> bool
    decreases events.len(),
{
    events.len() > 0 ==> start_follows(name, url, config, events.drop_last()) && start_expects(
        start_run(name, url, config, events.drop_last()).0,
        events.last(),
    )
}

/// What holds at every point of the first phase.
proof fn lemma_start<E>(
    name: Seq<char>,
    url: Seq<char>,
    config: Option<OAuthView>,
    events: Seq<StartEventView<E>>,
)
    requires
        start_follows(name, url, config, events),
    ensures
        ({
            let (s, action) = start_run(name, url, config, events);
            let begin = start_begin(config);
            &&& s.address == begin.address && s.scopes == begin.scopes
            &&& match s.stage {
                StartStageView::Creating => events.len() == 0 && action
                    == (StartActionView::<E>::Create { name, url }),
                StartStageView::Binding => events.len() == 1 && action
                    == (StartActionView::<E>::Bind { address: begin.address }),
                StartStageView::Addressing => events.len() == 2 && action is ReadAddress,
                StartStageView::Authorizing => events.len() == 3 && (events[2] matches
                    StartEventView::Addressed(Ok(port)) && action
                    == StartActionView::<E>::Authorize {
                    scopes: begin.scopes,
                    redirect_uri: redirect_uri(port, DEFAULT_CALLBACK_PATH@),
                    client_name: CLIENT_NAME@,
                }),
                StartStageView::Asking => events.len() == 4 && action is AskUrl,
                StartStageView::Serving { authorization_url, csrf_state } => events.len() == 5
                    && events[4] == StartEventView::<E>::AuthorizationUrl(Ok(authorization_url))
                    && state_of(url_parsed(authorization_url)) == Some(csrf_state) && action
                    == StartActionView::<E>::Serve { path: DEFAULT_CALLBACK_PATH@, csrf_state },
                StartStageView::Over => match action {
                    StartActionView::Failed(_) => true,
                    StartActionView::Started { authorization_url, oauth_state, handle } => {
                        &&& events.len() == 6
                        &&& events[4] == StartEventView::<E>::AuthorizationUrl(
                            Ok(authorization_url),
                        )
                        &&& state_of(url_parsed(authorization_url)) == Some(oauth_state)
                        &&& handle == HandleView {
                            csrf_state: oauth_state,
                            stage: FinishStage::Waiting,
                        }
                    },
                    _ => false,
                },
            }
        }),
    decreases events.len(),
{
    if events.len() > 0 {
        let front = events.drop_last();
        lemma_start(name, url, config, front);
        assert forall|i: int| 0 <= i < front.len() implies events[i] == #[trigger] front[i] by {}
        if front.len() == 5 {
            assert(events[4] == front[4]);
        }
    }
}

/// The redirect URI that is registered names the port that is really listened on
/// and the path that is really served.
pub proof fn law_redirect_goes_to_the_bound_port<E>(
    name: Seq<char>,
    url: Seq<char>,
    config: Option<OAuthView>,
    events: Seq<StartEventView<E>>,
)
    requires
        start_follows(name, url, config, events),
    ensures
        start_run(name, url, config, events).1 matches StartActionView::Authorize { redirect_uri: uri, .. }
            ==> events.len() == 3 && (events[2] matches StartEventView::Addressed(Ok(port)) && uri
            == redirect_uri(port, DEFAULT_CALLBACK_PATH@)),
        start_run(name, url, config, events).1 matches StartActionView::Serve { path, .. } ==> path
            == DEFAULT_CALLBACK_PATH@,
{
    lemma_start(name, url, config, events);
}

/// The token against forged answers is the `state` of the authorization URL, and
/// one and the same in all places: the callback server gets it, the user sees it,
/// and the second phase compares with it.
pub proof fn law_one_state_per_login<E>(
    name: Seq<char>,
    url: Seq<char>,
    config: Option<OAuthView>,
    events: Seq<StartEventView<E>>,
)
    requires
        start_follows(name, url, config, events),
        start_run(name, url, config, events).1 is Started,
    ensures
        start_run(name, url, config, events).1 matches StartActionView::Started {
            authorization_url,
            oauth_state,
            handle,
        } && state_of(url_parsed(authorization_url)) == Some(oauth_state) && handle.csrf_state
            == oauth_state && start_run(name, url, config, events.drop_last()).1 == (StartActionView::<
            E,
        >::Serve { path: DEFAULT_CALLBACK_PATH@, csrf_state: oauth_state }),
{
    lemma_start(name, url, config, events);
    lemma_start(name, url, config, events.drop_last());
}

/// Where the second phase stands after some events: the handle, whether the
/// callback server was stopped, and the last action.
pub struct FinishRun<T, E> {
    pub handle: HandleView,
    pub stopped: bool,
    pub action: Option<FinishActionView<T, E>>,
}

/// Where the second phase stands after some events.
pub open spec fn finish_run<T, E>(h: HandleView, events: Seq<FinishEventView<T, E>>) -> FinishRun<
    T,
    E,
>
    decreases events.len(),
{
    if events.len() == 0 {
        FinishRun { handle: h, stopped: false, action: None }
    } else {
        let run = finish_run(h, events.drop_last());
        let step = finish_step(run.handle, events.last());
        FinishRun {
            handle: step.handle,
            stopped: run.stopped || step.stop_server,
            action: Some(step.action),
        }
    }
}

/// Whether each of the events answers the action before it.
pub open spec fn finish_follows<T, E>(h: HandleView, events: Seq<FinishEventView<T, E>>) -> bool
    decreases events.len(),
{
    events.len() > 0 ==> finish_follows(h, events.drop_last()) && finish_expects(
        finish_run(h, events.drop_last()).handle,
        events.last(),
    )
}

/// What holds at every point of the second phase.
proof fn lemma_finish<T, E>(h: HandleView, events: Seq<FinishEventView<T, E>>)
    requires
        h.stage == FinishStage::Waiting,
        finish_follows(h, events),
    ensures
        ({
            let run = finish_run(h, events);
            &&& run.handle.csrf_state == h.csrf_state
            &&& run.handle.stage == FinishStage::Waiting ==> events.len() == 0 && run.action is None
            &&& run.handle.stage == FinishStage::Exchanging ==> events.len() == 1 && (
            events[0] matches FinishEventView::Called(CallbackView::Code(code)) && run.action
                == Some(
                FinishActionView::<T, E>::Exchange { code, csrf_state: h.csrf_state },
            ))
            &&& run.handle.stage == FinishStage::Reading ==> events.len() == 2 && (
            events[0] matches FinishEventView::Called(CallbackView::Code(_)))
                && run.action == Some(FinishActionView::<T, E>::ReadCredentials)
            &&& run.handle.stage == FinishStage::Over <==> (run.action matches Some(
                FinishActionView::Finish(_),
            ))
            &&& run.stopped ==> run.handle.stage == FinishStage::Over
            &&& (events.len() > 0 && (events[0] == FinishEventView::<T, E>::Called(
                CallbackView::TimedOut,
            ) || events[0] matches FinishEventView::Called(CallbackView::Error(_))))
                ==> run.stopped
            &&& run.action matches Some(FinishActionView::Finish(Ok(tokens))) ==> run.stopped
                && events.len() == 3 && events[2] == FinishEventView::<T, E>::Credentials(
                Ok(Some(tokens)),
            ) && (events[0] matches FinishEventView::Called(CallbackView::Code(_)))
        }),
    decreases events.len(),
{
    if events.len() > 0 {
        let front = events.drop_last();
        lemma_finish(h, front);
        if front.len() > 0 {
            assert(events[0] == front[0]);
        }
    }
}

/// A login succeeds only with a code that the browser brought, which is exchanged
/// together with the token of this login.
pub proof fn law_code_is_exchanged_with_the_state<T, E>(
    h: HandleView,
    events: Seq<FinishEventView<T, E>>,
)
    requires
        h.stage == FinishStage::Waiting,
        finish_follows(h, events),
    ensures
        finish_run(h, events).action matches Some(FinishActionView::Exchange { code, csrf_state })
            ==> csrf_state == h.csrf_state && events[0] == FinishEventView::<T, E>::Called(
            CallbackView::Code(code),
        ),
        finish_run(h, events).action matches Some(FinishActionView::Finish(Ok(tokens)))
            ==> events.len() == 3 && (events[0] matches FinishEventView::Called(
            CallbackView::Code(_),
        )) && events[2] == FinishEventView::<T, E>::Credentials(Ok(Some(tokens))),
{
    lemma_finish(h, events);
}

/// The callback server is stopped once the login has succeeded, has timed out or
/// was refused, and never before the login is over.
pub proof fn law_callback_server_is_stopped<T, E>(
    h: HandleView,
    events: Seq<FinishEventView<T, E>>,
)
    requires
        h.stage == FinishStage::Waiting,
        finish_follows(h, events),
    ensures
        finish_run(h, events).stopped ==> (finish_run(h, events).action matches Some(
            FinishActionView::Finish(_),
        )),
        (finish_run(h, events).action matches Some(FinishActionView::Finish(Ok(_)))) ==> finish_run(
            h,
            events,
        ).stopped,
        events.len() > 0 && (events[0] == FinishEventView::<T, E>::Called(CallbackView::TimedOut)
            || events[0] matches FinishEventView::Called(CallbackView::Error(_))) ==> finish_run(
            h,
            events,
        ).stopped,
{
    lemma_finish(h, events);
}

/// The value that counts is that of the first pair with the name, and there is none
/// exactly where no pair has it.
pub proof fn law_first_pair_counts(pairs: Seq<(Seq<char>, Seq<char>)>, name: Seq<char>, i: int)
    requires
        0 <= i <= pairs.len(),
        forall|j: int| 0 <= j < i ==> (#[trigger] pairs[j]).0 != name,
        i < pairs.len() ==> pairs[i].0 == name,
    ensures
        first_value(pairs, name) == (if i < pairs.len() {
            Some(pairs[i].1)
        } else {
            None
        }),
    decreases i,
{
    if i > 0 {
        let rest = pairs.drop_first();
        assert(pairs[0].0 != name);
        assert forall|j: int| 0 <= j < i - 1 implies (#[trigger] rest[j]).0 != name by {
            assert(pairs[j + 1].0 != name);
        }
        law_first_pair_counts(rest, name, i - 1);
    }
}

/// The callback server listens on the port of the configured redirect URI, where that
/// can be read: the port that it names, else the usual one of its scheme. Else it
/// listens on the configured port, and without one on a port that the system picks.
pub proof fn law_login_binds_the_configured_port<E>(config: OAuthView)
    ensures
        ({
            let port = match (match config.redirect_uri {
                Some(uri) => url_parsed(uri),
                None => None,
            }) {
                Some(parts) => match parts.port {
                    Some(p) => Some(p),
                    None => Some(
                        if parts.scheme == "https"@ {
                            443u16
                        } else {
                            80u16
                        },
                    ),
                },
                None => config.callback_port,
            };
            start_step(
                start_begin(Some(config)),
                StartEventView::<E>::Created(Ok(())),
            ).1 == (StartActionView::<E>::Bind {
                address: match port {
                    Some(p) => "127.0.0.1:"@ + decimal(p as nat),
                    None => "127.0.0.1:0"@,
                },
            })
        }),
        start_step(start_begin(None), StartEventView::<E>::Created(Ok(()))).1
            == (StartActionView::<E>::Bind { address: "127.0.0.1:0"@ }),
{
}

/// A redirect URI that can be read decides the port, whatever port is configured
/// besides; one that cannot be read decides nothing.
pub proof fn law_redirect_uri_decides_the_port(
    config: OAuthView,
    other: Option<u16>,
    parts: UrlPartsView,
)
    ensures
        callback_port(Some(config), Some(parts)) == callback_port(
            Some(OAuthView { callback_port: other, ..config }),
            Some(parts),
        ),
        parts.port is Some ==> callback_port(Some(config), Some(parts)) == parts.port,
        parts.port is None && parts.scheme == "https"@ ==> callback_port(Some(config), Some(parts))
            == Some(443u16),
        parts.port is None && parts.scheme != "https"@ ==> callback_port(Some(config), Some(parts))
            == Some(80u16),
        callback_port(Some(config), None) == config.callback_port,
        callback_port(None, Some(parts)) is None,
        callback_port(None, None) is None,
        config.redirect_uri matches Some(uri) ==> redirect_of(Some(config)) == url_parsed(uri),
        config.redirect_uri is None ==> redirect_of(Some(config)) is None,
        redirect_of(None) is None,
{
}

/// The first phase of a login whose steps all succeed: the client is made, the callback
/// address bound and its port read back; with that port the gateway registers as
/// `codemcp` for the configured scope; the authorization URL is asked for, the callback
/// served with the `state` in it, and both are handed out.
pub proof fn law_login_starts_where_its_steps_succeed<E>(
    config: Option<OAuthView>,
    port: u16,
    authorization_url: Seq<char>,
    parts: UrlPartsView,
    i: int,
)
    requires
        url_parsed(authorization_url) == Some(parts),
        0 <= i < parts.query.len(),
        parts.query[i].0 == "state"@,
        forall|j: int| 0 <= j < i ==> (#[trigger] parts.query[j]).0 != "state"@,
    ensures
        ({
            let token = parts.query[i].1;
            let s0 = start_begin(config);
            let s1 = start_step(s0, StartEventView::<E>::Created(Ok(())));
            let s2 = start_step(s1.0, StartEventView::<E>::Bound(Ok(())));
            let s3 = start_step(s2.0, StartEventView::<E>::Addressed(Ok(port)));
            let s4 = start_step(s3.0, StartEventView::<E>::Authorized(Ok(())));
            let s5 = start_step(s4.0, StartEventView::<E>::AuthorizationUrl(Ok(authorization_url)));
            let s6 = start_step(s5.0, StartEventView::<E>::Served(Ok(())));
            &&& start_expects(s0, StartEventView::<E>::Created(Ok(())))
            &&& s1.1 is Bind
            &&& start_expects(s1.0, StartEventView::<E>::Bound(Ok(())))
            &&& s2.1 == StartActionView::<E>::ReadAddress
            &&& start_expects(s2.0, StartEventView::<E>::Addressed(Ok(port)))
            &&& s3.1 == (StartActionView::<E>::Authorize {
                scopes: match config {
                    Some(c) => match c.scope {
                        Some(scope) => seq![scope],
                        None => Seq::empty(),
                    },
                    None => Seq::empty(),
                },
                redirect_uri: "http://127.0.0.1:"@ + decimal(port as nat) + "/callback"@,
                client_name: "codemcp"@,
            })
            &&& start_expects(s3.0, StartEventView::<E>::Authorized(Ok(())))
            &&& s4.1 == StartActionView::<E>::AskUrl
            &&& start_expects(
                s4.0,
                StartEventView::<E>::AuthorizationUrl(Ok(authorization_url)),
            )
            &&& s5.1 == (StartActionView::<E>::Serve { path: "/callback"@, csrf_state: token })
            &&& start_expects(s5.0, StartEventView::<E>::Served(Ok(())))
            &&& s6.1 == (StartActionView::<E>::Started {
                authorization_url,
                oauth_state: token,
                handle: HandleView { csrf_state: token, stage: FinishStage::Waiting },
            })
        }),
{
    law_first_pair_counts(parts.query, "state"@, i);
}

/// A step of the first phase that fails ends it: with the client's own error, or with
/// one that says what failed and why. A URL without `state` fails it too.
pub proof fn law_failed_step_ends_the_start<E>(s: LoginStartView, event: StartEventView<E>)
    ensures
        ({
            let error = match event {
                StartEventView::Created(Err(e)) => Some(LoginErrorView::Client(e)),
                StartEventView::Bound(Err(e)) => Some(
                    LoginErrorView::Internal("callback bind failed on "@ + s.address + ": "@ + e),
                ),
                StartEventView::Addressed(Err(e)) => Some(
                    LoginErrorView::Internal("callback addr: "@ + e),
                ),
                StartEventView::Authorized(Err(e)) => Some(LoginErrorView::Client(e)),
                StartEventView::AuthorizationUrl(Err(e)) => Some(LoginErrorView::Client(e)),
                StartEventView::AuthorizationUrl(Ok(url)) => if url_parsed(url) is None {
                    Some(
                        LoginErrorView::<E>::Internal("authorization URL missing state parameter"@),
                    )
                } else {
                    None
                },
                StartEventView::Served(Err(e)) => Some(LoginErrorView::Internal(e)),
                _ => None,
            };
            error matches Some(why) ==> start_step(s, event).1 == StartActionView::<E>::Failed(why)
                && start_step(s, event).0.stage is Over
        }),
{
}

/// An authorization URL whose query names no `state` fails the login.
pub proof fn law_url_without_state_is_refused<E>(
    s: LoginStartView,
    url: Seq<char>,
    parts: UrlPartsView,
)
    requires
        url_parsed(url) == Some(parts),
        forall|j: int| 0 <= j < parts.query.len() ==> (#[trigger] parts.query[j]).0 != "state"@,
    ensures
        start_step(s, StartEventView::<E>::AuthorizationUrl(Ok(url))).1
            == StartActionView::<E>::Failed(
            LoginErrorView::Internal("authorization URL missing state parameter"@),
        ),
{
    law_first_pair_counts(parts.query, "state"@, parts.query.len() as int);
}

/// The second phase of a login whose steps all succeed: the code that the browser
/// brought is exchanged together with the token of the login, the tokens are read and
/// handed out, and the callback server is stopped.
pub proof fn law_login_succeeds_where_its_steps_do<T, E>(
    token: Seq<char>,
    code: Seq<char>,
    tokens: T,
)
    ensures
        ({
            let h = HandleView { csrf_state: token, stage: FinishStage::Waiting };
            let s1 = finish_step(h, FinishEventView::<T, E>::Called(CallbackView::Code(code)));
            let s2 = finish_step(s1.handle, FinishEventView::<T, E>::Exchanged(Ok(())));
            let s3 = finish_step(
                s2.handle,
                FinishEventView::<T, E>::Credentials(Ok(Some(tokens))),
            );
            &&& finish_expects(h, FinishEventView::<T, E>::Called(CallbackView::Code(code)))
            &&& s1.action == (FinishActionView::<T, E>::Exchange { code, csrf_state: token })
                && !s1.stop_server
            &&& finish_expects(s1.handle, FinishEventView::<T, E>::Exchanged(Ok(())))
            &&& s2.action == FinishActionView::<T, E>::ReadCredentials && !s2.stop_server
            &&& finish_expects(
                s2.handle,
                FinishEventView::<T, E>::Credentials(Ok(Some(tokens))),
            )
            &&& s3.action == FinishActionView::<T, E>::Finish(Ok(tokens)) && s3.stop_server
        }),
{
}

/// A step of the second phase that fails ends it, with the client's own error or with
/// one that says what failed. The callback server is stopped where it is still there to
/// be stopped and the client did not fail.
pub proof fn law_failed_step_ends_the_login<T, E>(h: HandleView, event: FinishEventView<T, E>)
    ensures
        ({
            let step = finish_step(h, event);
            let error: Option<(LoginErrorView<E>, bool)> = match event {
                FinishEventView::Called(CallbackView::TimedOut) => Some(
                    (
                        LoginErrorView::AuthorizationFailed(
                            "OAuth callback timeout - authorization took too long"@,
                        ),
                        true,
                    ),
                ),
                FinishEventView::Called(CallbackView::Closed) => Some(
                    (LoginErrorView::AuthorizationFailed("callback channel closed"@), false),
                ),
                FinishEventView::Called(CallbackView::Error(e)) => Some(
                    (LoginErrorView::AuthorizationFailed(e), true),
                ),
                FinishEventView::Exchanged(Err(e)) => Some((LoginErrorView::Client(e), false)),
                FinishEventView::Credentials(Err(e)) => Some((LoginErrorView::Client(e), false)),
                FinishEventView::Credentials(Ok(None)) => Some(
                    (
                        LoginErrorView::Internal(
                            "token exchange succeeded but no token response stored"@,
                        ),
                        true,
                    ),
                ),
                _ => None,
            };
            error matches Some((why, stop)) ==> step.action == FinishActionView::<T, E>::Finish(
                Err(why),
            ) && step.stop_server == stop && step.handle.stage == FinishStage::Over
        }),
{
}

/// A login waits five minutes for the browser.
pub proof fn law_login_waits_five_minutes()
    ensures
        CALLBACK_TIMEOUT_SECS == 5 * 60,
{
}

/// Events and actions of a login mean what they carry, and so do its configuration and the
/// parts of a URL.
pub proof fn law_login_speaks_of_what_it_carries<T, E>(
    text: String,
    other: String,
    list: Vec<String>,
    port: u16,
    e: E,
    tokens: T,
    config: OAuthConfig,
    parts: UrlParts,
    step: FinishStep<T, E>,
)
    ensures
        step@.handle == step.handle@ && step@.stop_server == step.stop_server && step@.action
            == step.action@,
        StartEvent::<E>::Created(Err(e))@ == StartEventView::<E>::Created(Err(e)),
        StartEvent::<E>::Bound(Err(text))@ == StartEventView::<E>::Bound(Err(text@)),
        StartEvent::<E>::Addressed(Ok(port))@ == StartEventView::<E>::Addressed(Ok(port)),
        StartEvent::<E>::Addressed(Err(text))@ == StartEventView::<E>::Addressed(Err(text@)),
        StartEvent::<E>::Authorized(Err(e))@ == StartEventView::<E>::Authorized(Err(e)),
        StartEvent::<E>::AuthorizationUrl(Ok(text))@ == StartEventView::<E>::AuthorizationUrl(
            Ok(text@),
        ),
        StartEvent::<E>::AuthorizationUrl(Err(e))@ == StartEventView::<E>::AuthorizationUrl(
            Err(e),
        ),
        StartEvent::<E>::Served(Err(text))@ == StartEventView::<E>::Served(Err(text@)),
        StartEvent::<E>::Created(Ok(()))@ matches StartEventView::Created(Ok(_)),
        StartEvent::<E>::Bound(Ok(()))@ matches StartEventView::Bound(Ok(_)),
        StartEvent::<E>::Authorized(Ok(()))@ matches StartEventView::Authorized(Ok(_)),
        StartEvent::<E>::Served(Ok(()))@ matches StartEventView::Served(Ok(_)),
        (StartAction::<E>::Create { name: text, url: other })@ == (StartActionView::<E>::Create {
            name: text@,
            url: other@,
        }),
        (StartAction::<E>::Bind { address: text })@ == (StartActionView::<E>::Bind {
            address: text@,
        }),
        (StartAction::<E>::Authorize { scopes: list, redirect_uri: text, client_name: other })@ == (
        StartActionView::<E>::Authorize {
            scopes: texts_of(list@),
            redirect_uri: text@,
            client_name: other@,
        }),
        (StartAction::<E>::Serve { path: text, csrf_state: other })@ == (StartActionView::<
            E,
        >::Serve { path: text@, csrf_state: other@ }),
        StartAction::<E>::Finish(Err(LoginError::Internal(text)))@ == StartActionView::<E>::Failed(
            LoginErrorView::Internal(text@),
        ),
        StartAction::<E>::Finish(Err(LoginError::Client(e)))@ == StartActionView::<E>::Failed(
            LoginErrorView::Client(e),
        ),
        FinishEvent::<T, E>::Called(Callback::TimedOut)@ == FinishEventView::<T, E>::Called(
            CallbackView::TimedOut,
        ),
        FinishEvent::<T, E>::Called(Callback::Closed)@ == FinishEventView::<T, E>::Called(
            CallbackView::Closed,
        ),
        FinishEvent::<T, E>::Called(Callback::Code(text))@ == FinishEventView::<T, E>::Called(
            CallbackView::Code(text@),
        ),
        FinishEvent::<T, E>::Called(Callback::Error(text))@ == FinishEventView::<T, E>::Called(
            CallbackView::Error(text@),
        ),
        FinishEvent::<T, E>::Exchanged(Err(e))@ == FinishEventView::<T, E>::Exchanged(Err(e)),
        FinishEvent::<T, E>::Credentials(Ok(Some(tokens)))@ == FinishEventView::<
            T,
            E,
        >::Credentials(Ok(Some(tokens))),
        (FinishAction::<T, E>::Exchange { code: text, csrf_state: other })@ == (FinishActionView::<
            T,
            E,
        >::Exchange { code: text@, csrf_state: other@ }),
        FinishAction::<T, E>::Finish(Ok(tokens))@ == FinishActionView::<T, E>::Finish(Ok(tokens)),
        FinishAction::<T, E>::Finish(Err(LoginError::AuthorizationFailed(text)))@
            == FinishActionView::<T, E>::Finish(
            Err(LoginErrorView::AuthorizationFailed(text@)),
        ),
        config@.scope == opt_text(config.scope),
        config@.redirect_uri == opt_text(config.redirect_uri),
        config@.callback_port == config.callback_port,
        parts@.scheme == parts.scheme@,
        parts@.port == parts.port,
        parts@.query == pairs_of(parts.query@),
        parts_view(Some(parts)) == Some(parts@),
        parts_view(None) is None,
        oauth_view(Some(&config)) == Some(config@),
        oauth_view(None) is None,
{
}

} // verus!
