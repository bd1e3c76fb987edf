//! The life of the gateway: from reading the configuration to serving its one
//! tool and shutting down, or to a trial run of one snippet.

use crate::config::{configs_of, configs_result, UpstreamConfig, UpstreamView};
use crate::error::{Error, ErrorView};
use crate::json::{pretty_text, written, Json, JsonView};
use crate::runtime::outcome_view;
use crate::settings::{Settings, SettingsView};
use crate::text::{opt_text, texts_of};
use crate::upstream::{namespaced_of, NamespacedTool, NamespacedView};
use vstd::prelude::*;
use vstd::string::*;

verus! {

/// How clients reach the gateway.
#[derive(Clone, Copy, Debug, PartialEq, Eq, Structural)]
pub enum ServerTransport {
    /// Over the standard input and output.
    Stdio,
    /// Over HTTP; with plain JSON replies, or with sessions and event streams.
    Http { json_response: bool },
}

/// How the HTTP service answers.
#[derive(Clone, Copy, Debug, PartialEq, Eq, Structural)]
pub struct HttpMode {
    /// Whether it keeps sessions.
    pub stateful: bool,
    /// Whether it answers with plain JSON.
    pub json_response: bool,
}

/// How the HTTP service answers: plain JSON replies go without sessions.
pub fn http_mode(json_response: bool) -> (r: HttpMode)
    ensures
        r.stateful == !json_response,
        r.json_response == json_response,
{
    HttpMode { stateful: !json_response, json_response }
}

/// What came of running a snippet in the worker.
#[derive(Debug)]
pub struct RunOutput {
    pub result: Json,
    pub stdout: String,
    pub stderr: String,
    pub error: Option<String>,
}

/// What came of running a snippet, by what it means.
pub struct RunView {
    pub result: JsonView,
    pub stdout: Seq<char>,
    pub stderr: Seq<char>,
    pub error: Option<Seq<char>>,
}

impl View for RunOutput {
    type V = RunView;

    open spec fn view(&self) -> RunView {
        RunView {
            result: self.result@,
            stdout: self.stdout@,
            stderr: self.stderr@,
            error: opt_text(self.error),
        }
    }
}

/// What is printed of a trial run.
pub open spec fn report(out: RunView) -> Seq<Seq<char>> {
    let always = seq![
        "=== result ===\n"@ + pretty_text(out.result),
        "=== stdout ===\n"@ + out.stdout,
        "=== stderr ===\n"@ + out.stderr,
    ];
    match out.error {
        Some(e) => always.push("=== error ===\n"@ + e),
        None => always,
    }
}

/// What is printed of the generated SDK on request.
pub open spec fn dump(sdk_py: Seq<char>, description: Seq<char>) -> Seq<Seq<char>> {
    seq![
        "===== sdk.py =====\n"@ + sdk_py,
        "===== execute_python description =====\n"@ + description,
    ]
}

/// What is printed of a trial run.
pub fn print_report(out: &RunOutput) -> (r: Vec<String>)
    ensures
        texts_of(r@) == report(out@),
{
    let result = written(&out.result);
    let mut lines: Vec<String> = Vec::new();
    lines.push("=== result ===\n".to_owned().concat(result.as_str()));
    lines.push("=== stdout ===\n".to_owned().concat(out.stdout.as_str()));
    lines.push("=== stderr ===\n".to_owned().concat(out.stderr.as_str()));
    if let Some(e) = &out.error {
        lines.push("=== error ===\n".to_owned().concat(e.as_str()));
    }
    assert(texts_of(lines@) =~= report(out@));
    lines
}

/// What is printed of the generated SDK on request.
pub fn print_dump(sdk_py: &str, description: &str) -> (r: Vec<String>)
    ensures
        texts_of(r@) == dump(sdk_py@, description@),
{
    let mut lines: Vec<String> = Vec::new();
    lines.push("===== sdk.py =====\n".to_owned().concat(sdk_py));
    lines.push("===== execute_python description =====\n".to_owned().concat(description));
    assert(texts_of(lines@) =~= dump(sdk_py@, description@));
    lines
}

/// How far the gateway has come.
#[derive(Clone, Copy, Debug, PartialEq, Eq, Structural)]
pub enum GatewayStage {
    /// The configuration is being read.
    Loading,
    /// The upstream servers are being connected.
    Connecting,
    /// The SDK is being generated.
    Building,
    /// The worker is being started.
    Starting,
    /// The worker runs the snippet of a trial.
    Running,
    /// The shared state is being put together.
    Assembling,
    /// The admin interface is being started.
    Opening,
    /// Clients are being served.
    Serving,
    /// The worker is being stopped.
    Stopping,
    /// The upstream servers are being disconnected.
    Disconnecting,
    /// The gateway has ended.
    Over,
}

/// A gateway on its way.
#[derive(Debug)]
pub struct Gateway {
    settings: Settings,
    description: String,
    stage: GatewayStage,
}

/// A gateway on its way, by what it means.
pub struct GatewayView {
    pub settings: SettingsView,
    /// The description that was generated with the SDK.
    pub description: Seq<char>,
    pub stage: GatewayStage,
}

impl View for Gateway {
    type V = GatewayView;

    closed spec fn view(&self) -> GatewayView {
        GatewayView {
            settings: self.settings@,
            description: self.description@,
            stage: self.stage,
        }
    }
}

/// How serving the clients ended.
#[derive(Debug)]
pub enum ServeEnd {
    /// The clients are gone.
    Ended,
    /// Serving over the standard input and output could not begin.
    StdioNotStarted(String),
    /// Serving over the standard input and output broke off.
    StdioBroken(String),
    /// The HTTP address could not be bound.
    NotBound(String),
    /// Serving over HTTP broke off.
    HttpBroken(String),
}

/// How serving the clients ended, by what it means.
pub enum ServeEndView {
    Ended,
    StdioNotStarted(Seq<char>),
    StdioBroken(Seq<char>),
    NotBound(Seq<char>),
    HttpBroken(Seq<char>),
}

impl View for ServeEnd {
    type V = ServeEndView;

    open spec fn view(&self) -> ServeEndView {
        match self {
            ServeEnd::Ended => ServeEndView::Ended,
            ServeEnd::StdioNotStarted(e) => ServeEndView::StdioNotStarted(e@),
            ServeEnd::StdioBroken(e) => ServeEndView::StdioBroken(e@),
            ServeEnd::NotBound(e) => ServeEndView::NotBound(e@),
            ServeEnd::HttpBroken(e) => ServeEndView::HttpBroken(e@),
        }
    }
}

/// Why serving the clients failed, if it did.
pub open spec fn serve_error(end: ServeEndView) -> Option<Seq<char>> {
    match end {
        ServeEndView::Ended => None,
        ServeEndView::StdioNotStarted(e) => Some("failed to start stdio server: "@ + e),
        ServeEndView::StdioBroken(e) => Some("server task error: "@ + e),
        ServeEndView::NotBound(e) => Some(e),
        ServeEndView::HttpBroken(e) => Some("http server error: "@ + e),
    }
}

/// What came of an action of the gateway.
#[derive(Debug)]
pub enum GatewayEvent {
    /// The enabled servers of the configuration, or why there are none.
    Loaded(Result<Vec<UpstreamConfig>, Error>),
    /// The attempts to connect are over; the tools of the connected servers.
    Connected(Vec<NamespacedTool>),
    Built { sdk_py: String, description: String },
    WorkerStarted(Result<(), Error>),
    Ran(Result<RunOutput, Error>),
    Assembled(Result<(), Error>),
    AdminStarted,
    Served(ServeEnd),
    WorkerStopped,
    Disconnected,
}

/// What came of an action of the gateway, by what it means.
pub enum GatewayEventView {
    Loaded(Result<Seq<UpstreamView>, ErrorView>),
    Connected(Seq<NamespacedView>),
    Built { sdk_py: Seq<char>, description: Seq<char> },
    WorkerStarted(Result<(), ErrorView>),
    Ran(Result<RunView, ErrorView>),
    Assembled(Result<(), ErrorView>),
    AdminStarted,
    Served(ServeEndView),
    WorkerStopped,
    Disconnected,
}

impl View for GatewayEvent {
    type V = GatewayEventView;

    open spec fn view(&self) -> GatewayEventView {
        match self {
            GatewayEvent::Loaded(r) => GatewayEventView::Loaded(configs_result(*r)),
            GatewayEvent::Connected(tools) => GatewayEventView::Connected(namespaced_of(tools@)),
            GatewayEvent::Built { sdk_py, description } => GatewayEventView::Built {
                sdk_py: sdk_py@,
                description: description@,
            },
            GatewayEvent::WorkerStarted(r) => GatewayEventView::WorkerStarted(outcome_view(*r)),
            GatewayEvent::Ran(Ok(out)) => GatewayEventView::Ran(Ok(out@)),
            GatewayEvent::Ran(Err(e)) => GatewayEventView::Ran(Err(e@)),
            GatewayEvent::Assembled(r) => GatewayEventView::Assembled(outcome_view(*r)),
            GatewayEvent::AdminStarted => GatewayEventView::AdminStarted,
            GatewayEvent::Served(end) => GatewayEventView::Served(end@),
            GatewayEvent::WorkerStopped => GatewayEventView::WorkerStopped,
            GatewayEvent::Disconnected => GatewayEventView::Disconnected,
        }
    }
}

/// What the gateway is to do next.
#[derive(Debug)]
pub enum GatewayAction {
    /// Read the configuration file at this path.
    Load(String),
    /// Connect to these upstream servers.
    Connect(Vec<UpstreamConfig>),
    /// Generate the SDK from these tools.
    Build(Vec<NamespacedTool>),
    /// Start the worker with this source of the SDK.
    StartWorker(String),
    /// Run this snippet.
    Run(String),
    /// Put the shared state together, with the configuration file at this path and
    /// this description of the tool.
    Assemble { config: String, description: String },
    /// Start the admin interface on the side.
    StartAdmin,
    /// Serve clients; over HTTP, at the address `bind` and the path `path`.
    Serve { transport: ServerTransport, bind: String, path: String },
    /// Stop the worker.
    StopWorker,
    /// Disconnect the upstream servers.
    Disconnect,
    /// Nothing more: this is the result.
    Finish(Result<(), Error>),
}

/// What the gateway is to do next, by what it means.
pub enum GatewayActionView {
    Load(Seq<char>),
    Connect(Seq<UpstreamView>),
    Build(Seq<NamespacedView>),
    StartWorker(Seq<char>),
    Run(Seq<char>),
    Assemble { config: Seq<char>, description: Seq<char> },
    StartAdmin,
    Serve { transport: ServerTransport, bind: Seq<char>, path: Seq<char> },
    StopWorker,
    Disconnect,
    Done,
    Failed(ErrorView),
}

impl View for GatewayAction {
    type V = GatewayActionView;

    open spec fn view(&self) -> GatewayActionView {
        match self {
            GatewayAction::Load(path) => GatewayActionView::Load(path@),
            GatewayAction::Connect(list) => GatewayActionView::Connect(configs_of(list@)),
            GatewayAction::Build(tools) => GatewayActionView::Build(namespaced_of(tools@)),
            GatewayAction::StartWorker(sdk_py) => GatewayActionView::StartWorker(sdk_py@),
            GatewayAction::Run(code) => GatewayActionView::Run(code@),
            GatewayAction::Assemble { config, description } => GatewayActionView::Assemble {
                config: config@,
                description: description@,
            },
            GatewayAction::StartAdmin => GatewayActionView::StartAdmin,
            GatewayAction::Serve { transport, bind, path } => GatewayActionView::Serve {
                transport: *transport,
                bind: bind@,
                path: path@,
            },
            GatewayAction::StopWorker => GatewayActionView::StopWorker,
            GatewayAction::Disconnect => GatewayActionView::Disconnect,
            GatewayAction::Finish(Ok(_)) => GatewayActionView::Done,
            GatewayAction::Finish(Err(e)) => GatewayActionView::Failed(e@),
        }
    }
}

/// A step of the gateway: what to print on the standard error output, and what to
/// do next.
#[derive(Debug)]
pub struct GatewayStep {
    pub gateway: Gateway,
    pub print: Vec<String>,
    pub action: GatewayAction,
}

/// A step of the gateway, by what it means.
pub struct GatewayStepView {
    pub gateway: GatewayView,
    pub print: Seq<Seq<char>>,
    pub action: GatewayActionView,
}

impl View for GatewayStep {
    type V = GatewayStepView;

    open spec fn view(&self) -> GatewayStepView {
        GatewayStepView {
            gateway: self.gateway@,
            print: texts_of(self.print@),
            action: self.action@,
        }
    }
}

/// How the gateway begins.
pub open spec fn gateway_begin(settings: SettingsView) -> GatewayStepView {
    GatewayStepView {
        gateway: GatewayView {
            settings,
            description: Seq::empty(),
            stage: GatewayStage::Loading,
        },
        print: Seq::empty(),
        action: GatewayActionView::Load(settings.config),
    }
}

/// How clients are to be served.
pub open spec fn serving(settings: SettingsView) -> GatewayActionView {
    GatewayActionView::Serve {
        transport: settings.transport,
        bind: settings.http_bind,
        path: settings.http_path,
    }
}

/// Whether an event answers the action that the gateway is waiting for.
pub open spec fn gateway_expects(g: GatewayView, event: GatewayEventView) -> bool {
    match event {
        GatewayEventView::Loaded(_) => g.stage == GatewayStage::Loading,
        GatewayEventView::Connected(_) => g.stage == GatewayStage::Connecting,
        GatewayEventView::Built { .. } => g.stage == GatewayStage::Building,
        GatewayEventView::WorkerStarted(_) => g.stage == GatewayStage::Starting,
        GatewayEventView::Ran(_) => g.stage == GatewayStage::Running,
        GatewayEventView::Assembled(_) => g.stage == GatewayStage::Assembling,
        GatewayEventView::AdminStarted => g.stage == GatewayStage::Opening,
        GatewayEventView::Served(_) => g.stage == GatewayStage::Serving,
        GatewayEventView::WorkerStopped => g.stage == GatewayStage::Stopping,
        GatewayEventView::Disconnected => g.stage == GatewayStage::Disconnecting,
    }
}

/// The gateway at another stage, with nothing to print.
pub open spec fn gateway_at(
    g: GatewayView,
    stage: GatewayStage,
    action: GatewayActionView,
) -> GatewayStepView {
    GatewayStepView { gateway: GatewayView { stage, ..g }, print: Seq::empty(), action }
}

/// The gateway, failed.
pub open spec fn gateway_failed(g: GatewayView, e: ErrorView) -> GatewayStepView {
    gateway_at(g, GatewayStage::Over, GatewayActionView::Failed(e))
}

/// Whether the gateway is only to print the generated SDK: a dump without a trial
/// run.
pub open spec fn only_dumps(settings: SettingsView) -> bool {
    settings.dump && settings.smoke is None
}

/// How the gateway goes on. The first failure ends it. A trial run and a served
/// life both end with stopping the worker and then disconnecting the upstream
/// servers. A gateway that is only to print the generated SDK starts no worker and
/// serves nobody: it disconnects the upstream servers and ends.
pub open spec fn gateway_step(g: GatewayView, event: GatewayEventView) -> GatewayStepView {
    match event {
        GatewayEventView::Loaded(Ok(list)) => gateway_at(
            g,
            GatewayStage::Connecting,
            GatewayActionView::Connect(list),
        ),
        GatewayEventView::Loaded(Err(e)) => gateway_failed(g, e),
        GatewayEventView::Connected(tools) => gateway_at(
            g,
            GatewayStage::Building,
            GatewayActionView::Build(tools),
        ),
        GatewayEventView::Built { sdk_py, description } => {
            let print = if g.settings.dump {
                dump(sdk_py, description)
            } else {
                Seq::empty()
            };
            if only_dumps(g.settings) {
                GatewayStepView {
                    gateway: GatewayView { description, stage: GatewayStage::Disconnecting, ..g },
                    print,
                    action: GatewayActionView::Disconnect,
                }
            } else {
                GatewayStepView {
                    gateway: GatewayView { description, stage: GatewayStage::Starting, ..g },
                    print,
                    action: GatewayActionView::StartWorker(sdk_py),
                }
            }
        },
        GatewayEventView::WorkerStarted(Ok(_)) => match g.settings.smoke {
            Some(code) => gateway_at(g, GatewayStage::Running, GatewayActionView::Run(code)),
            None => gateway_at(
                g,
                GatewayStage::Assembling,
                GatewayActionView::Assemble {
                    config: g.settings.config,
                    description: g.description,
                },
            ),
        },
        GatewayEventView::WorkerStarted(Err(e)) => gateway_failed(g, e),
        GatewayEventView::Ran(Ok(out)) => GatewayStepView {
            gateway: GatewayView { stage: GatewayStage::Stopping, ..g },
            print: report(out),
            action: GatewayActionView::StopWorker,
        },
        GatewayEventView::Ran(Err(e)) => gateway_failed(g, e),
        GatewayEventView::Assembled(Ok(_)) => gateway_at(
            g,
            GatewayStage::Opening,
            GatewayActionView::StartAdmin,
        ),
        GatewayEventView::Assembled(Err(e)) => gateway_failed(g, e),
        GatewayEventView::AdminStarted => gateway_at(
            g,
            GatewayStage::Serving,
            serving(g.settings),
        ),
        GatewayEventView::Served(end) => match serve_error(end) {
            None => gateway_at(g, GatewayStage::Stopping, GatewayActionView::StopWorker),
            Some(message) => gateway_failed(g, ErrorView::Other(message)),
        },
        GatewayEventView::WorkerStopped => gateway_at(
            g,
            GatewayStage::Disconnecting,
            GatewayActionView::Disconnect,
        ),
        GatewayEventView::Disconnected => gateway_at(
            g,
            GatewayStage::Over,
            GatewayActionView::Done,
        ),
    }
}

/// Begins the life of a gateway. With a snippet in `smoke` it is a trial run. With
/// `dump` the generated SDK is printed, and without a trial run that is all.
pub fn run_gateway(settings: Settings) -> (r: GatewayStep)
    ensures
        r@ == gateway_begin(settings@),
{
    let config = settings.config.clone();
    let r = GatewayStep {
        gateway: Gateway { settings, description: String::new(), stage: GatewayStage::Loading },
        print: Vec::new(),
        action: GatewayAction::Load(config),
    };
    assert(texts_of(r.print@) =~= Seq::empty());
    r
}

impl Gateway {
    /// How far the gateway has come.
    pub fn stage(&self) -> (r: GatewayStage)
        ensures
            r == self@.stage,
    {
        self.stage
    }

    /// The gateway at another stage, with something to print.
    fn prints(self, stage: GatewayStage, print: Vec<String>, action: GatewayAction) -> (r:
        GatewayStep)
        ensures
            r@ == (GatewayStepView {
                gateway: GatewayView { stage, ..self@ },
                print: texts_of(print@),
                action: action@,
            }),
    {
        GatewayStep {
            gateway: Gateway {
                settings: self.settings,
                description: self.description,
                stage,
            },
            print,
            action,
        }
    }

    /// The gateway at another stage, with nothing to print.
    fn at(self, stage: GatewayStage, action: GatewayAction) -> (r: GatewayStep)
        ensures
            r@ == gateway_at(self@, stage, action@),
    {
        let print: Vec<String> = Vec::new();
        assert(texts_of(print@) =~= Seq::empty());
        self.prints(stage, print, action)
    }

    /// The gateway, failed.
    fn failed(self, e: Error) -> (r: GatewayStep)
        ensures
            r@ == gateway_failed(self@, e@),
    {
        self.at(GatewayStage::Over, GatewayAction::Finish(Err(e)))
    }

    /// Takes the gateway on with what came of its last action.
    pub fn step(self, event: GatewayEvent) -> (r: GatewayStep)
        requires
            gateway_expects(self@, event@),
        ensures
            r@ == gateway_step(self@, event@),
    {
        match event {
            GatewayEvent::Loaded(Ok(list)) => {
                self.at(GatewayStage::Connecting, GatewayAction::Connect(list))
            },
            GatewayEvent::Loaded(Err(e)) => self.failed(e),
            GatewayEvent::Connected(tools) => {
                self.at(GatewayStage::Building, GatewayAction::Build(tools))
            },
            GatewayEvent::Built { sdk_py, description } => {
                let print = if self.settings.dump {
                    print_dump(sdk_py.as_str(), description.as_str())
                } else {
                    Vec::new()
                };
                assert(!self.settings.dump ==> texts_of(print@) =~= Seq::empty());
                let known = Gateway { description, ..self };
                if known.settings.dump && known.settings.smoke.is_none() {
                    known.prints(GatewayStage::Disconnecting, print, GatewayAction::Disconnect)
                } else {
                    known.prints(GatewayStage::Starting, print, GatewayAction::StartWorker(sdk_py))
                }
            },
            GatewayEvent::WorkerStarted(Ok(_)) => {
                let code = match &self.settings.smoke {
                    Some(code) => Some(code.clone()),
                    None => None,
                };
                match code {
                    Some(code) => self.at(GatewayStage::Running, GatewayAction::Run(code)),
                    None => {
                        let config = self.settings.config.clone();
                        let description = self.description.clone();
                        self.at(
                            GatewayStage::Assembling,
                            GatewayAction::Assemble { config, description },
                        )
                    },
                }
            },
            GatewayEvent::WorkerStarted(Err(e)) => self.failed(e),
            GatewayEvent::Ran(Ok(out)) => {
                let print = print_report(&out);
                self.prints(GatewayStage::Stopping, print, GatewayAction::StopWorker)
            },
            GatewayEvent::Ran(Err(e)) => self.failed(e),
            GatewayEvent::Assembled(Ok(_)) => {
                self.at(GatewayStage::Opening, GatewayAction::StartAdmin)
            },
            GatewayEvent::Assembled(Err(e)) => self.failed(e),
            GatewayEvent::AdminStarted => {
                let transport = self.settings.transport;
                let bind = self.settings.http_bind.clone();
                let path = self.settings.http_path.clone();
                self.at(GatewayStage::Serving, GatewayAction::Serve { transport, bind, path })
            },
            GatewayEvent::Served(end) => match end {
                ServeEnd::Ended => self.at(GatewayStage::Stopping, GatewayAction::StopWorker),
                ServeEnd::StdioNotStarted(e) => self.failed(
                    Error::Other("failed to start stdio server: ".to_owned().concat(e.as_str())),
                ),
                ServeEnd::StdioBroken(e) => self.failed(
                    Error::Other("server task error: ".to_owned().concat(e.as_str())),
                ),
                ServeEnd::NotBound(e) => self.failed(Error::Other(e)),
                ServeEnd::HttpBroken(e) => self.failed(
                    Error::Other("http server error: ".to_owned().concat(e.as_str())),
                ),
            },
            GatewayEvent::WorkerStopped => {
                self.at(GatewayStage::Disconnecting, GatewayAction::Disconnect)
            },
            GatewayEvent::Disconnected => {
                self.at(GatewayStage::Over, GatewayAction::Finish(Ok(())))
            },
        }
    }
}

/// Where a gateway stands after some events.
pub open spec fn gateway_run(
    settings: SettingsView,
    events: Seq<GatewayEventView>,
) -> GatewayStepView
    decreases events.len(),
{
    if events.len() == 0 {
        gateway_begin(settings)
    } else {
        gateway_step(gateway_run(settings, events.drop_last()).gateway, events.last())
    }
}

/// Whether each of the events answers the action before it.
pub open spec fn gateway_follows(settings: SettingsView, events: Seq<GatewayEventView>) -> bool
    decreases events.len(),
{
    events.len() > 0 ==> gateway_follows(settings, events.drop_last()) && gateway_expects(
        gateway_run(settings, events.drop_last()).gateway,
        events.last(),
    )
}

/// Whether the events so far led to a generated SDK.
pub open spec fn sdk_built(events: Seq<GatewayEventView>) -> bool {
    &&& events.len() >= 3
    &&& events[0] matches GatewayEventView::Loaded(Ok(_))
    &&& events[1] is Connected
    &&& events[2] is Built
}

/// Whether the events so far led to a running worker.
pub open spec fn worker_runs(events: Seq<GatewayEventView>) -> bool {
    &&& events.len() >= 4
    &&& sdk_built(events)
    &&& events[3] matches GatewayEventView::WorkerStarted(Ok(_))
}

/// What holds at every point of a gateway's life.
proof fn lemma_gateway(settings: SettingsView, events: Seq<GatewayEventView>)
    requires
        gateway_follows(settings, events),
    ensures
        ({
            let run = gateway_run(settings, events);
            let g = run.gateway;
            let n = events.len();
            &&& g.settings == settings
            &&& worker_runs(events) ==> !only_dumps(settings)
            &&& sdk_built(events) ==> events[2]->description == g.description
            &&& match g.stage {
                GatewayStage::Loading => n == 0 && run.action == GatewayActionView::Load(
                    settings.config,
                ),
                GatewayStage::Connecting => n == 1 && (events[0] matches GatewayEventView::Loaded(
                    Ok(list),
                ) && run.action == GatewayActionView::Connect(list)),
                GatewayStage::Building => n == 2 && (events[0] matches GatewayEventView::Loaded(
                    Ok(_),
                )) && (events[1] matches GatewayEventView::Connected(tools) && run.action
                    == GatewayActionView::Build(tools)),
                GatewayStage::Starting => n == 3 && sdk_built(events) && !only_dumps(settings)
                    && run.action == GatewayActionView::StartWorker(events[2]->sdk_py),
                GatewayStage::Running => n == 4 && worker_runs(events) && settings.smoke is Some
                    && run.action == GatewayActionView::Run(settings.smoke->0),
                GatewayStage::Assembling => n == 4 && worker_runs(events) && settings.smoke is None
                    && run.action == (GatewayActionView::Assemble {
                    config: settings.config,
                    description: events[2]->description,
                }),
                GatewayStage::Opening => n == 5 && worker_runs(events) && settings.smoke is None
                    && run.action is StartAdmin && (events[4] matches GatewayEventView::Assembled(
                    Ok(_),
                )),
                GatewayStage::Serving => n == 6 && worker_runs(events) && settings.smoke is None
                    && run.action == serving(settings) && (events[4] matches
                    GatewayEventView::Assembled(Ok(_))),
                GatewayStage::Stopping => run.action is StopWorker && worker_runs(events) && (
                settings.smoke is Some ==> n == 5 && (events[4] matches GatewayEventView::Ran(Ok(_)))) && (
                settings.smoke is None ==> n == 7 && events[6] == GatewayEventView::Served(
                    ServeEndView::Ended,
                )),
                GatewayStage::Disconnecting => run.action is Disconnect && if only_dumps(settings) {
                    n == 3 && sdk_built(events)
                } else {
                    worker_runs(events) && n == (if settings.smoke is Some {
                        6nat
                    } else {
                        8nat
                    }) && events[n - 1] is WorkerStopped
                },
                GatewayStage::Over => match run.action {
                    GatewayActionView::Failed(_) => true,
                    GatewayActionView::Done => events[n - 1] is Disconnected && if only_dumps(settings) {
                        n == 4 && sdk_built(events)
                    } else {
                        worker_runs(events) && n == (if settings.smoke is Some {
                            7nat
                        } else {
                            9nat
                        }) && events[n - 2] is WorkerStopped
                    },
                    _ => false,
                },
            }
        }),
    decreases events.len(),
{
    if events.len() > 0 {
        let front = events.drop_last();
        lemma_gateway(settings, front);
        assert forall|i: int| 0 <= i < front.len() implies #[trigger] events[i] == front[i] by {}
    }
}

/// A trial run serves nobody: neither clients nor the admin interface.
pub proof fn law_trial_serves_nobody(settings: SettingsView, events: Seq<GatewayEventView>)
    requires
        settings.smoke is Some,
        gateway_follows(settings, events),
    ensures
        !(gateway_run(settings, events).action is Serve),
        !(gateway_run(settings, events).action is StartAdmin),
{
    lemma_gateway(settings, events);
}

/// A gateway that is only to print the generated SDK starts no worker and serves
/// nobody: neither clients nor the admin interface. Once the SDK is generated it is
/// printed and the gateway ends well.
pub proof fn law_dump_serves_nobody(settings: SettingsView, events: Seq<GatewayEventView>)
    requires
        only_dumps(settings),
        gateway_follows(settings, events),
    ensures
        ({
            let run = gateway_run(settings, events);
            &&& !(run.action is StartWorker)
            &&& !(run.action is StartAdmin)
            &&& !(run.action is Serve)
            &&& events.len() > 0 ==> (events.last() matches GatewayEventView::Built {
                sdk_py,
                description,
            } ==> run.print == dump(sdk_py, description) && run.action is Disconnect)
            &&& events.len() > 0 && events.last() is Disconnected ==> run.action is Done
        }),
{
    lemma_gateway(settings, events);
}

/// Clients are served as the settings say, by transport, address and path, and only
/// once the configuration was read, the servers were connected, the worker runs and
/// the shared state stands.
pub proof fn law_serving_comes_last(settings: SettingsView, events: Seq<GatewayEventView>)
    requires
        gateway_follows(settings, events),
    ensures
        gateway_run(settings, events).action is Serve ==> gateway_run(settings, events).action
            == serving(settings) && worker_runs(events) && (events[4] matches
            GatewayEventView::Assembled(Ok(_))),
{
    lemma_gateway(settings, events);
}

/// Each step works on what the steps before it gave: the configuration is read from
/// the file of the settings, the servers to connect are those that were loaded, the
/// SDK is generated from the tools of the connected servers, the worker starts with
/// its source, a trial runs the snippet of the settings, and the shared state holds
/// the description that came with the SDK.
pub proof fn law_steps_hand_on_what_they_gave(
    settings: SettingsView,
    events: Seq<GatewayEventView>,
)
    requires
        gateway_follows(settings, events),
    ensures
        match gateway_run(settings, events).action {
            GatewayActionView::Load(path) => path == settings.config,
            GatewayActionView::Connect(list) => events[0] == GatewayEventView::Loaded(Ok(list)),
            GatewayActionView::Build(tools) => events[1] == GatewayEventView::Connected(tools),
            GatewayActionView::StartWorker(source) => events[2] matches GatewayEventView::Built {
                sdk_py,
                ..
            } && sdk_py == source,
            GatewayActionView::Run(code) => settings.smoke == Some(code),
            GatewayActionView::Assemble { config, description: text } => {
                &&& config == settings.config
                &&& events[2] matches GatewayEventView::Built { description, .. } && description
                    == text
            },
            _ => true,
        },
{
    lemma_gateway(settings, events);
}

/// A gateway that ends well has disconnected the upstream servers, and before that
/// stopped its worker, a trial run too. Only one that was just to print the
/// generated SDK had no worker to stop.
pub proof fn law_shutdown_in_order(settings: SettingsView, events: Seq<GatewayEventView>)
    requires
        gateway_follows(settings, events),
        gateway_run(settings, events).action is Done,
    ensures
        events.len() >= 2,
        !only_dumps(settings) ==> events[events.len() - 2] is WorkerStopped,
        events[events.len() - 1] is Disconnected,
{
    lemma_gateway(settings, events);
}

/// A gateway whose steps all succeed serves its clients: the configuration is read, the
/// servers connected, the SDK built from their tools, the worker started with it, the
/// shared state put together, the admin interface started; once the clients are gone the
/// worker is stopped, the servers are disconnected, and the gateway has ended well.
pub proof fn law_gateway_serves_where_its_steps_succeed(
    settings: SettingsView,
    list: Seq<UpstreamView>,
    tools: Seq<NamespacedView>,
    sdk_py: Seq<char>,
    description: Seq<char>,
)
    requires
        settings.smoke is None,
        !settings.dump,
    ensures
        ({
            let g0 = gateway_begin(settings);
            let g1 = gateway_step(g0.gateway, GatewayEventView::Loaded(Ok(list)));
            let g2 = gateway_step(g1.gateway, GatewayEventView::Connected(tools));
            let g3 = gateway_step(g2.gateway, GatewayEventView::Built { sdk_py, description });
            let g4 = gateway_step(g3.gateway, GatewayEventView::WorkerStarted(Ok(())));
            let g5 = gateway_step(g4.gateway, GatewayEventView::Assembled(Ok(())));
            let g6 = gateway_step(g5.gateway, GatewayEventView::AdminStarted);
            let g7 = gateway_step(g6.gateway, GatewayEventView::Served(ServeEndView::Ended));
            let g8 = gateway_step(g7.gateway, GatewayEventView::WorkerStopped);
            let g9 = gateway_step(g8.gateway, GatewayEventView::Disconnected);
            &&& g0.action == GatewayActionView::Load(settings.config)
            &&& gateway_expects(g0.gateway, GatewayEventView::Loaded(Ok(list)))
            &&& g1.action == GatewayActionView::Connect(list)
            &&& gateway_expects(g1.gateway, GatewayEventView::Connected(tools))
            &&& g2.action == GatewayActionView::Build(tools)
            &&& gateway_expects(g2.gateway, GatewayEventView::Built { sdk_py, description })
            &&& g3.action == GatewayActionView::StartWorker(sdk_py)
            &&& gateway_expects(g3.gateway, GatewayEventView::WorkerStarted(Ok(())))
            &&& g4.action == (GatewayActionView::Assemble { config: settings.config, description })
            &&& gateway_expects(g4.gateway, GatewayEventView::Assembled(Ok(())))
            &&& g5.action == GatewayActionView::StartAdmin
            &&& gateway_expects(g5.gateway, GatewayEventView::AdminStarted)
            &&& g6.action == (GatewayActionView::Serve {
                transport: settings.transport,
                bind: settings.http_bind,
                path: settings.http_path,
            })
            &&& gateway_expects(g6.gateway, GatewayEventView::Served(ServeEndView::Ended))
            &&& g7.action == GatewayActionView::StopWorker
            &&& gateway_expects(g7.gateway, GatewayEventView::WorkerStopped)
            &&& g8.action == GatewayActionView::Disconnect
            &&& gateway_expects(g8.gateway, GatewayEventView::Disconnected)
            &&& g9.action == GatewayActionView::Done
            &&& g0.print.len() == 0 && g1.print.len() == 0 && g2.print.len() == 0
            &&& g3.print.len() == 0 && g4.print.len() == 0 && g5.print.len() == 0
            &&& g6.print.len() == 0 && g7.print.len() == 0 && g8.print.len() == 0
            &&& g9.print.len() == 0
        }),
{
}

/// A trial run whose steps all succeed runs its snippet once, prints the result, what was
/// written to the two outputs and, where there is one, the error; then it stops the
/// worker, disconnects the servers and ends well. With a dump the generated SDK is
/// printed before the worker starts.
pub proof fn law_trial_prints_what_came_out(
    settings: SettingsView,
    list: Seq<UpstreamView>,
    tools: Seq<NamespacedView>,
    sdk_py: Seq<char>,
    description: Seq<char>,
    out: RunView,
)
    requires
        settings.smoke is Some,
    ensures
        ({
            let g0 = gateway_begin(settings);
            let g1 = gateway_step(g0.gateway, GatewayEventView::Loaded(Ok(list)));
            let g2 = gateway_step(g1.gateway, GatewayEventView::Connected(tools));
            let g3 = gateway_step(g2.gateway, GatewayEventView::Built { sdk_py, description });
            let g4 = gateway_step(g3.gateway, GatewayEventView::WorkerStarted(Ok(())));
            let g5 = gateway_step(g4.gateway, GatewayEventView::Ran(Ok(out)));
            let g6 = gateway_step(g5.gateway, GatewayEventView::WorkerStopped);
            let g7 = gateway_step(g6.gateway, GatewayEventView::Disconnected);
            &&& g3.action == GatewayActionView::StartWorker(sdk_py)
            &&& g3.print == (if settings.dump {
                seq![
                    "===== sdk.py =====\n"@ + sdk_py,
                    "===== execute_python description =====\n"@ + description,
                ]
            } else {
                Seq::empty()
            })
            &&& g4.action == GatewayActionView::Run(settings.smoke->0)
            &&& gateway_expects(g4.gateway, GatewayEventView::Ran(Ok(out)))
            &&& g5.action == GatewayActionView::StopWorker
            &&& g5.print.len() == (if out.error is Some {
                4int
            } else {
                3
            })
            &&& g5.print[0] == "=== result ===\n"@ + pretty_text(out.result)
            &&& g5.print[1] == "=== stdout ===\n"@ + out.stdout
            &&& g5.print[2] == "=== stderr ===\n"@ + out.stderr
            &&& out.error matches Some(e) ==> g5.print[3] == "=== error ===\n"@ + e
            &&& gateway_expects(g5.gateway, GatewayEventView::WorkerStopped)
            &&& g6.action == GatewayActionView::Disconnect
            &&& gateway_expects(g6.gateway, GatewayEventView::Disconnected)
            &&& g7.action == GatewayActionView::Done
        }),
{
}

/// A dump without a trial run prints the generated SDK and its description, disconnects
/// the servers and ends well.
pub proof fn law_dump_prints_the_sdk(
    settings: SettingsView,
    list: Seq<UpstreamView>,
    tools: Seq<NamespacedView>,
    sdk_py: Seq<char>,
    description: Seq<char>,
)
    requires
        settings.smoke is None,
        settings.dump,
    ensures
        ({
            let g0 = gateway_begin(settings);
            let g1 = gateway_step(g0.gateway, GatewayEventView::Loaded(Ok(list)));
            let g2 = gateway_step(g1.gateway, GatewayEventView::Connected(tools));
            let g3 = gateway_step(g2.gateway, GatewayEventView::Built { sdk_py, description });
            let g4 = gateway_step(g3.gateway, GatewayEventView::Disconnected);
            &&& g1.action == GatewayActionView::Connect(list)
            &&& g2.action == GatewayActionView::Build(tools)
            &&& g3.print == seq![
                "===== sdk.py =====\n"@ + sdk_py,
                "===== execute_python description =====\n"@ + description,
            ]
            &&& g3.action == GatewayActionView::Disconnect
            &&& gateway_expects(g3.gateway, GatewayEventView::Disconnected)
            &&& g4.action == GatewayActionView::Done
        }),
{
}

/// A step that fails ends the gateway at once, with that step's error; where serving
/// broke off, with one that says what broke.
pub proof fn law_failed_step_ends_the_gateway(g: GatewayView, event: GatewayEventView)
    ensures
        ({
            let error: Option<ErrorView> = match event {
                GatewayEventView::Loaded(Err(e)) => Some(e),
                GatewayEventView::WorkerStarted(Err(e)) => Some(e),
                GatewayEventView::Ran(Err(e)) => Some(e),
                GatewayEventView::Assembled(Err(e)) => Some(e),
                GatewayEventView::Served(ServeEndView::StdioNotStarted(e)) => Some(
                    ErrorView::Other("failed to start stdio server: "@ + e),
                ),
                GatewayEventView::Served(ServeEndView::StdioBroken(e)) => Some(
                    ErrorView::Other("server task error: "@ + e),
                ),
                GatewayEventView::Served(ServeEndView::NotBound(e)) => Some(ErrorView::Other(e)),
                GatewayEventView::Served(ServeEndView::HttpBroken(e)) => Some(
                    ErrorView::Other("http server error: "@ + e),
                ),
                _ => None,
            };
            match error {
                Some(e) => gateway_step(g, event).action == GatewayActionView::Failed(e)
                    && gateway_step(g, event).print.len() == 0,
                None => !(gateway_step(g, event).action is Failed),
            }
        }),
{
}

/// Events and actions of the gateway mean what they carry.
pub proof fn law_gateway_speaks_of_what_it_carries(
    text: String,
    other: String,
    list: Vec<UpstreamConfig>,
    tools: Vec<NamespacedTool>,
    out: RunOutput,
    e: Error,
    transport: ServerTransport,
    step: GatewayStep,
)
    ensures
        step@.gateway == step.gateway@ && step@.print == texts_of(step.print@) && step@.action
            == step.action@,
        GatewayEvent::Loaded(Ok(list))@ == GatewayEventView::Loaded(Ok(configs_of(list@))),
        GatewayEvent::Loaded(Err(e))@ == GatewayEventView::Loaded(Err(e@)),
        GatewayEvent::Connected(tools)@ == GatewayEventView::Connected(namespaced_of(tools@)),
        (GatewayEvent::Built { sdk_py: text, description: other })@ == (GatewayEventView::Built {
            sdk_py: text@,
            description: other@,
        }),
        GatewayEvent::WorkerStarted(Err(e))@ == GatewayEventView::WorkerStarted(Err(e@)),
        GatewayEvent::WorkerStarted(Ok(()))@ matches GatewayEventView::WorkerStarted(Ok(_)),
        GatewayEvent::Ran(Err(e))@ == GatewayEventView::Ran(Err(e@)),
        GatewayEvent::Ran(Ok(out))@ == GatewayEventView::Ran(Ok(out@)),
        out@.result == out.result@ && out@.stdout == out.stdout@ && out@.stderr == out.stderr@
            && out@.error == opt_text(out.error),
        GatewayEvent::Assembled(Err(e))@ == GatewayEventView::Assembled(Err(e@)),
        GatewayEvent::Assembled(Ok(()))@ matches GatewayEventView::Assembled(Ok(_)),
        GatewayEvent::AdminStarted@ == GatewayEventView::AdminStarted,
        GatewayEvent::Served(ServeEnd::Ended)@ == GatewayEventView::Served(ServeEndView::Ended),
        GatewayEvent::Served(ServeEnd::StdioNotStarted(text))@ == GatewayEventView::Served(
            ServeEndView::StdioNotStarted(text@),
        ),
        GatewayEvent::Served(ServeEnd::StdioBroken(text))@ == GatewayEventView::Served(
            ServeEndView::StdioBroken(text@),
        ),
        GatewayEvent::Served(ServeEnd::NotBound(text))@ == GatewayEventView::Served(
            ServeEndView::NotBound(text@),
        ),
        GatewayEvent::Served(ServeEnd::HttpBroken(text))@ == GatewayEventView::Served(
            ServeEndView::HttpBroken(text@),
        ),
        GatewayEvent::WorkerStopped@ == GatewayEventView::WorkerStopped,
        GatewayEvent::Disconnected@ == GatewayEventView::Disconnected,
        GatewayAction::Load(text)@ == GatewayActionView::Load(text@),
        GatewayAction::Connect(list)@ == GatewayActionView::Connect(configs_of(list@)),
        GatewayAction::Build(tools)@ == GatewayActionView::Build(namespaced_of(tools@)),
        GatewayAction::StartWorker(text)@ == GatewayActionView::StartWorker(text@),
        GatewayAction::Run(text)@ == GatewayActionView::Run(text@),
        (GatewayAction::Assemble { config: text, description: other })@ == (
        GatewayActionView::Assemble { config: text@, description: other@ }),
        GatewayAction::StartAdmin@ == GatewayActionView::StartAdmin,
        (GatewayAction::Serve { transport, bind: text, path: other })@ == (
        GatewayActionView::Serve { transport, bind: text@, path: other@ }),
        GatewayAction::StopWorker@ == GatewayActionView::StopWorker,
        GatewayAction::Disconnect@ == GatewayActionView::Disconnect,
        GatewayAction::Finish(Ok(()))@ == GatewayActionView::Done,
        GatewayAction::Finish(Err(e))@ == GatewayActionView::Failed(e@),
{
}

} // verus!
