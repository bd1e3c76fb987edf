//! The state of a running gateway that its admin interface changes: the
//! configured servers with their startup defaults, and the current SDK.

use crate::config::{configs_of, ServerSpec, SpecView, UpstreamConfig, UpstreamView};
use crate::error::{Error, ErrorView};
use crate::json::{lemma_list_view, list_view, put, text, Json, JsonView};
use crate::names::{ascending, keys_of, lemma_map_of_entry, map_of, NameMap};
use crate::text::{before, lemma_before_irreflexive};
use crate::upstream::{
    law_sorting_keeps_tools, listed, sorted_tools, tagged, tools_of, NamespacedView, ToolView,
    Upstream, UpstreamManager,
};
use vstd::prelude::*;
use vstd::string::*;

verus! {

/// The current SDK and the `execute_python` description that carries it.
pub struct SdkState<R> {
    pub registry: R,
    pub description: String,
}

/// A configured server: how it is reached, and whether it is connected at
/// startup.
#[derive(Debug)]
pub struct ConfigEntry {
    pub spec: ServerSpec,
    pub enabled: bool,
}

/// A configured server by what it means.
pub struct EntryView {
    pub spec: SpecView,
    pub enabled: bool,
}

impl View for ConfigEntry {
    type V = EntryView;

    open spec fn view(&self) -> EntryView {
        EntryView { spec: self.spec@, enabled: self.enabled }
    }
}

/// The status of one configured server.
#[derive(Debug)]
pub struct ServerStatus {
    pub name: String,
    pub kind: String,
    pub enabled_in_config: bool,
    pub connected: bool,
    pub tools: usize,
}

/// The status of one configured server by what it means.
pub struct StatusView {
    pub name: Seq<char>,
    pub kind: Seq<char>,
    pub enabled_in_config: bool,
    pub connected: bool,
    pub tools: nat,
}

impl View for ServerStatus {
    type V = StatusView;

    open spec fn view(&self) -> StatusView {
        StatusView {
            name: self.name@,
            kind: self.kind@,
            enabled_in_config: self.enabled_in_config,
            connected: self.connected,
            tools: self.tools as nat,
        }
    }
}

/// The configured servers of a list, by name. Of two entries with one name the
/// later counts.
pub open spec fn boot_of(list: Seq<UpstreamView>) -> Map<Seq<char>, EntryView>
    decreases list.len(),
{
    if list.len() == 0 {
        Map::empty()
    } else {
        boot_of(list.drop_last()).insert(
            list.last().name,
            EntryView { spec: list.last().spec, enabled: list.last().enabled },
        )
    }
}

/// Configured servers by what they mean.
pub open spec fn entries_of(boot: Map<Seq<char>, ConfigEntry>) -> Map<Seq<char>, EntryView> {
    boot.map_values(|e: ConfigEntry| e@)
}

/// The word for the kind of a server.
pub open spec fn kind_of(spec: SpecView) -> Seq<char> {
    match spec {
        SpecView::Local { .. } => "local"@,
        SpecView::Remote { .. } => "remote"@,
    }
}

/// The status of a configured server: what the configuration says of it and how
/// it stands now.
pub open spec fn status_of<S>(
    name: Seq<char>,
    entry: EntryView,
    upstreams: Map<Seq<char>, Upstream<S>>,
) -> StatusView {
    StatusView {
        name,
        kind: kind_of(entry.spec),
        enabled_in_config: entry.enabled,
        connected: upstreams.contains_key(name),
        tools: if upstreams.contains_key(name) {
            upstreams[name].tools@.len()
        } else {
            0
        },
    }
}

/// What the tool says of its input.
pub const CODE_DESCRIPTION: &'static str = "Python source to execute. SDK functions are preloaded; assign to `result` (or leave a final expression) to return a value.";

/// The schema of the tool's input: an object with one string, `code`, and
/// nothing else.
pub open spec fn input_schema() -> JsonView {
    JsonView::Object(
        Map::empty().insert("type"@, JsonView::Text("object"@)).insert(
            "properties"@,
            JsonView::Object(
                Map::empty().insert(
                    "code"@,
                    JsonView::Object(
                        Map::empty().insert("type"@, JsonView::Text("string"@)).insert(
                            "description"@,
                            JsonView::Text(CODE_DESCRIPTION@),
                        ),
                    ),
                ),
            ),
        ).insert("required"@, JsonView::List(seq![JsonView::Text("code"@)])).insert(
            "additionalProperties"@,
            JsonView::Bool(false),
        ),
    )
}

/// The tool that a client sees, with this description.
pub open spec fn tool_view(description: Seq<char>) -> JsonView {
    JsonView::Object(
        Map::empty().insert("name"@, JsonView::Text("execute_python"@)).insert(
            "description"@,
            JsonView::Text(description),
        ).insert("inputSchema"@, input_schema()),
    )
}

/// The state of a running gateway: `R` is the registry of SDK functions, `P` a
/// connected client that is told when the tools change.
pub struct Runtime<R, P> {
    config_path: String,
    launcher: String,
    boot: NameMap<ConfigEntry>,
    sdk: SdkState<R>,
    peers: Vec<P>,
}

impl<R, P> Runtime<R, P> {
    /// The path of the configuration file.
    pub closed spec fn path(&self) -> Seq<char> {
        self.config_path@
    }

    /// The application that launched the gateway.
    pub closed spec fn launched_by(&self) -> Seq<char> {
        self.launcher@
    }

    /// The configured servers.
    pub closed spec fn boot(&self) -> Map<Seq<char>, EntryView> {
        entries_of(self.boot@)
    }

    /// The current SDK.
    pub closed spec fn sdk(&self) -> SdkState<R> {
        self.sdk
    }

    /// The connected clients.
    pub closed spec fn clients(&self) -> Seq<P> {
        self.peers@
    }

    /// The state at startup, from the servers of the configuration file, enabled
    /// or not.
    pub fn new(
        config_path: &str,
        launcher: &str,
        boot: Result<Vec<UpstreamConfig>, Error>,
        sdk: SdkState<R>,
    ) -> (r: Result<Self, Error>)
        ensures
            match boot {
                Ok(list) => r matches Ok(rt) && rt.path() == config_path@ && rt.launched_by()
                    == launcher@ && rt.boot() == boot_of(configs_of(list@)) && rt.sdk() == sdk
                    && rt.clients() == Seq::<P>::empty(),
                Err(e) => r == Err::<Self, Error>(e),
            },
    {
        let list = match boot {
            Ok(list) => list,
            Err(e) => {
                return Err(e);
            },
        };
        let ghost all = configs_of(list@);
        let mut map: NameMap<ConfigEntry> = NameMap::new();
        assert(entries_of(map@) =~= boot_of(all.take(0)));
        for config in it: list.into_iter()
            invariant
                it.seq() == list@,
                all == configs_of(list@),
                entries_of(map@) == boot_of(all.take(it.index() as int)),
        {
            let ghost had = map@;
            let entry = ConfigEntry { spec: config.spec, enabled: config.enabled };
            let _ = map.insert(config.name, entry);
            proof {
                let n = it.index() as int;
                assert(all.take(n + 1).drop_last() =~= all.take(n));
                assert(all.take(n + 1).last() == config@);
                assert(entries_of(map@) =~= entries_of(had).insert(config.name@, entry@));
            }
        }
        assert(all.take(all.len() as int) =~= all);
        Ok(
            Runtime {
                config_path: config_path.to_owned(),
                launcher: launcher.to_owned(),
                boot: map,
                sdk,
                peers: Vec::new(),
            },
        )
    }

    /// The path of the configuration file that this gateway was started with.
    pub fn config_path(&self) -> (r: &str)
        ensures
            r@ == self.path(),
    {
        self.config_path.as_str()
    }

    /// The application that launched this gateway.
    pub fn launcher(&self) -> (r: &str)
        ensures
            r@ == self.launched_by(),
    {
        self.launcher.as_str()
    }

    /// The current `execute_python` description.
    pub fn description(&self) -> (r: &str)
        ensures
            r@ == self.sdk().description@,
    {
        self.sdk.description.as_str()
    }

    /// The current registry of SDK functions.
    pub fn registry(&self) -> (r: &R)
        ensures
            *r == self.sdk().registry,
    {
        &self.sdk.registry
    }

    /// The tool that a client sees: its name, its description, and an input of one
    /// string, `code`.
    pub fn tool_definition(&self) -> (r: Json)
        ensures
            r@ == tool_view(self.sdk().description@),
    {
        let mut code: Vec<(String, Json)> = Vec::new();
        put(&mut code, "type", text("string"));
        put(&mut code, "description", text(CODE_DESCRIPTION));
        let mut properties: Vec<(String, Json)> = Vec::new();
        put(&mut properties, "code", Json::Object(code));
        let mut required: Vec<Json> = Vec::new();
        required.push(text("code"));
        proof {
            lemma_list_view(required@);
            assert(list_view(required@) =~= seq![JsonView::Text("code"@)]);
        }
        let mut schema: Vec<(String, Json)> = Vec::new();
        put(&mut schema, "type", text("object"));
        put(&mut schema, "properties", Json::Object(properties));
        put(&mut schema, "required", Json::List(required));
        put(&mut schema, "additionalProperties", Json::Bool(false));
        let mut tool: Vec<(String, Json)> = Vec::new();
        put(&mut tool, "name", text("execute_python"));
        put(&mut tool, "description", text(self.sdk.description.as_str()));
        put(&mut tool, "inputSchema", Json::Object(schema));
        Json::Object(tool)
    }

    /// The status of every configured server, in ascending order of the names.
    pub fn list<S>(&self, upstreams: &UpstreamManager<S>) -> (r: Vec<ServerStatus>)
        ensures
            ascending(Seq::new(r@.len(), |i: int| r@[i].name@)),
            forall|k: Seq<char>| #[trigger]
                self.boot().contains_key(k) <==> exists|i: int|
                    0 <= i < r@.len() && (#[trigger] r@[i]).name@ == k,
            forall|i: int|
                0 <= i < r@.len() ==> (#[trigger] r@[i])@ == status_of(
                    r@[i].name@,
                    self.boot()[r@[i].name@],
                    upstreams@,
                ),
            forall|i: int|
                0 <= i < r@.len() ==> (#[trigger] r@[i]).connected == upstreams@.contains_key(
                    r@[i].name@,
                ) && r@[i].tools as nat == (if upstreams@.contains_key(r@[i].name@) {
                    upstreams@[r@[i].name@].tools@.len()
                } else {
                    0
                }) && r@[i].enabled_in_config == self.boot()[r@[i].name@].enabled && r@[i].kind@
                    == (if self.boot()[r@[i].name@].spec is Local {
                    "local"@
                } else {
                    "remote"@
                }),
    {
        proof {
            use_type_invariant(&self.boot);
        }
        let ghost entries = self.boot.list();
        let mut out: Vec<ServerStatus> = Vec::new();
        let mut i: usize = 0;
        while i < self.boot.len()
            invariant
                entries == self.boot.list(),
                ascending(keys_of(entries)),
                i <= entries.len(),
                out.len() == i,
                forall|j: int| 0 <= j < i ==> (#[trigger] out@[j]).name@ == entries[j].0@,
                forall|j: int|
                    0 <= j < i ==> (#[trigger] out@[j])@ == status_of(
                        out@[j].name@,
                        self.boot()[out@[j].name@],
                        upstreams@,
                    ),
            decreases entries.len() - i,
        {
            let entry = self.boot.entry(i);
            let name = entry.0.as_str();
            let connected = upstreams.is_connected(name);
            let tools: usize = if connected {
                upstreams.tool_count(name)
            } else {
                0
            };
            let kind = match &entry.1.spec {
                ServerSpec::Local { .. } => "local",
                ServerSpec::Remote { .. } => "remote",
            };
            let status = ServerStatus {
                name: entry.0.clone(),
                kind: kind.to_owned(),
                enabled_in_config: entry.1.enabled,
                connected,
                tools,
            };
            assert(self.boot()[entry.0@] == entry.1@);
            out.push(status);
            i = i + 1;
        }
        proof {
            assert(Seq::new(out@.len(), |j: int| out@[j].name@) =~= keys_of(entries));
            assert forall|k: Seq<char>| #[trigger] self.boot().contains_key(k) implies exists|j: int|
                0 <= j < out@.len() && (#[trigger] out@[j]).name@ == k by {
                let j = keys_of(entries).index_of(k);
                assert(keys_of(entries).contains(k));
                assert(out@[j].name@ == k);
            }
            assert forall|k: Seq<char>|
                (exists|j: int| 0 <= j < out@.len() && (#[trigger] out@[j]).name@ == k)
                implies #[trigger] self.boot().contains_key(k) by {
                let j = choose|j: int| 0 <= j < out@.len() && (#[trigger] out@[j]).name@ == k;
                lemma_map_of_entry(entries, j);
            }
        }
        out
    }

    /// Takes in a newly built SDK once the worker has loaded it. Where the worker
    /// refused it, the SDK in use stays.
    pub fn regenerate_and_reload(
        &mut self,
        reloaded: Result<(), Error>,
        sdk: SdkState<R>,
    ) -> (r: Result<(), Error>)
        ensures
            r == reloaded,
            final(self).sdk() == (if reloaded is Ok {
                sdk
            } else {
                old(self).sdk()
            }),
            final(self).boot() == old(self).boot(),
            final(self).path() == old(self).path(),
            final(self).launched_by() == old(self).launched_by(),
            final(self).clients() == old(self).clients(),
    {
        match reloaded {
            Ok(done) => {
                self.sdk = sdk;
                Ok(done)
            },
            Err(e) => Err(e),
        }
    }

    /// Takes in a client that is to be told when the tools change.
    pub fn register_peer(&mut self, peer: P)
        ensures
            final(self).clients() == old(self).clients().push(peer),
            final(self).boot() == old(self).boot(),
            final(self).sdk() == old(self).sdk(),
            final(self).path() == old(self).path(),
            final(self).launched_by() == old(self).launched_by(),
    {
        self.peers.push(peer);
    }

    /// The clients to tell of a change, in the order in which they came.
    pub fn peers(&self) -> (r: &Vec<P>)
        ensures
            r@ == self.clients(),
    {
        &self.peers
    }

    /// Drops the clients whose connections have gone away. `notified` says for
    /// each, in order, whether it could be told of a change.
    pub fn keep_notified(&mut self, notified: &Vec<bool>)
        requires
            notified@.len() == old(self).clients().len(),
        ensures
            final(self).clients() == alive(old(self).clients(), notified@),
            final(self).boot() == old(self).boot(),
            final(self).sdk() == old(self).sdk(),
            final(self).path() == old(self).path(),
            final(self).launched_by() == old(self).launched_by(),
    {
        let mut peers: Vec<P> = Vec::new();
        std::mem::swap(&mut peers, &mut self.peers);
        self.peers = keep_alive(peers, notified);
    }
}

/// Those of the connected clients that could be told of a change.
pub open spec fn alive<P>(peers: Seq<P>, notified: Seq<bool>) -> Seq<P>
    decreases peers.len(),
{
    if peers.len() == 0 {
        Seq::empty()
    } else if notified[peers.len() - 1] {
        alive(peers.drop_last(), notified).push(peers.last())
    } else {
        alive(peers.drop_last(), notified)
    }
}

/// Keeps the clients that could be told of a change.
fn keep_alive<P>(peers: Vec<P>, notified: &Vec<bool>) -> (r: Vec<P>)
    requires
        notified@.len() == peers@.len(),
    ensures
        r@ == alive(peers@, notified@),
{
    let mut out: Vec<P> = Vec::new();
    let mut n: usize = 0;
    for peer in it: peers.into_iter()
        invariant
            it.seq() == peers@,
            n == it.index(),
            notified@.len() == peers@.len(),
            out@ == alive(peers@.take(n as int), notified@),
    {
        proof {
            assert(peers@.take(n + 1).drop_last() =~= peers@.take(n as int));
            assert(peers@.take(n + 1).last() == peer);
            assert(n < notified.len());
        }
        if notified[n] {
            out.push(peer);
        }
        n = n + 1;
    }
    assert(peers@.take(n as int) =~= peers@);
    out
}

/// What a switch of a server brought about.
#[derive(Clone, Copy, Debug, PartialEq, Eq, Structural)]
pub enum SwitchOutcome {
    /// The server is connected and offers this many tools.
    Connected(usize),
    /// The server is not connected; whether it was.
    Disconnected(bool),
}

/// How far a switch has come.
#[derive(Clone, Copy, Debug, PartialEq, Eq, Structural)]
pub enum SwitchStage {
    /// The server is being connected or disconnected.
    Live,
    /// The worker is loading the new SDK.
    Reload,
    /// The new startup default is being written to the configuration file.
    Persist,
    /// The switch is over.
    Over,
}

/// The switching on or off of one server while the gateway runs.
#[derive(Debug)]
pub struct Switch {
    path: String,
    name: String,
    enable: bool,
    make_default: bool,
    outcome: SwitchOutcome,
    stage: SwitchStage,
}

/// A switch by what it means.
pub struct SwitchView {
    /// The configuration file.
    pub path: Seq<char>,
    pub name: Seq<char>,
    pub enable: bool,
    pub make_default: bool,
    pub outcome: SwitchOutcome,
    pub stage: SwitchStage,
}

impl View for Switch {
    type V = SwitchView;

    closed spec fn view(&self) -> SwitchView {
        SwitchView {
            path: self.path@,
            name: self.name@,
            enable: self.enable,
            make_default: self.make_default,
            outcome: self.outcome,
            stage: self.stage,
        }
    }
}

/// What came of an action.
#[derive(Debug)]
pub enum SwitchEvent {
    Connected(Result<usize, Error>),
    Disconnected(bool),
    Reloaded(Result<(), Error>),
    Persisted(Result<(), Error>),
}

/// What came of an action, by what it means.
pub enum SwitchEventView {
    Connected(Result<usize, ErrorView>),
    Disconnected(bool),
    Reloaded(Result<(), ErrorView>),
    Persisted(Result<(), ErrorView>),
}

/// A `Result` with its error by what it means.
pub open spec fn outcome_view<T>(r: Result<T, Error>) -> Result<T, ErrorView> {
    match r {
        Ok(v) => Ok(v),
        Err(e) => Err(e@),
    }
}

impl View for SwitchEvent {
    type V = SwitchEventView;

    open spec fn view(&self) -> SwitchEventView {
        match self {
            SwitchEvent::Connected(r) => SwitchEventView::Connected(outcome_view(*r)),
            SwitchEvent::Disconnected(was) => SwitchEventView::Disconnected(*was),
            SwitchEvent::Reloaded(r) => SwitchEventView::Reloaded(outcome_view(*r)),
            SwitchEvent::Persisted(r) => SwitchEventView::Persisted(outcome_view(*r)),
        }
    }
}

/// What is to be done next in a switch.
#[derive(Debug)]
pub enum SwitchAction {
    /// Connect to the server of this name, which is reached like this.
    Connect(String, ServerSpec),
    /// Disconnect the server of this name.
    Disconnect(String),
    /// Build the SDK anew, load it in the worker and tell the clients.
    Reload,
    /// Write the startup default of a server to the configuration file at `path`.
    Persist { path: String, name: String, enabled: bool },
    /// Nothing more: this is the result.
    Finish(Result<SwitchOutcome, Error>),
}

/// What is to be done next in a switch, by what it means.
pub enum SwitchActionView {
    Connect(Seq<char>, SpecView),
    Disconnect(Seq<char>),
    Reload,
    Persist { path: Seq<char>, name: Seq<char>, enabled: bool },
    Finish(Result<SwitchOutcome, ErrorView>),
}

impl View for SwitchAction {
    type V = SwitchActionView;

    open spec fn view(&self) -> SwitchActionView {
        match self {
            SwitchAction::Connect(name, spec) => SwitchActionView::Connect(name@, spec@),
            SwitchAction::Disconnect(name) => SwitchActionView::Disconnect(name@),
            SwitchAction::Reload => SwitchActionView::Reload,
            SwitchAction::Persist { path, name, enabled } => SwitchActionView::Persist {
                path: path@,
                name: name@,
                enabled: *enabled,
            },
            SwitchAction::Finish(r) => SwitchActionView::Finish(outcome_view(*r)),
        }
    }
}

/// How the switching on of a server begins: only a configured server can be
/// connected.
pub open spec fn enable_begin(
    path: Seq<char>,
    boot: Map<Seq<char>, EntryView>,
    name: Seq<char>,
    make_default: bool,
) -> (SwitchView, SwitchActionView) {
    let known = boot.contains_key(name);
    let switch = SwitchView {
        path,
        name,
        enable: true,
        make_default,
        outcome: SwitchOutcome::Connected(0),
        stage: if known {
            SwitchStage::Live
        } else {
            SwitchStage::Over
        },
    };
    if known {
        (switch, SwitchActionView::Connect(name, boot[name].spec))
    } else {
        (switch, SwitchActionView::Finish(Err(ErrorView::Config("unknown server: "@ + name))))
    }
}

/// How the switching off of a server begins: only a configured server can be
/// disconnected.
pub open spec fn disable_begin(
    path: Seq<char>,
    boot: Map<Seq<char>, EntryView>,
    name: Seq<char>,
    make_default: bool,
) -> (SwitchView, SwitchActionView) {
    let known = boot.contains_key(name);
    let switch = SwitchView {
        path,
        name,
        enable: false,
        make_default,
        outcome: SwitchOutcome::Disconnected(false),
        stage: if known {
            SwitchStage::Live
        } else {
            SwitchStage::Over
        },
    };
    if known {
        (switch, SwitchActionView::Disconnect(name))
    } else {
        (switch, SwitchActionView::Finish(Err(ErrorView::Config("unknown server: "@ + name))))
    }
}

/// Whether an event answers the action that a switch is waiting for.
pub open spec fn switch_expects(s: SwitchView, event: SwitchEventView) -> bool {
    match event {
        SwitchEventView::Connected(_) => s.stage == SwitchStage::Live && s.enable,
        SwitchEventView::Disconnected(_) => s.stage == SwitchStage::Live && !s.enable,
        SwitchEventView::Reloaded(_) => s.stage == SwitchStage::Reload,
        SwitchEventView::Persisted(_) => s.stage == SwitchStage::Persist,
    }
}

/// The end of a switch.
pub open spec fn switch_over(s: SwitchView, result: Result<SwitchOutcome, ErrorView>) -> (
    SwitchView,
    SwitchActionView,
) {
    (SwitchView { stage: SwitchStage::Over, ..s }, SwitchActionView::Finish(result))
}

/// How a switch goes on: first the connection, then the SDK, then, where it was
/// asked for, the startup default. The first failure ends it.
pub open spec fn switch_step(s: SwitchView, event: SwitchEventView) -> (
    SwitchView,
    SwitchActionView,
) {
    match event {
        SwitchEventView::Connected(Ok(tools)) => (
            SwitchView {
                outcome: SwitchOutcome::Connected(tools),
                stage: SwitchStage::Reload,
                ..s
            },
            SwitchActionView::Reload,
        ),
        SwitchEventView::Connected(Err(e)) => switch_over(s, Err(e)),
        SwitchEventView::Disconnected(was) => (
            SwitchView {
                outcome: SwitchOutcome::Disconnected(was),
                stage: SwitchStage::Reload,
                ..s
            },
            SwitchActionView::Reload,
        ),
        SwitchEventView::Reloaded(Ok(_)) => if s.make_default {
            (
                SwitchView { stage: SwitchStage::Persist, ..s },
                SwitchActionView::Persist { path: s.path, name: s.name, enabled: s.enable },
            )
        } else {
            switch_over(s, Ok(s.outcome))
        },
        SwitchEventView::Reloaded(Err(e)) => switch_over(s, Err(e)),
        SwitchEventView::Persisted(Ok(_)) => switch_over(s, Ok(s.outcome)),
        SwitchEventView::Persisted(Err(e)) => switch_over(s, Err(e)),
    }
}

/// The configured servers after an event: the startup default of the server
/// changes once it has been written to the configuration file.
pub open spec fn boot_after(
    boot: Map<Seq<char>, EntryView>,
    s: SwitchView,
    event: SwitchEventView,
) -> Map<Seq<char>, EntryView> {
    match event {
        SwitchEventView::Persisted(Ok(_)) => if boot.contains_key(s.name) {
            boot.insert(s.name, EntryView { spec: boot[s.name].spec, enabled: s.enable })
        } else {
            boot
        },
        _ => boot,
    }
}

impl Switch {
    /// The name of the server.
    pub fn name(&self) -> (r: &str)
        ensures
            r@ == self@.name,
    {
        self.name.as_str()
    }

    /// How far the switch has come.
    pub fn stage(&self) -> (r: SwitchStage)
        ensures
            r == self@.stage,
    {
        self.stage
    }
}

/// The error for a server that the configuration does not name.
fn unknown_server(name: &str) -> (r: Error)
    ensures
        r@ == ErrorView::Config("unknown server: "@ + name@),
{
    Error::Config("unknown server: ".to_owned().concat(name))
}

impl<R, P> Runtime<R, P> {
    /// Begins to switch a server on. With `make_default` it will be connected at
    /// startup too.
    pub fn enable(&self, name: &str, make_default: bool) -> (r: (Switch, SwitchAction))
        ensures
            (r.0@, r.1@) == enable_begin(self.path(), self.boot(), name@, make_default),
    {
        let (stage, action) = match self.boot.get(name) {
            Some(entry) => {
                let name = name.to_owned();
                (SwitchStage::Live, SwitchAction::Connect(name, entry.spec.clone()))
            },
            None => (SwitchStage::Over, SwitchAction::Finish(Err(unknown_server(name)))),
        };
        let switch = Switch {
            path: self.config_path.clone(),
            name: name.to_owned(),
            enable: true,
            make_default,
            outcome: SwitchOutcome::Connected(0),
            stage,
        };
        (switch, action)
    }

    /// Begins to switch a server off. With `make_default` it will not be connected
    /// at startup either.
    pub fn disable(&self, name: &str, make_default: bool) -> (r: (Switch, SwitchAction))
        ensures
            (r.0@, r.1@) == disable_begin(self.path(), self.boot(), name@, make_default),
    {
        let (stage, action) = if self.boot.contains(name) {
            (SwitchStage::Live, SwitchAction::Disconnect(name.to_owned()))
        } else {
            (SwitchStage::Over, SwitchAction::Finish(Err(unknown_server(name))))
        };
        let switch = Switch {
            path: self.config_path.clone(),
            name: name.to_owned(),
            enable: false,
            make_default,
            outcome: SwitchOutcome::Disconnected(false),
            stage,
        };
        (switch, action)
    }

    /// Takes a switch on with what came of its last action.
    pub fn step(&mut self, switch: Switch, event: SwitchEvent) -> (r: (Switch, SwitchAction))
        requires
            switch_expects(switch@, event@),
        ensures
            (r.0@, r.1@) == switch_step(switch@, event@),
            final(self).boot() == boot_after(old(self).boot(), switch@, event@),
            final(self).sdk() == old(self).sdk(),
            final(self).clients() == old(self).clients(),
            final(self).path() == old(self).path(),
            final(self).launched_by() == old(self).launched_by(),
    {
        let mut next = switch;
        let action = match event {
            SwitchEvent::Connected(Ok(tools)) => {
                next.outcome = SwitchOutcome::Connected(tools);
                next.stage = SwitchStage::Reload;
                SwitchAction::Reload
            },
            SwitchEvent::Disconnected(was) => {
                next.outcome = SwitchOutcome::Disconnected(was);
                next.stage = SwitchStage::Reload;
                SwitchAction::Reload
            },
            SwitchEvent::Reloaded(Ok(_)) => {
                if next.make_default {
                    next.stage = SwitchStage::Persist;
                    SwitchAction::Persist {
                        path: next.path.clone(),
                        name: next.name.clone(),
                        enabled: next.enable,
                    }
                } else {
                    next.stage = SwitchStage::Over;
                    SwitchAction::Finish(Ok(next.outcome))
                }
            },
            SwitchEvent::Persisted(Ok(_)) => {
                next.stage = SwitchStage::Over;
                self.set_default(next.name.as_str(), next.enable);
                SwitchAction::Finish(Ok(next.outcome))
            },
            SwitchEvent::Connected(Err(e)) => {
                next.stage = SwitchStage::Over;
                SwitchAction::Finish(Err(e))
            },
            SwitchEvent::Reloaded(Err(e)) => {
                next.stage = SwitchStage::Over;
                SwitchAction::Finish(Err(e))
            },
            SwitchEvent::Persisted(Err(e)) => {
                next.stage = SwitchStage::Over;
                SwitchAction::Finish(Err(e))
            },
        };
        (next, action)
    }

    /// Sets the startup default of a configured server.
    fn set_default(&mut self, name: &str, enabled: bool)
        ensures
            final(self).boot() == (if old(self).boot().contains_key(name@) {
                old(self).boot().insert(
                    name@,
                    EntryView { spec: old(self).boot()[name@].spec, enabled },
                )
            } else {
                old(self).boot()
            }),
            final(self).sdk() == old(self).sdk(),
            final(self).clients() == old(self).clients(),
            final(self).path() == old(self).path(),
            final(self).launched_by() == old(self).launched_by(),
    {
        match self.boot.remove(name) {
            Some(entry) => {
                let _ = self.boot.insert(
                    name.to_owned(),
                    ConfigEntry { spec: entry.spec, enabled },
                );
                assert(self.boot() =~= old(self).boot().insert(
                    name@,
                    EntryView { spec: old(self).boot()[name@].spec, enabled },
                ));
            },
            None => {
                assert(self.boot() =~= old(self).boot());
            },
        }
    }
}

/// How a switch begins, on or off.
pub open spec fn switch_begin(
    path: Seq<char>,
    boot: Map<Seq<char>, EntryView>,
    name: Seq<char>,
    enable: bool,
    make_default: bool,
) -> (SwitchView, SwitchActionView) {
    if enable {
        enable_begin(path, boot, name, make_default)
    } else {
        disable_begin(path, boot, name, make_default)
    }
}

/// A switch, its last action and the configured servers, after some events.
pub struct SwitchRun {
    pub switch: SwitchView,
    pub action: SwitchActionView,
    pub boot: Map<Seq<char>, EntryView>,
}

/// Where a switch stands after some events.
pub open spec fn switch_run(
    boot: Map<Seq<char>, EntryView>,
    begin: (SwitchView, SwitchActionView),
    events: Seq<SwitchEventView>,
) -> SwitchRun
    decreases events.len(),
{
    if events.len() == 0 {
        SwitchRun { switch: begin.0, action: begin.1, boot }
    } else {
        let run = switch_run(boot, begin, events.drop_last());
        let (switch, action) = switch_step(run.switch, events.last());
        SwitchRun { switch, action, boot: boot_after(run.boot, run.switch, events.last()) }
    }
}

/// Whether each of the events answers the action before it.
pub open spec fn switch_follows(
    boot: Map<Seq<char>, EntryView>,
    begin: (SwitchView, SwitchActionView),
    events: Seq<SwitchEventView>,
) -> bool
    decreases events.len(),
{
    events.len() > 0 ==> switch_follows(boot, begin, events.drop_last()) && switch_expects(
        switch_run(boot, begin, events.drop_last()).switch,
        events.last(),
    )
}

/// What an event says of the connection, where it went well.
pub open spec fn live_outcome(event: SwitchEventView) -> Option<SwitchOutcome> {
    match event {
        SwitchEventView::Connected(Ok(tools)) => Some(SwitchOutcome::Connected(tools)),
        SwitchEventView::Disconnected(was) => Some(SwitchOutcome::Disconnected(was)),
        _ => None,
    }
}

/// Whether an event says that the worker has loaded the new SDK.
pub open spec fn reloaded(event: SwitchEventView) -> bool {
    event matches SwitchEventView::Reloaded(Ok(_))
}

/// What holds at every point of a switch.
proof fn lemma_switch(
    path: Seq<char>,
    boot: Map<Seq<char>, EntryView>,
    name: Seq<char>,
    enable: bool,
    make_default: bool,
    events: Seq<SwitchEventView>,
)
    requires
        switch_follows(boot, switch_begin(path, boot, name, enable, make_default), events),
    ensures
        ({
            let run = switch_run(boot, switch_begin(path, boot, name, enable, make_default), events);
            let s = run.switch;
            &&& s.path == path && s.name == name && s.enable == enable && s.make_default == make_default
            &&& s.stage == SwitchStage::Live ==> events.len() == 0 && boot.contains_key(name)
                && run.action == switch_begin(path, boot, name, enable, make_default).1
            &&& s.stage == SwitchStage::Reload ==> events.len() == 1 && live_outcome(events[0])
                == Some(s.outcome) && run.action == SwitchActionView::Reload
            &&& s.stage == SwitchStage::Persist ==> events.len() == 2 && make_default
                && live_outcome(events[0]) == Some(s.outcome) && reloaded(events[1]) && run.action
                == (SwitchActionView::Persist { path, name, enabled: enable })
            &&& s.stage == SwitchStage::Over <==> run.action is Finish
            &&& events.len() <= 3
            &&& !boot.contains_key(name) ==> events.len() == 0
            &&& events.len() == 0 ==> run.boot == boot
            &&& match run.action {
                SwitchActionView::Finish(Ok(outcome)) => {
                    &&& boot.contains_key(name)
                    &&& events.len() >= 2
                    &&& live_outcome(events[0]) == Some(outcome)
                    &&& reloaded(events[1])
                    &&& run.boot == if make_default {
                        boot.insert(name, EntryView { spec: boot[name].spec, enabled: enable })
                    } else {
                        boot
                    }
                },
                _ => run.boot == boot,
            }
        }),
    decreases events.len(),
{
    if events.len() > 0 {
        let front = events.drop_last();
        lemma_switch(path, boot, name, enable, make_default, front);
        if front.len() > 0 {
            assert(events[0] == front[0]);
        }
        if front.len() > 1 {
            assert(events[1] == front[1]);
        }
    }
}

/// A switch takes at most three steps. Its result is that of connecting or
/// disconnecting, and it comes only after the worker has loaded the new SDK.
pub proof fn law_switch_reports_the_connection(
    path: Seq<char>,
    boot: Map<Seq<char>, EntryView>,
    name: Seq<char>,
    enable: bool,
    make_default: bool,
    events: Seq<SwitchEventView>,
)
    requires
        switch_follows(boot, switch_begin(path, boot, name, enable, make_default), events),
    ensures
        events.len() <= 3,
        switch_run(
            boot,
            switch_begin(path, boot, name, enable, make_default),
            events,
        ).action matches SwitchActionView::Finish(Ok(outcome)) ==> live_outcome(events[0])
            == Some(outcome) && reloaded(events[1]),
{
    lemma_switch(path, boot, name, enable, make_default, events);
}

/// A switch touches the named server alone: it connects that server, by how the
/// configuration says that it is reached, or disconnects it, and it writes that
/// server's startup default, to the configuration file of the gateway.
pub proof fn law_switch_touches_the_named_server(
    path: Seq<char>,
    boot: Map<Seq<char>, EntryView>,
    name: Seq<char>,
    enable: bool,
    make_default: bool,
    events: Seq<SwitchEventView>,
)
    requires
        switch_follows(boot, switch_begin(path, boot, name, enable, make_default), events),
    ensures
        match switch_run(
            boot,
            switch_begin(path, boot, name, enable, make_default),
            events,
        ).action {
            SwitchActionView::Connect(who, spec) => enable && who == name && boot.contains_key(name)
                && spec == boot[name].spec,
            SwitchActionView::Disconnect(who) => !enable && who == name,
            SwitchActionView::Persist { path: file, name: who, enabled } => make_default && file
                == path && who == name && enabled == enable,
            _ => true,
        },
{
    lemma_switch(path, boot, name, enable, make_default, events);
}

/// A switch of a server that is not configured is refused at once: nothing is
/// connected, disconnected or written.
pub proof fn law_unknown_server_is_refused(
    path: Seq<char>,
    boot: Map<Seq<char>, EntryView>,
    name: Seq<char>,
    enable: bool,
    make_default: bool,
    events: Seq<SwitchEventView>,
)
    requires
        !boot.contains_key(name),
        switch_follows(boot, switch_begin(path, boot, name, enable, make_default), events),
    ensures
        events.len() == 0,
        switch_begin(path, boot, name, enable, make_default).1 == SwitchActionView::Finish(
            Err(ErrorView::Config("unknown server: "@ + name)),
        ),
{
    lemma_switch(path, boot, name, enable, make_default, events);
}

/// Without `make_default` a switch lasts as long as the gateway: it writes
/// nothing to the configuration file and changes no startup default.
pub proof fn law_switch_keeps_defaults(
    path: Seq<char>,
    boot: Map<Seq<char>, EntryView>,
    name: Seq<char>,
    enable: bool,
    events: Seq<SwitchEventView>,
)
    requires
        switch_follows(boot, switch_begin(path, boot, name, enable, false), events),
    ensures
        switch_run(boot, switch_begin(path, boot, name, enable, false), events).boot == boot,
        !(switch_run(boot, switch_begin(path, boot, name, enable, false), events).action is Persist),
{
    lemma_switch(path, boot, name, enable, false, events);
}

/// With `make_default` a switch that succeeds has changed the startup default of
/// this one server, and nothing else of the configuration.
pub proof fn law_switch_sets_default(
    path: Seq<char>,
    boot: Map<Seq<char>, EntryView>,
    name: Seq<char>,
    enable: bool,
    events: Seq<SwitchEventView>,
)
    requires
        switch_follows(boot, switch_begin(path, boot, name, enable, true), events),
        switch_run(
            boot,
            switch_begin(path, boot, name, enable, true),
            events,
        ).action matches SwitchActionView::Finish(Ok(_)),
    ensures
        boot.contains_key(name),
        switch_run(boot, switch_begin(path, boot, name, enable, true), events).boot == boot.insert(
            name,
            EntryView { spec: boot[name].spec, enabled: enable },
        ),
{
    lemma_switch(path, boot, name, enable, true, events);
}

/// A switch that fails, at whatever step, leaves every startup default as it was.
pub proof fn law_failed_switch_keeps_defaults(
    path: Seq<char>,
    boot: Map<Seq<char>, EntryView>,
    name: Seq<char>,
    enable: bool,
    make_default: bool,
    events: Seq<SwitchEventView>,
)
    requires
        switch_follows(boot, switch_begin(path, boot, name, enable, make_default), events),
        switch_run(
            boot,
            switch_begin(path, boot, name, enable, make_default),
            events,
        ).action matches SwitchActionView::Finish(Err(_)),
    ensures
        switch_run(boot, switch_begin(path, boot, name, enable, make_default), events).boot == boot,
{
    lemma_switch(path, boot, name, enable, make_default, events);
}

/// A server of the configuration can be switched on by how it is reached, and
/// switched off, also where it is not connected at startup.
pub proof fn law_configured_server_can_be_switched(
    path: Seq<char>,
    boot: Map<Seq<char>, EntryView>,
    name: Seq<char>,
    make_default: bool,
)
    requires
        boot.contains_key(name),
    ensures
        enable_begin(path, boot, name, make_default).1 == SwitchActionView::Connect(
            name,
            boot[name].spec,
        ),
        disable_begin(path, boot, name, make_default).1 == SwitchActionView::Disconnect(name),
{
}

/// Connecting a server shows in its status, with the number of its tools, and so
/// does disconnecting it. Neither changes the status of another server or what
/// the status says of the configuration.
pub proof fn law_switch_shows_in_status<S>(
    name: Seq<char>,
    other: Seq<char>,
    entry: EntryView,
    upstreams: Map<Seq<char>, Upstream<S>>,
    upstream: Upstream<S>,
)
    requires
        other != name,
    ensures
        ({
            let on = status_of(name, entry, upstreams.insert(name, upstream));
            let off = status_of(name, entry, upstreams.remove(name));
            &&& on.connected && on.tools == upstream.tools@.len()
            &&& !off.connected && off.tools == 0
            &&& on.enabled_in_config == entry.enabled && off.enabled_in_config == entry.enabled
            &&& status_of(other, entry, upstreams.insert(name, upstream)) == status_of(
                other,
                entry,
                upstreams,
            )
            &&& status_of(other, entry, upstreams.remove(name)) == status_of(
                other,
                entry,
                upstreams,
            )
        }),
{
}

/// The tools of one server among the tools of all.
pub open spec fn tools_from(tools: Seq<NamespacedView>, server: Seq<char>) -> Seq<NamespacedView> {
    tools.filter(|t: NamespacedView| t.server == server)
}

/// The number of tools in the status of a connected server is the number of its
/// tools among the tools of all servers.
pub proof fn law_status_counts_listed_tools<S>(servers: Seq<(String, Upstream<S>)>, i: int)
    requires
        ascending(keys_of(servers)),
        0 <= i < servers.len(),
    ensures
        map_of(servers).contains_key(servers[i].0@),
        map_of(servers)[servers[i].0@].tools@.len() == tools_from(
            listed(servers),
            servers[i].0@,
        ).len(),
{
    lemma_map_of_entry(servers, i);
    lemma_count_listed(servers, servers[i].0@);
    assert(keys_of(servers).contains(servers[i].0@));
}

/// How many of the listed tools come from one server.
proof fn lemma_count_listed<S>(servers: Seq<(String, Upstream<S>)>, server: Seq<char>)
    requires
        ascending(keys_of(servers)),
    ensures
        tools_from(listed(servers), server).len() == if keys_of(servers).contains(server) {
            map_of(servers)[server].tools@.len()
        } else {
            0
        },
    decreases servers.len(),
{
    let keys = keys_of(servers);
    let wanted = |t: NamespacedView| t.server == server;
    if servers.len() == 0 {
        assert(tools_from(listed(servers), server) =~= Seq::empty());
        assert(!keys.contains(server));
    } else {
        let shorter = servers.drop_last();
        let last = servers.last();
        let own = sorted_tools(tools_of(last.1.tools@));
        law_sorting_keeps_tools(tools_of(last.1.tools@));
        assert(keys_of(shorter) =~= keys.drop_last());
        lemma_count_listed(shorter, server);
        Seq::filter_distributes_over_add(listed(shorter), tagged(last.0@, own), wanted);
        lemma_count_tagged(last.0@, own, server);
        lemma_map_of_entry(servers, servers.len() - 1);
        if keys_of(shorter).contains(server) {
            let k = keys_of(shorter).index_of(server);
            assert(shorter[k] == servers[k]);
            assert(keys[k] == server);
            lemma_map_of_entry(shorter, k);
            lemma_map_of_entry(servers, k);
            assert(before(keys[k], keys[servers.len() - 1]));
            lemma_before_irreflexive(server);
        } else if last.0@ == server {
            assert(keys[servers.len() - 1] == server);
        } else {
            if keys.contains(server) {
                let k = keys.index_of(server);
                assert(keys_of(shorter)[k] == server);
            }
        }
    }
}

/// All tools of a server are tagged with its name.
proof fn lemma_count_tagged(from: Seq<char>, tools: Seq<ToolView>, server: Seq<char>)
    ensures
        tools_from(tagged(from, tools), server).len() == if from == server {
            tools.len()
        } else {
            0
        },
    decreases tools.len(),
{
    let wanted = |t: NamespacedView| t.server == server;
    reveal(Seq::filter);
    if tools.len() > 0 {
        lemma_count_tagged(from, tools.drop_last(), server);
        assert(tagged(from, tools).drop_last() =~= tagged(from, tools.drop_last()));
    }
}

/// A switch of a configured server succeeds where its steps do: the server is connected
/// or disconnected, then the worker loads the new SDK, then, where it was asked for, the
/// startup default is written; the result is what connecting or disconnecting brought
/// about.
pub proof fn law_switch_succeeds_where_its_steps_do(
    path: Seq<char>,
    boot: Map<Seq<char>, EntryView>,
    name: Seq<char>,
    make_default: bool,
    tools: usize,
    was: bool,
)
    requires
        boot.contains_key(name),
    ensures
        ({
            let on = enable_begin(path, boot, name, make_default);
            let on1 = switch_step(on.0, SwitchEventView::Connected(Ok(tools)));
            let on2 = switch_step(on1.0, SwitchEventView::Reloaded(Ok(())));
            let on3 = switch_step(on2.0, SwitchEventView::Persisted(Ok(())));
            &&& on.1 == SwitchActionView::Connect(name, boot[name].spec)
            &&& switch_expects(on.0, SwitchEventView::Connected(Ok(tools)))
            &&& on1.1 == SwitchActionView::Reload
            &&& switch_expects(on1.0, SwitchEventView::Reloaded(Ok(())))
            &&& !make_default ==> on2.1 == SwitchActionView::Finish(
                Ok(SwitchOutcome::Connected(tools)),
            )
            &&& make_default ==> on2.1 == (SwitchActionView::Persist { path, name, enabled: true })
                && switch_expects(on2.0, SwitchEventView::Persisted(Ok(()))) && on3.1
                == SwitchActionView::Finish(Ok(SwitchOutcome::Connected(tools)))
        }),
        ({
            let off = disable_begin(path, boot, name, make_default);
            let off1 = switch_step(off.0, SwitchEventView::Disconnected(was));
            let off2 = switch_step(off1.0, SwitchEventView::Reloaded(Ok(())));
            let off3 = switch_step(off2.0, SwitchEventView::Persisted(Ok(())));
            &&& off.1 == SwitchActionView::Disconnect(name)
            &&& switch_expects(off.0, SwitchEventView::Disconnected(was))
            &&& off1.1 == SwitchActionView::Reload
            &&& switch_expects(off1.0, SwitchEventView::Reloaded(Ok(())))
            &&& !make_default ==> off2.1 == SwitchActionView::Finish(
                Ok(SwitchOutcome::Disconnected(was)),
            )
            &&& make_default ==> off2.1 == (SwitchActionView::Persist {
                path,
                name,
                enabled: false,
            }) && switch_expects(off2.0, SwitchEventView::Persisted(Ok(()))) && off3.1
                == SwitchActionView::Finish(Ok(SwitchOutcome::Disconnected(was)))
        }),
{
}

/// A switch of a configured server ends in an error only where a step does, at once and
/// with that step's error.
pub proof fn law_switch_fails_with_its_step(
    path: Seq<char>,
    boot: Map<Seq<char>, EntryView>,
    name: Seq<char>,
    enable: bool,
    make_default: bool,
    events: Seq<SwitchEventView>,
)
    requires
        boot.contains_key(name),
        switch_follows(boot, switch_begin(path, boot, name, enable, make_default), events),
    ensures
        ({
            let run = switch_run(boot, switch_begin(path, boot, name, enable, make_default), events);
            let bad: Option<ErrorView> = if events.len() == 0 {
                None
            } else {
                match events[events.len() - 1] {
                    SwitchEventView::Connected(Err(e)) => Some(e),
                    SwitchEventView::Reloaded(Err(e)) => Some(e),
                    SwitchEventView::Persisted(Err(e)) => Some(e),
                    _ => None,
                }
            };
            match bad {
                Some(e) => run.action == SwitchActionView::Finish(Err(e)),
                None => !(run.action matches SwitchActionView::Finish(Err(_))),
            }
        }),
{
    lemma_switch(path, boot, name, enable, make_default, events);
    if events.len() > 0 {
        lemma_switch(path, boot, name, enable, make_default, events.drop_last());
    }
}

/// The startup default of the switched server, and nothing else, changes at the moment
/// when it has been written.
pub proof fn law_default_follows_the_file(
    boot: Map<Seq<char>, EntryView>,
    s: SwitchView,
    event: SwitchEventView,
    other: Seq<char>,
)
    requires
        boot.contains_key(s.name),
    ensures
        boot_after(boot, s, event).dom() == boot.dom(),
        other != s.name ==> boot_after(boot, s, event)[other] == boot[other],
        boot_after(boot, s, event)[s.name].spec == boot[s.name].spec,
        boot_after(boot, s, event)[s.name].enabled == (match event {
            SwitchEventView::Persisted(Ok(_)) => s.enable,
            _ => boot[s.name].enabled,
        }),
{
    assert(boot_after(boot, s, event).dom() =~= boot.dom());
}

/// At startup the gateway knows every server of the configuration, by how it is reached
/// and whether it is enabled; of two with one name the later.
pub proof fn law_every_configured_server_is_known(list: Seq<UpstreamView>, i: int)
    requires
        0 <= i < list.len(),
        forall|j: int| i < j < list.len() ==> (#[trigger] list[j]).name != list[i].name,
    ensures
        boot_of(list).contains_key(list[i].name),
        boot_of(list)[list[i].name].spec == list[i].spec,
        boot_of(list)[list[i].name].enabled == list[i].enabled,
    decreases list.len(),
{
    if i < list.len() - 1 {
        let front = list.drop_last();
        assert forall|j: int| i < j < front.len() implies (#[trigger] front[j]).name
            != front[i].name by {
            assert(front[j] == list[j]);
        }
        law_every_configured_server_is_known(front, i);
        assert(list[list.len() - 1].name != list[i].name);
    }
}

/// The gateway knows no server that the configuration does not name.
pub proof fn law_no_other_server_is_known(list: Seq<UpstreamView>, name: Seq<char>)
    requires
        forall|j: int| 0 <= j < list.len() ==> (#[trigger] list[j]).name != name,
    ensures
        !boot_of(list).contains_key(name),
    decreases list.len(),
{
    if list.len() > 0 {
        let front = list.drop_last();
        assert forall|j: int| 0 <= j < front.len() implies (#[trigger] front[j]).name != name by {
            assert(front[j] == list[j]);
        }
        law_no_other_server_is_known(front, name);
        assert(list[list.len() - 1].name != name);
    }
}

/// A client stays exactly where it could be told, whatever became of the others, and
/// the clients that stay keep their order.
pub proof fn law_clients_that_were_told_stay<P>(
    front: Seq<P>,
    told: Seq<bool>,
    client: P,
    ok: bool,
    rest: Seq<P>,
    told_rest: Seq<bool>,
)
    requires
        front.len() == told.len(),
        rest.len() == told_rest.len(),
    ensures
        alive(front.push(client) + rest, told.push(ok) + told_rest) == alive(front, told) + (if ok {
            seq![client]
        } else {
            Seq::empty()
        }) + alive(rest, told_rest),
        alive(Seq::<P>::empty(), Seq::empty()) == Seq::<P>::empty(),
{
    lemma_alive_both(front.push(client), told.push(ok), rest, told_rest);
    assert(front.push(client).drop_last() =~= front);
    lemma_alive_prefix(front, told.push(ok), told);
    if ok {
        assert(alive(front, told).push(client) =~= alive(front, told) + seq![client]);
    } else {
        assert(alive(front, told) =~= alive(front, told) + Seq::<P>::empty());
    }
}

/// Who stays depends on what became of the clients themselves alone.
proof fn lemma_alive_prefix<P>(peers: Seq<P>, a: Seq<bool>, b: Seq<bool>)
    requires
        peers.len() <= a.len(),
        peers.len() <= b.len(),
        forall|i: int| 0 <= i < peers.len() ==> #[trigger] a[i] == b[i],
    ensures
        alive(peers, a) == alive(peers, b),
    decreases peers.len(),
{
    if peers.len() > 0 {
        lemma_alive_prefix(peers.drop_last(), a, b);
        assert(a[peers.len() - 1] == b[peers.len() - 1]);
    }
}

/// Of two groups of clients those of the one stay and then those of the other.
proof fn lemma_alive_both<P>(a: Seq<P>, x: Seq<bool>, b: Seq<P>, y: Seq<bool>)
    requires
        a.len() == x.len(),
        b.len() == y.len(),
    ensures
        alive(a + b, x + y) == alive(a, x) + alive(b, y),
    decreases b.len(),
{
    if b.len() == 0 {
        assert(a + b =~= a);
        assert(x + y =~= x);
        assert(alive(a, x) + alive(b, y) =~= alive(a, x));
    } else {
        let n = b.len() - 1;
        lemma_alive_both(a, x, b.drop_last(), y.drop_last());
        assert((a + b).drop_last() =~= a + b.drop_last());
        lemma_alive_prefix((a + b).drop_last(), x + y, x + y.drop_last());
        lemma_alive_prefix(b.drop_last(), y, y.drop_last());
        assert((x + y)[a.len() + n] == y[n]);
        assert(alive(a + b, x + y) =~= alive(a, x) + alive(b, y));
    }
}

/// The tool that a client sees has a name, the current description and a schema of its
/// input, which takes one string, `code`, and nothing else.
pub proof fn law_tool_takes_one_string(description: Seq<char>)
    ensures
        tool_view(description) matches JsonView::Object(tool) && tool.dom() == set![
            "name"@,
            "description"@,
            "inputSchema"@,
        ] && tool["name"@] == JsonView::Text("execute_python"@) && tool["description"@]
            == JsonView::Text(description) && (tool["inputSchema"@] matches JsonView::Object(schema)
            && schema.dom() == set!["type"@, "properties"@, "required"@, "additionalProperties"@]
            && schema["type"@] == JsonView::Text("object"@) && schema["additionalProperties"@]
            == JsonView::Bool(false) && schema["required"@] == JsonView::List(
            seq![JsonView::Text("code"@)],
        ) && (schema["properties"@] matches JsonView::Object(properties) && properties.dom()
            == set!["code"@] && (properties["code"@] matches JsonView::Object(code) && code["type"@]
            == JsonView::Text("string"@)))),
{
    reveal_strlit("name");
    reveal_strlit("description");
    reveal_strlit("inputSchema");
    reveal_strlit("type");
    reveal_strlit("properties");
    reveal_strlit("required");
    reveal_strlit("additionalProperties");
    reveal_strlit("code");
    assert("name"@.len() == 4 && "description"@.len() == 11 && "inputSchema"@.len() == 11
        && "type"@.len() == 4 && "properties"@.len() == 10 && "required"@.len() == 8
        && "additionalProperties"@.len() == 20);
    assert("description"@[0] == 'd' && "inputSchema"@[0] == 'i');
    let tool = tool_view(description)->Object_0;
    assert(tool.dom() =~= set!["name"@, "description"@, "inputSchema"@]);
    let schema = tool["inputSchema"@]->Object_0;
    assert(schema.dom() =~= set!["type"@, "properties"@, "required"@, "additionalProperties"@]);
    let properties = schema["properties"@]->Object_0;
    assert(properties.dom() =~= set!["code"@]);
}

/// Events and actions of a switch mean what they carry, and so does a status.
pub proof fn law_switch_speaks_of_what_it_carries(
    text: String,
    other: String,
    spec: ServerSpec,
    tools: usize,
    flag: bool,
    e: Error,
    outcome: SwitchOutcome,
    status: ServerStatus,
)
    ensures
        SwitchEvent::Connected(Ok(tools))@ == SwitchEventView::Connected(Ok(tools)),
        SwitchEvent::Connected(Err(e))@ == SwitchEventView::Connected(Err(e@)),
        SwitchEvent::Disconnected(flag)@ == SwitchEventView::Disconnected(flag),
        SwitchEvent::Reloaded(Ok(()))@ matches SwitchEventView::Reloaded(Ok(_)),
        SwitchEvent::Reloaded(Err(e))@ == SwitchEventView::Reloaded(Err(e@)),
        SwitchEvent::Persisted(Ok(()))@ matches SwitchEventView::Persisted(Ok(_)),
        SwitchEvent::Persisted(Err(e))@ == SwitchEventView::Persisted(Err(e@)),
        SwitchAction::Connect(text, spec)@ == SwitchActionView::Connect(text@, spec@),
        SwitchAction::Disconnect(text)@ == SwitchActionView::Disconnect(text@),
        SwitchAction::Reload@ == SwitchActionView::Reload,
        (SwitchAction::Persist { path: text, name: other, enabled: flag })@ == (
        SwitchActionView::Persist { path: text@, name: other@, enabled: flag }),
        SwitchAction::Finish(Ok(outcome))@ == SwitchActionView::Finish(Ok(outcome)),
        SwitchAction::Finish(Err(e))@ == SwitchActionView::Finish(Err(e@)),
        status@.name == status.name@ && status@.kind == status.kind@ && status@.enabled_in_config
            == status.enabled_in_config && status@.connected == status.connected && status@.tools
            == status.tools,
{
}

} // verus!
