//! The commands: which there are, where each is carried out, and what is printed
//! for the replies of a running gateway.

use crate::admin::{list_reply, params_json, reply_view, switch_reply, ParamsView};
use crate::error::{message_of, Error, ErrorView};
use crate::json::{
    bool_of, lemma_list_view, list_of, list_view, member, natural_of, pretty_text, put, text_of,
    written, Json, JsonView,
};
use crate::runtime::{ServerStatus, SwitchOutcome};
use crate::text::{
    contains_text, copy_text, decimal, decimal_text, occurs, opt_text, pad, padded, same,
};
use vstd::prelude::*;
use vstd::string::*;

verus! {

/// The port of the shared gateway where none is given.
pub const DEFAULT_HTTP_PORT: u16 = 3388;

/// The command line.
#[derive(Debug)]
pub struct Cli {
    pub command: Option<Command>,
}

/// Which running gateway a command is for, where there is more than one: by the
/// name of its launcher, a part of its configuration's path, or its process
/// number.
#[derive(Debug)]
pub struct InstanceSel {
    pub instance: Option<String>,
}

impl Clone for InstanceSel {
    fn clone(&self) -> (r: Self)
        ensures
            r == *self,
    {
        InstanceSel { instance: copy_text(&self.instance) }
    }
}

impl Default for InstanceSel {
    fn default() -> (r: Self)
        ensures
            r.instance is None,
    {
        InstanceSel { instance: None }
    }
}

/// A harness that codemcp can be wired into.
#[derive(Clone, Copy, Debug, PartialEq, Eq, Structural)]
pub enum Harness {
    Opencode,
}

/// A command.
#[derive(Debug)]
pub enum Command {
    /// Run a gateway over HTTP on a fixed port.
    Start { port: u16, host: String },
    /// List the running gateways.
    Instances,
    /// List the configured servers and how they stand.
    List { instance: InstanceSel },
    /// Print the definition of the tool.
    Tool { instance: InstanceSel },
    /// Print the generated SDK.
    Sdk { instance: InstanceSel },
    /// Connect a server.
    Enable { name: String, make_default: bool, instance: InstanceSel },
    /// Disconnect a server.
    Disable { name: String, make_default: bool, instance: InstanceSel },
    /// Wire codemcp into a harness.
    Setup { harness: Harness },
}

impl Command {
    /// Whether the command is carried out without any gateway.
    pub fn is_local(&self) -> (r: bool)
        ensures
            r == (self is Setup),
    {
        matches!(self, Command::Setup { .. })
    }

    /// Whether the command runs the gateway itself.
    pub fn is_gateway(&self) -> (r: bool)
        ensures
            r == (self is Start),
    {
        matches!(self, Command::Start { .. })
    }
}

/// Where a command line is carried out.
#[derive(Debug)]
pub enum Route {
    /// Here, by running the gateway; with a port and host over HTTP.
    Gateway(Option<(u16, String)>),
    /// Here, without a gateway.
    Local(Command),
    /// By a running gateway.
    Admin(Command),
}

/// Decides where a command line is carried out: without a command, and with
/// `start`, the gateway runs.
pub fn route(cli: Cli) -> (r: Route)
    ensures
        match cli.command {
            None => r == Route::Gateway(None),
            Some(command) => match command {
                Command::Start { port, host } => r == Route::Gateway(Some((port, host))),
                Command::Setup { .. } => r == Route::Local(command),
                _ => r == Route::Admin(command),
            },
        },
{
    match cli.command {
        None => Route::Gateway(None),
        Some(command) => {
            if command.is_local() {
                return Route::Local(command);
            }
            match command {
                Command::Start { port, host } => Route::Gateway(Some((port, host))),
                other => Route::Admin(other),
            }
        },
    }
}

/// Carries out a local command: sets its harness up by `setup` and gives what came
/// of that.
pub fn run_local<F: FnOnce(Harness) -> Result<(), Error>>(cmd: Command, setup: F) -> (r: Result<
    (),
    Error,
>)
    requires
        cmd is Setup,
        call_requires(setup, (cmd->harness,)),
    ensures
        call_ensures(setup, (cmd->harness,), r),
{
    match cmd {
        Command::Setup { harness } => setup(harness),
        _ => {
            assert(false);
            Ok(())
        },
    }
}

/// Something to print.
#[derive(Debug)]
pub enum Output {
    /// A line for the standard output.
    Line(String),
    /// A line for the standard error output.
    ErrorLine(String),
    /// Text for the standard output as it is, without a line feed behind it.
    Raw(String),
}

/// Something to print, by its characters.
pub enum OutputView {
    Line(Seq<char>),
    ErrorLine(Seq<char>),
    Raw(Seq<char>),
}

impl View for Output {
    type V = OutputView;

    open spec fn view(&self) -> OutputView {
        match self {
            Output::Line(s) => OutputView::Line(s@),
            Output::ErrorLine(s) => OutputView::ErrorLine(s@),
            Output::Raw(s) => OutputView::Raw(s@),
        }
    }
}

/// Things to print, by their characters.
pub open spec fn outputs_of(list: Seq<Output>) -> Seq<OutputView> {
    Seq::new(list.len(), |i: int| list[i]@)
}

/// The error in a reply, if it has one.
pub open spec fn error_in(reply: JsonView) -> Option<Seq<char>> {
    text_of(member(reply, "error"@))
}

/// How an error in a reply is printed.
pub open spec fn error_line(e: Seq<char>) -> OutputView {
    OutputView::ErrorLine("error: "@ + e)
}

/// A JSON value as it is printed when nothing better is known of it.
pub open spec fn pretty_line(value: JsonView) -> OutputView {
    OutputView::Line(pretty_text(value))
}

/// A row of the table of servers.
pub open spec fn table_row(
    name: Seq<char>,
    kind: Seq<char>,
    default: Seq<char>,
    connected: Seq<char>,
    tools: Seq<char>,
) -> Seq<char> {
    padded(name, 22) + " "@ + padded(kind, 7) + " "@ + padded(default, 9) + " "@ + padded(
        connected,
        10,
    ) + " "@ + tools
}

/// A truth value as it is printed.
pub open spec fn yes_no(b: bool) -> Seq<char> {
    if b {
        "yes"@
    } else {
        "no"@
    }
}

/// What is there, or else something in its place.
pub open spec fn or_else<T>(value: Option<T>, other: T) -> T {
    match value {
        Some(v) => v,
        None => other,
    }
}

/// The row for a server in a reply. What the reply does not say is printed as
/// unknown, as no, or as none.
pub open spec fn server_row(server: JsonView) -> Seq<char> {
    table_row(
        or_else(text_of(member(server, "name"@)), "?"@),
        or_else(text_of(member(server, "kind"@)), "?"@),
        yes_no(or_else(bool_of(member(server, "enabled_in_config"@)), false)),
        yes_no(or_else(bool_of(member(server, "connected"@)), false)),
        decimal(or_else(natural_of(member(server, "tools"@)), 0) as nat),
    )
}

/// The head of the table of servers.
pub open spec fn table_head() -> Seq<char> {
    table_row("NAME"@, "TYPE"@, "DEFAULT"@, "CONNECTED"@, "TOOLS"@)
}

/// The table of servers.
pub open spec fn table(servers: Seq<JsonView>) -> Seq<OutputView> {
    seq![OutputView::Line(table_head())] + Seq::new(
        servers.len(),
        |i: int| OutputView::Line(server_row(servers[i])),
    )
}

/// What is printed for the reply to `list`.
pub open spec fn list_output(reply: JsonView) -> Seq<OutputView> {
    match error_in(reply) {
        Some(e) => seq![error_line(e)],
        None => match list_of(member(reply, "servers"@)) {
            Some(servers) => table(servers),
            None => seq![pretty_line(reply)],
        },
    }
}

/// What is printed for the reply to `enable` or `disable`.
pub open spec fn action_output(verb: Seq<char>, reply: JsonView) -> Seq<OutputView> {
    match error_in(reply) {
        Some(e) => seq![error_line(e)],
        None => {
            let name = or_else(text_of(member(reply, "name"@)), "?"@);
            let tools = match natural_of(member(reply, "tools"@)) {
                Some(n) => " ("@ + decimal(n as nat) + " tools)"@,
                None => Seq::empty(),
            };
            let persisted = if or_else(bool_of(member(reply, "made_default"@)), false) {
                " [persisted to mcp.json]"@
            } else {
                Seq::empty()
            };
            seq![OutputView::Line(name + " "@ + verb + tools + persisted)]
        },
    }
}

/// What is printed for the reply to `tool`.
pub open spec fn tool_output(reply: JsonView) -> Seq<OutputView> {
    match error_in(reply) {
        Some(e) => seq![error_line(e)],
        None => match member(reply, "tool"@) {
            Some(tool) => seq![pretty_line(tool)],
            None => seq![pretty_line(reply)],
        },
    }
}

/// What is printed for the reply to `sdk`.
pub open spec fn sdk_output(reply: JsonView) -> Seq<OutputView> {
    match error_in(reply) {
        Some(e) => seq![error_line(e)],
        None => match text_of(member(reply, "sdk"@)) {
            Some(sdk) => seq![OutputView::Raw(sdk)],
            None => seq![pretty_line(reply)],
        },
    }
}

/// One thing to print.
fn only(output: Output) -> (r: Vec<Output>)
    ensures
        outputs_of(r@) == seq![output@],
{
    let mut out: Vec<Output> = Vec::new();
    out.push(output);
    assert(outputs_of(out@) =~= seq![output@]);
    out
}

/// The string that a member of a value is, if it is one.
fn text_member<'a>(value: &'a Json, key: &str) -> (r: Option<&'a str>)
    ensures
        match r {
            Some(s) => text_of(member(value@, key@)) == Some(s@),
            None => text_of(member(value@, key@)) is None,
        },
{
    match value.get(key) {
        Some(j) => j.as_str(),
        None => None,
    }
}

/// The truth value that a member of a value is; no, where it is none.
fn bool_member(value: &Json, key: &str) -> (r: bool)
    ensures
        r == or_else(bool_of(member(value@, key@)), false),
{
    match value.get(key) {
        Some(j) => match j.as_bool() {
            Some(b) => b,
            None => false,
        },
        None => false,
    }
}

/// The number that a member of a value is, if it is one.
fn natural_member(value: &Json, key: &str) -> (r: Option<u64>)
    ensures
        r == natural_of(member(value@, key@)),
{
    match value.get(key) {
        Some(j) => j.as_u64(),
        None => None,
    }
}

/// How an error in a reply is printed.
fn print_error(e: &str) -> (r: Vec<Output>)
    ensures
        outputs_of(r@) == seq![error_line(e@)],
{
    only(Output::ErrorLine("error: ".to_owned().concat(e)))
}

/// How a JSON value is printed when nothing better is known of it.
fn print_pretty(value: &Json) -> (r: Vec<Output>)
    ensures
        outputs_of(r@) == seq![pretty_line(value@)],
{
    only(Output::Line(written(value)))
}

/// A row of the table of servers.
fn format_row(name: &str, kind: &str, default: &str, connected: &str, tools: &str) -> (r: String)
    ensures
        r@ == table_row(name@, kind@, default@, connected@, tools@),
{
    pad(name, 22).concat(" ").concat(pad(kind, 7).as_str()).concat(" ").concat(
        pad(default, 9).as_str(),
    ).concat(" ").concat(pad(connected, 10).as_str()).concat(" ").concat(tools)
}

/// A truth value as it is printed.
fn format_bool(b: bool) -> (r: &'static str)
    ensures
        r@ == yes_no(b),
{
    if b {
        "yes"
    } else {
        "no"
    }
}

/// What is printed for the reply to `list`.
pub fn print_list(reply: &Json) -> (r: Vec<Output>)
    ensures
        outputs_of(r@) == list_output(reply@),
{
    if let Some(e) = text_member(reply, "error") {
        return print_error(e);
    }
    let servers = match reply.get("servers") {
        Some(j) => match j.as_array() {
            Some(servers) => servers,
            None => {
                return print_pretty(reply);
            },
        },
        None => {
            return print_pretty(reply);
        },
    };
    let ghost all = list_view(servers@);
    proof {
        lemma_list_view(servers@);
    }
    let mut out: Vec<Output> = Vec::new();
    out.push(Output::Line(format_row("NAME", "TYPE", "DEFAULT", "CONNECTED", "TOOLS")));
    let mut i: usize = 0;
    while i < servers.len()
        invariant
            i <= servers.len(),
            all.len() == servers.len(),
            forall|j: int| 0 <= j < servers@.len() ==> #[trigger] all[j] == servers@[j]@,
            out.len() == i + 1,
            out@[0]@ == OutputView::Line(table_head()),
            forall|j: int|
                1 <= j <= i ==> (#[trigger] out@[j])@ == OutputView::Line(server_row(all[j - 1])),
        decreases servers.len() - i,
    {
        let server = &servers[i];
        assert(all[i as int] == server@);
        let name = match text_member(server, "name") {
            Some(s) => s,
            None => "?",
        };
        let kind = match text_member(server, "kind") {
            Some(s) => s,
            None => "?",
        };
        let enabled = bool_member(server, "enabled_in_config");
        let connected = bool_member(server, "connected");
        let tools: u64 = match natural_member(server, "tools") {
            Some(n) => n,
            None => 0,
        };
        let row = format_row(
            name,
            kind,
            format_bool(enabled),
            format_bool(connected),
            decimal_text(tools).as_str(),
        );
        out.push(Output::Line(row));
        i = i + 1;
    }
    assert(outputs_of(out@) =~= table(all));
    out
}

/// What is printed for the reply to `enable` or `disable`.
pub fn print_action(verb: &str, reply: &Json) -> (r: Vec<Output>)
    ensures
        outputs_of(r@) == action_output(verb@, reply@),
{
    if let Some(e) = text_member(reply, "error") {
        return print_error(e);
    }
    let name = match text_member(reply, "name") {
        Some(s) => s,
        None => "?",
    };
    let made_default = bool_member(reply, "made_default");
    let mut message = name.to_owned().concat(" ").concat(verb);
    let ghost start = message@;
    if let Some(tools) = natural_member(reply, "tools") {
        let count = " (".to_owned().concat(decimal_text(tools).as_str()).concat(" tools)");
        message.append(count.as_str());
    } else {
        assert(start + Seq::<char>::empty() =~= start);
    }
    let ghost counted = message@;
    if made_default {
        message.append(" [persisted to mcp.json]");
    } else {
        assert(counted + Seq::<char>::empty() =~= counted);
    }
    only(Output::Line(message))
}

/// What is printed for the reply to `tool`.
pub fn print_tool(reply: &Json) -> (r: Vec<Output>)
    ensures
        outputs_of(r@) == tool_output(reply@),
{
    if let Some(e) = text_member(reply, "error") {
        return print_error(e);
    }
    match reply.get("tool") {
        Some(tool) => print_pretty(tool),
        None => print_pretty(reply),
    }
}

/// What is printed for the reply to `sdk`.
pub fn print_sdk(reply: &Json) -> (r: Vec<Output>)
    ensures
        outputs_of(r@) == sdk_output(reply@),
{
    if let Some(e) = text_member(reply, "error") {
        return print_error(e);
    }
    match text_member(reply, "sdk") {
        Some(sdk) => only(Output::Raw(sdk.to_owned())),
        None => print_pretty(reply),
    }
}

/// A running gateway.
#[derive(Debug)]
pub struct Instance {
    pub launcher: String,
    pub pid: u32,
    pub config: String,
}

/// A running gateway, by what it means.
pub struct InstanceView {
    pub launcher: Seq<char>,
    pub pid: u32,
    pub config: Seq<char>,
}

impl View for Instance {
    type V = InstanceView;

    open spec fn view(&self) -> InstanceView {
        InstanceView { launcher: self.launcher@, pid: self.pid, config: self.config@ }
    }
}

/// Whether a selection names a gateway: by its launcher, a part of its
/// configuration's path, or its process number.
pub open spec fn selects(selection: Seq<char>, instance: InstanceView) -> bool {
    ||| instance.launcher == selection
    ||| occurs(selection, instance.config)
    ||| decimal(instance.pid as nat) == selection
}

impl Instance {
    /// Whether a selection names this gateway.
    pub fn is_selected_by(&self, selection: &str) -> (r: bool)
        ensures
            r == selects(selection@, self@),
    {
        same(self.launcher.as_str(), selection) || contains_text(self.config.as_str(), selection)
            || same(decimal_text(self.pid as u64).as_str(), selection)
    }
}

/// A row of the table of gateways.
pub open spec fn instance_row(launcher: Seq<char>, pid: Seq<char>, config: Seq<char>) -> Seq<char> {
    padded(launcher, 14) + " "@ + padded(pid, 8) + " "@ + config
}

/// What is printed for the running gateways.
pub open spec fn instances_output(instances: Seq<Instance>) -> Seq<OutputView> {
    if instances.len() == 0 {
        seq![OutputView::Line("no running codemcp gateways found"@)]
    } else {
        seq![OutputView::Line(instance_row("LAUNCHER"@, "PID"@, "CONFIG"@))] + Seq::new(
            instances.len(),
            |i: int|
                OutputView::Line(
                    instance_row(
                        instances[i]@.launcher,
                        decimal(instances[i]@.pid as nat),
                        instances[i]@.config,
                    ),
                ),
        )
    }
}

/// A row of the table of gateways.
fn format_instance(launcher: &str, pid: &str, config: &str) -> (r: String)
    ensures
        r@ == instance_row(launcher@, pid@, config@),
{
    pad(launcher, 14).concat(" ").concat(pad(pid, 8).as_str()).concat(" ").concat(config)
}

/// What is printed for the running gateways.
pub fn print_instances(instances: &Vec<Instance>) -> (r: Vec<Output>)
    ensures
        outputs_of(r@) == instances_output(instances@),
{
    if instances.len() == 0 {
        return only(Output::Line("no running codemcp gateways found".to_owned()));
    }
    let mut out: Vec<Output> = Vec::new();
    out.push(Output::Line(format_instance("LAUNCHER", "PID", "CONFIG")));
    let mut i: usize = 0;
    while i < instances.len()
        invariant
            i <= instances.len(),
            out.len() == i + 1,
            out@[0]@ == OutputView::Line(instance_row("LAUNCHER"@, "PID"@, "CONFIG"@)),
            forall|j: int|
                1 <= j <= i ==> (#[trigger] out@[j])@ == OutputView::Line(
                    instance_row(
                        instances@[j - 1]@.launcher,
                        decimal(instances@[j - 1]@.pid as nat),
                        instances@[j - 1]@.config,
                    ),
                ),
        decreases instances.len() - i,
    {
        let instance = &instances[i];
        let pid = decimal_text(instance.pid as u64);
        let row = format_instance(
            instance.launcher.as_str(),
            pid.as_str(),
            instance.config.as_str(),
        );
        out.push(Output::Line(row));
        i = i + 1;
    }
    assert(outputs_of(out@) =~= instances_output(instances@));
    out
}

/// How far an admin command has come.
#[derive(Clone, Copy, Debug, PartialEq, Eq, Structural)]
pub enum AdminStage {
    /// The running gateways are being looked for.
    Finding,
    /// One of them is being selected.
    Selecting,
    /// The reply is being waited for.
    Asking,
    /// The command is over.
    Over,
}

/// What an admin command asks of a gateway.
#[derive(Clone, Copy, Debug, PartialEq, Eq, Structural)]
pub enum AdminKind {
    Instances,
    List,
    Tool,
    Sdk,
    Enable,
    Disable,
}

/// An admin command on its way.
#[derive(Debug)]
pub struct AdminRun {
    kind: AdminKind,
    instance: Option<String>,
    stage: AdminStage,
}

/// An admin command on its way, by what it means.
pub struct AdminRunView {
    pub kind: AdminKind,
    pub instance: Option<Seq<char>>,
    pub stage: AdminStage,
}

impl View for AdminRun {
    type V = AdminRunView;

    closed spec fn view(&self) -> AdminRunView {
        AdminRunView { kind: self.kind, instance: opt_text(self.instance), stage: self.stage }
    }
}

/// What came of an action of an admin command.
#[derive(Debug)]
pub enum AdminEvent {
    Found(Vec<Instance>),
    Selected(Result<Instance, Error>),
    Replied(Result<Json, Error>),
}

/// What came of an action of an admin command, by what it means.
pub enum AdminEventView {
    Found(Seq<Instance>),
    Selected(Result<InstanceView, ErrorView>),
    Replied(Result<JsonView, ErrorView>),
}

impl View for AdminEvent {
    type V = AdminEventView;

    open spec fn view(&self) -> AdminEventView {
        match self {
            AdminEvent::Found(instances) => AdminEventView::Found(instances@),
            AdminEvent::Selected(Ok(i)) => AdminEventView::Selected(Ok(i@)),
            AdminEvent::Selected(Err(e)) => AdminEventView::Selected(Err(e@)),
            AdminEvent::Replied(r) => AdminEventView::Replied(reply_view(*r)),
        }
    }
}

/// What an admin command is to do next.
#[derive(Debug)]
pub enum AdminAction {
    /// Look for the running gateways.
    Find,
    /// Select one of them.
    Select { instance: Option<String> },
    /// Ask it.
    Request { instance: Option<String>, method: String, params: Json },
    /// Nothing more.
    Finish(Result<(), Error>),
}

/// What an admin command is to do next, by what it means.
pub enum AdminActionView {
    Find,
    Select { instance: Option<Seq<char>> },
    Request { instance: Option<Seq<char>>, method: Seq<char>, params: JsonView },
    Done,
    Failed(ErrorView),
}

impl View for AdminAction {
    type V = AdminActionView;

    open spec fn view(&self) -> AdminActionView {
        match self {
            AdminAction::Find => AdminActionView::Find,
            AdminAction::Select { instance } => AdminActionView::Select {
                instance: opt_text(*instance),
            },
            AdminAction::Request { instance, method, params } => AdminActionView::Request {
                instance: opt_text(*instance),
                method: method@,
                params: params@,
            },
            AdminAction::Finish(Ok(_)) => AdminActionView::Done,
            AdminAction::Finish(Err(e)) => AdminActionView::Failed(e@),
        }
    }
}

/// A step of an admin command: what to print, and what to do next.
#[derive(Debug)]
pub struct AdminStep {
    pub run: AdminRun,
    pub print: Vec<Output>,
    pub action: AdminAction,
}

/// A step of an admin command, by what it means.
pub struct AdminStepView {
    pub run: AdminRunView,
    pub print: Seq<OutputView>,
    pub action: AdminActionView,
}

impl View for AdminStep {
    type V = AdminStepView;

    open spec fn view(&self) -> AdminStepView {
        AdminStepView {
            run: self.run@,
            print: outputs_of(self.print@),
            action: self.action@,
        }
    }
}

/// A step that prints nothing.
pub open spec fn quiet(
    kind: AdminKind,
    instance: Option<Seq<char>>,
    stage: AdminStage,
    action: AdminActionView,
) -> AdminStepView {
    AdminStepView {
        run: AdminRunView { kind, instance, stage },
        print: Seq::empty(),
        action,
    }
}

/// An object without members.
pub open spec fn no_params() -> JsonView {
    JsonView::Object(Map::empty())
}

/// How an admin command begins.
pub open spec fn admin_begin(cmd: Command) -> AdminStepView {
    match cmd {
        Command::List { instance } => {
            let i = opt_text(instance.instance);
            quiet(
                AdminKind::List,
                i,
                AdminStage::Selecting,
                AdminActionView::Select { instance: i },
            )
        },
        Command::Tool { instance } => {
            let i = opt_text(instance.instance);
            quiet(
                AdminKind::Tool,
                i,
                AdminStage::Selecting,
                AdminActionView::Select { instance: i },
            )
        },
        Command::Sdk { instance } => {
            let i = opt_text(instance.instance);
            quiet(
                AdminKind::Sdk,
                i,
                AdminStage::Selecting,
                AdminActionView::Select { instance: i },
            )
        },
        Command::Enable { name, make_default, instance } => {
            let i = opt_text(instance.instance);
            quiet(
                AdminKind::Enable,
                i,
                AdminStage::Asking,
                AdminActionView::Request {
                    instance: i,
                    method: "enable"@,
                    params: params_json(ParamsView { name: name@, make_default }),
                },
            )
        },
        Command::Disable { name, make_default, instance } => {
            let i = opt_text(instance.instance);
            quiet(
                AdminKind::Disable,
                i,
                AdminStage::Asking,
                AdminActionView::Request {
                    instance: i,
                    method: "disable"@,
                    params: params_json(ParamsView { name: name@, make_default }),
                },
            )
        },
        _ => quiet(AdminKind::Instances, None, AdminStage::Finding, AdminActionView::Find),
    }
}

/// Whether an event answers the action that an admin command is waiting for.
pub open spec fn admin_expects(run: AdminRunView, event: AdminEventView) -> bool {
    match event {
        AdminEventView::Found(_) => run.stage == AdminStage::Finding,
        AdminEventView::Selected(_) => run.stage == AdminStage::Selecting && (run.kind
            == AdminKind::List || run.kind == AdminKind::Tool || run.kind == AdminKind::Sdk),
        AdminEventView::Replied(_) => run.stage == AdminStage::Asking,
    }
}

/// The method that an admin command calls.
pub open spec fn method_of(kind: AdminKind) -> Seq<char> {
    match kind {
        AdminKind::Tool => "tool"@,
        AdminKind::Sdk => "sdk"@,
        _ => "list"@,
    }
}

/// What is printed for a reply.
pub open spec fn reply_output(kind: AdminKind, reply: JsonView) -> Seq<OutputView> {
    match kind {
        AdminKind::Tool => tool_output(reply),
        AdminKind::Sdk => sdk_output(reply),
        AdminKind::Enable => action_output("enabled"@, reply),
        AdminKind::Disable => action_output("disabled"@, reply),
        _ => list_output(reply),
    }
}

/// What is printed of the gateway that was selected.
pub open spec fn selected_output(kind: AdminKind, instance: InstanceView) -> Seq<OutputView> {
    if kind == AdminKind::List {
        seq![
            OutputView::Line(
                "# gateway ["@ + instance.launcher + "] pid "@ + decimal(instance.pid as nat),
            ),
        ]
    } else {
        Seq::empty()
    }
}

/// How an admin command goes on. An error that the gateway reports is printed;
/// one that keeps the gateway from being asked ends the command.
pub open spec fn admin_step(run: AdminRunView, event: AdminEventView) -> AdminStepView {
    let over = AdminRunView { stage: AdminStage::Over, ..run };
    match event {
        AdminEventView::Found(instances) => AdminStepView {
            run: over,
            print: instances_output(instances),
            action: AdminActionView::Done,
        },
        AdminEventView::Selected(Ok(instance)) => AdminStepView {
            run: AdminRunView { stage: AdminStage::Asking, ..run },
            print: selected_output(run.kind, instance),
            action: AdminActionView::Request {
                instance: run.instance,
                method: method_of(run.kind),
                params: no_params(),
            },
        },
        AdminEventView::Selected(Err(e)) => AdminStepView {
            run: over,
            print: Seq::empty(),
            action: AdminActionView::Failed(e),
        },
        AdminEventView::Replied(Ok(reply)) => AdminStepView {
            run: over,
            print: reply_output(run.kind, reply),
            action: AdminActionView::Done,
        },
        AdminEventView::Replied(Err(e)) => AdminStepView {
            run: over,
            print: Seq::empty(),
            action: AdminActionView::Failed(e),
        },
    }
}

/// Whether a command is carried out by a running gateway.
pub open spec fn is_admin(cmd: Command) -> bool {
    !(cmd is Start) && !(cmd is Setup)
}

/// The parameters of `enable` and `disable`.
fn switch_params(name: String, make_default: bool) -> (r: Json)
    ensures
        r@ == params_json(ParamsView { name: name@, make_default }),
{
    let mut members: Vec<(String, Json)> = Vec::new();
    put(&mut members, "name", Json::Text(name));
    put(&mut members, "make_default", Json::Bool(make_default));
    Json::Object(members)
}

/// A step that prints nothing.
fn quiet_step(
    kind: AdminKind,
    instance: Option<String>,
    stage: AdminStage,
    action: AdminAction,
) -> (r: AdminStep)
    ensures
        r@ == quiet(kind, opt_text(instance), stage, action@),
{
    let r = AdminStep {
        run: AdminRun { kind, instance, stage },
        print: Vec::new(),
        action,
    };
    assert(outputs_of(r.print@) =~= Seq::empty());
    r
}

/// Begins an admin command by selecting the gateway.
fn select_step(kind: AdminKind, instance: InstanceSel) -> (r: AdminStep)
    ensures
        r@ == quiet(
            kind,
            opt_text(instance.instance),
            AdminStage::Selecting,
            AdminActionView::Select { instance: opt_text(instance.instance) },
        ),
{
    let action = AdminAction::Select { instance: copy_text(&instance.instance) };
    quiet_step(kind, instance.instance, AdminStage::Selecting, action)
}

/// Begins an admin command.
pub fn run_admin(cmd: Command) -> (r: AdminStep)
    requires
        is_admin(cmd),
    ensures
        r@ == admin_begin(cmd),
{
    match cmd {
        Command::List { instance } => select_step(AdminKind::List, instance),
        Command::Tool { instance } => select_step(AdminKind::Tool, instance),
        Command::Sdk { instance } => select_step(AdminKind::Sdk, instance),
        Command::Enable { name, make_default, instance } => {
            let action = AdminAction::Request {
                instance: copy_text(&instance.instance),
                method: "enable".to_owned(),
                params: switch_params(name, make_default),
            };
            quiet_step(AdminKind::Enable, instance.instance, AdminStage::Asking, action)
        },
        Command::Disable { name, make_default, instance } => {
            let action = AdminAction::Request {
                instance: copy_text(&instance.instance),
                method: "disable".to_owned(),
                params: switch_params(name, make_default),
            };
            quiet_step(AdminKind::Disable, instance.instance, AdminStage::Asking, action)
        },
        _ => quiet_step(AdminKind::Instances, None, AdminStage::Finding, AdminAction::Find),
    }
}

impl AdminRun {
    /// The end of the command.
    fn over(self, print: Vec<Output>, result: Result<(), Error>) -> (r: AdminStep)
        ensures
            r@ == (AdminStepView {
                run: AdminRunView { stage: AdminStage::Over, ..self@ },
                print: outputs_of(print@),
                action: AdminAction::Finish(result)@,
            }),
    {
        AdminStep {
            run: AdminRun { kind: self.kind, instance: self.instance, stage: AdminStage::Over },
            print,
            action: AdminAction::Finish(result),
        }
    }

    /// Takes the command on with what came of its last action.
    pub fn step(self, event: AdminEvent) -> (r: AdminStep)
        requires
            admin_expects(self@, event@),
        ensures
            r@ == admin_step(self@, event@),
    {
        match event {
            AdminEvent::Found(instances) => {
                let print = print_instances(&instances);
                self.over(print, Ok(()))
            },
            AdminEvent::Selected(Ok(instance)) => {
                let mut print: Vec<Output> = Vec::new();
                if matches!(self.kind, AdminKind::List) {
                    let line = "# gateway [".to_owned().concat(instance.launcher.as_str()).concat(
                        "] pid ",
                    ).concat(decimal_text(instance.pid as u64).as_str());
                    print.push(Output::Line(line));
                }
                assert(outputs_of(print@) =~= selected_output(self@.kind, instance@));
                let method = match self.kind {
                    AdminKind::Tool => "tool",
                    AdminKind::Sdk => "sdk",
                    _ => "list",
                };
                let action = AdminAction::Request {
                    instance: copy_text(&self.instance),
                    method: method.to_owned(),
                    params: Json::Object(Vec::new()),
                };
                AdminStep {
                    run: AdminRun {
                        kind: self.kind,
                        instance: self.instance,
                        stage: AdminStage::Asking,
                    },
                    print,
                    action,
                }
            },
            AdminEvent::Selected(Err(e)) => {
                let print: Vec<Output> = Vec::new();
                assert(outputs_of(print@) =~= Seq::empty());
                self.over(print, Err(e))
            },
            AdminEvent::Replied(Ok(reply)) => {
                let print = match self.kind {
                    AdminKind::Tool => print_tool(&reply),
                    AdminKind::Sdk => print_sdk(&reply),
                    AdminKind::Enable => print_action("enabled", &reply),
                    AdminKind::Disable => print_action("disabled", &reply),
                    _ => print_list(&reply),
                };
                self.over(print, Ok(()))
            },
            AdminEvent::Replied(Err(e)) => {
                let print: Vec<Output> = Vec::new();
                assert(outputs_of(print@) =~= Seq::empty());
                self.over(print, Err(e))
            },
        }
    }
}

/// An error that the gateway reports is printed on the standard error output, as
/// the only thing and with its message, whatever the command.
pub proof fn law_reported_errors_are_printed(kind: AdminKind, reply: JsonView)
    requires
        error_in(reply) is Some,
    ensures
        reply_output(kind, reply) == seq![error_line(error_in(reply)->0)],
{
}

/// The table shows each server of the gateway's reply in one row, in the order of
/// the reply, with what its status says.
pub proof fn law_table_shows_every_status(servers: Seq<ServerStatus>, i: int)
    requires
        0 <= i < servers.len(),
    ensures
        list_output(list_reply(servers)).len() == servers.len() + 1,
        list_output(list_reply(servers))[0] == OutputView::Line(table_head()),
        list_output(list_reply(servers))[i + 1] == OutputView::Line(
            table_row(
                servers[i]@.name,
                servers[i]@.kind,
                yes_no(servers[i]@.enabled_in_config),
                yes_no(servers[i]@.connected),
                decimal(servers[i]@.tools),
            ),
        ),
{
    lemma_reply_names();
}

/// A server that was connected is reported with its name and the number of its
/// tools, one that was disconnected with its name; both say whether the startup
/// default was changed.
pub proof fn law_switch_is_reported(params: ParamsView, tools: usize, was: bool)
    ensures
        ({
            let persisted = if params.make_default {
                " [persisted to mcp.json]"@
            } else {
                Seq::empty()
            };
            &&& action_output(
                "enabled"@,
                switch_reply(params, Ok(SwitchOutcome::Connected(tools))),
            ) == seq![
                OutputView::Line(
                    params.name + " "@ + "enabled"@ + (" ("@ + decimal(tools as nat)
                        + " tools)"@) + persisted,
                ),
            ]
            &&& action_output(
                "disabled"@,
                switch_reply(params, Ok(SwitchOutcome::Disconnected(was))),
            ) == seq![
                OutputView::Line(
                    params.name + " "@ + "disabled"@ + Seq::empty() + persisted,
                ),
            ]
        }),
{
    lemma_reply_names();
}

/// A switch that the gateway refuses is reported with the error's message.
pub proof fn law_refused_switch_is_reported(verb: Seq<char>, params: ParamsView, e: ErrorView)
    ensures
        action_output(verb, switch_reply(params, Err(e))) == seq![error_line(message_of(e))],
{
    lemma_reply_names();
}

/// The names of the members of a reply are all different.
proof fn lemma_reply_names()
    ensures
        "error"@ != "servers"@,
        "error"@ != "name"@,
        "error"@ != "connected"@,
        "error"@ != "tools"@,
        "error"@ != "made_default"@,
        "error"@ != "was_connected"@,
        "name"@ != "kind"@,
        "name"@ != "enabled_in_config"@,
        "name"@ != "connected"@,
        "name"@ != "tools"@,
        "name"@ != "made_default"@,
        "name"@ != "was_connected"@,
        "kind"@ != "enabled_in_config"@,
        "kind"@ != "connected"@,
        "kind"@ != "tools"@,
        "enabled_in_config"@ != "connected"@,
        "enabled_in_config"@ != "tools"@,
        "connected"@ != "tools"@,
        "connected"@ != "made_default"@,
        "connected"@ != "was_connected"@,
        "tools"@ != "made_default"@,
        "tools"@ != "was_connected"@,
        "made_default"@ != "was_connected"@,
{
    reveal_strlit("error");
    reveal_strlit("servers");
    reveal_strlit("name");
    reveal_strlit("kind");
    reveal_strlit("enabled_in_config");
    reveal_strlit("connected");
    reveal_strlit("tools");
    reveal_strlit("made_default");
    reveal_strlit("was_connected");
    assert("error"@[0] == 'e' && "servers"@[0] == 's' && "name"@[0] == 'n' && "kind"@[0] == 'k');
    assert("connected"@[0] == 'c' && "tools"@[0] == 't' && "made_default"@[0] == 'm');
    assert("was_connected"@[0] == 'w' && "enabled_in_config"@[1] == 'n' && "error"@[1] == 'r');
    assert("enabled_in_config"@[0] == 'e');
}

/// What the reply of a gateway says is printed as it says it. An error is printed on the
/// standard error output, whatever else the reply holds. Else a list of servers is
/// printed as a table, with a head and one row for each server, a tool as JSON, an SDK as
/// it is; and a reply that holds nothing of the kind is printed as JSON.
pub proof fn law_replies_are_printed_by_what_they_hold(m: Map<Seq<char>, JsonView>)
    ensures
        ({
            let reply = JsonView::Object(m);
            let error = m.contains_key("error"@) && m["error"@] is Text;
            let as_json = seq![OutputView::Line(pretty_text(reply))];
            &&& error ==> {
                let said = seq![OutputView::ErrorLine("error: "@ + m["error"@]->Text_0)];
                &&& list_output(reply) == said
                &&& tool_output(reply) == said
                &&& sdk_output(reply) == said
                &&& action_output("enabled"@, reply) == said
                &&& action_output("disabled"@, reply) == said
            }
            &&& !error && m.contains_key("servers"@) && m["servers"@] is List ==> {
                let rows = list_output(reply);
                let servers = m["servers"@]->List_0;
                &&& rows.len() == servers.len() + 1
                &&& rows[0] == OutputView::Line(
                    padded("NAME"@, 22) + " "@ + padded("TYPE"@, 7) + " "@ + padded("DEFAULT"@, 9)
                        + " "@ + padded("CONNECTED"@, 10) + " "@ + "TOOLS"@,
                )
            }
            &&& !error && !(m.contains_key("servers"@) && m["servers"@] is List) ==> list_output(
                reply,
            ) == as_json
            &&& !error && m.contains_key("tool"@) ==> tool_output(reply) == seq![
                OutputView::Line(pretty_text(m["tool"@])),
            ]
            &&& !error && !m.contains_key("tool"@) ==> tool_output(reply) == as_json
            &&& !error && m.contains_key("sdk"@) && m["sdk"@] is Text ==> sdk_output(reply)
                == seq![OutputView::Raw(m["sdk"@]->Text_0)]
            &&& !error && !(m.contains_key("sdk"@) && m["sdk"@] is Text) ==> sdk_output(reply)
                == as_json
        }),
{
}

/// The row of a server says its name, its kind, its startup default, whether it is
/// connected and how many tools it has, in columns; what the reply does not say is
/// printed as unknown, as no, or as none.
pub proof fn law_row_shows_what_is_said(
    m: Map<Seq<char>, JsonView>,
    servers: Seq<JsonView>,
    item: Map<Seq<char>, JsonView>,
    i: int,
)
    requires
        !(m.contains_key("error"@) && m["error"@] is Text),
        m.contains_key("servers"@),
        m["servers"@] == JsonView::List(servers),
        0 <= i < servers.len(),
        servers[i] == JsonView::Object(item),
    ensures
        ({
            let name = if item.contains_key("name"@) && item["name"@] is Text {
                item["name"@]->Text_0
            } else {
                "?"@
            };
            let kind = if item.contains_key("kind"@) && item["kind"@] is Text {
                item["kind"@]->Text_0
            } else {
                "?"@
            };
            let default = if item.contains_key("enabled_in_config"@) && item["enabled_in_config"@]
                == JsonView::Bool(true) {
                "yes"@
            } else {
                "no"@
            };
            let connected = if item.contains_key("connected"@) && item["connected"@]
                == JsonView::Bool(true) {
                "yes"@
            } else {
                "no"@
            };
            let tools = if item.contains_key("tools"@) && (
            item["tools"@] matches JsonView::Integer(n) && 0 <= n <= u64::MAX) {
                decimal(item["tools"@]->Integer_0 as nat)
            } else {
                decimal(0)
            };
            list_output(JsonView::Object(m))[i + 1] == OutputView::Line(
                padded(name, 22) + " "@ + padded(kind, 7) + " "@ + padded(default, 9) + " "@
                    + padded(connected, 10) + " "@ + tools,
            )
        }),
{
}

/// What is printed for a switch is the server's name and what was done, then the number
/// of tools where the reply has one, then that the startup default was changed where it
/// was.
pub proof fn law_switch_line_says_what_was_done(verb: Seq<char>, m: Map<Seq<char>, JsonView>)
    requires
        !(m.contains_key("error"@) && m["error"@] is Text),
    ensures
        ({
            let name = if m.contains_key("name"@) && m["name"@] is Text {
                m["name"@]->Text_0
            } else {
                "?"@
            };
            let tools = if m.contains_key("tools"@) && (m["tools"@] matches JsonView::Integer(n)
                && 0 <= n <= u64::MAX) {
                " ("@ + decimal(m["tools"@]->Integer_0 as nat) + " tools)"@
            } else {
                Seq::empty()
            };
            let persisted = if m.contains_key("made_default"@) && m["made_default"@]
                == JsonView::Bool(true) {
                " [persisted to mcp.json]"@
            } else {
                Seq::empty()
            };
            action_output(verb, JsonView::Object(m)) == seq![
                OutputView::Line(name + " "@ + verb + tools + persisted),
            ]
        }),
{
}

/// The running gateways are printed as a table, with a head and one row for each, in
/// order; where there are none, that is said.
pub proof fn law_instances_are_printed(instances: Seq<Instance>, i: int)
    requires
        0 <= i < instances.len(),
    ensures
        instances_output(Seq::empty()) == seq![
            OutputView::Line("no running codemcp gateways found"@),
        ],
        instances_output(instances).len() == instances.len() + 1,
        instances_output(instances)[0] == OutputView::Line(
            padded("LAUNCHER"@, 14) + " "@ + padded("PID"@, 8) + " "@ + "CONFIG"@,
        ),
        instances_output(instances)[i + 1] == OutputView::Line(
            padded(instances[i].launcher@, 14) + " "@ + padded(
                decimal(instances[i].pid as nat),
                8,
            ) + " "@ + instances[i].config@,
        ),
{
}

/// A selection names a gateway exactly where it is the name of the gateway's launcher,
/// stands somewhere in the path of its configuration, or is its process number.
pub proof fn law_selection_names_a_gateway(
    selection: Seq<char>,
    instance: InstanceView,
    front: Seq<char>,
    back: Seq<char>,
)
    ensures
        instance.launcher == selection ==> selects(selection, instance),
        instance.config == front + selection + back ==> selects(selection, instance),
        decimal(instance.pid as nat) == selection ==> selects(selection, instance),
        selects(selection, instance) && instance.launcher != selection && decimal(
            instance.pid as nat,
        ) != selection ==> exists|a: Seq<char>, b: Seq<char>|
            instance.config == #[trigger] (a + selection + b),
{
    if instance.config == front + selection + back {
        let i = front.len() as int;
        assert(instance.config.subrange(i, i + selection.len()) =~= selection);
    }
    if occurs(selection, instance.config) {
        let i = choose|i: int|
            0 <= i <= instance.config.len() - selection.len()
                && #[trigger] instance.config.subrange(i, i + selection.len()) == selection;
        let a = instance.config.take(i);
        let b = instance.config.skip(i + selection.len());
        assert(instance.config =~= a + selection + b);
    }
}

/// A command that a gateway carries out goes to the gateway that it names: `list`, `tool`
/// and `sdk` select it first, say which one it is for `list`, and ask it without
/// parameters; `enable` and `disable` ask it at once, with the server's name and whether
/// the startup default is to change. What comes back is printed.
pub proof fn law_admin_commands_ask_the_gateway(
    name: String,
    make_default: bool,
    sel: InstanceSel,
    found: InstanceView,
    reply: JsonView,
)
    ensures
        ({
            let who = opt_text(sel.instance);
            let empty = JsonView::Object(Map::empty());
            let list = admin_begin(Command::List { instance: sel });
            let tool = admin_begin(Command::Tool { instance: sel });
            let sdk = admin_begin(Command::Sdk { instance: sel });
            let on = admin_begin(Command::Enable { name, make_default, instance: sel });
            let off = admin_begin(Command::Disable { name, make_default, instance: sel });
            let chosen = AdminEventView::Selected(Ok(found));
            let said = AdminEventView::Replied(Ok(reply));
            let list2 = admin_step(list.run, chosen);
            let tool2 = admin_step(tool.run, chosen);
            let sdk2 = admin_step(sdk.run, chosen);
            let params = params_json(ParamsView { name: name@, make_default });
            &&& list.action == (AdminActionView::Select { instance: who }) && admin_expects(
                list.run,
                chosen,
            )
            &&& tool.action == (AdminActionView::Select { instance: who }) && admin_expects(
                tool.run,
                chosen,
            )
            &&& sdk.action == (AdminActionView::Select { instance: who }) && admin_expects(
                sdk.run,
                chosen,
            )
            &&& list2.print == seq![
                OutputView::Line(
                    "# gateway ["@ + found.launcher + "] pid "@ + decimal(found.pid as nat),
                ),
            ]
            &&& tool2.print.len() == 0 && sdk2.print.len() == 0
            &&& list2.action == (AdminActionView::Request {
                instance: who,
                method: "list"@,
                params: empty,
            })
            &&& tool2.action == (AdminActionView::Request {
                instance: who,
                method: "tool"@,
                params: empty,
            })
            &&& sdk2.action == (AdminActionView::Request {
                instance: who,
                method: "sdk"@,
                params: empty,
            })
            &&& on.action == (AdminActionView::Request { instance: who, method: "enable"@, params })
            &&& off.action == (AdminActionView::Request {
                instance: who,
                method: "disable"@,
                params,
            })
            &&& admin_expects(list2.run, said) && admin_expects(tool2.run, said) && admin_expects(
                sdk2.run,
                said,
            ) && admin_expects(on.run, said) && admin_expects(off.run, said)
            &&& admin_step(list2.run, said).print == list_output(reply)
            &&& admin_step(tool2.run, said).print == tool_output(reply)
            &&& admin_step(sdk2.run, said).print == sdk_output(reply)
            &&& admin_step(on.run, said).print == action_output("enabled"@, reply)
            &&& admin_step(off.run, said).print == action_output("disabled"@, reply)
            &&& on.print.len() == 0 && off.print.len() == 0 && list.print.len() == 0
        }),
{
}

/// An admin command that is answered has succeeded; one whose gateway cannot be selected or
/// asked prints nothing and fails with that error.
pub proof fn law_admin_command_ends(
    run: AdminRunView,
    reply: JsonView,
    instances: Seq<Instance>,
    e: ErrorView,
)
    ensures
        admin_step(run, AdminEventView::Replied(Ok(reply))).action == AdminActionView::Done,
        admin_step(run, AdminEventView::Replied(Err(e))).action == AdminActionView::Failed(e),
        admin_step(run, AdminEventView::Replied(Err(e))).print.len() == 0,
        admin_step(run, AdminEventView::Selected(Err(e))).action == AdminActionView::Failed(e),
        admin_step(run, AdminEventView::Selected(Err(e))).print.len() == 0,
        admin_step(run, AdminEventView::Found(instances)).action == AdminActionView::Done,
        admin_step(run, AdminEventView::Found(instances)).print == instances_output(instances),
        admin_begin(Command::Instances).action == AdminActionView::Find,
        admin_expects(admin_begin(Command::Instances).run, AdminEventView::Found(instances)),
{
}

/// The shared gateway listens on the same port whether it is started without one or found
/// there by default.
pub proof fn law_default_port_is_the_same()
    ensures
        decimal(DEFAULT_HTTP_PORT as nat) == "3388"@,
{
    reveal_strlit("3388");
    reveal_with_fuel(decimal, 5);
    assert(decimal(3388) =~= "3388"@);
}

/// Things to print are taken one by one, by their kind and all their characters.
pub proof fn law_outputs_are_taken_one_by_one(list: Seq<Output>, s: String)
    ensures
        outputs_of(list).len() == list.len(),
        forall|i: int| 0 <= i < list.len() ==> #[trigger] outputs_of(list)[i] == list[i]@,
        Output::Line(s)@ == OutputView::Line(s@),
        Output::ErrorLine(s)@ == OutputView::ErrorLine(s@),
        Output::Raw(s)@ == OutputView::Raw(s@),
{
}

/// Events and actions of an admin command mean what they carry.
pub proof fn law_command_speaks_of_what_it_carries(
    text: String,
    other: String,
    instance: Instance,
    instances: Vec<Instance>,
    reply: Json,
    e: Error,
    step: AdminStep,
)
    ensures
        step@.run == step.run@ && step@.print == outputs_of(step.print@) && step@.action
            == step.action@,
        instance@.launcher == instance.launcher@ && instance@.pid == instance.pid && instance@.config
            == instance.config@,
        AdminEvent::Found(instances)@ == AdminEventView::Found(instances@),
        AdminEvent::Selected(Ok(instance))@ == AdminEventView::Selected(Ok(instance@)),
        AdminEvent::Selected(Err(e))@ == AdminEventView::Selected(Err(e@)),
        AdminEvent::Replied(Ok(reply))@ == AdminEventView::Replied(Ok(reply@)),
        AdminEvent::Replied(Err(e))@ == AdminEventView::Replied(Err(e@)),
        AdminAction::Find@ == AdminActionView::Find,
        (AdminAction::Select { instance: Some(text) })@ == (AdminActionView::Select {
            instance: Some(text@),
        }),
        (AdminAction::Select { instance: None })@ == (AdminActionView::Select { instance: None }),
        (AdminAction::Request { instance: Some(text), method: other, params: reply })@ == (
        AdminActionView::Request { instance: Some(text@), method: other@, params: reply@ }),
        (AdminAction::Request { instance: None, method: other, params: reply })@ == (
        AdminActionView::Request { instance: None, method: other@, params: reply@ }),
        AdminAction::Finish(Ok(()))@ == AdminActionView::Done,
        AdminAction::Finish(Err(e))@ == AdminActionView::Failed(e@),
{
}

/// A reply that is no object is printed as JSON, and for a switch as one of an unknown
/// server; in a list of servers what is no object is a row of which nothing is known.
pub proof fn law_other_values_are_printed_as_unknown(
    reply: JsonView,
    verb: Seq<char>,
    m: Map<Seq<char>, JsonView>,
    servers: Seq<JsonView>,
    i: int,
)
    requires
        !(reply is Object),
        !(m.contains_key("error"@) && m["error"@] is Text),
        m.contains_key("servers"@),
        m["servers"@] == JsonView::List(servers),
        0 <= i < servers.len(),
        !(servers[i] is Object),
    ensures
        list_output(reply) == seq![OutputView::Line(pretty_text(reply))],
        tool_output(reply) == seq![OutputView::Line(pretty_text(reply))],
        sdk_output(reply) == seq![OutputView::Line(pretty_text(reply))],
        action_output(verb, reply) == seq![OutputView::Line("?"@ + " "@ + verb)],
        list_output(JsonView::Object(m))[i + 1] == OutputView::Line(
            padded("?"@, 22) + " "@ + padded("?"@, 7) + " "@ + padded("no"@, 9) + " "@ + padded(
                "no"@,
                10,
            ) + " "@ + decimal(0),
        ),
{
    let line = "?"@ + " "@ + verb;
    assert(line + Seq::<char>::empty() + Seq::<char>::empty() =~= line);
}

} // verus!
