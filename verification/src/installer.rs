//! The course of a self-update: what is downloaded, when it may be installed and
//! what is reported.

use crate::error::{Error, ErrorView};
use crate::text::{
    first_word, first_word_of, join, joined, opt_text, same, strip_prefix_char, texts_of,
    without_prefix,
};
use crate::update::{
    arch_error, arch_token, asset_arch, asset_os, hex, is_outdated, older, os_error, os_token,
    sha256, sha256_of, version_numbers, ReleaseInfo,
};
use vstd::prelude::*;
use vstd::string::*;

verus! {

/// How far an update has come: what it waits for.
#[derive(Debug, Clone, Copy, PartialEq, Eq, Structural)]
pub enum Stage {
    /// The latest release is being asked for.
    Query,
    /// The release is being downloaded.
    Download,
    /// The published checksum is being asked for.
    Sum,
    /// The installed binary is being located.
    Locate,
    /// The release is being unpacked into a temporary directory.
    Unpack,
    /// The unpacked binary is being looked for.
    Probe,
    /// The unpacked binary is being made executable.
    Executable,
    /// The unpacked binary is being copied beside the installed one.
    Copy,
    /// The copy is being renamed to the installed binary.
    Replace,
    /// The update has ended.
    Over,
}

/// A self-update under way.
#[derive(Debug)]
pub struct Update {
    stage: Stage,
    os: String,
    arch: String,
    current: String,
    latest: String,
    data: Vec<u8>,
    exe: String,
    parent: Option<String>,
    binary: String,
}

/// A self-update by what it has learnt so far.
pub struct UpdateView {
    pub stage: Stage,
    /// The names of the operating system and the architecture in release files.
    pub os: Seq<char>,
    pub arch: Seq<char>,
    /// The installed version.
    pub current: Seq<char>,
    /// The latest version.
    pub latest: Seq<char>,
    /// The downloaded release.
    pub data: Seq<u8>,
    /// The installed binary, and the directory that it lies in.
    pub exe: Seq<char>,
    pub parent: Option<Seq<char>>,
    /// The name of the binary in the unpacked release.
    pub binary: Seq<char>,
}

impl View for Update {
    type V = UpdateView;

    closed spec fn view(&self) -> UpdateView {
        UpdateView {
            stage: self.stage,
            os: self.os@,
            arch: self.arch@,
            current: self.current@,
            latest: self.latest@,
            data: self.data@,
            exe: self.exe@,
            parent: opt_text(self.parent),
            binary: self.binary@,
        }
    }
}

/// What came of the last action.
#[derive(Debug)]
pub enum UpdateEvent {
    /// The latest release is known, or why it is not.
    Latest(Result<ReleaseInfo, Error>),
    /// The release was downloaded.
    Bytes(Vec<u8>),
    /// The download could not be requested; the reason.
    NotSent(String),
    /// The download broke off; the reason.
    NotRead(String),
    /// The text of the published checksum, if there is one.
    Sum(Option<String>),
    /// The installed binary was found, in the directory `parent`.
    Located { path: String, parent: Option<String> },
    /// The installed binary cannot be determined; the reason.
    NotLocated(String),
    /// Whether the unpacked release holds a binary named after the release file,
    /// and whether one named `codemcp`.
    Probed { named: bool, plain: bool },
    /// The action succeeded.
    Done,
    /// The action failed; the reason.
    Failed(String),
}

/// What came of the last action, by what it means.
pub enum EventView {
    Latest(Result<Seq<char>, ErrorView>),
    Bytes(Seq<u8>),
    NotSent(Seq<char>),
    NotRead(Seq<char>),
    Sum(Option<Seq<char>>),
    Located(Seq<char>, Option<Seq<char>>),
    NotLocated(Seq<char>),
    Probed(bool, bool),
    Done,
    Failed(Seq<char>),
}

impl View for UpdateEvent {
    type V = EventView;

    open spec fn view(&self) -> EventView {
        match self {
            UpdateEvent::Latest(Ok(info)) => EventView::Latest(Ok(info.version@)),
            UpdateEvent::Latest(Err(e)) => EventView::Latest(Err(e@)),
            UpdateEvent::Bytes(data) => EventView::Bytes(data@),
            UpdateEvent::NotSent(e) => EventView::NotSent(e@),
            UpdateEvent::NotRead(e) => EventView::NotRead(e@),
            UpdateEvent::Sum(Some(text)) => EventView::Sum(Some(text@)),
            UpdateEvent::Sum(None) => EventView::Sum(None),
            UpdateEvent::Located { path, parent } => EventView::Located(path@, opt_text(*parent)),
            UpdateEvent::NotLocated(e) => EventView::NotLocated(e@),
            UpdateEvent::Probed { named, plain } => EventView::Probed(*named, *plain),
            UpdateEvent::Done => EventView::Done,
            UpdateEvent::Failed(e) => EventView::Failed(e@),
        }
    }
}

/// What is to be done next.
#[derive(Debug)]
pub enum UpdateAction {
    /// Download this URL.
    Download(String),
    /// Ask for the checksum at this URL; any failure means that there is none.
    FetchSum(String),
    /// Find out where the running binary lies.
    Locate,
    /// Unpack this gzip-compressed tar archive into a new temporary directory.
    Unpack(Vec<u8>),
    /// Look in the temporary directory for a file of this name and for `codemcp`.
    Probe(String),
    /// Give this file of the temporary directory the permissions 0755.
    MakeExecutable(String),
    /// Copy the file `name` of the temporary directory to the path `to`.
    Copy { name: String, to: String },
    /// Rename the copy at `from` to `to`, the installed binary.
    Replace { from: String, to: String },
    /// End with this result; where `clean`, after removing the temporary
    /// directory.
    Finish { result: Result<(), Error>, clean: bool },
}

/// What is to be done next, by what it means.
pub enum ActionView {
    Download(Seq<char>),
    FetchSum(Seq<char>),
    Locate,
    Unpack(Seq<u8>),
    Probe(Seq<char>),
    MakeExecutable(Seq<char>),
    Copy(Seq<char>, Seq<char>),
    Replace(Seq<char>, Seq<char>),
    Finish(Result<(), ErrorView>, bool),
}

impl View for UpdateAction {
    type V = ActionView;

    open spec fn view(&self) -> ActionView {
        match self {
            UpdateAction::Download(url) => ActionView::Download(url@),
            UpdateAction::FetchSum(url) => ActionView::FetchSum(url@),
            UpdateAction::Locate => ActionView::Locate,
            UpdateAction::Unpack(data) => ActionView::Unpack(data@),
            UpdateAction::Probe(name) => ActionView::Probe(name@),
            UpdateAction::MakeExecutable(name) => ActionView::MakeExecutable(name@),
            UpdateAction::Copy { name, to } => ActionView::Copy(name@, to@),
            UpdateAction::Replace { from, to } => ActionView::Replace(from@, to@),
            UpdateAction::Finish { result: Ok(_), clean } => ActionView::Finish(Ok(()), *clean),
            UpdateAction::Finish { result: Err(e), clean } => ActionView::Finish(Err(e@), *clean),
        }
    }
}

/// Which events answer the action of a stage.
pub open spec fn expects(stage: Stage, event: EventView) -> bool {
    match stage {
        Stage::Query => event is Latest,
        Stage::Download => event is Bytes || event is NotSent || event is NotRead,
        Stage::Sum => event is Sum,
        Stage::Locate => event is Located || event is NotLocated,
        Stage::Probe => event is Probed,
        Stage::Unpack | Stage::Executable | Stage::Copy | Stage::Replace => event is Done
            || event is Failed,
        Stage::Over => false,
    }
}

/// The name of the release for a platform; also the name of the binary in it.
pub open spec fn release_name(os: Seq<char>, arch: Seq<char>) -> Seq<char> {
    "codemcp-"@ + os + "-"@ + arch
}

/// Where the release of a version lies for a platform.
pub open spec fn release_url(os: Seq<char>, arch: Seq<char>, version: Seq<char>) -> Seq<char> {
    "https://github.com/skymoore/codemcp/releases/download/v"@ + without_prefix(version, 'v')
        + "/"@ + release_name(os, arch) + ".tar.gz"@
}

/// Whether a digest passes a published checksum. It passes where no checksum is
/// published, or where its text holds no word; else the first word must be the
/// digest.
pub open spec fn digest_passes(sum: Option<Seq<char>>, digest: Seq<char>) -> bool {
    match sum {
        None => true,
        Some(text) => first_word(text).len() == 0 || first_word(text) == digest,
    }
}

/// Whether a download passes its published checksum: its SHA-256 digest does.
pub open spec fn sum_passes(sum: Option<Seq<char>>, data: Seq<u8>) -> bool {
    digest_passes(sum, hex(sha256_of(data)))
}

/// What a step gives: the state after it, the lines to print and the next action.
pub struct StepView {
    pub state: UpdateView,
    pub lines: Seq<Seq<char>>,
    pub action: ActionView,
}

/// A step to a new stage.
pub open spec fn going(state: UpdateView, stage: Stage, lines: Seq<Seq<char>>, action: ActionView) -> StepView {
    StepView { state: UpdateView { stage, ..state }, lines, action }
}

/// A step that ends the update.
pub open spec fn ending(
    state: UpdateView,
    lines: Seq<Seq<char>>,
    result: Result<(), ErrorView>,
    clean: bool,
) -> StepView {
    going(state, Stage::Over, lines, ActionView::Finish(result, clean))
}

/// A step that ends the update with an error.
pub open spec fn failing(state: UpdateView, message: Seq<char>) -> StepView {
    ending(state, Seq::empty(), Err(ErrorView::Other(message)), false)
}

/// The name of the binary in the unpacked release, which is also what the
/// release is called unless it holds only a bare `codemcp`.
pub open spec fn found_binary(state: UpdateView, named: bool) -> Seq<char> {
    if named {
        release_name(state.os, state.arch)
    } else {
        "codemcp"@
    }
}

/// Where the new binary is put before it takes the place of the installed one: in
/// the same directory, so that one rename is enough.
pub open spec fn copy_path(parent: Seq<char>) -> Seq<char> {
    joined(parent, "codemcp.new"@)
}

/// An update of the version `current` for a platform, about which nothing else is
/// known yet.
pub open spec fn update_begin(os: Seq<char>, arch: Seq<char>, current: Seq<char>) -> UpdateView {
    UpdateView {
        stage: Stage::Query,
        os,
        arch,
        current,
        latest: Seq::empty(),
        data: Seq::empty(),
        exe: Seq::empty(),
        parent: None,
        binary: Seq::empty(),
    }
}

/// The course of an update: what each event leads to.
pub open spec fn update_step(u: UpdateView, event: EventView) -> StepView {
    match event {
        EventView::Latest(Err(e)) => ending(u, Seq::empty(), Err(e), false),
        EventView::Latest(Ok(latest)) => {
            let known = UpdateView { latest, ..u };
            if older(version_numbers(u.current), version_numbers(latest)) {
                going(
                    known,
                    Stage::Download,
                    seq![
                        "Updating codemcp from "@ + u.current + " to "@ + latest + "…"@,
                        Seq::empty(),
                    ],
                    ActionView::Download(release_url(u.os, u.arch, latest)),
                )
            } else {
                ending(
                    known,
                    seq!["codemcp is already up to date ("@ + u.current + ")."@],
                    Ok(()),
                    false,
                )
            }
        },
        EventView::NotSent(e) => failing(
            u,
            "failed to download: "@ + release_url(u.os, u.arch, u.latest) + ": "@ + e,
        ),
        EventView::NotRead(e) => failing(u, "failed reading response: "@ + e),
        EventView::Bytes(data) => going(
            UpdateView { data, ..u },
            Stage::Sum,
            Seq::empty(),
            ActionView::FetchSum(release_url(u.os, u.arch, u.latest) + ".sha256"@),
        ),
        EventView::Sum(sum) => if sum_passes(sum, u.data) {
            going(u, Stage::Locate, seq!["checksum ok"@], ActionView::Locate)
        } else {
            ending(
                u,
                seq![
                    "warning: checksum mismatch (expected "@ + first_word(sum->0) + ", got "@ + hex(
                        sha256_of(u.data),
                    ) + "); update aborted for safety"@,
                ],
                Err(ErrorView::Other("checksum verification failed"@)),
                false,
            )
        },
        EventView::NotLocated(e) => failing(u, "cannot determine current binary path: "@ + e),
        EventView::Located(exe, parent) => going(
            UpdateView { exe, parent, data: Seq::empty(), ..u },
            Stage::Unpack,
            Seq::empty(),
            ActionView::Unpack(u.data),
        ),
        EventView::Probed(named, plain) => if named || plain {
            going(
                UpdateView { binary: found_binary(u, named), ..u },
                Stage::Executable,
                Seq::empty(),
                ActionView::MakeExecutable(found_binary(u, named)),
            )
        } else {
            failing(u, "binary not found inside tarball"@)
        },
        EventView::Failed(e) => if u.stage == Stage::Replace {
            failing(
                u,
                "failed to replace binary – is '"@ + u.exe
                    + "' writable? Try: sudo codemcp update"@,
            )
        } else {
            failing(u, e)
        },
        EventView::Done => match u.stage {
            Stage::Unpack => going(
                u,
                Stage::Probe,
                Seq::empty(),
                ActionView::Probe(release_name(u.os, u.arch)),
            ),
            Stage::Executable => match u.parent {
                Some(parent) => going(
                    u,
                    Stage::Copy,
                    Seq::empty(),
                    ActionView::Copy(u.binary, copy_path(parent)),
                ),
                None => failing(u, "no parent directory"@),
            },
            Stage::Copy => match u.parent {
                Some(parent) => going(
                    u,
                    Stage::Replace,
                    Seq::empty(),
                    ActionView::Replace(copy_path(parent), u.exe),
                ),
                None => failing(u, "no parent directory"@),
            },
            _ => ending(
                u,
                seq!["Updated codemcp "@ + u.current + " -> "@ + u.latest],
                Ok(()),
                true,
            ),
        },
    }
}

/// The name of the release for a platform; also the name of the binary in it.
fn name_of_release(os: &str, arch: &str) -> (r: String)
    ensures
        r@ == release_name(os@, arch@),
{
    "codemcp-".to_owned().concat(os).concat("-").concat(arch)
}

/// Where the release of a version lies for a platform.
pub fn url_of_release(os: &str, arch: &str, version: &str) -> (r: String)
    ensures
        r@ == release_url(os@, arch@, version@),
{
    let tag = strip_prefix_char(version, 'v');
    let name = name_of_release(os, arch);
    "https://github.com/skymoore/codemcp/releases/download/v".to_owned().concat(
        tag.as_str(),
    ).concat("/").concat(name.as_str()).concat(".tar.gz")
}

/// Checks a digest against a published checksum. Gives the expected digest where
/// it does not pass.
pub fn check_digest(sum: &Option<String>, digest: &str) -> (r: Option<String>)
    ensures
        match r {
            None => digest_passes(opt_text(*sum), digest@),
            Some(expected) => !digest_passes(opt_text(*sum), digest@) && expected@ == first_word(
                opt_text(*sum)->0,
            ),
        },
{
    match sum {
        None => None,
        Some(text) => {
            let expected = first_word_of(text.as_str());
            if expected.as_str().is_empty() || same(digest, expected.as_str()) {
                None
            } else {
                Some(expected)
            }
        },
    }
}

/// What a step gives: the update after it, the lines to print and what to do
/// next.
pub struct UpdateStep {
    pub update: Update,
    pub lines: Vec<String>,
    pub action: UpdateAction,
}

impl View for UpdateStep {
    type V = StepView;

    open spec fn view(&self) -> StepView {
        StepView { state: self.update@, lines: texts_of(self.lines@), action: self.action@ }
    }
}

impl Update {
    /// Starts an update of the version `current` on a platform. The first thing
    /// to do is to ask for the latest release.
    pub fn begin(os: &str, arch: &str, current: &str) -> (r: Result<Update, Error>)
        ensures
            match r {
                Ok(u) => {
                    &&& os_token(os@) == Some(u@.os)
                    &&& arch_token(arch@) == Some(u@.arch)
                    &&& u@ == update_begin(u@.os, u@.arch, current@)
                },
                Err(e) => if os_token(os@) is None {
                    e@ == os_error(os@)
                } else {
                    arch_token(arch@) is None && e@ == arch_error(arch@)
                },
            },
    {
        let os = match asset_os(os) {
            Ok(token) => token,
            Err(e) => {
                return Err(e);
            },
        };
        let arch = match asset_arch(arch) {
            Ok(token) => token,
            Err(e) => {
                return Err(e);
            },
        };
        Ok(
            Update {
                stage: Stage::Query,
                os: os.to_owned(),
                arch: arch.to_owned(),
                current: current.to_owned(),
                latest: String::new(),
                data: Vec::new(),
                exe: String::new(),
                parent: None,
                binary: String::new(),
            },
        )
    }

    /// A step to a new stage without anything to print.
    fn go(self, stage: Stage, action: UpdateAction) -> (r: UpdateStep)
        ensures
            r@ == going(self@, stage, Seq::empty(), action@),
    {
        let step = UpdateStep {
            update: Update { stage, ..self },
            lines: Vec::new(),
            action,
        };
        assert(texts_of(step.lines@) =~= Seq::<Seq<char>>::empty());
        step
    }

    /// A step that ends the update with an error.
    fn fail(self, message: String) -> (r: UpdateStep)
        ensures
            r@ == failing(self@, message@),
    {
        self.go(
            Stage::Over,
            UpdateAction::Finish { result: Err(Error::Other(message)), clean: false },
        )
    }

    /// A step to a new stage with one line to print.
    fn say(self, stage: Stage, line: String, action: UpdateAction) -> (r: UpdateStep)
        ensures
            r@ == going(self@, stage, seq![line@], action@),
    {
        let mut step = self.go(stage, action);
        step.lines.push(line);
        assert(texts_of(step.lines@) =~= seq![line@]);
        step
    }

    /// What this update waits for.
    pub fn stage(&self) -> (r: Stage)
        ensures
            r == self@.stage,
    {
        self.stage
    }

    /// Goes on with what came of the last action.
    pub fn step(self, event: UpdateEvent) -> (r: UpdateStep)
        requires
            expects(self@.stage, event@),
        ensures
            r@ == update_step(self@, event@),
    {
        match event {
            UpdateEvent::Latest(Err(e)) => self.go(
                Stage::Over,
                UpdateAction::Finish { result: Err(e), clean: false },
            ),
            UpdateEvent::Latest(Ok(info)) => {
                let known = Update { latest: info.version.clone(), ..self };
                if is_outdated(known.current.as_str(), info.version.as_str()) {
                    let url = url_of_release(
                        known.os.as_str(),
                        known.arch.as_str(),
                        info.version.as_str(),
                    );
                    let line = "Updating codemcp from ".to_owned().concat(
                        known.current.as_str(),
                    ).concat(" to ").concat(info.version.as_str()).concat("…");
                    let mut step = known.say(Stage::Download, line, UpdateAction::Download(url));
                    let ghost lines = step.lines@;
                    step.lines.push(String::new());
                    assert(texts_of(step.lines@) =~= texts_of(lines).push(Seq::empty()));
                    assert(seq![line@].push(Seq::empty()) =~= seq![line@, Seq::<char>::empty()]);
                    step
                } else {
                    let line = "codemcp is already up to date (".to_owned().concat(
                        known.current.as_str(),
                    ).concat(").");
                    known.say(
                        Stage::Over,
                        line,
                        UpdateAction::Finish { result: Ok(()), clean: false },
                    )
                }
            },
            UpdateEvent::NotSent(e) => {
                let url = url_of_release(
                    self.os.as_str(),
                    self.arch.as_str(),
                    self.latest.as_str(),
                );
                self.fail(
                    "failed to download: ".to_owned().concat(url.as_str()).concat(": ").concat(
                        e.as_str(),
                    ),
                )
            },
            UpdateEvent::NotRead(e) => self.fail(
                "failed reading response: ".to_owned().concat(e.as_str()),
            ),
            UpdateEvent::Bytes(data) => {
                let url = url_of_release(
                    self.os.as_str(),
                    self.arch.as_str(),
                    self.latest.as_str(),
                ).concat(".sha256");
                Update { data, ..self }.go(Stage::Sum, UpdateAction::FetchSum(url))
            },
            UpdateEvent::Sum(sum) => {
                assert(event@ == EventView::Sum(opt_text(sum)));
                let actual = sha256(self.data.as_slice());
                match check_digest(&sum, actual.as_str()) {
                    None => self.say(
                        Stage::Locate,
                        "checksum ok".to_owned(),
                        UpdateAction::Locate,
                    ),
                    Some(expected) => {
                        let line = "warning: checksum mismatch (expected ".to_owned().concat(
                            expected.as_str(),
                        ).concat(", got ").concat(actual.as_str()).concat(
                            "); update aborted for safety",
                        );
                        self.say(
                            Stage::Over,
                            line,
                            UpdateAction::Finish {
                                result: Err(Error::Other("checksum verification failed".to_owned())),
                                clean: false,
                            },
                        )
                    },
                }
            },
            UpdateEvent::NotLocated(e) => self.fail(
                "cannot determine current binary path: ".to_owned().concat(e.as_str()),
            ),
            UpdateEvent::Located { path, parent } => {
                let data = self.data;
                let update = Update { exe: path, parent, data: Vec::new(), ..self };
                update.go(Stage::Unpack, UpdateAction::Unpack(data))
            },
            UpdateEvent::Probed { named, plain } => if named || plain {
                let binary = if named {
                    name_of_release(self.os.as_str(), self.arch.as_str())
                } else {
                    "codemcp".to_owned()
                };
                Update { binary: binary.clone(), ..self }.go(
                    Stage::Executable,
                    UpdateAction::MakeExecutable(binary),
                )
            } else {
                self.fail("binary not found inside tarball".to_owned())
            },
            UpdateEvent::Failed(e) => if self.stage == Stage::Replace {
                let message = "failed to replace binary – is '".to_owned().concat(
                    self.exe.as_str(),
                ).concat("' writable? Try: sudo codemcp update");
                self.fail(message)
            } else {
                self.fail(e)
            },
            UpdateEvent::Done => match self.stage {
                Stage::Unpack => {
                    let name = name_of_release(self.os.as_str(), self.arch.as_str());
                    self.go(Stage::Probe, UpdateAction::Probe(name))
                },
                Stage::Executable => match &self.parent {
                    Some(parent) => {
                        let name = self.binary.clone();
                        let to = join(parent.as_str(), "codemcp.new");
                        self.go(Stage::Copy, UpdateAction::Copy { name, to })
                    },
                    None => self.fail("no parent directory".to_owned()),
                },
                Stage::Copy => match &self.parent {
                    Some(parent) => {
                        let from = join(parent.as_str(), "codemcp.new");
                        let to = self.exe.clone();
                        self.go(Stage::Replace, UpdateAction::Replace { from, to })
                    },
                    None => self.fail("no parent directory".to_owned()),
                },
                _ => {
                    let line = "Updated codemcp ".to_owned().concat(self.current.as_str()).concat(
                        " -> ",
                    ).concat(self.latest.as_str());
                    self.say(
                        Stage::Over,
                        line,
                        UpdateAction::Finish { result: Ok(()), clean: true },
                    )
                },
            },
        }
    }
}

/// The state of an update after some events.
pub open spec fn state_after(start: UpdateView, events: Seq<EventView>) -> UpdateView
    decreases events.len(),
{
    if events.len() == 0 {
        start
    } else {
        update_step(state_after(start, events.drop_last()), events.last()).state
    }
}

/// Whether every event answers the action of its time.
pub open spec fn follows(start: UpdateView, events: Seq<EventView>) -> bool
    decreases events.len(),
{
    events.len() > 0 ==> follows(start, events.drop_last()) && expects(
        state_after(start, events.drop_last()).stage,
        events.last(),
    )
}

/// What has happened before anything is unpacked: a newer release was announced
/// and downloaded, and the download passed its checksum.
pub open spec fn checked(start: UpdateView, events: Seq<EventView>) -> bool {
    &&& events.len() >= 3
    &&& events[0] matches EventView::Latest(Ok(latest)) && older(
        version_numbers(start.current),
        version_numbers(latest),
    )
    &&& events[1] matches EventView::Bytes(data) && events[2] matches EventView::Sum(sum)
        && sum_passes(sum, data)
}

/// Whether the installed binary was located where the update takes it to be.
pub open spec fn located(u: UpdateView, events: Seq<EventView>) -> bool {
    events.len() >= 4 && events[3] == EventView::Located(u.exe, u.parent)
}

/// Whether the release was found to hold the binary that the update installs.
pub open spec fn probed(start: UpdateView, u: UpdateView, events: Seq<EventView>) -> bool {
    &&& events.len() >= 6
    &&& events[5] matches EventView::Probed(named, plain) && (named || plain) && u.binary
        == found_binary(start, named)
}

/// Where an update stands says what has happened before.
proof fn lemma_course(start: UpdateView, events: Seq<EventView>)
    requires
        start.stage == Stage::Query,
        follows(start, events),
    ensures
        ({
            let u = state_after(start, events);
            &&& u.current == start.current
            &&& u.os == start.os
            &&& u.arch == start.arch
            &&& events.len() <= 9
            &&& match u.stage {
                Stage::Query => events.len() == 0,
                Stage::Download => events.len() == 1 && events[0] == EventView::Latest(Ok(u.latest))
                    && older(version_numbers(start.current), version_numbers(u.latest)),
                Stage::Sum => events.len() == 2 && events[0] == EventView::Latest(Ok(u.latest))
                    && older(version_numbers(start.current), version_numbers(u.latest)) && events[1]
                    == EventView::Bytes(u.data),
                Stage::Locate => events.len() == 3 && checked(start, events) && events[1]
                    == EventView::Bytes(u.data),
                Stage::Unpack => events.len() == 4 && checked(start, events) && located(
                    u,
                    events,
                ),
                Stage::Probe => events.len() == 5 && checked(start, events) && located(
                    u,
                    events,
                ),
                Stage::Executable => events.len() == 6 && checked(start, events) && located(
                    u,
                    events,
                ) && probed(start, u, events),
                Stage::Copy => events.len() == 7 && checked(start, events) && located(
                    u,
                    events,
                ) && probed(start, u, events) && u.parent is Some,
                Stage::Replace => events.len() == 8 && checked(start, events) && located(
                    u,
                    events,
                ) && probed(start, u, events) && u.parent is Some,
                Stage::Over => true,
            }
        }),
    decreases events.len(),
{
    if events.len() > 0 {
        lemma_course(start, events.drop_last());
    }
}

/// Nothing is unpacked, copied or put in place of the installed binary unless a
/// newer release was announced and its download passed the published checksum;
/// and what is unpacked is that download, byte for byte.
pub proof fn law_only_checked_downloads_are_installed(start: UpdateView, events: Seq<EventView>)
    requires
        start.stage == Stage::Query,
        events.len() > 0,
        follows(start, events),
    ensures
        ({
            let action = update_step(
                state_after(start, events.drop_last()),
                events.last(),
            ).action;
            &&& (action is Unpack || action is MakeExecutable || action is Copy || action is Replace)
                ==> checked(start, events)
            &&& action matches ActionView::Unpack(data) ==> events[1] == EventView::Bytes(data)
            &&& action == ActionView::Finish(Ok(()), true) ==> checked(start, events)
        }),
{
    lemma_course(start, events.drop_last());
}

/// The binary that the release was found to hold is copied to `codemcp.new` in the
/// directory of the installed binary, as it was located, and that copy, no other
/// file, is renamed to the installed binary.
pub proof fn law_located_binary_is_replaced(start: UpdateView, events: Seq<EventView>)
    requires
        start.stage == Stage::Query,
        events.len() > 0,
        follows(start, events),
    ensures
        match update_step(state_after(start, events.drop_last()), events.last()).action {
            ActionView::Copy(name, to) => {
                &&& events[3] matches EventView::Located(_, Some(parent)) && to == copy_path(parent)
                &&& events[5] matches EventView::Probed(named, plain) && (named || plain) && name
                    == found_binary(start, named)
            },
            ActionView::Replace(from, to) => events[3] matches EventView::Located(exe, Some(parent))
                && from == copy_path(parent) && to == exe,
            _ => true,
        },
{
    lemma_course(start, events.drop_last());
}

/// An update ends after at most nine steps, whatever happens.
pub proof fn law_update_ends(start: UpdateView, events: Seq<EventView>)
    requires
        start.stage == Stage::Query,
        follows(start, events),
    ensures
        events.len() <= 9,
        events.len() == 9 ==> state_after(start, events).stage == Stage::Over,
{
    lemma_course(start, events);
}

/// A version that is not older than the latest one is left alone: nothing is
/// downloaded and the update ends well.
pub proof fn law_up_to_date_downloads_nothing(u: UpdateView, latest: Seq<char>)
    requires
        u.stage == Stage::Query,
        !older(version_numbers(u.current), version_numbers(latest)),
    ensures
        update_step(u, EventView::Latest(Ok(latest))).action == ActionView::Finish(Ok(()), false),
{
}

/// Where the installed version is older than the announced one, the release of that
/// version for the platform is downloaded, whatever the two versions are.
pub proof fn law_newer_release_is_downloaded(
    os: Seq<char>,
    arch: Seq<char>,
    current: Seq<char>,
    latest: Seq<char>,
)
    requires
        older(version_numbers(current), version_numbers(latest)),
    ensures
        ({
            let step = update_step(
                update_begin(os, arch, current),
                EventView::Latest(Ok(latest)),
            );
            &&& step.action == ActionView::Download(
                "https://github.com/skymoore/codemcp/releases/download/v"@ + without_prefix(
                    latest,
                    'v',
                ) + "/"@ + ("codemcp-"@ + os + "-"@ + arch) + ".tar.gz"@,
            )
            &&& step.lines == seq![
                "Updating codemcp from "@ + current + " to "@ + latest + "…"@,
                Seq::<char>::empty(),
            ]
        }),
{
}

/// An update of an outdated version whose steps all succeed goes through: the release
/// is downloaded, its checksum fetched from beside it and found to agree, the installed
/// binary located, the download unpacked, the binary in it looked for, made executable,
/// copied beside the installed one and renamed to it; then the update has succeeded.
pub proof fn law_update_succeeds_where_its_steps_do(
    os: Seq<char>,
    arch: Seq<char>,
    current: Seq<char>,
    latest: Seq<char>,
    data: Seq<u8>,
    sum: Option<Seq<char>>,
    exe: Seq<char>,
    parent: Seq<char>,
    named: bool,
    plain: bool,
)
    requires
        older(version_numbers(current), version_numbers(latest)),
        sum matches Some(text) ==> first_word(text).len() == 0 || first_word(text) == hex(
            sha256_of(data),
        ),
        named || plain,
    ensures
        ({
            let url = "https://github.com/skymoore/codemcp/releases/download/v"@ + without_prefix(
                latest,
                'v',
            ) + "/"@ + ("codemcp-"@ + os + "-"@ + arch) + ".tar.gz"@;
            let name = if named {
                "codemcp-"@ + os + "-"@ + arch
            } else {
                "codemcp"@
            };
            let s0 = update_begin(os, arch, current);
            let s1 = update_step(s0, EventView::Latest(Ok(latest)));
            let s2 = update_step(s1.state, EventView::Bytes(data));
            let s3 = update_step(s2.state, EventView::Sum(sum));
            let s4 = update_step(s3.state, EventView::Located(exe, Some(parent)));
            let s5 = update_step(s4.state, EventView::Done);
            let s6 = update_step(s5.state, EventView::Probed(named, plain));
            let s7 = update_step(s6.state, EventView::Done);
            let s8 = update_step(s7.state, EventView::Done);
            let s9 = update_step(s8.state, EventView::Done);
            &&& expects(s0.stage, EventView::Latest(Ok(latest)))
            &&& s1.action == ActionView::Download(url)
            &&& expects(s1.state.stage, EventView::Bytes(data))
            &&& s2.action == ActionView::FetchSum(url + ".sha256"@) && s2.lines.len() == 0
            &&& expects(s2.state.stage, EventView::Sum(sum))
            &&& s3.action == ActionView::Locate && s3.lines == seq!["checksum ok"@]
            &&& expects(s3.state.stage, EventView::Located(exe, Some(parent)))
            &&& s4.action == ActionView::Unpack(data) && s4.lines.len() == 0
            &&& expects(s4.state.stage, EventView::Done)
            &&& s5.action == ActionView::Probe("codemcp-"@ + os + "-"@ + arch) && s5.lines.len()
                == 0
            &&& expects(s5.state.stage, EventView::Probed(named, plain))
            &&& s6.action == ActionView::MakeExecutable(name) && s6.lines.len() == 0
            &&& expects(s6.state.stage, EventView::Done)
            &&& s7.action == ActionView::Copy(name, joined(parent, "codemcp.new"@))
                && s7.lines.len() == 0
            &&& expects(s7.state.stage, EventView::Done)
            &&& s8.action == ActionView::Replace(joined(parent, "codemcp.new"@), exe)
                && s8.lines.len() == 0
            &&& expects(s8.state.stage, EventView::Done)
            &&& s9.action == ActionView::Finish(Ok(()), true)
            &&& s9.lines == seq!["Updated codemcp "@ + current + " -> "@ + latest]
        }),
{
}

/// A digest passes exactly where no checksum is published, where its text is blank, or
/// where the first word of its text is the digest.
pub proof fn law_checksum_is_compared(text: Seq<char>, digest: Seq<char>)
    ensures
        digest_passes(None, digest),
        first_word(text) == digest ==> digest_passes(Some(text), digest),
        first_word(text).len() == 0 ==> digest_passes(Some(text), digest),
        first_word(text).len() > 0 && first_word(text) != digest ==> !digest_passes(
            Some(text),
            digest,
        ),
{
}

/// A download that disagrees with its published checksum ends the update: with a warning
/// that shows both digests, with an error, and with nothing unpacked.
pub proof fn law_wrong_checksum_ends_the_update(u: UpdateView, text: Seq<char>)
    requires
        u.stage == Stage::Sum,
        first_word(text).len() > 0,
        first_word(text) != hex(sha256_of(u.data)),
    ensures
        ({
            let step = update_step(u, EventView::Sum(Some(text)));
            &&& step.action == ActionView::Finish(
                Err(ErrorView::Other("checksum verification failed"@)),
                false,
            )
            &&& step.lines == seq![
                "warning: checksum mismatch (expected "@ + first_word(text) + ", got "@ + hex(
                    sha256_of(u.data),
                ) + "); update aborted for safety"@,
            ]
            &&& step.state.stage == Stage::Over
        }),
{
}

/// The data that is checked is the data that was downloaded.
pub proof fn law_download_is_what_is_checked(u: UpdateView, data: Seq<u8>)
    ensures
        update_step(u, EventView::Bytes(data)).state.data == data,
        update_step(u, EventView::Bytes(data)).state.stage == Stage::Sum,
{
}

/// A step that fails ends the update, with an error that says what failed and why, with
/// nothing printed and nothing removed.
pub proof fn law_failed_step_ends_the_update(u: UpdateView, event: EventView)
    requires
        expects(u.stage, event),
    ensures
        ({
            let step = update_step(u, event);
            let url = "https://github.com/skymoore/codemcp/releases/download/v"@ + without_prefix(
                u.latest,
                'v',
            ) + "/"@ + ("codemcp-"@ + u.os + "-"@ + u.arch) + ".tar.gz"@;
            let error = match event {
                EventView::Latest(Err(why)) => Some(why),
                EventView::NotSent(why) => Some(
                    ErrorView::Other("failed to download: "@ + url + ": "@ + why),
                ),
                EventView::NotRead(why) => Some(
                    ErrorView::Other("failed reading response: "@ + why),
                ),
                EventView::NotLocated(why) => Some(
                    ErrorView::Other("cannot determine current binary path: "@ + why),
                ),
                EventView::Probed(named, plain) => if named || plain {
                    None
                } else {
                    Some(ErrorView::Other("binary not found inside tarball"@))
                },
                EventView::Failed(why) => if u.stage == Stage::Replace {
                    Some(
                        ErrorView::Other(
                            "failed to replace binary – is '"@ + u.exe
                                + "' writable? Try: sudo codemcp update"@,
                        ),
                    )
                } else {
                    Some(ErrorView::Other(why))
                },
                EventView::Done => if u.stage == Stage::Executable && u.parent is None {
                    Some(ErrorView::Other("no parent directory"@))
                } else {
                    None
                },
                _ => None,
            };
            error matches Some(why) ==> step.action == ActionView::Finish(Err(why), false)
                && step.lines.len() == 0 && step.state.stage == Stage::Over
        }),
{
}

/// The version that is not older is reported as up to date, and the update ends well.
pub proof fn law_up_to_date_is_reported(u: UpdateView, latest: Seq<char>)
    requires
        u.stage == Stage::Query,
        !older(version_numbers(u.current), version_numbers(latest)),
    ensures
        update_step(u, EventView::Latest(Ok(latest))).lines == seq![
            "codemcp is already up to date ("@ + u.current + ")."@,
        ],
        update_step(u, EventView::Latest(Ok(latest))).state.stage == Stage::Over,
{
}

/// Events and actions of an update mean what they carry.
pub proof fn law_update_speaks_of_what_it_carries(
    text: String,
    other: String,
    data: Vec<u8>,
    info: ReleaseInfo,
    e: Error,
    a: bool,
    b: bool,
    step: UpdateStep,
)
    ensures
        step@.state == step.update@ && step@.lines == texts_of(step.lines@) && step@.action
            == step.action@,
        UpdateEvent::Latest(Ok(info))@ == EventView::Latest(Ok(info.version@)),
        UpdateEvent::Latest(Err(e))@ == EventView::Latest(Err(e@)),
        UpdateEvent::Bytes(data)@ == EventView::Bytes(data@),
        UpdateEvent::NotSent(text)@ == EventView::NotSent(text@),
        UpdateEvent::NotRead(text)@ == EventView::NotRead(text@),
        UpdateEvent::Sum(Some(text))@ == EventView::Sum(Some(text@)),
        UpdateEvent::Sum(None)@ == EventView::Sum(None),
        (UpdateEvent::Located { path: text, parent: Some(other) })@ == EventView::Located(
            text@,
            Some(other@),
        ),
        (UpdateEvent::Located { path: text, parent: None })@ == EventView::Located(text@, None),
        UpdateEvent::NotLocated(text)@ == EventView::NotLocated(text@),
        (UpdateEvent::Probed { named: a, plain: b })@ == EventView::Probed(a, b),
        UpdateEvent::Done@ == EventView::Done,
        UpdateEvent::Failed(text)@ == EventView::Failed(text@),
        UpdateAction::Download(text)@ == ActionView::Download(text@),
        UpdateAction::FetchSum(text)@ == ActionView::FetchSum(text@),
        UpdateAction::Locate@ == ActionView::Locate,
        UpdateAction::Unpack(data)@ == ActionView::Unpack(data@),
        UpdateAction::Probe(text)@ == ActionView::Probe(text@),
        UpdateAction::MakeExecutable(text)@ == ActionView::MakeExecutable(text@),
        (UpdateAction::Copy { name: text, to: other })@ == ActionView::Copy(text@, other@),
        (UpdateAction::Replace { from: text, to: other })@ == ActionView::Replace(text@, other@),
        (UpdateAction::Finish { result: Ok(()), clean: a })@ == ActionView::Finish(Ok(()), a),
        (UpdateAction::Finish { result: Err(e), clean: a })@ == ActionView::Finish(Err(e@), a),
{
}

} // verus!
