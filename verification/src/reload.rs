//! The renewal of the SDK after the connected servers have changed: it is built
//! from their tools, loaded in the worker, taken over, and then every client is
//! told.

use crate::error::{Error, ErrorView};
use crate::names::{ascending, keys_of, map_of};
use crate::runtime::{alive, outcome_view, Runtime, SdkState};
use crate::upstream::{listed, namespaced_of, NamespacedTool, NamespacedView, UpstreamManager};
use vstd::prelude::*;
use vstd::string::*;

verus! {

/// How far a renewal has come.
pub enum Reload<R> {
    /// The SDK is being built.
    Building,
    /// The worker is loading this SDK.
    Loading(SdkState<R>),
    /// The clients are being told; whether each of those before could be.
    Telling(Vec<bool>),
    /// The renewal is over.
    Over,
}

/// How far a renewal has come, by what it means.
pub enum ReloadView<R> {
    Building,
    Loading(SdkState<R>),
    Telling(Seq<bool>),
    Over,
}

impl<R> View for Reload<R> {
    type V = ReloadView<R>;

    open spec fn view(&self) -> ReloadView<R> {
        match self {
            Reload::Building => ReloadView::Building,
            Reload::Loading(sdk) => ReloadView::Loading(*sdk),
            Reload::Telling(told) => ReloadView::Telling(told@),
            Reload::Over => ReloadView::Over,
        }
    }
}

/// What came of an action of a renewal.
pub enum ReloadEvent<R> {
    /// The SDK was built; its source.
    Built { sdk: SdkState<R>, sdk_py: String },
    /// The worker loaded it, or did not.
    Loaded(Result<(), Error>),
    /// Whether the client could be told.
    Told(bool),
}

/// What came of an action of a renewal, by what it means.
pub enum ReloadEventView<R> {
    Built { sdk: SdkState<R>, sdk_py: Seq<char> },
    Loaded(Result<(), ErrorView>),
    Told(bool),
}

impl<R> View for ReloadEvent<R> {
    type V = ReloadEventView<R>;

    open spec fn view(&self) -> ReloadEventView<R> {
        match self {
            ReloadEvent::Built { sdk, sdk_py } => ReloadEventView::Built {
                sdk: *sdk,
                sdk_py: sdk_py@,
            },
            ReloadEvent::Loaded(r) => ReloadEventView::Loaded(outcome_view(*r)),
            ReloadEvent::Told(ok) => ReloadEventView::Told(*ok),
        }
    }
}

/// What is to be done next in a renewal.
#[derive(Debug)]
pub enum ReloadAction {
    /// Build the SDK from these tools.
    Build(Vec<NamespacedTool>),
    /// Load this source in the worker.
    Load(String),
    /// Tell the client at this place that the tools have changed.
    Tell(usize),
    /// Nothing more: this is the result.
    Finish(Result<(), Error>),
}

/// What is to be done next in a renewal, by what it means.
pub enum ReloadActionView {
    Build(Seq<NamespacedView>),
    Load(Seq<char>),
    Tell(nat),
    Done,
    Failed(ErrorView),
}

impl View for ReloadAction {
    type V = ReloadActionView;

    open spec fn view(&self) -> ReloadActionView {
        match self {
            ReloadAction::Build(tools) => ReloadActionView::Build(namespaced_of(tools@)),
            ReloadAction::Load(sdk_py) => ReloadActionView::Load(sdk_py@),
            ReloadAction::Tell(i) => ReloadActionView::Tell(*i as nat),
            ReloadAction::Finish(Ok(_)) => ReloadActionView::Done,
            ReloadAction::Finish(Err(e)) => ReloadActionView::Failed(e@),
        }
    }
}

/// A renewal with its last action, the SDK in use and the clients.
pub struct ReloadState<R, P> {
    pub reload: ReloadView<R>,
    pub action: ReloadActionView,
    pub sdk: SdkState<R>,
    pub clients: Seq<P>,
}

/// How a renewal begins: with the tools of all connected servers.
pub open spec fn reload_begin<R, P>(
    tools: Seq<NamespacedView>,
    sdk: SdkState<R>,
    clients: Seq<P>,
) -> ReloadState<R, P> {
    ReloadState {
        reload: ReloadView::Building,
        action: ReloadActionView::Build(tools),
        sdk,
        clients,
    }
}

/// Whether an event answers the action that a renewal is waiting for.
pub open spec fn reload_expects<R>(
    reload: ReloadView<R>,
    clients: nat,
    event: ReloadEventView<R>,
) -> bool {
    match event {
        ReloadEventView::Built { .. } => reload is Building,
        ReloadEventView::Loaded(_) => reload is Loading,
        ReloadEventView::Told(_) => reload matches ReloadView::Telling(told) && told.len()
            < clients,
    }
}

/// The clients are told one by one; after the last, those that could not be are
/// dropped.
pub open spec fn telling<R, P>(
    told: Seq<bool>,
    sdk: SdkState<R>,
    clients: Seq<P>,
) -> ReloadState<R, P> {
    if told.len() < clients.len() {
        ReloadState {
            reload: ReloadView::Telling(told),
            action: ReloadActionView::Tell(told.len()),
            sdk,
            clients,
        }
    } else {
        ReloadState {
            reload: ReloadView::Over,
            action: ReloadActionView::Done,
            sdk,
            clients: alive(clients, told),
        }
    }
}

/// How a renewal goes on. The built SDK is loaded in the worker; once that has
/// gone well it takes the place of the one in use and the clients are told. Where
/// it has not, nothing changes and nobody is told.
pub open spec fn reload_step<R, P>(
    reload: ReloadView<R>,
    sdk: SdkState<R>,
    clients: Seq<P>,
    event: ReloadEventView<R>,
) -> ReloadState<R, P> {
    match event {
        ReloadEventView::Built { sdk: built, sdk_py } => ReloadState {
            reload: ReloadView::Loading(built),
            action: ReloadActionView::Load(sdk_py),
            sdk,
            clients,
        },
        ReloadEventView::Loaded(Ok(_)) => telling(Seq::empty(), reload->Loading_0, clients),
        ReloadEventView::Loaded(Err(e)) => ReloadState {
            reload: ReloadView::Over,
            action: ReloadActionView::Failed(e),
            sdk,
            clients,
        },
        ReloadEventView::Told(ok) => telling((reload->Telling_0).push(ok), sdk, clients),
    }
}

impl<R> Reload<R> {
    /// Begins a renewal from the tools of all connected servers.
    pub fn begin<S>(upstreams: &UpstreamManager<S>) -> (r: (Self, ReloadAction))
        ensures
            r.0@ == ReloadView::<R>::Building,
            r.1@ == ReloadActionView::Build(listed(upstreams.servers())),
            ascending(keys_of(upstreams.servers())),
            upstreams@ == map_of(upstreams.servers()),
    {
        (Reload::Building, ReloadAction::Build(upstreams.all_tools()))
    }

    /// Takes the renewal on with what came of its last action.
    pub fn step<P>(self, runtime: &mut Runtime<R, P>, event: ReloadEvent<R>) -> (r: (
        Self,
        ReloadAction,
    ))
        requires
            reload_expects(self@, old(runtime).clients().len(), event@),
        ensures
            (ReloadState {
                reload: r.0@,
                action: r.1@,
                sdk: final(runtime).sdk(),
                clients: final(runtime).clients(),
            }) == reload_step(self@, old(runtime).sdk(), old(runtime).clients(), event@),
            final(runtime).boot() == old(runtime).boot(),
            final(runtime).path() == old(runtime).path(),
            final(runtime).launched_by() == old(runtime).launched_by(),
    {
        match (self, event) {
            (_, ReloadEvent::Built { sdk, sdk_py }) => {
                (Reload::Loading(sdk), ReloadAction::Load(sdk_py))
            },
            (Reload::Loading(sdk), ReloadEvent::Loaded(loaded)) => {
                match runtime.regenerate_and_reload(loaded, sdk) {
                    Ok(_) => Self::tell(runtime, Vec::new()),
                    Err(e) => (Reload::Over, ReloadAction::Finish(Err(e))),
                }
            },
            (Reload::Telling(told), ReloadEvent::Told(ok)) => {
                let mut told = told;
                told.push(ok);
                Self::tell(runtime, told)
            },
            _ => {
                assert(false);
                (Reload::Over, ReloadAction::Finish(Ok(())))
            },
        }
    }

    /// Goes on with the next client, or drops those that could not be told.
    fn tell<P>(runtime: &mut Runtime<R, P>, told: Vec<bool>) -> (r: (Self, ReloadAction))
        requires
            told@.len() <= old(runtime).clients().len(),
        ensures
            (ReloadState {
                reload: r.0@,
                action: r.1@,
                sdk: final(runtime).sdk(),
                clients: final(runtime).clients(),
            }) == telling(told@, old(runtime).sdk(), old(runtime).clients()),
            final(runtime).boot() == old(runtime).boot(),
            final(runtime).path() == old(runtime).path(),
            final(runtime).launched_by() == old(runtime).launched_by(),
    {
        let n: usize = told.len();
        if n < runtime.peers().len() {
            (Reload::Telling(told), ReloadAction::Tell(n))
        } else {
            runtime.keep_notified(&told);
            (Reload::Over, ReloadAction::Finish(Ok(())))
        }
    }
}

/// Where a renewal stands after some events.
pub open spec fn reload_run<R, P>(
    begin: ReloadState<R, P>,
    events: Seq<ReloadEventView<R>>,
) -> ReloadState<R, P>
    decreases events.len(),
{
    if events.len() == 0 {
        begin
    } else {
        let s = reload_run(begin, events.drop_last());
        reload_step(s.reload, s.sdk, s.clients, events.last())
    }
}

/// Whether each of the events answers the action before it.
pub open spec fn reload_follows<R, P>(
    begin: ReloadState<R, P>,
    events: Seq<ReloadEventView<R>>,
) -> bool
    decreases events.len(),
{
    events.len() > 0 ==> {
        let s = reload_run(begin, events.drop_last());
        reload_follows(begin, events.drop_last()) && reload_expects(
            s.reload,
            s.clients.len(),
            events.last(),
        )
    }
}

/// Whether the events so far built this SDK and loaded it.
pub open spec fn built_and_loaded<R>(events: Seq<ReloadEventView<R>>, sdk: SdkState<R>) -> bool {
    &&& events.len() >= 2
    &&& events[0] matches ReloadEventView::Built { sdk: built, .. } && built == sdk
    &&& events[1] matches ReloadEventView::Loaded(Ok(_))
}

/// Whether events from the third on say whether the clients could be told.
pub open spec fn tells<R>(events: Seq<ReloadEventView<R>>, told: Seq<bool>) -> bool {
    &&& events.len() == told.len() + 2
    &&& forall|i: int|
        0 <= i < told.len() ==> #[trigger] events[i + 2] == ReloadEventView::<R>::Told(told[i])
}

/// What holds at every point of a renewal.
proof fn lemma_reload<R, P>(
    tools: Seq<NamespacedView>,
    sdk: SdkState<R>,
    clients: Seq<P>,
    events: Seq<ReloadEventView<R>>,
) -> (told: Seq<bool>)
    requires
        reload_follows(reload_begin(tools, sdk, clients), events),
    ensures
        ({
            let s = reload_run(reload_begin(tools, sdk, clients), events);
            match s.reload {
                ReloadView::Building => events.len() == 0 && s.action is Build && s.sdk == sdk
                    && s.clients == clients,
                ReloadView::Loading(built) => events.len() == 1 && s.sdk == sdk && s.clients
                    == clients && (events[0] matches ReloadEventView::Built { sdk: b, sdk_py } && b
                    == built && s.action == ReloadActionView::Load(sdk_py)),
                ReloadView::Telling(so_far) => told == so_far && s.clients == clients && told.len()
                    < clients.len() && built_and_loaded(events, s.sdk) && tells(events, told)
                    && s.action == ReloadActionView::Tell(told.len()),
                ReloadView::Over => match s.action {
                    ReloadActionView::Done => told.len() == clients.len() && built_and_loaded(
                        events,
                        s.sdk,
                    ) && tells(events, told) && s.clients == alive(clients, told),
                    ReloadActionView::Failed(e) => events.len() == 2 && s.sdk == sdk && s.clients
                        == clients && events[1] == ReloadEventView::<R>::Loaded(Err(e)),
                    _ => false,
                },
            }
        }),
    decreases events.len(),
{
    if events.len() == 0 {
        Seq::empty()
    } else {
        let front = events.drop_last();
        let before = lemma_reload(tools, sdk, clients, front);
        if front.len() > 0 {
            assert(events[0] == front[0]);
        }
        if front.len() > 1 {
            assert(events[1] == front[1]);
        }
        match events.last() {
            ReloadEventView::Told(ok) => {
                let told = before.push(ok);
                assert forall|i: int| 0 <= i < told.len() implies #[trigger] events[i + 2]
                    == ReloadEventView::<R>::Told(told[i]) by {
                    if i < before.len() {
                        assert(events[i + 2] == front[i + 2]);
                    }
                }
                told
            },
            _ => Seq::empty(),
        }
    }
}

/// Where the worker does not load the new SDK, the renewal ends with the worker's
/// error: the SDK in use and the clients stay, and no client is told, for the
/// refusal is the second event and the last.
pub proof fn law_failed_reload_changes_nothing<R, P>(
    tools: Seq<NamespacedView>,
    sdk: SdkState<R>,
    clients: Seq<P>,
    events: Seq<ReloadEventView<R>>,
    e: ErrorView,
)
    requires
        reload_follows(reload_begin(tools, sdk, clients), events),
        reload_run(reload_begin(tools, sdk, clients), events).action == ReloadActionView::Failed(
            e,
        ),
    ensures
        events.len() == 2,
        events[1] == ReloadEventView::<R>::Loaded(Err(e)),
        reload_run(reload_begin(tools, sdk, clients), events).sdk == sdk,
        reload_run(reload_begin(tools, sdk, clients), events).clients == clients,
{
    let _ = lemma_reload(tools, sdk, clients, events);
}

/// The client at a place is told at one point only: as the next after those before
/// it, and after the worker has loaded the SDK that was built and that is then in
/// use.
pub proof fn law_clients_are_told_in_turn<R, P>(
    tools: Seq<NamespacedView>,
    sdk: SdkState<R>,
    clients: Seq<P>,
    events: Seq<ReloadEventView<R>>,
    i: nat,
)
    requires
        reload_follows(reload_begin(tools, sdk, clients), events),
        reload_run(reload_begin(tools, sdk, clients), events).action == ReloadActionView::Tell(i),
    ensures
        i < clients.len(),
        events.len() == i + 2,
        built_and_loaded(events, reload_run(reload_begin(tools, sdk, clients), events).sdk),
{
    let _ = lemma_reload(tools, sdk, clients, events);
}

/// A renewal that ends well has loaded the SDK that was built, once, and uses it;
/// it has told each client once, in order, and keeps exactly those that could be
/// told, in order.
pub proof fn law_reload_tells_every_client<R, P>(
    tools: Seq<NamespacedView>,
    sdk: SdkState<R>,
    clients: Seq<P>,
    events: Seq<ReloadEventView<R>>,
) -> (told: Seq<bool>)
    requires
        reload_follows(reload_begin(tools, sdk, clients), events),
        reload_run(reload_begin(tools, sdk, clients), events).action is Done,
    ensures
        told.len() == clients.len(),
        tells(events, told),
        built_and_loaded(events, reload_run(reload_begin(tools, sdk, clients), events).sdk),
        reload_run(reload_begin(tools, sdk, clients), events).clients == alive(clients, told),
        forall|i: int|
            0 <= i < clients.len() ==> (#[trigger] reload_run(
                reload_begin(tools, sdk, clients),
                events.take(i + 2),
            )).action == ReloadActionView::Tell(i as nat),
{
    let begin = reload_begin(tools, sdk, clients);
    let told = lemma_reload(tools, sdk, clients, events);
    assert forall|i: int| 0 <= i < clients.len() implies (#[trigger] reload_run(
        begin,
        events.take(i + 2),
    )).action == ReloadActionView::Tell(i as nat) by {
        let upto = events.take(i + 2);
        let next = events.take(i + 3);
        lemma_follows_front(begin, events, i + 3);
        assert(next.drop_last() =~= upto);
        assert(next.last() == events[i + 2]);
        let _ = lemma_reload(tools, sdk, clients, upto);
    }
    told
}

/// A source is loaded in the worker at one point only: right after it was built.
pub proof fn law_sdk_is_loaded_once<R, P>(
    tools: Seq<NamespacedView>,
    sdk: SdkState<R>,
    clients: Seq<P>,
    events: Seq<ReloadEventView<R>>,
    sdk_py: Seq<char>,
)
    requires
        reload_follows(reload_begin(tools, sdk, clients), events),
        reload_run(reload_begin(tools, sdk, clients), events).action == ReloadActionView::Load(
            sdk_py,
        ),
    ensures
        events.len() == 1,
        events[0] matches ReloadEventView::Built { sdk_py: built, .. } && built == sdk_py,
{
    let _ = lemma_reload(tools, sdk, clients, events);
}

/// The first of some events that follow each other follow each other too.
proof fn lemma_follows_front<R, P>(
    begin: ReloadState<R, P>,
    events: Seq<ReloadEventView<R>>,
    n: int,
)
    requires
        reload_follows(begin, events),
        0 <= n <= events.len(),
    ensures
        reload_follows(begin, events.take(n)),
    decreases events.len(),
{
    if n == events.len() {
        assert(events.take(n) =~= events);
    } else {
        lemma_follows_front(begin, events.drop_last(), n);
        assert(events.drop_last().take(n) =~= events.take(n));
    }
}

/// A renewal goes on while its steps go well: the SDK is built from the given tools, its
/// source is loaded, the clients are told one after the other, and after the last the
/// renewal has succeeded, with the built SDK in use.
pub proof fn law_reload_succeeds_where_its_steps_do<R, P>(
    tools: Seq<NamespacedView>,
    sdk: SdkState<R>,
    clients: Seq<P>,
    built: SdkState<R>,
    sdk_py: Seq<char>,
    told: Seq<bool>,
)
    requires
        told.len() <= clients.len(),
    ensures
        ({
            let begin = reload_begin(tools, sdk, clients);
            let first = seq![ReloadEventView::Built { sdk: built, sdk_py }];
            let second = first.push(ReloadEventView::Loaded(Ok(())));
            let events = second + told.map_values(|b: bool| ReloadEventView::<R>::Told(b));
            &&& begin.action == ReloadActionView::Build(tools)
            &&& begin.sdk == sdk && begin.clients == clients
            &&& reload_run(begin, first).action == ReloadActionView::Load(sdk_py)
            &&& reload_run(begin, first).sdk == sdk
            &&& reload_follows(begin, events)
            &&& reload_run(begin, events).sdk == built
            &&& told.len() < clients.len() ==> reload_run(begin, events).action
                == ReloadActionView::Tell(told.len()) && reload_run(begin, events).clients
                == clients
            &&& told.len() == clients.len() ==> reload_run(begin, events).action
                == ReloadActionView::Done && reload_run(begin, events).clients == alive(
                clients,
                told,
            )
        }),
    decreases told.len(),
{
    reveal_with_fuel(reload_run, 3);
    reveal_with_fuel(reload_follows, 3);
    let begin = reload_begin(tools, sdk, clients);
    let first = seq![ReloadEventView::Built { sdk: built, sdk_py }];
    let second = first.push(ReloadEventView::Loaded(Ok(())));
    let tell = |b: bool| ReloadEventView::<R>::Told(b);
    let events = second + told.map_values(tell);
    assert(first.drop_last() =~= Seq::empty());
    assert(second.drop_last() =~= first);
    if told.len() == 0 {
        assert(events =~= second);
        assert(told =~= Seq::<bool>::empty());
    } else {
        let before = told.drop_last();
        law_reload_succeeds_where_its_steps_do(tools, sdk, clients, built, sdk_py, before);
        assert(events.drop_last() =~= second + before.map_values(tell));
        assert(events.last() == ReloadEventView::<R>::Told(told.last()));
        let _ = lemma_reload(tools, sdk, clients, events.drop_last());
        let so_far = (reload_run(begin, events.drop_last()).reload)->Telling_0;
        assert forall|i: int| 0 <= i < before.len() implies so_far[i] == before[i] by {
            assert(events.drop_last()[i + 2] == ReloadEventView::<R>::Told(so_far[i]));
            assert(events.drop_last()[i + 2] == ReloadEventView::<R>::Told(before[i]));
        }
        assert(so_far =~= before);
        assert(so_far.push(told.last()) =~= told);
    }
}

/// Where the worker refuses the new SDK, the renewal fails with the worker's error.
pub proof fn law_refused_sdk_fails_the_reload<R, P>(
    tools: Seq<NamespacedView>,
    sdk: SdkState<R>,
    clients: Seq<P>,
    built: SdkState<R>,
    sdk_py: Seq<char>,
    e: ErrorView,
)
    ensures
        ({
            let begin = reload_begin(tools, sdk, clients);
            let events = seq![
                ReloadEventView::Built { sdk: built, sdk_py },
                ReloadEventView::Loaded(Err(e)),
            ];
            &&& reload_run(begin, events).action == ReloadActionView::Failed(e)
            &&& reload_run(begin, events).sdk == sdk
            &&& reload_run(begin, events).clients == clients
        }),
{
    reveal_with_fuel(reload_run, 3);
    let events = seq![
        ReloadEventView::Built { sdk: built, sdk_py },
        ReloadEventView::Loaded(Err(e)),
    ];
    assert(events.drop_last().drop_last() =~= Seq::empty());
    assert(events.drop_last().last() == events[0]);
}

/// Events and actions of a renewal mean what they carry.
pub proof fn law_reload_speaks_of_what_it_carries<R>(
    text: String,
    sdk: SdkState<R>,
    tools: Vec<NamespacedTool>,
    i: usize,
    flag: bool,
    e: Error,
)
    ensures
        (ReloadEvent::Built { sdk, sdk_py: text })@ == (ReloadEventView::Built {
            sdk,
            sdk_py: text@,
        }),
        ReloadEvent::<R>::Loaded(Ok(()))@ matches ReloadEventView::Loaded(Ok(_)),
        ReloadEvent::<R>::Loaded(Err(e))@ == ReloadEventView::<R>::Loaded(Err(e@)),
        ReloadEvent::<R>::Told(flag)@ == ReloadEventView::<R>::Told(flag),
        ReloadAction::Build(tools)@ == ReloadActionView::Build(namespaced_of(tools@)),
        ReloadAction::Load(text)@ == ReloadActionView::Load(text@),
        ReloadAction::Tell(i)@ == ReloadActionView::Tell(i as nat),
        ReloadAction::Finish(Ok(()))@ == ReloadActionView::Done,
        ReloadAction::Finish(Err(e))@ == ReloadActionView::Failed(e@),
{
}

} // verus!
