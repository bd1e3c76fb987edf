//! The set of connected upstream servers: which there are, the tools that they
//! offer and which of them a call goes to.
//!
//! A server that fails to connect is left out, never fatal. Servers come and go
//! while the gateway runs.

use crate::error::{Error, ErrorView};
use crate::names::{ascending, keys_of, lemma_map_of_entry, map_of, NameMap};
use crate::text::{before, is_before, lemma_before_irreflexive, lemma_before_total, lemma_before_transitive};
use vstd::prelude::*;
use vstd::string::*;

verus! {

/// A tool of an upstream server: its name, and the definition in full as the
/// server gave it.
#[derive(Debug)]
pub struct Tool {
    pub name: String,
    pub definition: String,
}

/// A tool by the characters of its strings.
pub struct ToolView {
    pub name: Seq<char>,
    pub definition: Seq<char>,
}

impl View for Tool {
    type V = ToolView;

    open spec fn view(&self) -> ToolView {
        ToolView { name: self.name@, definition: self.definition@ }
    }
}

impl Clone for Tool {
    fn clone(&self) -> (r: Self)
        ensures
            r == *self,
    {
        Tool { name: self.name.clone(), definition: self.definition.clone() }
    }
}

/// A list of tools by what they mean.
pub open spec fn tools_of(list: Seq<Tool>) -> Seq<ToolView> {
    Seq::new(list.len(), |i: int| list[i]@)
}

/// A connected upstream server: its live service and the tools it offers.
pub struct Upstream<S> {
    pub service: S,
    pub tools: Vec<Tool>,
}

/// A tool together with the name of its server.
#[derive(Debug)]
pub struct NamespacedTool {
    pub server: String,
    pub tool: Tool,
}

/// A tool together with its server, by the characters of their strings.
pub struct NamespacedView {
    pub server: Seq<char>,
    pub tool: ToolView,
}

impl View for NamespacedTool {
    type V = NamespacedView;

    open spec fn view(&self) -> NamespacedView {
        NamespacedView { server: self.server@, tool: self.tool@ }
    }
}

impl Clone for NamespacedTool {
    fn clone(&self) -> (r: Self)
        ensures
            r == *self,
    {
        NamespacedTool { server: self.server.clone(), tool: self.tool.clone() }
    }
}

/// A list of tools with their servers, by what they mean.
pub open spec fn namespaced_of(list: Seq<NamespacedTool>) -> Seq<NamespacedView> {
    Seq::new(list.len(), |i: int| list[i]@)
}

/// What came of connecting to one server at startup.
pub enum ConnectOutcome<S> {
    /// It is connected.
    Connected { name: String, upstream: Upstream<S> },
    /// It refused, or did not list its tools; the reason.
    Failed { name: String, reason: String },
    /// The attempt broke off; the reason.
    Panicked { reason: String },
}

/// The servers that are connected after some attempts: a later connection
/// replaces an earlier one of the same name, and what failed is left out.
pub open spec fn connected<S>(outcomes: Seq<ConnectOutcome<S>>) -> Map<Seq<char>, Upstream<S>>
    decreases outcomes.len(),
{
    if outcomes.len() == 0 {
        Map::empty()
    } else {
        match outcomes.last() {
            ConnectOutcome::Connected { name, upstream } => connected(
                outcomes.drop_last(),
            ).insert(name@, upstream),
            _ => connected(outcomes.drop_last()),
        }
    }
}

/// Where a tool goes in a list that is sorted by name: behind all whose name
/// does not come after its own.
pub open spec fn tool_place(sorted: Seq<ToolView>, name: Seq<char>) -> int
    decreases sorted.len(),
{
    if sorted.len() == 0 {
        0
    } else if before(name, sorted.last().name) {
        tool_place(sorted.drop_last(), name)
    } else {
        sorted.len() as int
    }
}

/// A list of tools sorted by name; tools of one name keep their order.
pub open spec fn sorted_tools(tools: Seq<ToolView>) -> Seq<ToolView>
    decreases tools.len(),
{
    if tools.len() == 0 {
        Seq::empty()
    } else {
        let front = sorted_tools(tools.drop_last());
        front.insert(tool_place(front, tools.last().name), tools.last())
    }
}

/// Tools tagged with their server.
pub open spec fn tagged(server: Seq<char>, tools: Seq<ToolView>) -> Seq<NamespacedView> {
    Seq::new(tools.len(), |i: int| NamespacedView { server, tool: tools[i] })
}

/// The tools of a list of servers: server by server, each server's tools sorted
/// by name.
pub open spec fn listed<S>(servers: Seq<(String, Upstream<S>)>) -> Seq<NamespacedView>
    decreases servers.len(),
{
    if servers.len() == 0 {
        Seq::empty()
    } else {
        listed(servers.drop_last()) + tagged(
            servers.last().0@,
            sorted_tools(tools_of(servers.last().1.tools@)),
        )
    }
}

/// A place in the list lies inside it.
proof fn lemma_tool_place(sorted: Seq<ToolView>, name: Seq<char>)
    ensures
        0 <= tool_place(sorted, name) <= sorted.len(),
        forall|i: int|
            tool_place(sorted, name) <= i < sorted.len() ==> before(name, #[trigger] sorted[i].name),
        tool_place(sorted, name) > 0 ==> !before(
            name,
            sorted[tool_place(sorted, name) - 1].name,
        ),
    decreases sorted.len(),
{
    if sorted.len() > 0 && before(name, sorted.last().name) {
        lemma_tool_place(sorted.drop_last(), name);
        assert forall|i: int| tool_place(sorted, name) <= i < sorted.len() implies before(
            name,
            #[trigger] sorted[i].name,
        ) by {
            if i < sorted.len() - 1 {
                assert(sorted[i] == sorted.drop_last()[i]);
            }
        }
    }
}

/// Sorts tools by name; tools of one name keep their order.
fn sort_tools(tools: &Vec<Tool>) -> (r: Vec<Tool>)
    ensures
        tools_of(r@) == sorted_tools(tools_of(tools@)),
{
    let ghost all = tools_of(tools@);
    let mut out: Vec<Tool> = Vec::new();
    let mut n: usize = 0;
    assert(tools_of(out@) =~= sorted_tools(all.take(0)));
    while n < tools.len()
        invariant
            n <= tools.len(),
            out.len() == n,
            all == tools_of(tools@),
            tools_of(out@) == sorted_tools(all.take(n as int)),
        decreases tools.len() - n,
    {
        let tool = tools[n].clone();
        let ghost front = tools_of(out@);
        let mut i: usize = out.len();
        assert(front.take(i as int) =~= front);
        while i > 0 && is_before(tool.name.as_str(), out[i - 1].name.as_str())
            invariant
                i <= out.len(),
                front == tools_of(out@),
                tool_place(front, tool.name@) == tool_place(front.take(i as int), tool.name@),
            decreases i,
        {
            assert(front.take(i as int).drop_last() =~= front.take(i - 1));
            assert(front.take(i as int).last() == out@[i - 1]@);
            i = i - 1;
        }
        proof {
            let here = front.take(i as int);
            if i > 0 {
                assert(here.last() == out@[i - 1]@);
            }
            assert(tool_place(front, tool.name@) == i);
            assert(all.take(n + 1).drop_last() =~= all.take(n as int));
            assert(all.take(n + 1).last() == tool@);
        }
        out.insert(i, tool);
        assert(tools_of(out@) =~= front.insert(i as int, tool@));
        n = n + 1;
    }
    assert(all.take(n as int) =~= all);
    out
}

/// A call of a tool, with arguments of the type `A`.
#[derive(Debug)]
pub struct ToolCall<A> {
    pub name: String,
    pub arguments: Option<A>,
}

/// The connected upstream servers by name.
pub struct UpstreamManager<S> {
    upstreams: NameMap<Upstream<S>>,
}

impl<S> View for UpstreamManager<S> {
    type V = Map<Seq<char>, Upstream<S>>;

    closed spec fn view(&self) -> Map<Seq<char>, Upstream<S>> {
        self.upstreams@
    }
}

impl<S> UpstreamManager<S> {
    /// The servers in ascending order of their names.
    pub closed spec fn servers(&self) -> Seq<(String, Upstream<S>)> {
        self.upstreams.list()
    }

    /// The servers that are connected after the attempts at startup.
    pub fn connect_all(outcomes: Vec<ConnectOutcome<S>>) -> (r: Self)
        ensures
            r@ == connected(outcomes@),
    {
        let mut upstreams: NameMap<Upstream<S>> = NameMap::new();
        for outcome in it: outcomes.into_iter()
            invariant
                it.seq() == outcomes@,
                upstreams@ == connected(outcomes@.take(it.index() as int)),
        {
            proof {
                let n = it.index() as int;
                assert(outcomes@.take(n + 1).drop_last() =~= outcomes@.take(n));
                assert(outcomes@.take(n + 1).last() == outcome);
            }
            match outcome {
                ConnectOutcome::Connected { name, upstream } => {
                    let _ = upstreams.insert(name, upstream);
                },
                ConnectOutcome::Failed { .. } => {},
                ConnectOutcome::Panicked { .. } => {},
            }
        }
        assert(outcomes@.take(outcomes@.len() as int) =~= outcomes@);
        UpstreamManager { upstreams }
    }

    /// Takes in a server that was connected while the gateway runs, in place of
    /// one of the same name. Gives the number of its tools and the connection
    /// that it replaces, which is to be closed. A failed attempt changes nothing.
    pub fn connect_one(&mut self, name: &str, attempt: Result<Upstream<S>, Error>) -> (r: Result<
        (usize, Option<Upstream<S>>),
        Error,
    >)
        ensures
            match attempt {
                Ok(upstream) => {
                    &&& final(self)@ == old(self)@.insert(name@, upstream)
                    &&& r matches Ok((count, replaced)) && count == upstream.tools@.len() && match replaced {
                        Some(was) => old(self)@.contains_key(name@) && was == old(self)@[name@],
                        None => !old(self)@.contains_key(name@),
                    }
                },
                Err(e) => final(self)@ == old(self)@ && r == Err::<
                    (usize, Option<Upstream<S>>),
                    Error,
                >(e),
            },
    {
        match attempt {
            Ok(upstream) => {
                let count: usize = upstream.tools.len();
                let replaced = self.upstreams.insert(name.to_owned(), upstream);
                Ok((count, replaced))
            },
            Err(e) => Err(e),
        }
    }

    /// Takes a server out. Gives the connection to close, if it was connected.
    pub fn disconnect_one(&mut self, name: &str) -> (r: Option<Upstream<S>>)
        ensures
            final(self)@ == old(self)@.remove(name@),
            match r {
                Some(was) => old(self)@.contains_key(name@) && was == old(self)@[name@],
                None => !old(self)@.contains_key(name@),
            },
    {
        self.upstreams.remove(name)
    }

    /// Whether a server is connected.
    pub fn is_connected(&self, name: &str) -> (r: bool)
        ensures
            r == self@.contains_key(name@),
    {
        self.upstreams.contains(name)
    }

    /// The number of tools of a server; none where it is not connected.
    pub fn tool_count(&self, name: &str) -> (r: usize)
        ensures
            r as nat == (if self@.contains_key(name@) {
                self@[name@].tools@.len()
            } else {
                0
            }),
    {
        match self.upstreams.get(name) {
            Some(upstream) => upstream.tools.len(),
            None => 0,
        }
    }

    /// All tools of all connected servers with the names of their servers, in
    /// ascending order of the server and then of the tool.
    pub fn all_tools(&self) -> (r: Vec<NamespacedTool>)
        ensures
            namespaced_of(r@) == listed(self.servers()),
            ascending(keys_of(self.servers())),
            self@ == map_of(self.servers()),
            forall|x: NamespacedView|
                r@.map_values(|t: NamespacedTool| t@).to_multiset().count(x) == (
                if #[trigger] self@.contains_key(x.server) {
                    self@[x.server].tools@.map_values(|t: Tool| t@).to_multiset().count(x.tool)
                } else {
                    0
                }),
    {
        proof {
            use_type_invariant(&self.upstreams);
        }
        let ghost servers = self.servers();
        let mut out: Vec<NamespacedTool> = Vec::new();
        let mut i: usize = 0;
        assert(namespaced_of(out@) =~= listed(servers.take(0)));
        while i < self.upstreams.len()
            invariant
                servers == self.upstreams.list(),
                i <= servers.len(),
                namespaced_of(out@) == listed(servers.take(i as int)),
            decreases servers.len() - i,
        {
            let entry = self.upstreams.entry(i);
            let sorted = sort_tools(&entry.1.tools);
            let ghost front = namespaced_of(out@);
            let mut j: usize = 0;
            assert(front + tagged(entry.0@, tools_of(sorted@).take(0)) =~= front);
            while j < sorted.len()
                invariant
                    j <= sorted.len(),
                    namespaced_of(out@) =~= front + tagged(
                        entry.0@,
                        tools_of(sorted@).take(j as int),
                    ),
                decreases sorted.len() - j,
            {
                let ghost had = namespaced_of(out@);
                let tool = NamespacedTool { server: entry.0.clone(), tool: sorted[j].clone() };
                out.push(tool);
                proof {
                    assert(namespaced_of(out@) =~= had.push(tool@));
                    let now = tools_of(sorted@).take(j + 1);
                    assert(tagged(entry.0@, now) =~= tagged(
                        entry.0@,
                        tools_of(sorted@).take(j as int),
                    ).push(tool@));
                }
                j = j + 1;
            }
            proof {
                assert(tools_of(sorted@).take(j as int) =~= tools_of(sorted@));
                assert(servers.take(i + 1).drop_last() =~= servers.take(i as int));
                assert(servers.take(i + 1).last() == *entry);
            }
            i = i + 1;
        }
        proof {
            assert(servers.take(i as int) =~= servers);
            assert(out@.map_values(|t: NamespacedTool| t@) =~= namespaced_of(out@));
            assert forall|x: NamespacedView|
                out@.map_values(|t: NamespacedTool| t@).to_multiset().count(x) == (
                if #[trigger] self@.contains_key(x.server) {
                    self@[x.server].tools@.map_values(|t: Tool| t@).to_multiset().count(x.tool)
                } else {
                    0
                }) by {
                let name = x.server;
                let tool = x.tool;
                assert(x == NamespacedView { server: name, tool });
                if self@.contains_key(name) {
                    let k = keys_of(servers).index_of(name);
                    assert(keys_of(servers)[k] == name);
                    lemma_map_of_entry(servers, k);
                    law_each_server_lists_its_tools(servers, k, tool);
                } else {
                    assert forall|k: int| 0 <= k < servers.len() implies (#[trigger] servers[k]).0@
                        != name by {
                        assert(keys_of(servers)[k] == servers[k].0@);
                        assert(keys_of(servers).contains(keys_of(servers)[k]));
                    }
                    law_only_connected_servers_are_listed(servers, name, tool);
                }
            }
        }
        out
    }

    /// The service that a call to `server` goes to, and the one call to make there:
    /// of this tool with these arguments. Where the server is not connected no call
    /// is made.
    pub fn call_tool<A>(&self, server: &str, tool: &str, arguments: Option<A>) -> (r: Result<
        (&S, ToolCall<A>),
        Error,
    >)
        ensures
            match r {
                Ok((service, call)) => {
                    &&& self@.contains_key(server@)
                    &&& *service == self@[server@].service
                    &&& call.name@ == tool@
                    &&& call.arguments == arguments
                },
                Err(e) => !self@.contains_key(server@) && e@ == ErrorView::Upstream(
                    "unknown upstream server: "@ + server@,
                ),
            },
    {
        match self.upstreams.get(server) {
            Some(upstream) => Ok(
                (&upstream.service, ToolCall { name: tool.to_owned(), arguments }),
            ),
            None => Err(
                Error::Upstream("unknown upstream server: ".to_owned().concat(server)),
            ),
        }
    }

    /// Takes every server out and gives the connections to close.
    pub fn shutdown(&mut self) -> (r: Vec<(String, Upstream<S>)>)
        ensures
            final(self)@ == Map::<Seq<char>, Upstream<S>>::empty(),
            ascending(keys_of(r@)),
            map_of(r@) == old(self)@,
    {
        let mut drained: NameMap<Upstream<S>> = NameMap::new();
        std::mem::swap(&mut drained, &mut self.upstreams);
        drained.into_entries()
    }
}

/// The error for a call that an upstream server did not carry out.
pub fn call_failed(server: &str, tool: &str, reason: &str) -> (r: Error)
    ensures
        r@ == ErrorView::Upstream(server@ + "/"@ + tool@ + ": "@ + reason@),
{
    Error::Upstream(server.to_owned().concat("/").concat(tool).concat(": ").concat(reason))
}

/// The answer to a call: what the upstream server gave, as it is, or the error for a
/// call that it did not carry out, for the reason that came in its place.
pub fn call_answered<T>(server: &str, tool: &str, outcome: Result<T, String>) -> (r: Result<
    T,
    Error,
>)
    ensures
        match outcome {
            Ok(result) => r == Ok::<T, Error>(result),
            Err(reason) => r matches Err(e) && e@ == ErrorView::Upstream(
                server@ + "/"@ + tool@ + ": "@ + reason@,
            ),
        },
{
    match outcome {
        Ok(result) => Ok(result),
        Err(reason) => Err(call_failed(server, tool, reason.as_str())),
    }
}

/// What becomes of a service that was connected and asked for its tools.
pub enum Listing<S> {
    /// It is ready for use.
    Ready(Upstream<S>),
    /// It did not list its tools: it is to be closed, and the error reported.
    Close { service: S, error: Error },
}

/// Takes a connected service with the tools that it listed, or the reason why it
/// did not.
pub fn connect_and_list<S>(name: &str, service: S, tools: Result<Vec<Tool>, String>) -> (r: Listing<
    S,
>)
    ensures
        match tools {
            Ok(list) => r == Listing::Ready(Upstream { service, tools: list }),
            Err(reason) => r matches Listing::Close { service: s, error } && s == service
                && error@ == ErrorView::Upstream(name@ + ": list_tools failed: "@ + reason@),
        },
{
    match tools {
        Ok(tools) => Listing::Ready(Upstream { service, tools }),
        Err(reason) => Listing::Close {
            service,
            error: Error::Upstream(
                name.to_owned().concat(": list_tools failed: ").concat(reason.as_str()),
            ),
        },
    }
}

/// Whether a list of tools is in order of the names.
pub open spec fn in_name_order(tools: Seq<ToolView>) -> bool {
    forall|i: int, j: int|
        0 <= i < j < tools.len() ==> !before((#[trigger] tools[j]).name, (#[trigger] tools[i]).name)
}

/// Sorting the tools of a server puts them in order of their names and neither
/// adds nor loses a tool.
pub proof fn law_sorting_keeps_tools(tools: Seq<ToolView>)
    ensures
        in_name_order(sorted_tools(tools)),
        sorted_tools(tools).to_multiset() == tools.to_multiset(),
        sorted_tools(tools).len() == tools.len(),
    decreases tools.len(),
{
    broadcast use vstd::seq_lib::group_to_multiset_ensures;

    if tools.len() > 0 {
        let tool = tools.last();
        let front = sorted_tools(tools.drop_last());
        let place = tool_place(front, tool.name);
        law_sorting_keeps_tools(tools.drop_last());
        lemma_tool_place(front, tool.name);
        let all = front.insert(place, tool);
        front.insert_ensures(place, tool);
        assert forall|i: int, j: int| 0 <= i < j < all.len() implies !before(
            (#[trigger] all[j]).name,
            (#[trigger] all[i]).name,
        ) by {
            let x = if i < place { i } else { i - 1 };
            let y = if j < place { j } else { j - 1 };
            if i != place && j != place {
                assert(all[i] == front[x] && all[j] == front[y]);
            } else if i == place {
                assert(all[j] == front[y]);
                if before(front[y].name, tool.name) {
                    lemma_before_transitive(tool.name, front[y].name, tool.name);
                    lemma_before_irreflexive(tool.name);
                }
            } else {
                assert(all[i] == front[x]);
                if before(tool.name, front[x].name) {
                    let last = front[place - 1].name;
                    if x < place - 1 {
                        assert(!before(front[place - 1].name, front[x].name));
                        lemma_before_total(front[x].name, last);
                        if before(front[x].name, last) {
                            lemma_before_transitive(tool.name, front[x].name, last);
                        }
                    }
                }
            }
        }
        assert(tools =~= tools.drop_last().push(tool));
        assert(tools.to_multiset() =~= tools.drop_last().to_multiset().insert(tool));
        assert(all.to_multiset() =~= front.to_multiset().insert(tool));
    } else {
        assert(tools =~= Seq::<ToolView>::empty());
    }
}

/// The tools of all servers are in ascending order of the server, and those of
/// one server in order of their names.
pub proof fn law_all_tools_in_order<S>(servers: Seq<(String, Upstream<S>)>)
    requires
        ascending(keys_of(servers)),
    ensures
        forall|i: int, j: int|
            0 <= i < j < listed(servers).len() ==> before(
                (#[trigger] listed(servers)[i]).server,
                (#[trigger] listed(servers)[j]).server,
            ) || (listed(servers)[i].server == listed(servers)[j].server && !before(
                listed(servers)[j].tool.name,
                listed(servers)[i].tool.name,
            )),
        forall|i: int|
            0 <= i < listed(servers).len() ==> keys_of(servers).contains(
                (#[trigger] listed(servers)[i]).server,
            ),
    decreases servers.len(),
{
    if servers.len() > 0 {
        let shorter = servers.drop_last();
        let keys = keys_of(servers);
        let last = keys[servers.len() - 1];
        assert(keys_of(shorter) =~= keys.drop_last());
        law_all_tools_in_order(shorter);
        let front = listed(shorter);
        let own = sorted_tools(tools_of(servers.last().1.tools@));
        law_sorting_keeps_tools(tools_of(servers.last().1.tools@));
        let all = listed(servers);
        assert(all == front + tagged(last, own));
        assert forall|i: int| 0 <= i < all.len() implies keys.contains(
            (#[trigger] all[i]).server,
        ) && (i < front.len() ==> before(all[i].server, last)) && (i >= front.len()
            ==> all[i].server == last && all[i].tool == own[i - front.len()]) by {
            if i < front.len() {
                assert(all[i] == front[i]);
                assert(keys_of(shorter).contains(front[i].server));
                let k = keys_of(shorter).index_of(front[i].server);
                assert(keys[k] == front[i].server);
                assert(before(keys[k], keys[servers.len() - 1]));
            } else {
                assert(keys[servers.len() - 1] == last);
            }
        }
        assert forall|i: int, j: int| 0 <= i < j < all.len() implies before(
            (#[trigger] all[i]).server,
            (#[trigger] all[j]).server,
        ) || (all[i].server == all[j].server && !before(all[j].tool.name, all[i].tool.name)) by {
            if j < front.len() {
                assert(all[i] == front[i] && all[j] == front[j]);
            }
        }
    }
}

/// A server is connected after startup exactly where an attempt on it succeeded.
pub proof fn law_failed_servers_are_left_out<S>(
    outcomes: Seq<ConnectOutcome<S>>,
    server: Seq<char>,
)
    ensures
        connected(outcomes).contains_key(server) <==> exists|i: int|
            0 <= i < outcomes.len() && (#[trigger] outcomes[i]) is Connected
                && outcomes[i]->Connected_name@ == server,
    decreases outcomes.len(),
{
    if outcomes.len() > 0 {
        let shorter = outcomes.drop_last();
        law_failed_servers_are_left_out(shorter, server);
        let last = outcomes[outcomes.len() - 1];
        if connected(outcomes).contains_key(server) {
            if last is Connected && last->Connected_name@ == server {
            } else {
                let i = choose|i: int|
                    0 <= i < shorter.len() && (#[trigger] shorter[i]) is Connected
                        && shorter[i]->Connected_name@ == server;
                assert(outcomes[i] == shorter[i]);
            }
        }
        if exists|i: int|
            0 <= i < outcomes.len() && (#[trigger] outcomes[i]) is Connected
                && outcomes[i]->Connected_name@ == server {
            let i = choose|i: int|
                0 <= i < outcomes.len() && (#[trigger] outcomes[i]) is Connected
                    && outcomes[i]->Connected_name@ == server;
            if i < shorter.len() {
                assert(shorter[i] == outcomes[i]);
            }
        }
    }
}

/// A call of any listed tool finds its server: the servers of the list are the
/// ones that calls go to.
pub proof fn law_listed_tools_can_be_called<S>(servers: Seq<(String, Upstream<S>)>, i: int)
    requires
        ascending(keys_of(servers)),
        0 <= i < listed(servers).len(),
    ensures
        map_of(servers).contains_key(listed(servers)[i].server),
{
    law_all_tools_in_order(servers);
}

/// Disconnecting a server undoes connecting it: the other servers are as they
/// were, and it is gone, also where it had been connected before.
pub proof fn law_disconnect_undoes_connect<S>(
    servers: Map<Seq<char>, Upstream<S>>,
    name: Seq<char>,
    upstream: Upstream<S>,
)
    ensures
        servers.insert(name, upstream).remove(name) == servers.remove(name),
        !servers.insert(name, upstream).remove(name).contains_key(name),
{
    assert(servers.insert(name, upstream).remove(name) =~= servers.remove(name));
}

/// Tagging tools with a server makes of each tool one that is tagged with it.
proof fn lemma_tagged_counted(
    server: Seq<char>,
    tools: Seq<ToolView>,
    name: Seq<char>,
    tool: ToolView,
)
    ensures
        tagged(server, tools).to_multiset().count(NamespacedView { server: name, tool }) == (if name
            == server {
            tools.to_multiset().count(tool)
        } else {
            0
        }),
    decreases tools.len(),
{
    broadcast use vstd::seq_lib::group_to_multiset_ensures;

    if tools.len() > 0 {
        let front = tools.drop_last();
        let last = tools.last();
        lemma_tagged_counted(server, front, name, tool);
        assert(tagged(server, tools) =~= tagged(server, front).push(
            NamespacedView { server, tool: last },
        ));
        assert(tools =~= front.push(last));
    } else {
        assert(tagged(server, tools) =~= Seq::empty());
        assert(tools =~= Seq::empty());
    }
}

/// How often a tool of a server is listed: as often as in the front part, and for the
/// last server as often as that server offers it.
proof fn lemma_listed_counted<S>(
    servers: Seq<(String, Upstream<S>)>,
    name: Seq<char>,
    tool: ToolView,
)
    requires
        servers.len() > 0,
    ensures
        ({
            let one = NamespacedView { server: name, tool };
            let last = servers[servers.len() - 1];
            listed(servers).to_multiset().count(one) == listed(
                servers.drop_last(),
            ).to_multiset().count(one) + (if name == last.0@ {
                last.1.tools@.map_values(|t: Tool| t@).to_multiset().count(tool)
            } else {
                0
            })
        }),
{
    let last = servers.last();
    let own = tools_of(last.1.tools@);
    let front = listed(servers.drop_last());
    law_sorting_keeps_tools(own);
    lemma_tagged_counted(last.0@, sorted_tools(own), name, tool);
    vstd::seq_lib::lemma_multiset_commutative(front, tagged(last.0@, sorted_tools(own)));
    assert(last.1.tools@.map_values(|t: Tool| t@) =~= own);
}

/// The tools that are listed for a connected server are the tools that it offers, by
/// name and definition, each as often as it offers it.
pub proof fn law_each_server_lists_its_tools<S>(
    servers: Seq<(String, Upstream<S>)>,
    i: int,
    tool: ToolView,
)
    requires
        ascending(keys_of(servers)),
        0 <= i < servers.len(),
    ensures
        listed(servers).to_multiset().count(NamespacedView { server: servers[i].0@, tool })
            == servers[i].1.tools@.map_values(|t: Tool| t@).to_multiset().count(tool),
    decreases servers.len(),
{
    let front = servers.drop_last();
    let keys = keys_of(servers);
    let n = servers.len() - 1;
    assert(keys_of(front) =~= keys.drop_last());
    lemma_listed_counted(servers, servers[i].0@, tool);
    lemma_before_irreflexive(keys[i]);
    if i < n {
        assert(before(keys[i], keys[n]));
        assert(front[i] == servers[i]);
        law_each_server_lists_its_tools(front, i, tool);
    } else {
        assert forall|k: int| 0 <= k < front.len() implies (#[trigger] front[k]).0@
            != servers[i].0@ by {
            assert(before(keys[k], keys[n]));
        }
        law_only_connected_servers_are_listed(front, servers[i].0@, tool);
    }
}

/// Nothing is listed for a server that is not connected.
pub proof fn law_only_connected_servers_are_listed<S>(
    servers: Seq<(String, Upstream<S>)>,
    name: Seq<char>,
    tool: ToolView,
)
    requires
        forall|k: int| 0 <= k < servers.len() ==> (#[trigger] servers[k]).0@ != name,
    ensures
        listed(servers).to_multiset().count(NamespacedView { server: name, tool }) == 0,
    decreases servers.len(),
{
    broadcast use vstd::seq_lib::group_to_multiset_ensures;

    if servers.len() > 0 {
        let front = servers.drop_last();
        assert forall|k: int| 0 <= k < front.len() implies (#[trigger] front[k]).0@ != name by {
            assert(front[k] == servers[k]);
        }
        law_only_connected_servers_are_listed(front, name, tool);
        lemma_listed_counted(servers, name, tool);
        assert(servers[servers.len() - 1].0@ != name);
    } else {
        assert(listed(servers) =~= Seq::empty());
    }
}

/// After startup a server has the connection of the last attempt on it that
/// succeeded.
pub proof fn law_last_connection_counts<S>(outcomes: Seq<ConnectOutcome<S>>, i: int)
    requires
        0 <= i < outcomes.len(),
        outcomes[i] is Connected,
        forall|j: int|
            i < j < outcomes.len() ==> !((#[trigger] outcomes[j]) is Connected
                && outcomes[j]->Connected_name@ == outcomes[i]->Connected_name@),
    ensures
        connected(outcomes).contains_key(outcomes[i]->Connected_name@),
        connected(outcomes)[outcomes[i]->Connected_name@] == outcomes[i]->Connected_upstream,
    decreases outcomes.len(),
{
    let last = outcomes[outcomes.len() - 1];
    if i < outcomes.len() - 1 {
        let front = outcomes.drop_last();
        assert forall|j: int| i < j < front.len() implies !((#[trigger] front[j]) is Connected
            && front[j]->Connected_name@ == front[i]->Connected_name@) by {
            assert(front[j] == outcomes[j]);
        }
        law_last_connection_counts(front, i);
    }
}

/// Tools of one server that have the same name are listed in the order in which the server
/// gave them.
pub proof fn law_tools_of_one_name_keep_their_order(tools: Seq<ToolView>, name: Seq<char>)
    ensures
        sorted_tools(tools).filter(|t: ToolView| t.name == name) == tools.filter(
            |t: ToolView| t.name == name,
        ),
    decreases tools.len(),
{
    let named = |t: ToolView| t.name == name;
    if tools.len() > 0 {
        let tool = tools.last();
        let shorter = tools.drop_last();
        let front = sorted_tools(shorter);
        let place = tool_place(front, tool.name);
        law_tools_of_one_name_keep_their_order(shorter, name);
        lemma_tool_place(front, tool.name);
        let head = front.take(place);
        let rest = front.skip(place);
        assert(front =~= head + rest);
        assert(front.insert(place, tool) =~= head.push(tool) + rest);
        Seq::filter_distributes_over_add(head, rest, named);
        Seq::filter_distributes_over_add(head.push(tool), rest, named);
        head.lemma_filter_push(tool, named);
        shorter.lemma_filter_push(tool, named);
        assert(tools =~= shorter.push(tool));
        if tool.name == name {
            assert forall|i: int| 0 <= i < rest.len() implies (#[trigger] rest[i]).name
                != name by {
                assert(before(tool.name, front[place + i].name));
                lemma_before_irreflexive(name);
            }
            lemma_none_named(rest, name);
            assert(rest.filter(named) =~= Seq::empty());
            assert(head.filter(named).push(tool) + rest.filter(named) =~= (head.filter(named)
                + rest.filter(named)).push(tool));
        }
    } else {
        assert(sorted_tools(tools) =~= tools);
    }
}

/// A list without a name has no tools of that name.
proof fn lemma_none_named(tools: Seq<ToolView>, name: Seq<char>)
    requires
        forall|i: int| 0 <= i < tools.len() ==> (#[trigger] tools[i]).name != name,
    ensures
        tools.filter(|t: ToolView| t.name == name).len() == 0,
    decreases tools.len(),
{
    reveal(Seq::filter);
    if tools.len() > 0 {
        let shorter = tools.drop_last();
        assert forall|i: int| 0 <= i < shorter.len() implies (#[trigger] shorter[i]).name
            != name by {
            assert(shorter[i] == tools[i]);
        }
        lemma_none_named(shorter, name);
        assert(tools[tools.len() - 1].name != name);
    }
}

/// Tools, with their servers or without, are taken item by item, with all characters of
/// their names and definitions.
pub proof fn law_tools_keep_their_characters(tools: Seq<Tool>, list: Seq<NamespacedTool>)
    ensures
        tools_of(tools).len() == tools.len(),
        forall|i: int|
            0 <= i < tools.len() ==> (#[trigger] tools_of(tools)[i]).name == tools[i].name@
                && tools_of(tools)[i].definition == tools[i].definition@,
        namespaced_of(list).len() == list.len(),
        forall|i: int|
            0 <= i < list.len() ==> (#[trigger] namespaced_of(list)[i]).server == list[i].server@
                && namespaced_of(list)[i].tool.name == list[i].tool.name@
                && namespaced_of(list)[i].tool.definition == list[i].tool.definition@,
{
}

} // verus!
