//! What the JSON value of the configuration file says of the upstream servers, and
//! what a change of it changes.
//!
//! The file is an object whose `mcp` member holds one object for each server. A
//! server with the `type` `local` has a `command` and may have an `environment` and
//! a `cwd`; one with the `type` `remote` has a `url` and may have `headers`. Both
//! may have an `enabled` flag and a `timeout`.

use crate::config::{loaded_all, resolved, with_enabled, SourceView, SpecView, UpstreamView};
use crate::error::ErrorView;
use crate::json::{
    alike, json_parsed, member, natural_of, reads_alike, reads_as, text_of, JsonView, MAX_NESTING,
};
use crate::names::ascending;
use crate::text::{before, lemma_before_irreflexive, lemma_before_transitive};
use vstd::prelude::*;
use vstd::string::*;

verus! {

/// The first parts of a list of pairs.
pub open spec fn firsts<T>(list: Seq<(Seq<char>, T)>) -> Seq<Seq<char>> {
    Seq::new(list.len(), |i: int| list[i].0)
}

/// Whether a list names exactly the members of an object, in ascending order.
pub open spec fn names_members<T>(
    list: Seq<(Seq<char>, T)>,
    members: Map<Seq<char>, JsonView>,
) -> bool {
    &&& ascending(firsts(list))
    &&& forall|k: Seq<char>| #[trigger]
        members.contains_key(k) <==> firsts(list).contains(k)
}

/// Whether a value is this list of strings.
pub open spec fn says_texts(value: Option<JsonView>, list: Seq<Seq<char>>) -> bool {
    value matches Some(JsonView::List(items)) && items.len() == list.len() && forall|i: int|
        0 <= i < list.len() ==> #[trigger] items[i] == JsonView::Text(list[i])
}

/// Whether a value is an object of these strings, or missing where there are none.
pub open spec fn says_pairs(value: Option<JsonView>, pairs: Seq<(Seq<char>, Seq<char>)>) -> bool {
    match value {
        None => pairs.len() == 0,
        Some(JsonView::Object(members)) => names_members(pairs, members) && forall|i: int|
            0 <= i < pairs.len() ==> members[(#[trigger] pairs[i]).0] == JsonView::Text(pairs[i].1),
        _ => false,
    }
}

/// Whether a value is this string, or missing or null where there is none.
pub open spec fn says_text(value: Option<JsonView>, text: Option<Seq<char>>) -> bool {
    match value {
        None | Some(JsonView::Null) => text is None,
        Some(JsonView::Text(s)) => text == Some(s),
        _ => false,
    }
}

/// Whether a value is this flag, or missing or null where there is none.
pub open spec fn says_flag(value: Option<JsonView>, flag: Option<bool>) -> bool {
    match value {
        None | Some(JsonView::Null) => flag is None,
        Some(JsonView::Bool(b)) => flag == Some(b),
        _ => false,
    }
}

/// Whether a value is this number, or missing or null where there is none.
pub open spec fn says_natural(value: Option<JsonView>, number: Option<u64>) -> bool {
    match value {
        None | Some(JsonView::Null) => number is None,
        _ => number is Some && natural_of(value) == number,
    }
}

/// Whether a value specifies this server.
pub open spec fn says_server(server: JsonView, spec: SpecView) -> bool {
    match spec {
        SpecView::Local { command, environment, cwd, enabled, timeout } => {
            &&& text_of(member(server, "type"@)) == Some("local"@)
            &&& says_texts(member(server, "command"@), command)
            &&& says_pairs(member(server, "environment"@), environment)
            &&& says_text(member(server, "cwd"@), cwd)
            &&& says_flag(member(server, "enabled"@), enabled)
            &&& says_natural(member(server, "timeout"@), timeout)
        },
        SpecView::Remote { url, headers, enabled, timeout } => {
            &&& text_of(member(server, "type"@)) == Some("remote"@)
            &&& text_of(member(server, "url"@)) == Some(url)
            &&& says_pairs(member(server, "headers"@), headers)
            &&& says_flag(member(server, "enabled"@), enabled)
            &&& says_natural(member(server, "timeout"@), timeout)
        },
    }
}

/// Whether the value of a file specifies these servers.
pub open spec fn says_file(root: JsonView, servers: Seq<(Seq<char>, SpecView)>) -> bool {
    match member(root, "mcp"@) {
        None => servers.len() == 0,
        Some(JsonView::Object(members)) => names_members(servers, members) && forall|i: int|
            0 <= i < servers.len() ==> says_server(
                members[(#[trigger] servers[i]).0],
                servers[i].1,
            ),
        _ => false,
    }
}

/// A server's specification with its flag set.
pub open spec fn with_flag(spec: SpecView, on: bool) -> SpecView {
    match spec {
        SpecView::Local { command, environment, cwd, enabled, timeout } => SpecView::Local {
            command,
            environment,
            cwd,
            enabled: Some(on),
            timeout,
        },
        SpecView::Remote { url, headers, enabled, timeout } => SpecView::Remote {
            url,
            headers,
            enabled: Some(on),
            timeout,
        },
    }
}

/// The servers of a file with the flag of one of them set.
pub open spec fn flagged(
    servers: Seq<(Seq<char>, SpecView)>,
    name: Seq<char>,
    on: bool,
) -> Seq<(Seq<char>, SpecView)> {
    Seq::new(
        servers.len(),
        |i: int|
            if servers[i].0 == name {
                (name, with_flag(servers[i].1, on))
            } else {
                servers[i]
            },
    )
}

/// Loaded servers with the flag of one of them set.
pub open spec fn flag_shown(list: Seq<UpstreamView>, name: Seq<char>, on: bool) -> Seq<
    UpstreamView,
> {
    Seq::new(
        list.len(),
        |i: int|
            if list[i].name == name {
                UpstreamView { name, spec: with_flag(list[i].spec, on), enabled: on }
            } else {
                list[i]
            },
    )
}

/// Two ascending lists of the same strings are the same list.
proof fn lemma_ascending_unique(a: Seq<Seq<char>>, b: Seq<Seq<char>>)
    requires
        ascending(a),
        ascending(b),
        forall|k: Seq<char>| #[trigger] a.contains(k) <==> b.contains(k),
    ensures
        a == b,
    decreases a.len(),
{
    if a.len() == 0 {
        if b.len() > 0 {
            assert(b.contains(b[0]));
            assert(a.contains(b[0]));
        }
        assert(a =~= b);
    } else {
        let x = a[a.len() - 1];
        assert(a.contains(x));
        assert(b.len() > 0);
        let y = b[b.len() - 1];
        assert(b.contains(y));
        assert(a.contains(y));
        let i = a.index_of(y);
        let j = b.index_of(x);
        if x != y {
            assert(before(a[i], a[a.len() - 1]));
            assert(before(b[j], b[b.len() - 1]));
            lemma_before_transitive(x, y, x);
            lemma_before_irreflexive(x);
        }
        lemma_before_irreflexive(x);
        let front = a.drop_last();
        let rest = b.drop_last();
        assert forall|k: Seq<char>| #[trigger] front.contains(k) <==> rest.contains(k) by {
            if front.contains(k) {
                let n = front.index_of(k);
                assert(a[n] == k);
                assert(before(a[n], a[a.len() - 1]));
                assert(a.contains(k));
                let m = b.index_of(k);
                assert(rest[m] == k);
            }
            if rest.contains(k) {
                let n = rest.index_of(k);
                assert(b[n] == k);
                assert(before(b[n], b[b.len() - 1]));
                assert(b.contains(k));
                assert(a.contains(k));
                let m = a.index_of(k);
                assert(front[m] == k);
            }
        }
        lemma_ascending_unique(front, rest);
        assert(a =~= front.push(x));
        assert(b =~= rest.push(y));
    }
}

/// A value says one list of pairs only.
proof fn lemma_pairs_unique(
    value: Option<JsonView>,
    a: Seq<(Seq<char>, Seq<char>)>,
    b: Seq<(Seq<char>, Seq<char>)>,
)
    requires
        says_pairs(value, a),
        says_pairs(value, b),
    ensures
        a == b,
{
    if let Some(JsonView::Object(members)) = value {
        assert forall|k: Seq<char>| #[trigger] firsts(a).contains(k) <==> firsts(b).contains(
            k,
        ) by {
            assert(members.contains_key(k) <==> firsts(a).contains(k));
        }
        lemma_ascending_unique(firsts(a), firsts(b));
        assert(a.len() == firsts(a).len());
        assert(b.len() == firsts(b).len());
        assert forall|i: int| 0 <= i < a.len() implies a[i] == b[i] by {
            assert(firsts(a)[i] == a[i].0);
            assert(firsts(b)[i] == b[i].0);
            assert(members[a[i].0] == JsonView::Text(a[i].1));
            assert(members[b[i].0] == JsonView::Text(b[i].1));
        }
    }
    assert(a =~= b);
}

/// Of two values that differ at most in their flag, the servers they specify
/// differ at most in their flag.
proof fn lemma_server_unique(one: JsonView, two: JsonView, a: SpecView, b: SpecView)
    requires
        says_server(one, a),
        says_server(two, b),
        forall|k: Seq<char>| k != "enabled"@ ==> #[trigger] member(one, k) == member(two, k),
    ensures
        member(one, "enabled"@) == member(two, "enabled"@) ==> a == b,
        forall|on: bool|
            member(two, "enabled"@) == Some(JsonView::Bool(on)) ==> b == #[trigger] with_flag(a, on),
{
    reveal_strlit("enabled");
    reveal_strlit("type");
    reveal_strlit("command");
    reveal_strlit("environment");
    reveal_strlit("cwd");
    reveal_strlit("timeout");
    reveal_strlit("url");
    reveal_strlit("headers");
    reveal_strlit("local");
    reveal_strlit("remote");
    assert("enabled"@[0] == 'e' && "enabled"@.len() == 7);
    assert("type"@.len() == 4 && "command"@[0] == 'c' && "environment"@.len() == 11);
    assert("cwd"@.len() == 3 && "timeout"@[0] == 't' && "url"@.len() == 3 && "headers"@[0] == 'h');
    assert("local"@.len() == 5 && "remote"@.len() == 6);
    match (a, b) {
        (
            SpecView::Local { command: c1, environment: e1, .. },
            SpecView::Local { command: c2, environment: e2, .. },
        ) => {
            let items = member(one, "command"@)->0->List_0;
            assert forall|i: int| 0 <= i < c1.len() implies c1[i] == c2[i] by {
                assert(items[i] == JsonView::Text(c1[i]));
                assert(items[i] == JsonView::Text(c2[i]));
            }
            assert(c1 =~= c2);
            lemma_pairs_unique(member(one, "environment"@), e1, e2);
        },
        (SpecView::Remote { headers: h1, .. }, SpecView::Remote { headers: h2, .. }) => {
            lemma_pairs_unique(member(one, "headers"@), h1, h2);
        },
        _ => {
            assert(text_of(member(one, "type"@)) == text_of(member(two, "type"@)));
            assert(false);
        },
    }
}

/// A file with the flag of a server set specifies the servers of the file with that
/// flag set.
proof fn lemma_file_flagged(
    root: JsonView,
    name: Seq<char>,
    on: bool,
    had: Seq<(Seq<char>, SpecView)>,
    has: Seq<(Seq<char>, SpecView)>,
)
    requires
        with_enabled(root, name, on) is Some,
        says_file(root, had),
        says_file(with_enabled(root, name, on)->0, has),
    ensures
        has == flagged(had, name, on),
        firsts(had).contains(name),
{
    let changed = with_enabled(root, name, on)->0;
    let old_servers = (member(root, "mcp"@)->0)->Object_0;
    let new_servers = (member(changed, "mcp"@)->0)->Object_0;
    let old_server = old_servers[name];
    let new_server = JsonView::Object(
        (old_server->Object_0).insert("enabled"@, JsonView::Bool(on)),
    );
    assert(new_servers == old_servers.insert(name, new_server));
    assert(old_servers.contains_key(name));
    assert forall|k: Seq<char>| #[trigger] firsts(had).contains(k) <==> firsts(has).contains(k) by {
        assert(old_servers.contains_key(k) <==> firsts(had).contains(k));
        assert(new_servers.contains_key(k) <==> firsts(has).contains(k));
    }
    lemma_ascending_unique(firsts(had), firsts(has));
    assert(had.len() == firsts(had).len());
    assert(has.len() == firsts(has).len());
    assert forall|i: int| 0 <= i < had.len() implies has[i] == flagged(had, name, on)[i] by {
        assert(firsts(had)[i] == had[i].0);
        assert(firsts(has)[i] == has[i].0);
        assert(says_server(old_servers[had[i].0], had[i].1));
        assert(says_server(new_servers[has[i].0], has[i].1));
        lemma_server_unique(old_servers[had[i].0], new_servers[has[i].0], had[i].1, has[i].1);
        assert(has[i] == (has[i].0, has[i].1));
        if had[i].0 == name {
            assert(member(new_server, "enabled"@) == Some(JsonView::Bool(on)));
            assert(has[i].1 == with_flag(had[i].1, on));
        } else {
            assert(has[i].1 == had[i].1);
        }
    }
    assert(has =~= flagged(had, name, on));
}

/// Setting a flag and interpolating do not disturb each other.
proof fn lemma_resolved_flagged(
    servers: Seq<(Seq<char>, SpecView)>,
    name: Seq<char>,
    on: bool,
    env: Map<Seq<char>, Seq<char>>,
)
    ensures
        match resolved(servers, env) {
            Ok(list) => resolved(flagged(servers, name, on), env) == Ok::<
                Seq<UpstreamView>,
                ErrorView,
            >(flag_shown(list, name, on)),
            Err(e) => resolved(flagged(servers, name, on), env) == Err::<
                Seq<UpstreamView>,
                ErrorView,
            >(e),
        },
    decreases servers.len(),
{
    let changed = flagged(servers, name, on);
    if servers.len() == 0 {
        assert(resolved(changed, env) matches Ok(list) && list =~= flag_shown(
            Seq::empty(),
            name,
            on,
        ));
    } else {
        let front = servers.drop_last();
        lemma_resolved_flagged(front, name, on, env);
        assert(changed.drop_last() =~= flagged(front, name, on));
        if let Ok(list) = resolved(servers, env) {
            let listed = resolved(front, env)->Ok_0;
            assert(list =~= listed.push(list.last()));
            assert(flag_shown(list, name, on) =~= flag_shown(listed, name, on).push(
                flag_shown(list, name, on).last(),
            ));
        }
    }
}

/// Two values that are both missing, or both there and alike.
spec fn alike_opt(a: Option<JsonView>, b: Option<JsonView>, depth: nat) -> bool {
    match (a, b) {
        (None, None) => true,
        (Some(x), Some(y)) => alike(x, y, depth),
        _ => false,
    }
}

/// The members of alike values are alike.
proof fn lemma_member_alike(a: JsonView, b: JsonView, depth: nat, key: Seq<char>)
    requires
        alike(a, b, depth),
    ensures
        alike_opt(member(a, key), member(b, key), if depth > 0 {
            (depth - 1) as nat
        } else {
            0
        }),
{
    if let (JsonView::Object(x), JsonView::Object(y)) = (a, b) {
        assert(x.contains_key(key) <==> y.contains_key(key));
    }
}

/// Alike values say the same pairs of strings: none of them is floating.
proof fn lemma_pairs_alike(
    a: Option<JsonView>,
    b: Option<JsonView>,
    depth: nat,
    pairs: Seq<(Seq<char>, Seq<char>)>,
)
    requires
        alike_opt(a, b, depth),
        says_pairs(a, pairs),
    ensures
        says_pairs(b, pairs),
{
    reveal_with_fuel(alike, 2);
    if let (Some(JsonView::Object(x)), Some(JsonView::Object(y))) = (a, b) {
        assert forall|i: int| 0 <= i < pairs.len() implies y[(#[trigger] pairs[i]).0]
            == JsonView::Text(pairs[i].1) by {
            assert(firsts(pairs)[i] == pairs[i].0);
            assert(firsts(pairs).contains(pairs[i].0));
            assert(x.contains_key(pairs[i].0));
        }
        assert forall|k: Seq<char>| #[trigger]
            y.contains_key(k) <==> firsts(pairs).contains(k) by {
            assert(x.contains_key(k) <==> y.contains_key(k));
        }
    }
}

/// Alike values specify the same server: no part of a specification is floating.
proof fn lemma_server_alike(a: JsonView, b: JsonView, depth: nat, spec: SpecView)
    requires
        alike(a, b, depth),
        says_server(a, spec),
    ensures
        says_server(b, spec),
{
    reveal_with_fuel(alike, 2);
    let below: nat = if depth > 0 {
        (depth - 1) as nat
    } else {
        0
    };
    lemma_member_alike(a, b, depth, "type"@);
    lemma_member_alike(a, b, depth, "enabled"@);
    lemma_member_alike(a, b, depth, "timeout"@);
    match spec {
        SpecView::Local { command, environment, .. } => {
            lemma_member_alike(a, b, depth, "command"@);
            lemma_member_alike(a, b, depth, "environment"@);
            lemma_member_alike(a, b, depth, "cwd"@);
            let x = member(a, "command"@)->0->List_0;
            let y = member(b, "command"@)->0->List_0;
            assert forall|i: int| 0 <= i < command.len() implies #[trigger] y[i]
                == JsonView::Text(command[i]) by {
                assert(x[i] == JsonView::Text(command[i]));
            }
            lemma_pairs_alike(
                member(a, "environment"@),
                member(b, "environment"@),
                below,
                environment,
            );
        },
        SpecView::Remote { headers, .. } => {
            lemma_member_alike(a, b, depth, "url"@);
            lemma_member_alike(a, b, depth, "headers"@);
            lemma_pairs_alike(member(a, "headers"@), member(b, "headers"@), below, headers);
        },
    }
}

/// Files whose values are alike specify the same servers.
proof fn lemma_file_alike(
    a: JsonView,
    b: JsonView,
    depth: nat,
    servers: Seq<(Seq<char>, SpecView)>,
)
    requires
        alike(a, b, depth),
        says_file(a, servers),
    ensures
        says_file(b, servers),
{
    lemma_member_alike(a, b, depth, "mcp"@);
    if let (Some(JsonView::Object(x)), Some(JsonView::Object(y))) = (
        member(a, "mcp"@),
        member(b, "mcp"@),
    ) {
        let below: nat = if depth > 1 {
            (depth - 2) as nat
        } else {
            0
        };
        assert forall|k: Seq<char>| #[trigger]
            y.contains_key(k) <==> firsts(servers).contains(k) by {
            assert(x.contains_key(k) <==> y.contains_key(k));
        }
        assert forall|i: int| 0 <= i < servers.len() implies says_server(
            y[(#[trigger] servers[i]).0],
            servers[i].1,
        ) by {
            assert(firsts(servers)[i] == servers[i].0);
            assert(firsts(servers).contains(servers[i].0));
            assert(x.contains_key(servers[i].0));
            lemma_server_alike(x[servers[i].0], y[servers[i].0], below, servers[i].1);
        }
    }
}

/// Whether a text specifies these servers: it is read as a value that does.
pub open spec fn text_says(text: Seq<char>, servers: Seq<(Seq<char>, SpecView)>) -> bool {
    json_parsed(text) matches Ok(root) && says_file(root, servers)
}

/// Setting a server's `enabled` flag in the file shows at the next load in this and
/// nothing else: the same servers come in the same order; the named one, which is
/// among them, has the new flag; every other one, and everything else of the named
/// one, is as it was. Where the first load fails, the next one fails with the same
/// error.
///
/// `before` is the text of the file with the value `root`, and `after` the text that
/// was written for the changed value, of which `set_enabled` promises what is asked
/// here; `had` and `has` are the servers that the two specify.
pub proof fn law_load_shows_the_flag_that_was_set(
    path: Seq<char>,
    before: Seq<char>,
    root: JsonView,
    name: Seq<char>,
    on: bool,
    after: Seq<char>,
    had: Seq<(Seq<char>, SpecView)>,
    has: Seq<(Seq<char>, SpecView)>,
    env: Map<Seq<char>, Seq<char>>,
)
    requires
        reads_as(before, root),
        with_enabled(root, name, on) is Some,
        reads_alike(after, with_enabled(root, name, on)->0),
        text_says(before, had),
        text_says(after, has),
    ensures
        firsts(had).contains(name),
        match loaded_all(path, SourceView::Parsed(had), env) {
            Ok(list) => loaded_all(path, SourceView::Parsed(has), env) == Ok::<
                Seq<UpstreamView>,
                ErrorView,
            >(flag_shown(list, name, on)),
            Err(e) => loaded_all(path, SourceView::Parsed(has), env) == Err::<
                Seq<UpstreamView>,
                ErrorView,
            >(e),
        },
{
    let back = json_parsed(after)->Ok_0;
    lemma_file_alike(back, with_enabled(root, name, on)->0, MAX_NESTING as nat, has);
    lemma_file_flagged(root, name, on, had, has);
    lemma_resolved_flagged(had, name, on, env);
}

} // verus!
