//! The configuration file `mcp.json`: the upstream servers and how they are
//! reached.
//!
//! ```json
//! {
//!   "mcp": {
//!     "github": { "type": "local", "command": ["npx", "-y", "..."], "environment": {"X": "y"} },
//!     "sentry": { "type": "remote", "url": "https://mcp.sentry.dev/mcp", "headers": {"Authorization": "Bearer {env:TOKEN}"} }
//!   }
//! }
//! ```
//! Values may hold `{env:VAR}`, which stands for the value of an environment
//! variable. Entries with `"enabled": false` are skipped at startup.

use crate::error::{quote, quoted, Error, ErrorView};
use crate::json::{
    fits_within, json_parsed, json_pretty, member, members_view, parse, plain_within, pretty, put,
    reads_alike, reads_as, take_member, texts, Json, JsonView, MAX_NESTING,
};
use crate::names::{ascending, keys_of, NameMap};
use crate::text::{before, chars_of, copy_text, copy_texts, opt_text, pairs_of, same, texts_of};
use vstd::prelude::*;
use vstd::string::*;

verus! {

/// The environment variables: each name with its value. Where a name occurs
/// twice the first counts.
pub struct EnvVars {
    pub vars: Vec<(String, String)>,
}

/// What each name of a list is set to, the first entry of a name counting.
pub open spec fn env_map(vars: Seq<(String, String)>) -> Map<Seq<char>, Seq<char>>
    decreases vars.len(),
{
    if vars.len() == 0 {
        Map::empty()
    } else {
        env_map(vars.drop_first()).insert(vars[0].0@, vars[0].1@)
    }
}

impl View for EnvVars {
    type V = Map<Seq<char>, Seq<char>>;

    open spec fn view(&self) -> Map<Seq<char>, Seq<char>> {
        env_map(self.vars@)
    }
}

impl EnvVars {
    /// The value of a variable, if it is set.
    pub fn get(&self, name: &str) -> (r: Option<&String>)
        ensures
            match r {
                Some(v) => self@.contains_key(name@) && v@ == self@[name@],
                None => !self@.contains_key(name@),
            },
    {
        let mut i: usize = 0;
        assert(self.vars@.skip(0) =~= self.vars@);
        while i < self.vars.len()
            invariant
                i <= self.vars.len(),
                self@.contains_key(name@) == env_map(self.vars@.skip(i as int)).contains_key(name@),
                self@.contains_key(name@) ==> self@[name@] == env_map(
                    self.vars@.skip(i as int),
                )[name@],
            decreases self.vars.len() - i,
        {
            let ghost rest = self.vars@.skip(i as int);
            assert(rest[0] == self.vars@[i as int]);
            assert(rest.drop_first() =~= self.vars@.skip(i + 1));
            if same(self.vars[i].0.as_str(), name) {
                return Some(&self.vars[i].1);
            }
            i = i + 1;
        }
        None
    }
}

/// Whether a string starts with `{env:`.
pub open spec fn starts_with_marker(s: Seq<char>) -> bool {
    s.len() >= 5 && s[0] == '{' && s[1] == 'e' && s[2] == 'n' && s[3] == 'v' && s[4] == ':'
}

/// Where `{env:` first occurs.
pub open spec fn first_marker(s: Seq<char>) -> Option<int>
    decreases s.len(),
{
    if s.len() == 0 {
        None
    } else if starts_with_marker(s) {
        Some(0)
    } else {
        match first_marker(s.drop_first()) {
            Some(n) => Some(n + 1),
            None => None,
        }
    }
}

/// Where a character first occurs.
pub open spec fn first_char(s: Seq<char>, c: char) -> Option<int>
    decreases s.len(),
{
    if s.len() == 0 {
        None
    } else if s[0] == c {
        Some(0)
    } else {
        match first_char(s.drop_first(), c) {
            Some(n) => Some(n + 1),
            None => None,
        }
    }
}

/// Why a string cannot be interpolated.
pub enum Fault {
    /// A `{env:` has no closing brace.
    Unterminated,
    /// A variable is not set.
    Unset(Seq<char>),
}

/// `s` with every `{env:VAR}` replaced by the value of `VAR`, from the left to
/// the right; values are not searched again. The first placeholder that cannot
/// be replaced is the fault.
pub open spec fn interpolated(s: Seq<char>, env: Map<Seq<char>, Seq<char>>) -> Result<
    Seq<char>,
    Fault,
>
    decreases s.len(),
    via interpolated_shorter
{
    match first_marker(s) {
        None => Ok(s),
        Some(start) => {
            let after = s.skip(start + 5);
            match first_char(after, '}') {
                None => Err(Fault::Unterminated),
                Some(end) => {
                    let var = after.take(end);
                    if !env.contains_key(var) {
                        Err(Fault::Unset(var))
                    } else {
                        match interpolated(after.skip(end + 1), env) {
                            Ok(rest) => Ok(s.take(start) + env[var] + rest),
                            Err(fault) => Err(fault),
                        }
                    }
                },
            }
        },
    }
}

#[via_fn]
proof fn interpolated_shorter(s: Seq<char>, env: Map<Seq<char>, Seq<char>>) {
    lemma_first_marker(s);
    if let Some(start) = first_marker(s) {
        lemma_first_char(s.skip(start + 5), '}');
    }
}

/// A marker that is found lies inside the string.
pub proof fn lemma_first_marker(s: Seq<char>)
    ensures
        first_marker(s) matches Some(n) ==> 0 <= n && n + 5 <= s.len() && starts_with_marker(
            s.skip(n),
        ),
    decreases s.len(),
{
    if s.len() > 0 {
        if starts_with_marker(s) {
            assert(s.skip(0) =~= s);
        } else {
            lemma_first_marker(s.drop_first());
            if let Some(n) = first_marker(s.drop_first()) {
                assert(s.drop_first().skip(n) =~= s.skip(n + 1));
            }
        }
    }
}

/// A character that is found lies inside the string.
pub proof fn lemma_first_char(s: Seq<char>, c: char)
    ensures
        first_char(s, c) matches Some(n) ==> 0 <= n < s.len() && s[n] == c,
    decreases s.len(),
{
    if s.len() > 0 && s[0] != c {
        lemma_first_char(s.drop_first(), c);
    }
}

/// The error for a fault in `s`.
pub open spec fn fault_error(s: Seq<char>, fault: Fault) -> ErrorView {
    match fault {
        Fault::Unterminated => ErrorView::Config("unterminated {env:...} in "@ + quoted(s)),
        Fault::Unset(var) => ErrorView::Config(
            "env var "@ + var + " referenced in config is not set"@,
        ),
    }
}

/// `s` interpolated, or the error that is reported.
pub open spec fn interpolated_text(s: Seq<char>, env: Map<Seq<char>, Seq<char>>) -> Result<
    Seq<char>,
    ErrorView,
> {
    match interpolated(s, env) {
        Ok(t) => Ok(t),
        Err(fault) => Err(fault_error(s, fault)),
    }
}

/// A `Result` of a string and an error, by what they mean.
pub open spec fn text_result(r: Result<String, Error>) -> Result<Seq<char>, ErrorView> {
    match r {
        Ok(s) => Ok(s@),
        Err(e) => Err(e@),
    }
}

/// Where `{env:` first occurs from place `from` on.
fn find_marker(s: &Vec<char>, from: usize) -> (r: Option<usize>)
    requires
        from <= s.len(),
    ensures
        match r {
            Some(i) => from <= i && i + 5 <= s.len() && first_marker(s@.skip(from as int)) == Some(
                i - from,
            ),
            None => first_marker(s@.skip(from as int)) is None,
        },
        match r {
            Some(i) => s@.skip(i as int).take(5) == "{env:"@ && forall|j: int|
                from <= j < i ==> (#[trigger] s@.skip(j)).take(5) != "{env:"@,
            None => forall|j: int|
                from <= j && j + 5 <= s.len() ==> (#[trigger] s@.skip(j)).take(5) != "{env:"@,
        },
{
    proof {
        reveal_strlit("{env:");
        assert("{env:"@ =~= seq!['{', 'e', 'n', 'v', ':']);
    }
    let ghost whole = s@.skip(from as int);
    let mut i: usize = from;
    assert(whole.skip(0) =~= whole);
    while i < s.len()
        invariant
            from <= i <= s.len(),
            whole == s@.skip(from as int),
            "{env:"@ == seq!['{', 'e', 'n', 'v', ':'],
            forall|j: int|
                from <= j < i && j + 5 <= s.len() ==> (#[trigger] s@.skip(j)).take(5) != "{env:"@,
            first_marker(whole) == (match first_marker(whole.skip(i - from)) {
                Some(n) => Some(n + (i - from)),
                None => None,
            }),
        decreases s.len() - i,
    {
        let ghost here = whole.skip(i - from);
        assert(here.len() == s.len() - i);
        if s.len() - i >= 5 {
            assert(here[0] == s@[i as int] && here[1] == s@[i + 1] && here[2] == s@[i + 2]
                && here[3] == s@[i + 3] && here[4] == s@[i + 4]);
            if s[i] == '{' && s[i + 1] == 'e' && s[i + 2] == 'n' && s[i + 3] == 'v' && s[i + 4]
                == ':' {
                assert(s@.skip(i as int).take(5) =~= "{env:"@);
                return Some(i);
            }
            let ghost piece = s@.skip(i as int).take(5);
            assert(piece[0] == s@[i as int] && piece[1] == s@[i + 1] && piece[2] == s@[i + 2]
                && piece[3] == s@[i + 3] && piece[4] == s@[i + 4]);
        }
        assert(here.drop_first() =~= whole.skip(i + 1 - from));
        i = i + 1;
    }
    None
}

/// Where a character first occurs from place `from` on.
fn find_char(s: &Vec<char>, from: usize, c: char) -> (r: Option<usize>)
    requires
        from <= s.len(),
    ensures
        match r {
            Some(i) => from <= i < s.len() && first_char(s@.skip(from as int), c) == Some(i - from),
            None => first_char(s@.skip(from as int), c) is None,
        },
        match r {
            Some(i) => s@[i as int] == c && forall|j: int| from <= j < i ==> #[trigger] s@[j] != c,
            None => forall|j: int| from <= j < s.len() ==> #[trigger] s@[j] != c,
        },
{
    let ghost whole = s@.skip(from as int);
    let mut i: usize = from;
    assert(whole.skip(0) =~= whole);
    while i < s.len()
        invariant
            from <= i <= s.len(),
            whole == s@.skip(from as int),
            forall|j: int| from <= j < i ==> #[trigger] s@[j] != c,
            first_char(whole, c) == (match first_char(whole.skip(i - from), c) {
                Some(n) => Some(n + (i - from)),
                None => None,
            }),
        decreases s.len() - i,
    {
        let ghost here = whole.skip(i - from);
        assert(here[0] == s@[i as int]);
        if s[i] == c {
            return Some(i);
        }
        assert(here.drop_first() =~= whole.skip(i + 1 - from));
        i = i + 1;
    }
    None
}

/// Replaces `{env:VAR}` occurrences with the value of `VAR`. A variable that is
/// not set is an error, so that a wrong configuration fails loudly at startup.
pub fn interpolate(s: &str, env: &EnvVars) -> (r: Result<String, Error>)
    ensures
        text_result(r) == interpolated_text(s@, env@),
{
    let x = chars_of(s);
    let mut result = String::new();
    let mut pos: usize = 0;
    assert(x@.skip(0) =~= s@);
    assert(interpolated(s@, env@) matches Ok(rest) ==> Seq::<char>::empty() + rest =~= rest);
    loop
        invariant
            x@ == s@,
            pos <= x.len(),
            interpolated(s@, env@) == (match interpolated(x@.skip(pos as int), env@) {
                Ok(rest) => Ok(result@ + rest),
                Err(fault) => Err(fault),
            }),
        decreases x.len() - pos,
    {
        let ghost rest = x@.skip(pos as int);
        match find_marker(&x, pos) {
            None => {
                result.append(s.substring_char(pos, x.len()));
                assert(s@.subrange(pos as int, x.len() as int) =~= rest);
                return Ok(result);
            },
            Some(start) => {
                let ghost after = rest.skip(start - pos + 5);
                assert(after =~= x@.skip(start + 5));
                match find_char(&x, start + 5, '}') {
                    None => {
                        return Err(
                            Error::Config(
                                "unterminated {env:...} in ".to_owned().concat(quote(s).as_str()),
                            ),
                        );
                    },
                    Some(end) => {
                        let name = s.substring_char(start + 5, end);
                        assert(name@ =~= after.take(end - (start + 5)));
                        match env.get(name) {
                            None => {
                                return Err(
                                    Error::Config(
                                        "env var ".to_owned().concat(name).concat(
                                            " referenced in config is not set",
                                        ),
                                    ),
                                );
                            },
                            Some(value) => {
                                let ghost done = result@;
                                result.append(s.substring_char(pos, start));
                                result.append(value.as_str());
                                proof {
                                    let next = x@.skip(end + 1);
                                    assert(after.skip(end - (start + 5) + 1) =~= next);
                                    assert(rest.take(start - pos) =~= s@.subrange(
                                        pos as int,
                                        start as int,
                                    ));
                                    if let Ok(tail) = interpolated(next, env@) {
                                        assert(done + (rest.take(start - pos) + value@ + tail)
                                            =~= result@ + tail);
                                    }
                                }
                                pos = end + 1;
                            },
                        }
                    },
                }
            },
        }
    }
}

/// The configuration file. Only its `mcp` object is used.
#[derive(Debug)]
pub struct ConfigFile {
    pub mcp: NameMap<ServerSpec>,
}

/// How one upstream server is reached.
#[derive(Debug)]
pub enum ServerSpec {
    /// A child process that talks over its standard streams.
    Local {
        command: Vec<String>,
        environment: NameMap<String>,
        cwd: Option<String>,
        enabled: Option<bool>,
        timeout: Option<u64>,
    },
    /// A server that is reached over Streamable HTTP.
    Remote {
        url: String,
        headers: NameMap<String>,
        enabled: Option<bool>,
        timeout: Option<u64>,
    },
}

/// A server's specification by the characters of its strings; environment and
/// headers in ascending order of their names.
pub enum SpecView {
    Local {
        command: Seq<Seq<char>>,
        environment: Seq<(Seq<char>, Seq<char>)>,
        cwd: Option<Seq<char>>,
        enabled: Option<bool>,
        timeout: Option<u64>,
    },
    Remote {
        url: Seq<char>,
        headers: Seq<(Seq<char>, Seq<char>)>,
        enabled: Option<bool>,
        timeout: Option<u64>,
    },
}

impl View for ServerSpec {
    type V = SpecView;

    open spec fn view(&self) -> SpecView {
        match self {
            ServerSpec::Local { command, environment, cwd, enabled, timeout } => SpecView::Local {
                command: texts_of(command@),
                environment: pairs_of(environment.list()),
                cwd: opt_text(*cwd),
                enabled: *enabled,
                timeout: *timeout,
            },
            ServerSpec::Remote { url, headers, enabled, timeout } => SpecView::Remote {
                url: url@,
                headers: pairs_of(headers.list()),
                enabled: *enabled,
                timeout: *timeout,
            },
        }
    }
}

/// Copies a map of strings.
fn copy_pairs(map: &NameMap<String>) -> (r: NameMap<String>)
    ensures
        r.list() == map.list(),
{
    let mut out: Vec<(String, String)> = Vec::new();
    let mut i: usize = 0;
    while i < map.len()
        invariant
            i <= map.list().len(),
            out@ == map.list().take(i as int),
        decreases map.list().len() - i,
    {
        let entry = map.entry(i);
        out.push((entry.0.clone(), entry.1.clone()));
        i = i + 1;
    }
    proof {
        use_type_invariant(map);
        assert(out@ =~= map.list());
    }
    NameMap::from_ascending(out)
}

impl Clone for ServerSpec {
    fn clone(&self) -> (r: Self)
        ensures
            r@ == self@,
    {
        match self {
            ServerSpec::Local { command, environment, cwd, enabled, timeout } => ServerSpec::Local {
                command: copy_texts(command),
                environment: copy_pairs(environment),
                cwd: copy_text(cwd),
                enabled: *enabled,
                timeout: *timeout,
            },
            ServerSpec::Remote { url, headers, enabled, timeout } => ServerSpec::Remote {
                url: url.clone(),
                headers: copy_pairs(headers),
                enabled: *enabled,
                timeout: *timeout,
            },
        }
    }
}

/// Whether a server is connected at startup: unless it says otherwise, yes.
pub open spec fn spec_enabled(spec: SpecView) -> bool {
    match spec {
        SpecView::Local { enabled, .. } => enabled != Some(false),
        SpecView::Remote { enabled, .. } => enabled != Some(false),
    }
}

impl ServerSpec {
    /// Whether this server is connected at startup: unless it says otherwise,
    /// yes.
    pub fn enabled(&self) -> (r: bool)
        ensures
            r == spec_enabled(self@),
    {
        match self {
            ServerSpec::Local { enabled, .. } => enabled.unwrap_or(true),
            ServerSpec::Remote { enabled, .. } => enabled.unwrap_or(true),
        }
    }
}

/// Every string of a list interpolated, or the error of the first that cannot
/// be.
pub open spec fn interpolated_list(
    list: Seq<Seq<char>>,
    env: Map<Seq<char>, Seq<char>>,
) -> Result<Seq<Seq<char>>, ErrorView>
    decreases list.len(),
{
    if list.len() == 0 {
        Ok(Seq::empty())
    } else {
        match interpolated_list(list.drop_last(), env) {
            Err(e) => Err(e),
            Ok(front) => match interpolated_text(list.last(), env) {
                Err(e) => Err(e),
                Ok(t) => Ok(front.push(t)),
            },
        }
    }
}

/// The second strings of a list of pairs interpolated, the first ones kept, or
/// the error of the first that cannot be.
pub open spec fn interpolated_pairs(
    list: Seq<(Seq<char>, Seq<char>)>,
    env: Map<Seq<char>, Seq<char>>,
) -> Result<Seq<(Seq<char>, Seq<char>)>, ErrorView>
    decreases list.len(),
{
    if list.len() == 0 {
        Ok(Seq::empty())
    } else {
        match interpolated_pairs(list.drop_last(), env) {
            Err(e) => Err(e),
            Ok(front) => match interpolated_text(list.last().1, env) {
                Err(e) => Err(e),
                Ok(t) => Ok(front.push((list.last().0, t))),
            },
        }
    }
}

/// A server's specification with every value interpolated: for a local server
/// the command, then the environment, then the working directory; for a remote
/// one the URL, then the headers. The first value that cannot be is the error.
pub open spec fn interpolated_spec(spec: SpecView, env: Map<Seq<char>, Seq<char>>) -> Result<
    SpecView,
    ErrorView,
> {
    match spec {
        SpecView::Local { command, environment, cwd, enabled, timeout } => match interpolated_list(
            command,
            env,
        ) {
            Err(e) => Err(e),
            Ok(command) => match interpolated_pairs(environment, env) {
                Err(e) => Err(e),
                Ok(environment) => match cwd {
                    None => Ok(SpecView::Local { command, environment, cwd: None, enabled, timeout }),
                    Some(dir) => match interpolated_text(dir, env) {
                        Err(e) => Err(e),
                        Ok(dir) => Ok(
                            SpecView::Local {
                                command,
                                environment,
                                cwd: Some(dir),
                                enabled,
                                timeout,
                            },
                        ),
                    },
                },
            },
        },
        SpecView::Remote { url, headers, enabled, timeout } => match interpolated_text(url, env) {
            Err(e) => Err(e),
            Ok(url) => match interpolated_pairs(headers, env) {
                Err(e) => Err(e),
                Ok(headers) => Ok(SpecView::Remote { url, headers, enabled, timeout }),
            },
        },
    }
}

/// Interpolates every string of a list.
fn interpolate_list(list: &Vec<String>, env: &EnvVars) -> (r: Result<Vec<String>, Error>)
    ensures
        match r {
            Ok(out) => interpolated_list(texts_of(list@), env@) == Ok::<Seq<Seq<char>>, ErrorView>(
                texts_of(out@),
            ),
            Err(e) => interpolated_list(texts_of(list@), env@) == Err::<Seq<Seq<char>>, ErrorView>(
                e@,
            ),
        },
{
    let ghost all = texts_of(list@);
    let mut out: Vec<String> = Vec::new();
    let mut i: usize = 0;
    assert(texts_of(out@) =~= Seq::<Seq<char>>::empty());
    while i < list.len()
        invariant
            i <= list.len(),
            all == texts_of(list@),
            interpolated_list(all.take(i as int), env@) == Ok::<Seq<Seq<char>>, ErrorView>(
                texts_of(out@),
            ),
        decreases list.len() - i,
    {
        proof {
            assert(all.take(i + 1).drop_last() =~= all.take(i as int));
            assert(all.take(i + 1).last() == list@[i as int]@);
        }
        match interpolate(list[i].as_str(), env) {
            Ok(t) => {
                let ghost front = texts_of(out@);
                out.push(t);
                assert(texts_of(out@) =~= front.push(t@));
            },
            Err(e) => {
                proof {
                    lemma_list_fault(all, i + 1, env@, e@);
                }
                return Err(e);
            },
        }
        i = i + 1;
    }
    assert(all.take(i as int) =~= all);
    Ok(out)
}

/// The error of a front part of a list is the error of the list.
proof fn lemma_list_fault(
    list: Seq<Seq<char>>,
    n: int,
    env: Map<Seq<char>, Seq<char>>,
    e: ErrorView,
)
    requires
        0 <= n <= list.len(),
        interpolated_list(list.take(n), env) == Err::<Seq<Seq<char>>, ErrorView>(e),
    ensures
        interpolated_list(list, env) == Err::<Seq<Seq<char>>, ErrorView>(e),
    decreases list.len() - n,
{
    if n == list.len() {
        assert(list.take(n) =~= list);
    } else {
        assert(list.take(n + 1).drop_last() =~= list.take(n));
        lemma_list_fault(list, n + 1, env, e);
    }
}

/// Interpolates the values of a map of strings.
fn interpolate_pairs(map: &NameMap<String>, env: &EnvVars) -> (r: Result<NameMap<String>, Error>)
    ensures
        match r {
            Ok(out) => interpolated_pairs(pairs_of(map.list()), env@) == Ok::<
                Seq<(Seq<char>, Seq<char>)>,
                ErrorView,
            >(pairs_of(out.list())),
            Err(e) => interpolated_pairs(pairs_of(map.list()), env@) == Err::<
                Seq<(Seq<char>, Seq<char>)>,
                ErrorView,
            >(e@),
        },
{
    let ghost all = pairs_of(map.list());
    let mut out: Vec<(String, String)> = Vec::new();
    let mut i: usize = 0;
    assert(pairs_of(out@) =~= Seq::<(Seq<char>, Seq<char>)>::empty());
    while i < map.len()
        invariant
            i <= map.list().len(),
            all == pairs_of(map.list()),
            out.len() == i,
            forall|j: int| 0 <= j < i ==> (#[trigger] out@[j]).0@ == map.list()[j].0@,
            interpolated_pairs(all.take(i as int), env@) == Ok::<
                Seq<(Seq<char>, Seq<char>)>,
                ErrorView,
            >(pairs_of(out@)),
        decreases map.list().len() - i,
    {
        let entry = map.entry(i);
        proof {
            assert(all.take(i + 1).drop_last() =~= all.take(i as int));
            assert(all.take(i + 1).last() == (entry.0@, entry.1@));
        }
        match interpolate(entry.1.as_str(), env) {
            Ok(t) => {
                let ghost front = pairs_of(out@);
                out.push((entry.0.clone(), t));
                assert(pairs_of(out@) =~= front.push((entry.0@, t@)));
            },
            Err(e) => {
                proof {
                    lemma_pairs_fault(all, i + 1, env@, e@);
                }
                return Err(e);
            },
        }
        i = i + 1;
    }
    proof {
        assert(all.take(i as int) =~= all);
        use_type_invariant(map);
        assert(keys_of(out@) =~= keys_of(map.list()));
    }
    Ok(NameMap::from_ascending(out))
}

/// The error of a front part of a list of pairs is the error of the list.
proof fn lemma_pairs_fault(
    list: Seq<(Seq<char>, Seq<char>)>,
    n: int,
    env: Map<Seq<char>, Seq<char>>,
    e: ErrorView,
)
    requires
        0 <= n <= list.len(),
        interpolated_pairs(list.take(n), env) == Err::<Seq<(Seq<char>, Seq<char>)>, ErrorView>(e),
    ensures
        interpolated_pairs(list, env) == Err::<Seq<(Seq<char>, Seq<char>)>, ErrorView>(e),
    decreases list.len() - n,
{
    if n == list.len() {
        assert(list.take(n) =~= list);
    } else {
        assert(list.take(n + 1).drop_last() =~= list.take(n));
        lemma_pairs_fault(list, n + 1, env, e);
    }
}

/// Interpolates every value of a server's specification.
pub fn interpolate_spec(spec: &ServerSpec, env: &EnvVars) -> (r: Result<ServerSpec, Error>)
    ensures
        match r {
            Ok(out) => interpolated_spec(spec@, env@) == Ok::<SpecView, ErrorView>(out@),
            Err(e) => interpolated_spec(spec@, env@) == Err::<SpecView, ErrorView>(e@),
        },
{
    match spec {
        ServerSpec::Local { command, environment, cwd, enabled, timeout } => {
            let command = match interpolate_list(command, env) {
                Ok(command) => command,
                Err(e) => {
                    return Err(e);
                },
            };
            let environment = match interpolate_pairs(environment, env) {
                Ok(environment) => environment,
                Err(e) => {
                    return Err(e);
                },
            };
            let cwd = match cwd {
                None => None,
                Some(dir) => match interpolate(dir.as_str(), env) {
                    Ok(dir) => Some(dir),
                    Err(e) => {
                        return Err(e);
                    },
                },
            };
            Ok(ServerSpec::Local { command, environment, cwd, enabled: *enabled, timeout: *timeout })
        },
        ServerSpec::Remote { url, headers, enabled, timeout } => {
            let url = match interpolate(url.as_str(), env) {
                Ok(url) => url,
                Err(e) => {
                    return Err(e);
                },
            };
            let headers = match interpolate_pairs(headers, env) {
                Ok(headers) => headers,
                Err(e) => {
                    return Err(e);
                },
            };
            Ok(ServerSpec::Remote { url, headers, enabled: *enabled, timeout: *timeout })
        },
    }
}

/// A server with its values interpolated, and whether the file enables it.
#[derive(Debug)]
pub struct UpstreamConfig {
    pub name: String,
    pub spec: ServerSpec,
    /// Whether this server is enabled in the file.
    pub enabled: bool,
}

/// A resolved server by the characters of its strings.
pub struct UpstreamView {
    pub name: Seq<char>,
    pub spec: SpecView,
    pub enabled: bool,
}

impl View for UpstreamConfig {
    type V = UpstreamView;

    open spec fn view(&self) -> UpstreamView {
        UpstreamView { name: self.name@, spec: self.spec@, enabled: self.enabled }
    }
}

impl Clone for UpstreamConfig {
    fn clone(&self) -> (r: Self)
        ensures
            r@ == self@,
    {
        UpstreamConfig {
            name: self.name.clone(),
            spec: self.spec.clone(),
            enabled: self.enabled,
        }
    }
}

/// A list of resolved servers by what they mean.
pub open spec fn configs_of(list: Seq<UpstreamConfig>) -> Seq<UpstreamView> {
    Seq::new(list.len(), |i: int| list[i]@)
}

/// What came of reading the configuration file.
#[derive(Debug)]
pub enum ConfigSource {
    /// The file cannot be read; the reason.
    Unreadable(String),
    /// The file does not hold a configuration; the parser's message.
    Invalid(String),
    /// The file as it was read.
    Parsed(ConfigFile),
}

/// What came of reading the configuration file, by what it means; the servers
/// in ascending order of their names.
pub enum SourceView {
    Unreadable(Seq<char>),
    Invalid(Seq<char>),
    Parsed(Seq<(Seq<char>, SpecView)>),
}

/// The servers of a file, in order.
pub open spec fn servers_of(list: Seq<(String, ServerSpec)>) -> Seq<(Seq<char>, SpecView)> {
    Seq::new(list.len(), |i: int| (list[i].0@, list[i].1@))
}

impl View for ConfigSource {
    type V = SourceView;

    open spec fn view(&self) -> SourceView {
        match self {
            ConfigSource::Unreadable(e) => SourceView::Unreadable(e@),
            ConfigSource::Invalid(e) => SourceView::Invalid(e@),
            ConfigSource::Parsed(file) => SourceView::Parsed(servers_of(file.mcp.list())),
        }
    }
}

/// The servers of a file with their values interpolated, in order, or the error
/// of the first that cannot be.
pub open spec fn resolved(
    servers: Seq<(Seq<char>, SpecView)>,
    env: Map<Seq<char>, Seq<char>>,
) -> Result<Seq<UpstreamView>, ErrorView>
    decreases servers.len(),
{
    if servers.len() == 0 {
        Ok(Seq::empty())
    } else {
        match resolved(servers.drop_last(), env) {
            Err(e) => Err(e),
            Ok(front) => match interpolated_spec(servers.last().1, env) {
                Err(e) => Err(e),
                Ok(spec) => Ok(
                    front.push(
                        UpstreamView {
                            name: servers.last().0,
                            spec,
                            enabled: spec_enabled(servers.last().1),
                        },
                    ),
                ),
            },
        }
    }
}

/// The error for a configuration file that cannot be read.
pub open spec fn unreadable_error(path: Seq<char>, reason: Seq<char>) -> ErrorView {
    ErrorView::Config("cannot read config "@ + path + ": "@ + reason)
}

/// The error for a configuration file that does not hold a configuration.
pub open spec fn invalid_error(path: Seq<char>, reason: Seq<char>) -> ErrorView {
    ErrorView::Config("invalid config "@ + path + ": "@ + reason)
}

/// Every server of the file at `path`, or the error.
pub open spec fn loaded_all(
    path: Seq<char>,
    source: SourceView,
    env: Map<Seq<char>, Seq<char>>,
) -> Result<Seq<UpstreamView>, ErrorView> {
    match source {
        SourceView::Unreadable(e) => Err(unreadable_error(path, e)),
        SourceView::Invalid(e) => Err(invalid_error(path, e)),
        SourceView::Parsed(servers) => resolved(servers, env),
    }
}

/// The servers of a list that are enabled.
pub open spec fn enabled_only(list: Seq<UpstreamView>) -> Seq<UpstreamView> {
    list.filter(|c: UpstreamView| c.enabled)
}

/// The enabled servers of the file at `path`, or the error.
pub open spec fn loaded(
    path: Seq<char>,
    source: SourceView,
    env: Map<Seq<char>, Seq<char>>,
) -> Result<Seq<UpstreamView>, ErrorView> {
    match loaded_all(path, source, env) {
        Ok(list) => Ok(enabled_only(list)),
        Err(e) => Err(e),
    }
}

/// A `Result` of a list of servers and an error, by what they mean.
pub open spec fn configs_result(r: Result<Vec<UpstreamConfig>, Error>) -> Result<
    Seq<UpstreamView>,
    ErrorView,
> {
    match r {
        Ok(list) => Ok(configs_of(list@)),
        Err(e) => Err(e@),
    }
}

/// The names of a list of servers.
pub open spec fn names_of(list: Seq<UpstreamView>) -> Seq<Seq<char>> {
    Seq::new(list.len(), |i: int| list[i].name)
}

/// The error for a configuration file that cannot be read.
pub fn unreadable(path: &str, reason: &str) -> (r: Error)
    ensures
        r@ == unreadable_error(path@, reason@),
{
    Error::Config("cannot read config ".to_owned().concat(path).concat(": ").concat(reason))
}

/// The error for a configuration file that does not hold a configuration.
pub fn invalid(path: &str, reason: &str) -> (r: Error)
    ensures
        r@ == invalid_error(path@, reason@),
{
    Error::Config("invalid config ".to_owned().concat(path).concat(": ").concat(reason))
}

/// The error for a configuration file that cannot be written.
pub fn unwritable(path: &str, reason: &str) -> (r: Error)
    ensures
        r@ == ErrorView::Config("cannot write config "@ + path@ + ": "@ + reason@),
{
    Error::Config("cannot write config ".to_owned().concat(path).concat(": ").concat(reason))
}

/// The error of a front part of the servers is the error of all.
proof fn lemma_resolved_fault(
    servers: Seq<(Seq<char>, SpecView)>,
    n: int,
    env: Map<Seq<char>, Seq<char>>,
    e: ErrorView,
)
    requires
        0 <= n <= servers.len(),
        resolved(servers.take(n), env) == Err::<Seq<UpstreamView>, ErrorView>(e),
    ensures
        resolved(servers, env) == Err::<Seq<UpstreamView>, ErrorView>(e),
    decreases servers.len() - n,
{
    if n == servers.len() {
        assert(servers.take(n) =~= servers);
    } else {
        assert(servers.take(n + 1).drop_last() =~= servers.take(n));
        lemma_resolved_fault(servers, n + 1, env, e);
    }
}

/// Every server of the configuration file, enabled or not, in ascending order of
/// their names, with `{env:VAR}` interpolated. A server that is disabled now can
/// still be connected on demand.
pub fn load_all(path: &str, source: ConfigSource, env: &EnvVars) -> (r: Result<
    Vec<UpstreamConfig>,
    Error,
>)
    ensures
        configs_result(r) == loaded_all(path@, source@, env@),
        r matches Ok(list) ==> ascending(names_of(configs_of(list@))),
{
    let file = match source {
        ConfigSource::Unreadable(e) => {
            return Err(unreadable(path, e.as_str()));
        },
        ConfigSource::Invalid(e) => {
            return Err(invalid(path, e.as_str()));
        },
        ConfigSource::Parsed(file) => file,
    };
    let mcp = file.mcp;
    let ghost all = servers_of(mcp.list());
    let mut out: Vec<UpstreamConfig> = Vec::new();
    let mut i: usize = 0;
    assert(configs_of(out@) =~= Seq::<UpstreamView>::empty());
    while i < mcp.len()
        invariant
            i <= mcp.list().len(),
            all == servers_of(mcp.list()),
            source@ == SourceView::Parsed(all),
            out.len() == i,
            forall|j: int| 0 <= j < i ==> (#[trigger] out@[j]).name@ == mcp.list()[j].0@,
            resolved(all.take(i as int), env@) == Ok::<Seq<UpstreamView>, ErrorView>(
                configs_of(out@),
            ),
        decreases mcp.list().len() - i,
    {
        let entry = mcp.entry(i);
        proof {
            assert(all.take(i + 1).drop_last() =~= all.take(i as int));
            assert(all.take(i + 1).last() == (entry.0@, entry.1@));
        }
        let enabled = entry.1.enabled();
        match interpolate_spec(&entry.1, env) {
            Ok(spec) => {
                let ghost front = configs_of(out@);
                let config = UpstreamConfig { name: entry.0.clone(), spec, enabled };
                out.push(config);
                assert(configs_of(out@) =~= front.push(config@));
            },
            Err(e) => {
                proof {
                    lemma_resolved_fault(all, i + 1, env@, e@);
                }
                return Err(e);
            },
        }
        i = i + 1;
    }
    proof {
        assert(all.take(i as int) =~= all);
        use_type_invariant(&mcp);
        assert(names_of(configs_of(out@)) =~= keys_of(mcp.list()));
    }
    Ok(out)
}

/// The enabled servers of the configuration file, with `{env:VAR}` interpolated:
/// the ones to connect at startup.
pub fn load(path: &str, source: ConfigSource, env: &EnvVars) -> (r: Result<
    Vec<UpstreamConfig>,
    Error,
>)
    ensures
        configs_result(r) == loaded(path@, source@, env@),
{
    match load_all(path, source, env) {
        Err(e) => Err(e),
        Ok(list) => {
            let ghost all = configs_of(list@);
            let ghost keep = |c: UpstreamView| c.enabled;
            let mut out: Vec<UpstreamConfig> = Vec::new();
            assert(configs_of(out@) =~= all.take(0).filter(keep)) by {
                reveal(Seq::filter);
            }
            for config in it: list.into_iter()
                invariant
                    it.seq() == list@,
                    all == configs_of(list@),
                    keep == (|c: UpstreamView| c.enabled),
                    configs_of(out@) == all.take(it.index() as int).filter(keep),
            {
                let ghost n = it.index() as int;
                proof {
                    assert(config@ == all[n]);
                    assert(all.take(n + 1) =~= all.take(n).push(config@));
                    all.take(n).lemma_filter_push(config@, keep);
                }
                if config.enabled {
                    let ghost front = configs_of(out@);
                    out.push(config);
                    assert(configs_of(out@) =~= front.push(config@));
                }
            }
            assert(all.take(all.len() as int) =~= all);
            Ok(out)
        },
    }
}

/// The servers to connect at startup are those that the file enables, each once
/// and in ascending order of their names.
pub proof fn law_load_keeps_the_enabled(list: Seq<UpstreamView>)
    requires
        ascending(names_of(list)),
    ensures
        ascending(names_of(enabled_only(list))),
        forall|c: UpstreamView| #[trigger]
            enabled_only(list).contains(c) <==> list.contains(c) && c.enabled,
    decreases list.len(),
{
    let keep = |c: UpstreamView| c.enabled;
    if list.len() == 0 {
        assert(enabled_only(list) =~= Seq::empty()) by {
            reveal(Seq::filter);
        }
    } else {
        let front = list.drop_last();
        let last = list.last();
        let kept = enabled_only(front);
        let names = names_of(list);
        assert(names_of(front) =~= names.drop_last());
        law_load_keeps_the_enabled(front);
        assert(list =~= front.push(last));
        front.lemma_filter_push(last, keep);
        assert forall|c: UpstreamView| list.contains(c) <==> front.contains(c) || c == last by {
            if front.contains(c) {
                assert(list[front.index_of(c)] == c);
            }
            if c == last {
                assert(list[list.len() - 1] == c);
            }
            if list.contains(c) {
                let i = list.index_of(c);
                if i < front.len() {
                    assert(front[i] == c);
                }
            }
        }
        if last.enabled {
            let all = kept.push(last);
            assert forall|c: UpstreamView| all.contains(c) <==> kept.contains(c) || c == last by {
                if kept.contains(c) {
                    assert(all[kept.index_of(c)] == c);
                }
                if c == last {
                    assert(all[all.len() - 1] == c);
                }
                if all.contains(c) {
                    let i = all.index_of(c);
                    if i < kept.len() {
                        assert(kept[i] == c);
                    }
                }
            }
            assert forall|i: int, j: int| 0 <= i < j < names_of(all).len() implies before(
                #[trigger] names_of(all)[i],
                #[trigger] names_of(all)[j],
            ) by {
                if j < kept.len() {
                    assert(names_of(kept)[i] == names_of(all)[i]);
                    assert(names_of(kept)[j] == names_of(all)[j]);
                } else {
                    assert(kept.contains(kept[i]));
                    let k = front.index_of(kept[i]);
                    assert(front.contains(kept[i]));
                    assert(names[k] == kept[i].name);
                    assert(before(names[k], names[list.len() - 1]));
                }
            }
        }
    }
}

/// The JSON value of the configuration file with the `enabled` flag of a server
/// set. Nothing where the file has no object for that server.
pub open spec fn with_enabled(root: JsonView, name: Seq<char>, enabled: bool) -> Option<JsonView> {
    match root {
        JsonView::Object(top) => match member(root, "mcp"@) {
            Some(JsonView::Object(servers)) => match member(JsonView::Object(servers), name) {
                Some(JsonView::Object(server)) => Some(
                    JsonView::Object(
                        top.insert(
                            "mcp"@,
                            JsonView::Object(
                                servers.insert(
                                    name,
                                    JsonView::Object(
                                        server.insert("enabled"@, JsonView::Bool(enabled)),
                                    ),
                                ),
                            ),
                        ),
                    ),
                ),
                _ => None,
            },
            _ => None,
        },
        _ => None,
    }
}

/// Sets the `enabled` flag of a server in the JSON value of the configuration
/// file. Nothing where the file has no object for that server.
pub fn set_server_enabled(root: Json, name: &str, enabled: bool) -> (r: Option<Json>)
    ensures
        match r {
            Some(j) => with_enabled(root@, name@, enabled) == Some(j@),
            None => with_enabled(root@, name@, enabled) is None,
        },
{
    match root {
        Json::Object(top) => match take_member(top, "mcp") {
            Some((mut top_rest, Json::Object(servers))) => match take_member(servers, name) {
                Some((mut servers_rest, Json::Object(mut server))) => {
                    let ghost all = members_view(servers@);
                    let ghost outer = members_view(top@);
                    let ghost left = members_view(servers_rest@);
                    let ghost outer_left = members_view(top_rest@);
                    put(&mut server, "enabled", Json::Bool(enabled));
                    let server = Json::Object(server);
                    put(&mut servers_rest, name, server);
                    proof {
                        lemma_insert_over(left, all, name@, server@);
                    }
                    let servers = Json::Object(servers_rest);
                    put(&mut top_rest, "mcp", servers);
                    proof {
                        lemma_insert_over(outer_left, outer, "mcp"@, servers@);
                    }
                    Some(Json::Object(top_rest))
                },
                _ => None,
            },
            _ => None,
        },
        _ => None,
    }
}

/// Maps that agree but for one name agree once that name has a value.
proof fn lemma_insert_over(
    a: Map<Seq<char>, JsonView>,
    b: Map<Seq<char>, JsonView>,
    key: Seq<char>,
    value: JsonView,
)
    requires
        a.remove(key) == b.remove(key),
    ensures
        a.insert(key, value) == b.insert(key, value),
{
    assert(a.insert(key, value) =~= a.remove(key).insert(key, value));
    assert(b.insert(key, value) =~= b.remove(key).insert(key, value));
}

/// The text of the configuration file at `path` with the `enabled` flag of a
/// server set, or the error.
pub open spec fn enabled_text(
    path: Seq<char>,
    raw: Result<Seq<char>, Seq<char>>,
    name: Seq<char>,
    enabled: bool,
) -> Result<Seq<char>, ErrorView> {
    match raw {
        Err(reason) => Err(unreadable_error(path, reason)),
        Ok(text) => match json_parsed(text) {
            Err(reason) => Err(invalid_error(path, reason)),
            Ok(root) => match with_enabled(root, name, enabled) {
                None => Err(
                    ErrorView::Config("server "@ + quoted(name) + " not found in "@ + path),
                ),
                Some(changed) => match json_pretty(changed) {
                    Err(reason) => Err(ErrorView::Config("serialize config failed: "@ + reason)),
                    Ok(pretty) => Ok(pretty.push('\n')),
                },
            },
        },
    }
}

/// Sets the `enabled` flag of a server in the configuration file, keeping every
/// other value: from what came of reading the file (the text, or the reason why
/// not) to the text to write.
pub fn set_enabled(path: &str, raw: Result<String, String>, name: &str, enabled: bool) -> (r:
    Result<String, Error>)
    ensures
        text_result(r) == enabled_text(path@, texts(raw), name@, enabled),
        r matches Ok(text) ==> raw matches Ok(before) && json_parsed(before@) matches Ok(root)
            && with_enabled(root, name@, enabled) matches Some(changed) && (plain_within(
            changed,
            MAX_NESTING as nat,
        ) ==> reads_as(text@, changed)) && (fits_within(changed, MAX_NESTING as nat)
            ==> reads_alike(text@, changed)),
        raw matches Ok(before) && json_parsed(before@) matches Ok(root) && with_enabled(
            root,
            name@,
            enabled,
        ) is Some ==> r is Ok,
{
    let text = match raw {
        Ok(text) => text,
        Err(reason) => {
            return Err(unreadable(path, reason.as_str()));
        },
    };
    let root = match parse(text.as_str()) {
        Ok(root) => root,
        Err(reason) => {
            return Err(invalid(path, reason.as_str()));
        },
    };
    match set_server_enabled(root, name, enabled) {
        None => Err(
            Error::Config(
                "server ".to_owned().concat(quote(name).as_str()).concat(" not found in ").concat(
                    path,
                ),
            ),
        ),
        Some(changed) => match pretty(&changed) {
            Err(reason) => Err(
                Error::Config("serialize config failed: ".to_owned().concat(reason.as_str())),
            ),
            Ok(pretty) => {
                proof {
                    reveal_strlit("\n");
                    assert(pretty@ + "\n"@ =~= pretty@.push('\n'));
                }
                Ok(pretty.concat("\n"))
            },
        },
    }
}

/// Setting a server's `enabled` flag sets that flag and changes no other value:
/// neither in the server's object, nor of another server, nor beside `mcp`.
pub proof fn law_set_enabled_changes_one_flag(root: JsonView, name: Seq<char>, enabled: bool)
    requires
        with_enabled(root, name, enabled) is Some,
    ensures
        ({
            let changed = with_enabled(root, name, enabled)->0;
            let mcp = member(root, "mcp"@)->0;
            let mcp_changed = member(changed, "mcp"@)->0;
            let server = member(mcp, name)->0;
            let server_changed = member(mcp_changed, name)->0;
            &&& member(server_changed, "enabled"@) == Some(JsonView::Bool(enabled))
            &&& forall|k: Seq<char>|
                k != "enabled"@ ==> #[trigger] member(server_changed, k) == member(server, k)
            &&& forall|k: Seq<char>| k != name ==> #[trigger] member(mcp_changed, k) == member(mcp, k)
            &&& forall|k: Seq<char>| k != "mcp"@ ==> #[trigger] member(changed, k) == member(root, k)
        }),
{
}

/// Of two settings of one flag the later counts, as if the earlier had not been.
pub proof fn law_set_enabled_later_counts(
    root: JsonView,
    name: Seq<char>,
    first: bool,
    second: bool,
)
    requires
        with_enabled(root, name, first) is Some,
    ensures
        with_enabled(with_enabled(root, name, first)->0, name, second) == with_enabled(
            root,
            name,
            second,
        ),
{
    let once = with_enabled(root, name, first)->0;
    let twice = with_enabled(once, name, second)->0;
    let direct = with_enabled(root, name, second)->0;
    let top = root->Object_0;
    let servers = (member(root, "mcp"@)->0)->Object_0;
    let server = (member(JsonView::Object(servers), name)->0)->Object_0;
    let flag1 = server.insert("enabled"@, JsonView::Bool(first));
    let flag2 = server.insert("enabled"@, JsonView::Bool(second));
    assert(flag1.insert("enabled"@, JsonView::Bool(second)) =~= flag2);
    let servers1 = servers.insert(name, JsonView::Object(flag1));
    let servers2 = servers.insert(name, JsonView::Object(flag2));
    assert(servers1.insert(name, JsonView::Object(flag2)) =~= servers2);
    let top1 = top.insert("mcp"@, JsonView::Object(servers1));
    assert(top1.insert("mcp"@, JsonView::Object(servers2)) =~= top.insert(
        "mcp"@,
        JsonView::Object(servers2),
    ));
}

/// A string starts with `{env:` where its first characters are these.
proof fn lemma_marker_in_front(s: Seq<char>)
    ensures
        starts_with_marker(s) <==> s.len() >= 5 && s.take(5) == "{env:"@,
{
    reveal_strlit("{env:");
    let mark = "{env:"@;
    assert(mark.len() == 5 && mark[0] == '{' && mark[1] == 'e' && mark[2] == 'n' && mark[3] == 'v'
        && mark[4] == ':');
    if s.len() >= 5 {
        let piece = s.take(5);
        assert(piece[0] == s[0] && piece[1] == s[1] && piece[2] == s[2] && piece[3] == s[3]
            && piece[4] == s[4]);
        if starts_with_marker(s) {
            assert(piece =~= mark);
        }
    }
}

/// The search for a placeholder finds the first place where `{env:` stands, and
/// nothing exactly where it stands nowhere.
pub proof fn law_first_marker_is_the_first(s: Seq<char>)
    ensures
        match first_marker(s) {
            Some(n) => 0 <= n && n + 5 <= s.len() && s.skip(n).take(5) == "{env:"@ && forall|
                i: int,
            |
                0 <= i < n ==> (#[trigger] s.skip(i)).take(5) != "{env:"@,
            None => forall|i: int|
                0 <= i && i + 5 <= s.len() ==> (#[trigger] s.skip(i)).take(5) != "{env:"@,
        },
    decreases s.len(),
{
    lemma_marker_in_front(s);
    assert(s.skip(0) =~= s);
    if s.len() > 0 && !starts_with_marker(s) {
        let rest = s.drop_first();
        law_first_marker_is_the_first(rest);
        if let Some(n) = first_marker(rest) {
            assert(s.skip(n + 1) =~= rest.skip(n));
        }
        let stop = match first_marker(s) {
            Some(n) => n,
            None => s.len() - 4,
        };
        assert forall|i: int| 0 <= i < stop implies (#[trigger] s.skip(i)).take(5) != "{env:"@ by {
            if i > 0 {
                assert(s.skip(i) =~= rest.skip(i - 1));
            }
        }
    }
}

/// The search for a character finds the first place where it stands, and nothing
/// exactly where it stands nowhere.
pub proof fn law_first_char_is_the_first(s: Seq<char>, c: char)
    ensures
        match first_char(s, c) {
            Some(n) => 0 <= n < s.len() && s[n] == c && !s.take(n).contains(c),
            None => !s.contains(c),
        },
    decreases s.len(),
{
    if s.len() > 0 && s[0] != c {
        let rest = s.drop_first();
        law_first_char_is_the_first(rest, c);
        match first_char(rest, c) {
            Some(n) => {
                let head = s.take(n + 1);
                assert forall|i: int| 0 <= i < head.len() implies head[i] != c by {
                    if i > 0 {
                        assert(rest.take(n)[i - 1] == s[i]);
                        assert(rest.take(n).contains(rest.take(n)[i - 1]));
                    }
                }
            },
            None => {
                assert forall|i: int| 0 <= i < s.len() implies s[i] != c by {
                    if i > 0 {
                        assert(rest[i - 1] == s[i]);
                        assert(rest.contains(rest[i - 1]));
                    }
                }
            },
        }
    }
}

/// A string without `{env:` is left as it is, whatever the environment.
pub proof fn law_interpolate_passes_plain_text(s: Seq<char>, env: Map<Seq<char>, Seq<char>>)
    requires
        forall|i: int| 0 <= i && i + 5 <= s.len() ==> (#[trigger] s.skip(i)).take(5) != "{env:"@,
    ensures
        interpolated(s, env) == Ok::<Seq<char>, Fault>(s),
        interpolated_text(s, env) == Ok::<Seq<char>, ErrorView>(s),
{
    law_first_marker_is_the_first(s);
}

/// Behind a front without `{env:` the first placeholder is the one that follows.
proof fn lemma_marker_behind(front: Seq<char>, more: Seq<char>)
    requires
        forall|i: int|
            0 <= i && i + 5 <= front.len() ==> (#[trigger] front.skip(i)).take(5) != "{env:"@,
    ensures
        first_marker(front + "{env:"@ + more) == Some(front.len() as int),
    decreases front.len(),
{
    let s = front + "{env:"@ + more;
    let m = front.len() as int;
    assert(s.len() >= m + 5 && s[m] == '{' && s[m + 1] == 'e' && s[m + 2] == 'n' && s[m + 3] == 'v'
        && s[m + 4] == ':') by {
        reveal_strlit("{env:");
    }
    if m > 0 {
        let rest = front.drop_first();
        assert(s.drop_first() =~= rest + "{env:"@ + more);
        assert forall|i: int| 0 <= i && i + 5 <= rest.len() implies (#[trigger] rest.skip(i)).take(5)
            != "{env:"@ by {
            assert(rest.skip(i) =~= front.skip(i + 1));
        }
        lemma_marker_behind(rest, more);
        if starts_with_marker(s) {
            if m >= 5 {
                assert(front[0] == s[0] && front[1] == s[1] && front[2] == s[2] && front[3] == s[3]
                    && front[4] == s[4]);
                lemma_marker_in_front(front);
                assert(front.skip(0) =~= front);
            }
            assert(false);
        }
    }
}

/// A placeholder is replaced by its variable's value and what stands around it
/// is kept; the value itself is not searched for placeholders. What is wrong behind
/// the placeholder is wrong with the whole.
pub proof fn law_interpolate_replaces_in_place(
    front: Seq<char>,
    var: Seq<char>,
    rest: Seq<char>,
    env: Map<Seq<char>, Seq<char>>,
)
    requires
        forall|i: int|
            0 <= i && i + 5 <= front.len() ==> (#[trigger] front.skip(i)).take(5) != "{env:"@,
        !var.contains('}'),
        env.contains_key(var),
    ensures
        interpolated(front + "{env:"@ + var + "}"@ + rest, env) == (match interpolated(rest, env) {
            Ok(t) => Ok::<Seq<char>, Fault>(front + env[var] + t),
            Err(fault) => Err(fault),
        }),
{
    reveal_strlit("{env:");
    reveal_strlit("}");
    let s = front + "{env:"@ + var + "}"@ + rest;
    lemma_marker_behind(front, var + "}"@ + rest);
    assert(s =~= front + "{env:"@ + (var + "}"@ + rest));
    let after = s.skip(front.len() as int + 5);
    assert(after =~= var + ("}"@ + rest));
    lemma_first_char_at(var, "}"@ + rest, '}');
    assert(after.take(var.len() as int) =~= var);
    assert(after.skip(var.len() as int + 1) =~= rest);
    assert(s.take(front.len() as int) =~= front);
}

/// A placeholder whose variable is not set is an error that names the variable,
/// whatever follows.
pub proof fn law_interpolate_reports_missing(
    front: Seq<char>,
    var: Seq<char>,
    rest: Seq<char>,
    env: Map<Seq<char>, Seq<char>>,
)
    requires
        forall|i: int|
            0 <= i && i + 5 <= front.len() ==> (#[trigger] front.skip(i)).take(5) != "{env:"@,
        !var.contains('}'),
        !env.contains_key(var),
    ensures
        interpolated(front + "{env:"@ + var + "}"@ + rest, env) == Err::<Seq<char>, Fault>(
            Fault::Unset(var),
        ),
        interpolated_text(front + "{env:"@ + var + "}"@ + rest, env) == Err::<
            Seq<char>,
            ErrorView,
        >(ErrorView::Config("env var "@ + var + " referenced in config is not set"@)),
{
    reveal_strlit("{env:");
    reveal_strlit("}");
    let s = front + "{env:"@ + var + "}"@ + rest;
    lemma_marker_behind(front, var + "}"@ + rest);
    assert(s =~= front + "{env:"@ + (var + "}"@ + rest));
    let after = s.skip(front.len() as int + 5);
    assert(after =~= var + ("}"@ + rest));
    lemma_first_char_at(var, "}"@ + rest, '}');
    assert(after.take(var.len() as int) =~= var);
}

/// A placeholder that is not closed is an error that shows the string.
pub proof fn law_interpolate_reports_unterminated(
    front: Seq<char>,
    rest: Seq<char>,
    env: Map<Seq<char>, Seq<char>>,
)
    requires
        forall|i: int|
            0 <= i && i + 5 <= front.len() ==> (#[trigger] front.skip(i)).take(5) != "{env:"@,
        !rest.contains('}'),
    ensures
        interpolated(front + "{env:"@ + rest, env) == Err::<Seq<char>, Fault>(Fault::Unterminated),
        interpolated_text(front + "{env:"@ + rest, env) == Err::<Seq<char>, ErrorView>(
            ErrorView::Config("unterminated {env:...} in "@ + quoted(front + "{env:"@ + rest)),
        ),
{
    reveal_strlit("{env:");
    let s = front + "{env:"@ + rest;
    lemma_marker_behind(front, rest);
    assert(s.skip(front.len() as int + 5) =~= rest);
    law_first_char_is_the_first(rest, '}');
}

/// What a string becomes is what interpolating it gives, and the errors of the two
/// faults name the variable and show the whole string.
pub proof fn law_faults_are_reported(s: Seq<char>, env: Map<Seq<char>, Seq<char>>)
    ensures
        match interpolated(s, env) {
            Ok(t) => interpolated_text(s, env) == Ok::<Seq<char>, ErrorView>(t),
            Err(Fault::Unset(var)) => interpolated_text(s, env) == Err::<Seq<char>, ErrorView>(
                ErrorView::Config("env var "@ + var + " referenced in config is not set"@),
            ),
            Err(Fault::Unterminated) => interpolated_text(s, env) == Err::<Seq<char>, ErrorView>(
                ErrorView::Config("unterminated {env:...} in "@ + quoted(s)),
            ),
        },
{
}

/// A variable has the value of its first entry.
pub proof fn law_first_variable_counts(vars: Seq<(String, String)>, i: int)
    requires
        0 <= i < vars.len(),
        forall|j: int| 0 <= j < i ==> (#[trigger] vars[j]).0@ != vars[i].0@,
    ensures
        env_map(vars).contains_key(vars[i].0@),
        env_map(vars)[vars[i].0@] == vars[i].1@,
    decreases i,
{
    if i > 0 {
        let rest = vars.drop_first();
        assert(rest[i - 1] == vars[i]);
        assert forall|j: int| 0 <= j < i - 1 implies (#[trigger] rest[j]).0@ != vars[i].0@ by {
            assert(vars[j + 1].0@ != vars[i].0@);
        }
        law_first_variable_counts(rest, i - 1);
        assert(vars[0].0@ != vars[i].0@);
    }
}

/// A variable without an entry is not set.
pub proof fn law_other_variables_are_unset(vars: Seq<(String, String)>, name: Seq<char>)
    requires
        forall|j: int| 0 <= j < vars.len() ==> (#[trigger] vars[j]).0@ != name,
    ensures
        !env_map(vars).contains_key(name),
    decreases vars.len(),
{
    if vars.len() > 0 {
        let rest = vars.drop_first();
        assert forall|j: int| 0 <= j < rest.len() implies (#[trigger] rest[j]).0@ != name by {
            assert(vars[j + 1].0@ != name);
        }
        law_other_variables_are_unset(rest, name);
        assert(vars[0].0@ != name);
    }
}

/// A list of strings is interpolated string by string: each has its own result at its
/// own place, and the error, if there is one, is that of the first that fails.
pub proof fn law_list_is_interpolated_one_by_one(
    list: Seq<Seq<char>>,
    env: Map<Seq<char>, Seq<char>>,
)
    ensures
        match interpolated_list(list, env) {
            Ok(out) => out.len() == list.len() && forall|i: int|
                0 <= i < list.len() ==> interpolated_text(#[trigger] list[i], env) == Ok::<
                    Seq<char>,
                    ErrorView,
                >(out[i]),
            Err(e) => exists|k: int|
                0 <= k < list.len() && interpolated_text(#[trigger] list[k], env) == Err::<
                    Seq<char>,
                    ErrorView,
                >(e) && forall|i: int|
                    0 <= i < k ==> interpolated_text(#[trigger] list[i], env) is Ok,
        },
    decreases list.len(),
{
    if list.len() > 0 {
        let front = list.drop_last();
        law_list_is_interpolated_one_by_one(front, env);
        let last = list[list.len() - 1];
        assert forall|i: int| 0 <= i < front.len() implies #[trigger] list[i] == front[i] by {}
        match interpolated_list(front, env) {
            Err(e) => {
                let k = choose|k: int|
                    0 <= k < front.len() && interpolated_text(#[trigger] front[k], env) == Err::<
                        Seq<char>,
                        ErrorView,
                    >(e) && forall|i: int|
                        0 <= i < k ==> interpolated_text(#[trigger] front[i], env) is Ok;
                assert(interpolated_text(list[k], env) == Err::<Seq<char>, ErrorView>(e));
            },
            Ok(out) => {
                if let Err(e) = interpolated_text(last, env) {
                    assert(interpolated_text(list[list.len() - 1], env) == Err::<
                        Seq<char>,
                        ErrorView,
                    >(e));
                }
            },
        }
    }
}

/// The values of a list of pairs are interpolated one by one, and the names kept; the
/// error, if there is one, is that of the first value that fails.
pub proof fn law_pairs_are_interpolated_one_by_one(
    list: Seq<(Seq<char>, Seq<char>)>,
    env: Map<Seq<char>, Seq<char>>,
)
    ensures
        match interpolated_pairs(list, env) {
            Ok(out) => out.len() == list.len() && forall|i: int|
                0 <= i < list.len() ==> out[i].0 == (#[trigger] list[i]).0 && interpolated_text(
                    list[i].1,
                    env,
                ) == Ok::<Seq<char>, ErrorView>(out[i].1),
            Err(e) => exists|k: int|
                0 <= k < list.len() && interpolated_text((#[trigger] list[k]).1, env) == Err::<
                    Seq<char>,
                    ErrorView,
                >(e) && forall|i: int|
                    0 <= i < k ==> interpolated_text((#[trigger] list[i]).1, env) is Ok,
        },
    decreases list.len(),
{
    if list.len() > 0 {
        let front = list.drop_last();
        law_pairs_are_interpolated_one_by_one(front, env);
        let last = list[list.len() - 1];
        assert forall|i: int| 0 <= i < front.len() implies #[trigger] list[i] == front[i] by {}
        match interpolated_pairs(front, env) {
            Err(e) => {
                let k = choose|k: int|
                    0 <= k < front.len() && interpolated_text((#[trigger] front[k]).1, env)
                        == Err::<Seq<char>, ErrorView>(e) && forall|i: int|
                        0 <= i < k ==> interpolated_text((#[trigger] front[i]).1, env) is Ok;
                assert(interpolated_text(list[k].1, env) == Err::<Seq<char>, ErrorView>(e));
            },
            Ok(out) => {
                if let Err(e) = interpolated_text(last.1, env) {
                    assert(interpolated_text(list[list.len() - 1].1, env) == Err::<
                        Seq<char>,
                        ErrorView,
                    >(e));
                }
            },
        }
    }
}

/// Every string value of a server's specification is interpolated, its flag and its
/// timeout are kept, and a local server stays local. What cannot be interpolated is
/// the error: of a local server first in the command, then in the environment, then
/// in the working directory; of a remote one first in the URL, then in the headers.
pub proof fn law_spec_is_interpolated_value_by_value(
    spec: SpecView,
    env: Map<Seq<char>, Seq<char>>,
)
    ensures
        match spec {
            SpecView::Local { command, environment, cwd, enabled, timeout } => {
                let commands = interpolated_list(command, env);
                let pairs = interpolated_pairs(environment, env);
                match interpolated_spec(spec, env) {
                    Ok(out) => {
                        &&& out matches SpecView::Local {
                            command: c,
                            environment: v,
                            cwd: d,
                            enabled: on,
                            timeout: t,
                        } && commands == Ok::<Seq<Seq<char>>, ErrorView>(c) && pairs == Ok::<
                            Seq<(Seq<char>, Seq<char>)>,
                            ErrorView,
                        >(v) && on == enabled && t == timeout && (d is Some <==> cwd is Some) && (
                        cwd matches Some(dir) ==> interpolated_text(dir, env) == Ok::<
                            Seq<char>,
                            ErrorView,
                        >(d->0))
                    },
                    Err(e) => {
                        ||| commands == Err::<Seq<Seq<char>>, ErrorView>(e)
                        ||| commands is Ok && pairs == Err::<
                            Seq<(Seq<char>, Seq<char>)>,
                            ErrorView,
                        >(e)
                        ||| commands is Ok && pairs is Ok && (cwd matches Some(dir)
                            && interpolated_text(dir, env) == Err::<Seq<char>, ErrorView>(e))
                    },
                }
            },
            SpecView::Remote { url, headers, enabled, timeout } => {
                let address = interpolated_text(url, env);
                let pairs = interpolated_pairs(headers, env);
                match interpolated_spec(spec, env) {
                    Ok(out) => {
                        &&& out matches SpecView::Remote {
                            url: u,
                            headers: h,
                            enabled: on,
                            timeout: t,
                        } && address == Ok::<Seq<char>, ErrorView>(u) && pairs == Ok::<
                            Seq<(Seq<char>, Seq<char>)>,
                            ErrorView,
                        >(h) && on == enabled && t == timeout
                    },
                    Err(e) => {
                        ||| address == Err::<Seq<char>, ErrorView>(e)
                        ||| address is Ok && pairs == Err::<Seq<(Seq<char>, Seq<char>)>, ErrorView>(
                            e,
                        )
                    },
                }
            },
        },
{
}

/// Loading gives every server of the file once, in order and under its own name, with
/// its specification interpolated; one counts as enabled unless its flag is false. The
/// error, if there is one, is that of the first server that cannot be interpolated.
pub proof fn law_load_all_gives_every_server(
    path: Seq<char>,
    servers: Seq<(Seq<char>, SpecView)>,
    env: Map<Seq<char>, Seq<char>>,
)
    ensures
        match loaded_all(path, SourceView::Parsed(servers), env) {
            Ok(list) => list.len() == servers.len() && forall|i: int|
                0 <= i < servers.len() ==> list[i].name == (#[trigger] servers[i]).0
                    && interpolated_spec(servers[i].1, env) == Ok::<SpecView, ErrorView>(
                    list[i].spec,
                ) && list[i].enabled == (match servers[i].1 {
                    SpecView::Local { enabled, .. } => !(enabled matches Some(on) && !on),
                    SpecView::Remote { enabled, .. } => !(enabled matches Some(on) && !on),
                }),
            Err(e) => exists|k: int|
                0 <= k < servers.len() && interpolated_spec((#[trigger] servers[k]).1, env) == Err::<
                    SpecView,
                    ErrorView,
                >(e) && forall|i: int|
                    0 <= i < k ==> interpolated_spec((#[trigger] servers[i]).1, env) is Ok,
        },
    decreases servers.len(),
{
    if servers.len() > 0 {
        let front = servers.drop_last();
        law_load_all_gives_every_server(path, front, env);
        let last = servers[servers.len() - 1];
        assert forall|i: int| 0 <= i < front.len() implies #[trigger] servers[i] == front[i] by {}
        match resolved(front, env) {
            Err(e) => {
                let k = choose|k: int|
                    0 <= k < front.len() && interpolated_spec((#[trigger] front[k]).1, env)
                        == Err::<SpecView, ErrorView>(e) && forall|i: int|
                        0 <= i < k ==> interpolated_spec((#[trigger] front[i]).1, env) is Ok;
                assert(interpolated_spec(servers[k].1, env) == Err::<SpecView, ErrorView>(e));
            },
            Ok(list) => {
                if let Err(e) = interpolated_spec(last.1, env) {
                    assert(interpolated_spec(servers[servers.len() - 1].1, env) == Err::<
                        SpecView,
                        ErrorView,
                    >(e));
                }
            },
        }
    }
}

/// A file that cannot be read, or that holds no configuration, is an error with the
/// path and the reason. Else loading for the startup gives, of all servers, those that
/// count as enabled, in the same order, and fails where loading all fails.
pub proof fn law_load_picks_from_all(
    path: Seq<char>,
    source: SourceView,
    env: Map<Seq<char>, Seq<char>>,
)
    ensures
        source matches SourceView::Unreadable(e) ==> loaded_all(path, source, env) == Err::<
            Seq<UpstreamView>,
            ErrorView,
        >(ErrorView::Config("cannot read config "@ + path + ": "@ + e)),
        source matches SourceView::Invalid(e) ==> loaded_all(path, source, env) == Err::<
            Seq<UpstreamView>,
            ErrorView,
        >(ErrorView::Config("invalid config "@ + path + ": "@ + e)),
        match loaded_all(path, source, env) {
            Ok(all) => loaded(path, source, env) == Ok::<Seq<UpstreamView>, ErrorView>(
                all.filter(|c: UpstreamView| c.enabled),
            ),
            Err(e) => loaded(path, source, env) == Err::<Seq<UpstreamView>, ErrorView>(e),
        },
{
}

/// The flag of a server can be set exactly where the file is an object with an object
/// `mcp` that holds an object for the server. Then it has the new value, and all that
/// the three objects hold besides is kept.
pub proof fn law_set_enabled_touches_three_objects(root: JsonView, name: Seq<char>, enabled: bool)
    ensures
        match with_enabled(root, name, enabled) {
            Some(changed) => {
                &&& root matches JsonView::Object(top) && changed matches JsonView::Object(new_top)
                    && top.contains_key("mcp"@) && new_top.contains_key("mcp"@) && new_top.remove(
                    "mcp"@,
                ) == top.remove("mcp"@) && (top["mcp"@] matches JsonView::Object(servers)
                    && new_top["mcp"@] matches JsonView::Object(new_servers)
                    && servers.contains_key(name) && new_servers.contains_key(name)
                    && new_servers.remove(name) == servers.remove(name) && (
                servers[name] matches JsonView::Object(server) && new_servers[name]
                    matches JsonView::Object(new_server) && new_server.remove("enabled"@)
                    == server.remove("enabled"@) && new_server.contains_key("enabled"@)
                    && new_server["enabled"@] == JsonView::Bool(enabled)))
            },
            None => !(root matches JsonView::Object(top) && top.contains_key("mcp"@) && (
            top["mcp"@] matches JsonView::Object(servers) && servers.contains_key(name) && (
            servers[name] is Object))),
        },
{
    if let Some(changed) = with_enabled(root, name, enabled) {
        let top = root->Object_0;
        let servers = top["mcp"@]->Object_0;
        let server = servers[name]->Object_0;
        let new_top = changed->Object_0;
        let new_servers = new_top["mcp"@]->Object_0;
        let new_server = new_servers[name]->Object_0;
        assert(new_top.remove("mcp"@) =~= top.remove("mcp"@));
        assert(new_servers.remove(name) =~= servers.remove(name));
        assert(new_server.remove("enabled"@) =~= server.remove("enabled"@));
    }
}

/// Setting a flag in the file fails with the path and the reason where the file cannot
/// be read or is not JSON, and with the server's name where the file does not hold it.
/// Else the changed value is written over several lines, with a line feed at the end.
pub proof fn law_set_enabled_writes_or_says_why(
    path: Seq<char>,
    raw: Result<Seq<char>, Seq<char>>,
    name: Seq<char>,
    enabled: bool,
)
    ensures
        match raw {
            Err(reason) => enabled_text(path, raw, name, enabled) == Err::<Seq<char>, ErrorView>(
                ErrorView::Config("cannot read config "@ + path + ": "@ + reason),
            ),
            Ok(text) => match json_parsed(text) {
                Err(reason) => enabled_text(path, raw, name, enabled) == Err::<
                    Seq<char>,
                    ErrorView,
                >(ErrorView::Config("invalid config "@ + path + ": "@ + reason)),
                Ok(root) => match with_enabled(root, name, enabled) {
                    None => enabled_text(path, raw, name, enabled) == Err::<Seq<char>, ErrorView>(
                        ErrorView::Config("server "@ + quoted(name) + " not found in "@ + path),
                    ),
                    Some(changed) => json_pretty(changed) matches Ok(pretty) ==> enabled_text(
                        path,
                        raw,
                        name,
                        enabled,
                    ) == Ok::<Seq<char>, ErrorView>(pretty.push('\n')),
                },
            },
        },
{
}

/// A character is found where it first stands.
proof fn lemma_first_char_at(s: Seq<char>, rest: Seq<char>, c: char)
    requires
        !s.contains(c),
        rest.len() > 0,
        rest[0] == c,
    ensures
        first_char(s + rest, c) == Some(s.len() as int),
    decreases s.len(),
{
    if s.len() > 0 {
        assert(s[0] != c);
        assert forall|i: int| 0 <= i < s.drop_first().len() implies s.drop_first()[i] != c by {
            assert(s[i + 1] != c);
        }
        lemma_first_char_at(s.drop_first(), rest, c);
        assert((s + rest).drop_first() =~= s.drop_first() + rest);
    } else {
        assert(s + rest =~= rest);
    }
}

/// What is said of a server's specification speaks of everything in it: of two
/// specifications of which the same is said, each holds the same strings, flags and
/// numbers as the other.
pub proof fn law_specs_are_told_apart(a: ServerSpec, b: ServerSpec)
    requires
        a@ == b@,
    ensures
        match a {
            ServerSpec::Local { command, environment, cwd, enabled, timeout } => b
                matches ServerSpec::Local {
                command: command2,
                environment: environment2,
                cwd: cwd2,
                enabled: enabled2,
                timeout: timeout2,
            } && command@.len() == command2@.len() && (forall|i: int|
                0 <= i < command@.len() ==> (#[trigger] command@[i])@ == command2@[i]@)
                && environment.list().len() == environment2.list().len() && (forall|i: int|
                0 <= i < environment.list().len() ==> (#[trigger] environment.list()[i]).0@
                    == environment2.list()[i].0@ && environment.list()[i].1@
                    == environment2.list()[i].1@) && (cwd is Some <==> cwd2 is Some) && (
            cwd is Some ==> cwd->0@ == cwd2->0@) && enabled == enabled2 && timeout == timeout2,
            ServerSpec::Remote { url, headers, enabled, timeout } => b matches ServerSpec::Remote {
                url: url2,
                headers: headers2,
                enabled: enabled2,
                timeout: timeout2,
            } && url@ == url2@ && headers.list().len() == headers2.list().len() && (forall|i: int|
                0 <= i < headers.list().len() ==> (#[trigger] headers.list()[i]).0@
                    == headers2.list()[i].0@ && headers.list()[i].1@ == headers2.list()[i].1@)
                && enabled == enabled2 && timeout == timeout2,
        },
{
    match (a, b) {
        (
            ServerSpec::Local { command, environment, .. },
            ServerSpec::Local { command: command2, environment: environment2, .. },
        ) => {
            let x = texts_of(command@);
            let y = texts_of(command2@);
            assert(x.len() == command@.len() && y.len() == command2@.len());
            assert forall|i: int| 0 <= i < command@.len() implies (#[trigger] command@[i])@
                == command2@[i]@ by {
                assert(x[i] == command@[i]@ && y[i] == command2@[i]@);
            }
            lemma_same_pairs(environment.list(), environment2.list());
        },
        (
            ServerSpec::Remote { headers, .. },
            ServerSpec::Remote { headers: headers2, .. },
        ) => {
            lemma_same_pairs(headers.list(), headers2.list());
        },
        _ => {},
    }
}

/// Two lists of pairs with the same characters hold the same strings.
proof fn lemma_same_pairs(a: Seq<(String, String)>, b: Seq<(String, String)>)
    requires
        pairs_of(a) == pairs_of(b),
    ensures
        a.len() == b.len(),
        forall|i: int| 0 <= i < a.len() ==> (#[trigger] a[i]).0@ == b[i].0@ && a[i].1@ == b[i].1@,
{
    assert(pairs_of(a).len() == a.len());
    assert(pairs_of(b).len() == b.len());
    assert forall|i: int| 0 <= i < a.len() implies (#[trigger] a[i]).0@ == b[i].0@ && a[i].1@
        == b[i].1@ by {
        assert(pairs_of(a)[i] == (a[i].0@, a[i].1@));
        assert(pairs_of(b)[i] == (b[i].0@, b[i].1@));
    }
}

/// The servers of a file and those that were resolved are taken item by item, and
/// results as what they carry.
pub proof fn law_servers_are_taken_one_by_one(
    list: Seq<UpstreamConfig>,
    servers: Seq<(String, ServerSpec)>,
    reason: String,
    file: ConfigFile,
    configs: Vec<UpstreamConfig>,
    e: Error,
)
    ensures
        text_result(Ok(reason)) == Ok::<Seq<char>, ErrorView>(reason@),
        text_result(Err(e)) == Err::<Seq<char>, ErrorView>(e@),
        configs_result(Ok(configs)) == Ok::<Seq<UpstreamView>, ErrorView>(configs_of(configs@)),
        configs_result(Err(e)) == Err::<Seq<UpstreamView>, ErrorView>(e@),
        ConfigSource::Unreadable(reason)@ == SourceView::Unreadable(reason@),
        ConfigSource::Invalid(reason)@ == SourceView::Invalid(reason@),
        ConfigSource::Parsed(file)@ == SourceView::Parsed(servers_of(file.mcp.list())),
        configs_of(list).len() == list.len(),
        forall|i: int|
            0 <= i < list.len() ==> (#[trigger] configs_of(list)[i]).name == list[i].name@
                && configs_of(list)[i].spec == list[i].spec@ && configs_of(list)[i].enabled
                == list[i].enabled,
        servers_of(servers).len() == servers.len(),
        forall|i: int|
            0 <= i < servers.len() ==> (#[trigger] servers_of(servers)[i]).0 == servers[i].0@
                && servers_of(servers)[i].1 == servers[i].1@,
{
}

} // verus!
