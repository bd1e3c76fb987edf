//! Checking for a newer release and replacing the installed binary by it.

use crate::error::{Error, ErrorView};
use crate::text::{
    chars_of, copy_text, law_split_cuts_at_separators, parse_u64, parsed_u64, same, split,
    strip_prefix_char, without_prefix,
};
use vstd::prelude::*;
use vstd::string::*;

verus! {

/// The numbers of a version string: its parts between dots that are numbers.
pub open spec fn version_numbers(v: Seq<char>) -> Seq<u64> {
    split(v, '.').filter_map(|p: Seq<char>| parsed_u64(p))
}

/// Whether the version `a` is strictly older than `b`: its first number that
/// differs is smaller, or `b` has numbers where `a` has ended.
pub open spec fn older(a: Seq<u64>, b: Seq<u64>) -> bool
    decreases a.len(),
{
    if b.len() == 0 {
        false
    } else if a.len() == 0 {
        true
    } else if a[0] == b[0] {
        older(a.drop_first(), b.drop_first())
    } else {
        a[0] < b[0]
    }
}

/// The numbers of a list of pieces with one more piece behind.
proof fn lemma_numbers_push(pieces: Seq<Seq<char>>, piece: Seq<char>)
    ensures
        pieces.push(piece).filter_map(|p: Seq<char>| parsed_u64(p)) == (match parsed_u64(piece) {
            Some(n) => pieces.filter_map(|p: Seq<char>| parsed_u64(p)).push(n),
            None => pieces.filter_map(|p: Seq<char>| parsed_u64(p)),
        }),
{
    reveal(Seq::filter_map);
    assert(pieces.push(piece).drop_last() =~= pieces);
}

/// The numbers of a version string.
pub fn version_parts(v: &str) -> (r: Vec<u64>)
    ensures
        r@ == version_numbers(v@),
{
    let s = chars_of(v);
    let ghost number = |p: Seq<char>| parsed_u64(p);
    let mut out: Vec<u64> = Vec::new();
    let ghost mut done: Seq<Seq<char>> = Seq::empty();
    let mut start: usize = 0;
    let mut i: usize = 0;
    proof {
        reveal(Seq::filter_map);
        assert(s@.take(0) =~= Seq::<char>::empty());
        assert(s@.subrange(0, 0) =~= Seq::<char>::empty());
        assert(split(s@.take(0), '.') =~= done.push(s@.subrange(0, 0)));
    }
    while i < s.len()
        invariant
            s@ == v@,
            start <= i <= s.len(),
            number == (|p: Seq<char>| parsed_u64(p)),
            split(s@.take(i as int), '.') == done.push(s@.subrange(start as int, i as int)),
            out@ == done.filter_map(number),
        decreases s.len() - i,
    {
        let ghost piece = s@.subrange(start as int, i as int);
        proof {
            let upto = s@.take(i + 1);
            assert(upto.drop_last() =~= s@.take(i as int));
            assert(upto.last() == s@[i as int]);
            assert(done.push(piece).drop_last() =~= done);
        }
        if s[i] == '.' {
            let n = parse_u64(&s, start, i);
            proof {
                lemma_numbers_push(done, piece);
                done = done.push(piece);
                assert(s@.subrange(i + 1, i + 1) =~= Seq::<char>::empty());
            }
            if let Some(n) = n {
                out.push(n);
            }
            start = i + 1;
        } else {
            assert(piece.push(s@[i as int]) =~= s@.subrange(start as int, i + 1));
        }
        i = i + 1;
    }
    let n = parse_u64(&s, start, i);
    proof {
        assert(s@.take(i as int) =~= v@);
        lemma_numbers_push(done, s@.subrange(start as int, i as int));
    }
    if let Some(n) = n {
        out.push(n);
    }
    out
}

/// Whether the installed version is strictly older than the latest one.
pub fn is_outdated(installed: &str, latest: &str) -> (r: bool)
    ensures
        r == older(version_numbers(installed@), version_numbers(latest@)),
{
    let a = version_parts(installed);
    let b = version_parts(latest);
    let mut i: usize = 0;
    assert(a@.skip(0) =~= a@);
    assert(b@.skip(0) =~= b@);
    while i < a.len() && i < b.len()
        invariant
            i <= a.len(),
            i <= b.len(),
            older(a@, b@) == older(a@.skip(i as int), b@.skip(i as int)),
            a@ == version_numbers(installed@),
            b@ == version_numbers(latest@),
        decreases a.len() - i,
    {
        assert(a@.skip(i as int)[0] == a@[i as int]);
        assert(b@.skip(i as int)[0] == b@[i as int]);
        if b[i] > a[i] {
            return true;
        }
        if a[i] > b[i] {
            return false;
        }
        assert(a@.skip(i as int).drop_first() =~= a@.skip(i + 1));
        assert(b@.skip(i as int).drop_first() =~= b@.skip(i + 1));
        i = i + 1;
    }
    // With fewer numbers ("0.5" against "0.5.1") the installed one is older.
    b.len() > a.len()
}

/// A version is older than another where the first number that differs is smaller, and
/// where it ends and the other goes on.
pub proof fn law_older_is_decided_at_the_first_difference(a: Seq<u64>, b: Seq<u64>, k: int)
    requires
        0 <= k <= a.len(),
        k <= b.len(),
        forall|i: int| 0 <= i < k ==> #[trigger] a[i] == b[i],
        k < a.len() && k < b.len() ==> a[k] != b[k],
    ensures
        k < a.len() && k < b.len() ==> (older(a, b) <==> a[k] < b[k]),
        k == a.len() ==> (older(a, b) <==> a.len() < b.len()),
        k == b.len() ==> !older(a, b),
    decreases k,
{
    if k > 0 {
        assert(a[0] == b[0]);
        let x = a.drop_first();
        let y = b.drop_first();
        assert forall|i: int| 0 <= i < k - 1 implies #[trigger] x[i] == y[i] by {
            assert(a[i + 1] == b[i + 1]);
        }
        law_older_is_decided_at_the_first_difference(x, y, k - 1);
    }
}

/// The numbers of a version are read from its parts between dots, in order: a part
/// that writes a number gives that number, and any other part gives none.
pub proof fn law_version_is_read_part_by_part(a: Seq<char>, b: Seq<char>)
    ensures
        version_numbers(a.push('.') + b) == version_numbers(a) + version_numbers(b),
        !a.contains('.') ==> version_numbers(a) == (match parsed_u64(a) {
            Some(n) => seq![n],
            None => Seq::empty(),
        }),
{
    law_split_cuts_at_separators(a, b, '.');
    lemma_numbers_both(split(a, '.'), split(b, '.'));
    if !a.contains('.') {
        let none = Seq::<Seq<char>>::empty();
        lemma_numbers_push(none, a);
        assert(none.push(a) =~= seq![a]);
        assert(none.filter_map(|p: Seq<char>| parsed_u64(p)) =~= Seq::<u64>::empty()) by {
            reveal(Seq::filter_map);
        }
        if let Some(n) = parsed_u64(a) {
            assert(Seq::<u64>::empty().push(n) =~= seq![n]);
        }
    }
}

/// The numbers of two lists of pieces, one behind the other.
proof fn lemma_numbers_both(x: Seq<Seq<char>>, y: Seq<Seq<char>>)
    ensures
        (x + y).filter_map(|p: Seq<char>| parsed_u64(p)) == x.filter_map(
            |p: Seq<char>| parsed_u64(p),
        ) + y.filter_map(|p: Seq<char>| parsed_u64(p)),
    decreases y.len(),
{
    if y.len() == 0 {
        assert(x + y =~= x);
        assert(y.filter_map(|p: Seq<char>| parsed_u64(p)) =~= Seq::<u64>::empty()) by {
            reveal(Seq::filter_map);
        }
        assert(x.filter_map(|p: Seq<char>| parsed_u64(p)) + Seq::<u64>::empty() =~= x.filter_map(
            |p: Seq<char>| parsed_u64(p),
        ));
    } else {
        let front = y.drop_last();
        lemma_numbers_both(x, front);
        lemma_numbers_push(front, y.last());
        lemma_numbers_push(x + front, y.last());
        assert(front.push(y.last()) =~= y);
        assert((x + front).push(y.last()) =~= x + y);
        if let Some(n) = parsed_u64(y.last()) {
            let u = x.filter_map(|p: Seq<char>| parsed_u64(p));
            let v = front.filter_map(|p: Seq<char>| parsed_u64(p));
            assert((u + v).push(n) =~= u + v.push(n));
        }
    }
}

/// No version is older than itself.
pub proof fn law_older_irreflexive(a: Seq<u64>)
    ensures
        !older(a, a),
    decreases a.len(),
{
    if a.len() > 0 {
        law_older_irreflexive(a.drop_first());
    }
}

/// Of two versions at most one is older than the other.
pub proof fn law_older_asymmetric(a: Seq<u64>, b: Seq<u64>)
    requires
        older(a, b),
    ensures
        !older(b, a),
    decreases a.len(),
{
    if a.len() > 0 && a[0] == b[0] {
        law_older_asymmetric(a.drop_first(), b.drop_first());
    }
}

/// A version that is older than an older one is older.
pub proof fn law_older_transitive(a: Seq<u64>, b: Seq<u64>, c: Seq<u64>)
    requires
        older(a, b),
        older(b, c),
    ensures
        older(a, c),
    decreases a.len(),
{
    if a.len() > 0 && a[0] == b[0] && b[0] == c[0] {
        law_older_transitive(a.drop_first(), b.drop_first(), c.drop_first());
    }
}

/// Two versions of which neither is older have the same numbers.
pub proof fn law_older_total(a: Seq<u64>, b: Seq<u64>)
    requires
        !older(a, b),
        !older(b, a),
    ensures
        a == b,
    decreases a.len(),
{
    if a.len() == 0 {
        assert(a =~= b);
    } else {
        law_older_total(a.drop_first(), b.drop_first());
        assert(a =~= seq![a[0]] + a.drop_first());
        assert(b =~= seq![b[0]] + b.drop_first());
    }
}

/// The page of the GitHub API that describes the latest release.
pub const LATEST_URL: &'static str = "https://api.github.com/repos/skymoore/codemcp/releases/latest";

/// The `User-Agent` sent with every request: GitHub refuses requests without one.
pub fn user_agent(version: &str) -> (r: String)
    ensures
        r@ == "codemcp/"@ + version@,
{
    "codemcp/".to_owned().concat(version)
}

/// The latest release.
#[derive(Debug)]
pub struct ReleaseInfo {
    /// The version without a leading `v` (such as `0.5.1`).
    pub version: String,
    /// The page of the release.
    pub html_url: Option<String>,
}

impl Clone for ReleaseInfo {
    fn clone(&self) -> (r: Self)
        ensures
            r == *self,
    {
        ReleaseInfo { version: self.version.clone(), html_url: copy_text(&self.html_url) }
    }
}

/// What came of asking for the latest release.
#[derive(Debug)]
pub enum ReleaseReply {
    /// The request failed; the reason.
    Unreachable(String),
    /// The reply has a status other than success.
    Status(String),
    /// The reply is not the description of a release; the parser's message.
    Invalid(String),
    /// The release.
    Release { tag_name: String, html_url: Option<String> },
}

/// The latest release as a reply gives it, or the error. The version is the tag
/// without a leading `v`.
pub fn latest_release(reply: ReleaseReply) -> (r: Result<ReleaseInfo, Error>)
    ensures
        match reply {
            ReleaseReply::Unreachable(e) => r matches Err(x) && x@ == ErrorView::Other(
                "failed to query GitHub API: "@ + e@,
            ),
            ReleaseReply::Status(status) => r matches Err(x) && x@ == ErrorView::Other(
                "GitHub API returned status "@ + status@,
            ),
            ReleaseReply::Invalid(e) => r matches Err(x) && x@ == ErrorView::Other(
                "invalid API response: "@ + e@,
            ),
            ReleaseReply::Release { tag_name, html_url } => r matches Ok(info) && info.version@
                == without_prefix(tag_name@, 'v') && info.html_url == html_url,
        },
{
    match reply {
        ReleaseReply::Unreachable(e) => Err(
            Error::Other("failed to query GitHub API: ".to_owned().concat(e.as_str())),
        ),
        ReleaseReply::Status(status) => Err(
            Error::Other("GitHub API returned status ".to_owned().concat(status.as_str())),
        ),
        ReleaseReply::Invalid(e) => Err(
            Error::Other("invalid API response: ".to_owned().concat(e.as_str())),
        ),
        ReleaseReply::Release { tag_name, html_url } => Ok(
            ReleaseInfo { version: strip_prefix_char(tag_name.as_str(), 'v'), html_url },
        ),
    }
}

/// The name that release files use for an operating system.
pub open spec fn os_token(os: Seq<char>) -> Option<Seq<char>> {
    if os == "macos"@ {
        Some("darwin"@)
    } else if os == "linux"@ {
        Some("linux"@)
    } else {
        None
    }
}

/// The name that release files use for a processor architecture.
pub open spec fn arch_token(arch: Seq<char>) -> Option<Seq<char>> {
    if arch == "aarch64"@ {
        Some("arm64"@)
    } else if arch == "x86_64"@ {
        Some("x86_64"@)
    } else {
        None
    }
}

/// The error for an operating system that has no release.
pub open spec fn os_error(os: Seq<char>) -> ErrorView {
    ErrorView::Other("unsupported OS for self-update: "@ + os + " (supported: macOS, Linux)"@)
}

/// The error for an architecture that has no release.
pub open spec fn arch_error(arch: Seq<char>) -> ErrorView {
    ErrorView::Other(
        "unsupported architecture for self-update: "@ + arch + " (supported: arm64, x86_64)"@,
    )
}

/// The name that release files use for an operating system.
pub fn asset_os(os: &str) -> (r: Result<&'static str, Error>)
    ensures
        match r {
            Ok(token) => os_token(os@) == Some(token@),
            Err(e) => os_token(os@) is None && e@ == os_error(os@),
        },
{
    if same(os, "macos") {
        Ok("darwin")
    } else if same(os, "linux") {
        Ok("linux")
    } else {
        Err(
            Error::Other(
                "unsupported OS for self-update: ".to_owned().concat(os).concat(
                    " (supported: macOS, Linux)",
                ),
            ),
        )
    }
}

/// The name that release files use for a processor architecture.
pub fn asset_arch(arch: &str) -> (r: Result<&'static str, Error>)
    ensures
        match r {
            Ok(token) => arch_token(arch@) == Some(token@),
            Err(e) => arch_token(arch@) is None && e@ == arch_error(arch@),
        },
{
    if same(arch, "aarch64") {
        Ok("arm64")
    } else if same(arch, "x86_64") {
        Ok("x86_64")
    } else {
        Err(
            Error::Other(
                "unsupported architecture for self-update: ".to_owned().concat(arch).concat(
                    " (supported: arm64, x86_64)",
                ),
            ),
        )
    }
}

/// The SHA-256 digest of some bytes.
pub uninterp spec fn sha256_of(data: Seq<u8>) -> Seq<u8>;

/// Calls `sha2::Sha256` (`Digest::new`, `Digest::update` and `Digest::finalize`)
/// on some bytes. The digest depends on the bytes alone and has 32 bytes.
#[verifier::external_body]
fn sha256_digest(data: &[u8]) -> (r: Vec<u8>)
    ensures
        r@ == sha256_of(data@),
        r@.len() == 32,
{
    let mut hasher = <sha2::Sha256 as sha2::Digest>::new();
    sha2::Digest::update(&mut hasher, data);
    sha2::Digest::finalize(hasher).to_vec()
}

/// The lower-case hexadecimal digit for a number below 16.
pub open spec fn hex_digit(n: int) -> char {
    "0123456789abcdef"@[n]
}

/// Bytes as lower-case hexadecimal digits, two for each.
pub open spec fn hex(data: Seq<u8>) -> Seq<char> {
    Seq::new(
        2 * data.len(),
        |i: int|
            if i % 2 == 0 {
                hex_digit(data[i / 2] as int / 16)
            } else {
                hex_digit(data[i / 2] as int % 16)
            },
    )
}

/// Writes bytes as lower-case hexadecimal digits.
pub fn hex_text(data: &Vec<u8>) -> (r: String)
    ensures
        r@ == hex(data@),
{
    let digits = "0123456789abcdef";
    proof {
        reveal_strlit("0123456789abcdef");
    }
    let mut out = String::new();
    let mut i: usize = 0;
    while i < data.len()
        invariant
            i <= data.len(),
            digits@ == "0123456789abcdef"@,
            digits@.len() == 16,
            out@ =~= hex(data@.take(i as int)),
        decreases data.len() - i,
    {
        let b: usize = data[i] as usize;
        let ghost front = hex(data@.take(i as int));
        out.append(digits.substring_char(b / 16, b / 16 + 1));
        out.append(digits.substring_char(b % 16, b % 16 + 1));
        proof {
            let now = hex(data@.take(i + 1));
            assert forall|j: int| 0 <= j < now.len() implies out@[j] == #[trigger] now[j] by {
                if j < 2 * i {
                    assert(now[j] == front[j]);
                }
            }
            assert(out@ =~= now);
        }
        i = i + 1;
    }
    assert(data@.take(i as int) =~= data@);
    out
}

/// The SHA-256 digest of some bytes in hexadecimal digits.
pub fn sha256(data: &[u8]) -> (r: String)
    ensures
        r@ == hex(sha256_of(data@)),
        r@.len() == 64,
{
    let digest = sha256_digest(data);
    hex_text(&digest)
}

/// There are releases for macOS and Linux, on two architectures, under the names that
/// release files use, and for nothing else.
pub proof fn law_released_platforms(os: Seq<char>, arch: Seq<char>)
    ensures
        os_token("macos"@) == Some("darwin"@),
        os_token("linux"@) == Some("linux"@),
        os_token(os) is Some ==> os == "macos"@ || os == "linux"@,
        arch_token("aarch64"@) == Some("arm64"@),
        arch_token("x86_64"@) == Some("x86_64"@),
        arch_token(arch) is Some ==> arch == "aarch64"@ || arch == "x86_64"@,
        os_error(os) == ErrorView::Other(
            "unsupported OS for self-update: "@ + os + " (supported: macOS, Linux)"@,
        ),
        arch_error(arch) == ErrorView::Other(
            "unsupported architecture for self-update: "@ + arch + " (supported: arm64, x86_64)"@,
        ),
{
    reveal_strlit("macos");
    reveal_strlit("linux");
    reveal_strlit("aarch64");
    reveal_strlit("x86_64");
    assert("macos"@[0] != "linux"@[0]);
    assert("aarch64"@[0] != "x86_64"@[0]);
}

/// The number that a lower-case hexadecimal digit stands for.
pub open spec fn hex_value(c: char) -> int {
    if '0' <= c && c <= '9' {
        c as int - '0' as int
    } else {
        c as int - 'a' as int + 10
    }
}

/// Each byte is written by two lower-case hexadecimal digits, the greater first, from
/// which it can be read again.
pub proof fn law_hex_reads_back(data: Seq<u8>, i: int)
    requires
        0 <= i < data.len(),
    ensures
        hex(data).len() == 2 * data.len(),
        forall|j: int|
            0 <= j < hex(data).len() ==> ('0' <= #[trigger] hex(data)[j] && hex(data)[j] <= '9') || (
            'a' <= hex(data)[j] && hex(data)[j] <= 'f'),
        16 * hex_value(hex(data)[2 * i]) + hex_value(hex(data)[2 * i + 1]) == data[i],
{
    reveal_strlit("0123456789abcdef");
    let h = hex(data);
    assert((2 * i) % 2 == 0 && (2 * i) / 2 == i);
    assert((2 * i + 1) % 2 == 1 && (2 * i + 1) / 2 == i);
    assert(h[2 * i] == hex_digit(data[i] as int / 16));
    assert(h[2 * i + 1] == hex_digit(data[i] as int % 16));
    assert forall|n: int| 0 <= n < 16 implies hex_value(#[trigger] hex_digit(n)) == n && (('0'
        <= hex_digit(n) && hex_digit(n) <= '9') || ('a' <= hex_digit(n) && hex_digit(n)
        <= 'f')) by {}
    assert(0 <= data[i] as int / 16 < 16);
    assert(0 <= data[i] as int % 16 < 16);
    assert forall|j: int| 0 <= j < h.len() implies ('0' <= #[trigger] h[j] && h[j] <= '9') || ('a'
        <= h[j] && h[j] <= 'f') by {
        let b = data[j / 2] as int;
        assert(0 <= b / 16 < 16 && 0 <= b % 16 < 16);
    }
}

/// The latest release is asked for at the project's own repository.
pub proof fn law_latest_release_is_asked_at_github()
    ensures
        LATEST_URL@ == "https://api.github.com/repos/skymoore/codemcp/releases/latest"@,
{
}

} // verus!
