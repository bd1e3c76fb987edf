//! Strings as sequences of characters: comparison, searching, splitting,
//! padding and decimal numbers.

use vstd::prelude::*;
use vstd::string::*;

verus! {

/// The code point of a character.
pub open spec fn code(c: char) -> int {
    c as int
}

/// Whether `a` comes strictly before `b` in the order of their code points,
/// a proper prefix before the longer string. For UTF-8 this is also the order
/// of the encoded bytes.
pub open spec fn before(a: Seq<char>, b: Seq<char>) -> bool
    decreases a.len(),
{
    if b.len() == 0 {
        false
    } else if a.len() == 0 {
        true
    } else if a[0] == b[0] {
        before(a.drop_first(), b.drop_first())
    } else {
        code(a[0]) < code(b[0])
    }
}

/// No string comes before itself.
pub proof fn lemma_before_irreflexive(a: Seq<char>)
    ensures
        !before(a, a),
    decreases a.len(),
{
    if a.len() > 0 {
        lemma_before_irreflexive(a.drop_first());
    }
}

/// The order is transitive.
pub proof fn lemma_before_transitive(a: Seq<char>, b: Seq<char>, c: Seq<char>)
    requires
        before(a, b),
        before(b, c),
    ensures
        before(a, c),
    decreases a.len(),
{
    if a.len() > 0 && a[0] == b[0] && b[0] == c[0] {
        lemma_before_transitive(a.drop_first(), b.drop_first(), c.drop_first());
    }
}

/// Of two different strings one comes before the other.
pub proof fn lemma_before_total(a: Seq<char>, b: Seq<char>)
    ensures
        a == b || before(a, b) || before(b, a),
    decreases a.len(),
{
    if a.len() == 0 {
        assert(b.len() == 0 ==> a =~= b);
    } else if b.len() > 0 && a[0] == b[0] {
        lemma_before_total(a.drop_first(), b.drop_first());
        if a.drop_first() == b.drop_first() {
            assert(a =~= seq![a[0]] + a.drop_first());
            assert(b =~= seq![b[0]] + b.drop_first());
        }
    }
}

/// A list of strings by their characters.
pub open spec fn texts_of(list: Seq<String>) -> Seq<Seq<char>> {
    Seq::new(list.len(), |i: int| list[i]@)
}

/// A list of pairs of strings by their characters.
pub open spec fn pairs_of(list: Seq<(String, String)>) -> Seq<(Seq<char>, Seq<char>)> {
    Seq::new(list.len(), |i: int| (list[i].0@, list[i].1@))
}

/// A string that may be missing, by its characters.
pub open spec fn opt_text(s: Option<String>) -> Option<Seq<char>> {
    match s {
        Some(t) => Some(t@),
        None => None,
    }
}

/// A `Result` with its error message by its characters.
pub open spec fn refused_text<T>(r: Result<T, String>) -> Result<T, Seq<char>> {
    match r {
        Ok(v) => Ok(v),
        Err(e) => Err(e@),
    }
}

/// The characters of a string, in order.
pub fn chars_of(s: &str) -> (r: Vec<char>)
    ensures
        r@ == s@,
{
    let mut out: Vec<char> = Vec::new();
    for c in it: s.chars()
        invariant
            it.seq() == s@,
            out@ == s@.take(it.index() as int),
    {
        out.push(c);
    }
    out
}

/// Whether two strings hold the same characters.
pub fn same(a: &str, b: &str) -> (r: bool)
    ensures
        r == (a@ == b@),
{
    a.to_owned() == b.to_owned()
}

/// Whether `a` comes strictly before `b`.
pub fn is_before(a: &str, b: &str) -> (r: bool)
    ensures
        r == before(a@, b@),
{
    let x = chars_of(a);
    let y = chars_of(b);
    let mut i: usize = 0;
    assert(x@.skip(0) =~= a@);
    assert(y@.skip(0) =~= b@);
    while i < x.len() && i < y.len()
        invariant
            i <= x.len(),
            i <= y.len(),
            x@ == a@,
            y@ == b@,
            before(a@, b@) == before(x@.skip(i as int), y@.skip(i as int)),
        decreases x.len() - i,
    {
        let ghost u = x@.skip(i as int);
        let ghost v = y@.skip(i as int);
        assert(u[0] == x@[i as int] && v[0] == y@[i as int]);
        let p: char = x[i];
        let q: char = y[i];
        if p != q {
            return p < q;
        }
        assert(u.drop_first() =~= x@.skip(i + 1));
        assert(v.drop_first() =~= y@.skip(i + 1));
        i = i + 1;
    }
    i < y.len()
}

/// Whether a character is one of the digits `0` to `9`.
pub open spec fn is_digit(c: char) -> bool {
    '0' <= c && c <= '9'
}

/// The number that a string of digits writes in base ten.
pub open spec fn digits_value(s: Seq<char>) -> nat
    decreases s.len(),
{
    if s.len() == 0 {
        0
    } else {
        digits_value(s.drop_last()) * 10 + (code(s.last()) - code('0')) as nat
    }
}

/// Whether a string consists of digits, and of at least one.
pub open spec fn all_digits(s: Seq<char>) -> bool {
    &&& s.len() > 0
    &&& forall|i: int| 0 <= i < s.len() ==> is_digit(#[trigger] s[i])
}

/// The unsigned 64-bit number that a string writes: an optional plus sign and
/// at least one digit, nothing else, and no more than `u64` holds.
pub open spec fn parsed_u64(s: Seq<char>) -> Option<u64> {
    let digits = without_prefix(s, '+');
    if all_digits(digits) && digits_value(digits) <= u64::MAX {
        Some(digits_value(digits) as u64)
    } else {
        None
    }
}

/// Reads the unsigned number written by the characters from `from` up to `to`.
pub fn parse_u64(s: &Vec<char>, from: usize, to: usize) -> (r: Option<u64>)
    requires
        from <= to <= s.len(),
    ensures
        r == parsed_u64(s@.subrange(from as int, to as int)),
{
    let ghost piece = s@.subrange(from as int, to as int);
    let first: usize = if from < to && s[from] == '+' {
        from + 1
    } else {
        from
    };
    let ghost digits = s@.subrange(first as int, to as int);
    proof {
        if from < to {
            assert(piece[0] == s@[from as int]);
            assert(piece.drop_first() =~= s@.subrange(from + 1, to as int));
        }
    }
    if first == to {
        return None;
    }
    let mut value: u64 = 0;
    let mut over: bool = false;
    let mut i: usize = first;
    assert(digits.take(0) =~= Seq::<char>::empty());
    while i < to
        invariant
            first <= i <= to <= s.len(),
            digits == s@.subrange(first as int, to as int),
            from <= first,
            piece == s@.subrange(from as int, to as int),
            digits == without_prefix(piece, '+'),
            forall|j: int| 0 <= j < i - first ==> is_digit(#[trigger] digits[j]),
            over ==> digits_value(digits.take(i - first)) > u64::MAX,
            !over ==> value == digits_value(digits.take(i - first)),
        decreases to - i,
    {
        let c: char = s[i];
        assert(digits[i - first] == c);
        if c < '0' || '9' < c {
            assert(!is_digit(digits[i - first]));
            return None;
        }
        let d: u64 = (c as u32 - 48) as u64;
        assert(digits.take(i + 1 - first).drop_last() =~= digits.take(i - first));
        assert(digits.take(i + 1 - first).last() == c);
        if !over {
            if value > 1844674407370955161u64 || (value == 1844674407370955161u64 && d > 5) {
                over = true;
            } else {
                value = value * 10 + d;
            }
        }
        i = i + 1;
    }
    assert(digits.take(to - first) =~= digits);
    if over {
        None
    } else {
        Some(value)
    }
}

/// The pieces of `s` between the occurrences of `sep`.
pub open spec fn split(s: Seq<char>, sep: char) -> Seq<Seq<char>>
    decreases s.len(),
{
    if s.len() == 0 {
        seq![Seq::empty()]
    } else {
        let pieces = split(s.drop_last(), sep);
        if s.last() == sep {
            pieces.push(Seq::empty())
        } else {
            pieces.drop_last().push(pieces.last().push(s.last()))
        }
    }
}

/// The decimal digits of a number, without leading zeros.
pub open spec fn decimal(n: nat) -> Seq<char>
    decreases n,
{
    if n < 10 {
        seq![digit_char(n)]
    } else {
        decimal(n / 10).push(digit_char(n % 10))
    }
}

/// The digit that writes a number below ten.
pub open spec fn digit_char(d: nat) -> char {
    (code('0') + d) as char
}

/// The string of one digit.
fn digit_text(d: u64) -> (r: &'static str)
    requires
        d < 10,
    ensures
        r@ == seq![digit_char(d as nat)],
{
    proof {
        reveal_strlit("0123456789");
    }
    let r = "0123456789".substring_char(d as usize, d as usize + 1);
    assert(r@ =~= seq![digit_char(d as nat)]);
    r
}

/// Writes a number in base ten.
pub fn decimal_text(n: u64) -> (r: String)
    ensures
        r@ == decimal(n as nat),
    decreases n,
{
    if n < 10 {
        digit_text(n).to_owned()
    } else {
        let r = decimal_text(n / 10).concat(digit_text(n % 10));
        assert(r@ =~= decimal(n as nat));
        r
    }
}

/// A string filled up on the right with spaces to at least `width` characters.
pub open spec fn padded(s: Seq<char>, width: nat) -> Seq<char> {
    if s.len() < width {
        s + Seq::new((width - s.len()) as nat, |i: int| ' ')
    } else {
        s
    }
}

/// Fills a string up on the right with spaces to at least `width` characters.
pub fn pad(s: &str, width: usize) -> (r: String)
    ensures
        r@ == padded(s@, width as nat),
{
    let n: usize = s.unicode_len();
    let mut out = s.to_owned();
    let mut i: usize = n;
    while i < width
        invariant
            n == s@.len(),
            n <= i,
            i <= width || i == n,
            out@ =~= s@ + Seq::new((i - n) as nat, |j: int| ' '),
        decreases width - i,
    {
        proof {
            reveal_strlit(" ");
        }
        out.append(" ");
        i = i + 1;
    }
    assert(out@ =~= padded(s@, width as nat));
    out
}

/// Whether a character is white space in Unicode's sense.
pub open spec fn is_space(c: char) -> bool {
    let n = code(c);
    ||| 9 <= n <= 13
    ||| n == 32
    ||| n == 0x85
    ||| n == 0xA0
    ||| n == 0x1680
    ||| 0x2000 <= n <= 0x200A
    ||| n == 0x2028
    ||| n == 0x2029
    ||| n == 0x202F
    ||| n == 0x205F
    ||| n == 0x3000
}

/// Whether a character is white space in Unicode's sense.
pub fn is_space_char(c: char) -> (r: bool)
    ensures
        r == is_space(c),
{
    let n: u32 = c as u32;
    (9 <= n && n <= 13) || n == 32 || n == 0x85 || n == 0xA0 || n == 0x1680 || (0x2000 <= n && n
        <= 0x200A) || n == 0x2028 || n == 0x2029 || n == 0x202F || n == 0x205F || n == 0x3000
}

/// How many white space characters a string starts with.
pub open spec fn leading_spaces(s: Seq<char>) -> nat
    decreases s.len(),
{
    if s.len() > 0 && is_space(s[0]) {
        1 + leading_spaces(s.drop_first())
    } else {
        0
    }
}

/// How many characters a string starts with before the first white space.
pub open spec fn leading_word(s: Seq<char>) -> nat
    decreases s.len(),
{
    if s.len() > 0 && !is_space(s[0]) {
        1 + leading_word(s.drop_first())
    } else {
        0
    }
}

/// The first run of characters that are not white space; empty where there is
/// none.
pub open spec fn first_word(s: Seq<char>) -> Seq<char> {
    let rest = s.skip(leading_spaces(s) as int);
    rest.take(leading_word(rest) as int)
}

/// The first run of characters that are not white space; empty where there is
/// none.
pub fn first_word_of(s: &str) -> (r: String)
    ensures
        r@ == first_word(s@),
{
    let x = chars_of(s);
    let mut i: usize = 0;
    assert(x@.skip(0) =~= s@);
    while i < x.len() && is_space_char(x[i])
        invariant
            i <= x.len(),
            x@ == s@,
            leading_spaces(s@) == i + leading_spaces(x@.skip(i as int)),
        decreases x.len() - i,
    {
        assert(x@.skip(i as int).drop_first() =~= x@.skip(i + 1));
        i = i + 1;
    }
    let ghost rest = x@.skip(i as int);
    let mut j: usize = i;
    assert(rest.skip(0) =~= rest);
    while j < x.len() && !is_space_char(x[j])
        invariant
            i <= j <= x.len(),
            rest == x@.skip(i as int),
            leading_word(rest) == (j - i) + leading_word(rest.skip(j - i)),
        decreases x.len() - j,
    {
        assert(rest.skip(j - i)[0] == x@[j as int]);
        assert(rest.skip(j - i).drop_first() =~= rest.skip(j + 1 - i));
        j = j + 1;
    }
    let r = s.substring_char(i, j);
    assert(r@ =~= rest.take(j - i));
    r.to_owned()
}

/// `s` without `prefix` in front, where it starts with it.
pub open spec fn without_prefix(s: Seq<char>, prefix: char) -> Seq<char> {
    if s.len() > 0 && s[0] == prefix {
        s.drop_first()
    } else {
        s
    }
}

/// `s` without the character `prefix` in front, where it starts with it.
pub fn strip_prefix_char(s: &str, prefix: char) -> (r: String)
    ensures
        r@ == without_prefix(s@, prefix),
{
    let n: usize = s.unicode_len();
    if n > 0 && s.get_char(0) == prefix {
        let r = s.substring_char(1, n);
        assert(r@ =~= s@.drop_first());
        r.to_owned()
    } else {
        s.to_owned()
    }
}

/// Whether `part` stands somewhere in `s`.
pub open spec fn occurs(part: Seq<char>, s: Seq<char>) -> bool {
    exists|i: int| 0 <= i <= s.len() - part.len() && #[trigger] s.subrange(i, i + part.len()) == part
}

/// Whether `part` stands somewhere in `s`.
pub fn contains_text(s: &str, part: &str) -> (r: bool)
    ensures
        r == occurs(part@, s@),
{
    let n: usize = s.unicode_len();
    let m: usize = part.unicode_len();
    if n < m {
        return false;
    }
    let mut i: usize = 0;
    while i <= n - m
        invariant
            n == s@.len(),
            m == part@.len(),
            m <= n,
            i <= n - m + 1,
            forall|j: int| 0 <= j < i ==> #[trigger] s@.subrange(j, j + m) != part@,
        decreases n - i,
    {
        let here = s.substring_char(i, i + m);
        if same(here, part) {
            assert(s@.subrange(i as int, i + m) == part@);
            return true;
        }
        if i == n - m {
            assert(forall|j: int|
                0 <= j <= n - m ==> #[trigger] s@.subrange(j, j + part@.len()) != part@);
            return false;
        }
        i = i + 1;
    }
    false
}

/// A path with a relative path behind it.
pub open spec fn joined(base: Seq<char>, part: Seq<char>) -> Seq<char> {
    if base.len() == 0 {
        part
    } else if base.last() == '/' {
        base + part
    } else {
        base + "/"@ + part
    }
}

/// Puts a relative path behind a path.
pub fn join(base: &str, part: &str) -> (r: String)
    ensures
        r@ == joined(base@, part@),
{
    let n: usize = base.unicode_len();
    if n == 0 {
        part.to_owned()
    } else if base.get_char(n - 1) == '/' {
        base.to_owned().concat(part)
    } else {
        base.to_owned().concat("/").concat(part)
    }
}

/// Copies a list of strings.
pub fn copy_texts(list: &Vec<String>) -> (r: Vec<String>)
    ensures
        r@ == list@,
{
    let mut out: Vec<String> = Vec::new();
    let mut i: usize = 0;
    while i < list.len()
        invariant
            i <= list.len(),
            out@ == list@.take(i as int),
        decreases list.len() - i,
    {
        out.push(list[i].clone());
        i = i + 1;
    }
    out
}

/// Copies a string that may be missing.
pub fn copy_text(s: &Option<String>) -> (r: Option<String>)
    ensures
        r == *s,
{
    match s {
        Some(t) => Some(t.clone()),
        None => None,
    }
}

/// A string comes before another where, behind what they have in common, it has
/// ended and the other has not, or goes on with the smaller code point.
pub proof fn law_before_is_decided_at_the_first_difference(a: Seq<char>, b: Seq<char>, k: int)
    requires
        0 <= k <= a.len(),
        k <= b.len(),
        a.take(k) == b.take(k),
        k < a.len() && k < b.len() ==> a[k] != b[k],
    ensures
        k == b.len() ==> !before(a, b),
        k == a.len() && k < b.len() ==> before(a, b),
        k < a.len() && k < b.len() ==> (before(a, b) <==> (a[k] as int) < (b[k] as int)),
    decreases k,
{
    if k > 0 {
        assert(a[0] == a.take(k)[0] && b[0] == b.take(k)[0]);
        assert(a.drop_first().take(k - 1) =~= a.take(k).drop_first());
        assert(b.drop_first().take(k - 1) =~= b.take(k).drop_first());
        law_before_is_decided_at_the_first_difference(a.drop_first(), b.drop_first(), k - 1);
    }
}

/// A number below ten is written by its digit; a greater one is written like a tenth
/// of it, with its last digit behind.
pub proof fn law_decimal_goes_digit_by_digit(n: nat, d: nat)
    requires
        d < 10,
    ensures
        decimal(d).len() == 1,
        decimal(d)[0] as int == '0' as int + d,
        n > 0 ==> decimal(10 * n + d) == decimal(n) + decimal(d),
{
    assert((10 * n + d) / 10 == n);
    assert((10 * n + d) % 10 == d);
    assert(decimal(n) + decimal(d) =~= decimal(n).push(digit_char(d)));
}

/// What is written for a number is read as that number, also with a plus sign or
/// zeros in front.
pub proof fn law_numbers_read_back(n: u64)
    ensures
        parsed_u64(decimal(n as nat)) == Some(n),
        parsed_u64("+"@ + decimal(n as nat)) == Some(n),
        parsed_u64("0"@ + decimal(n as nat)) == Some(n),
{
    let s = decimal(n as nat);
    lemma_decimal(n as nat);
    reveal_strlit("+");
    reveal_strlit("0");
    assert(is_digit(s[0]));
    assert(("+"@ + s).drop_first() =~= s);
    let z = "0"@ + s;
    assert forall|i: int| 0 <= i < z.len() implies is_digit(#[trigger] z[i]) by {
        if i > 0 {
            assert(z[i] == s[i - 1]);
        }
    }
    lemma_zero_in_front(s);
}

/// A zero in front of some digits leaves the number as it is.
proof fn lemma_zero_in_front(s: Seq<char>)
    ensures
        digits_value("0"@ + s) == digits_value(s),
    decreases s.len(),
{
    reveal_strlit("0");
    let z = "0"@ + s;
    if s.len() == 0 {
        assert(z.drop_last() =~= Seq::<char>::empty());
        assert(digits_value(z.drop_last()) == 0);
    } else {
        lemma_zero_in_front(s.drop_last());
        assert(z.drop_last() =~= "0"@ + s.drop_last());
    }
}

/// What is written for a number consists of digits that stand for it.
proof fn lemma_decimal(n: nat)
    ensures
        all_digits(decimal(n)),
        digits_value(decimal(n)) == n,
    decreases n,
{
    let s = decimal(n);
    if n < 10 {
        assert(s.drop_last() =~= Seq::<char>::empty());
        assert(digits_value(s.drop_last()) == 0);
    } else {
        lemma_decimal(n / 10);
        assert(s.drop_last() =~= decimal(n / 10));
        assert forall|i: int| 0 <= i < s.len() implies is_digit(#[trigger] s[i]) by {
            if i < s.len() - 1 {
                assert(s[i] == decimal(n / 10)[i]);
            }
        }
    }
}

/// A string is read as a number only where it consists of digits, at least one, with
/// at most a plus sign in front of them.
pub proof fn law_only_digits_are_numbers(s: Seq<char>)
    requires
        parsed_u64(s) is Some,
    ensures
        forall|i: int| 0 < i < s.len() ==> '0' <= #[trigger] s[i] && s[i] <= '9',
        s.len() > 0,
        '0' <= s[0] && s[0] <= '9' || s[0] == '+' && s.len() > 1,
{
    let digits = without_prefix(s, '+');
    assert(is_digit(digits[0]));
    if s[0] == '+' {
        assert forall|i: int| 0 < i < s.len() implies '0' <= #[trigger] s[i] && s[i] <= '9' by {
            assert(is_digit(digits[i - 1]));
        }
    } else {
        assert forall|i: int| 0 < i < s.len() implies '0' <= #[trigger] s[i] && s[i] <= '9' by {
            assert(is_digit(digits[i]));
        }
    }
}

/// One more digit makes a number ten times as great, plus the digit, where that is
/// not too great; else the string is no number.
pub proof fn law_numbers_grow_by_digits(s: Seq<char>, d: u64)
    requires
        d < 10,
        parsed_u64(s) is Some,
    ensures
        parsed_u64(s + decimal(d as nat)) == (if parsed_u64(s)->0 * 10 + d <= u64::MAX {
            Some((parsed_u64(s)->0 * 10 + d) as u64)
        } else {
            None
        }),
{
    let digits = without_prefix(s, '+');
    let c = digit_char(d as nat);
    let t = s + decimal(d as nat);
    assert(t =~= s.push(c));
    assert(is_digit(digits[0]));
    assert(s.len() > 0);
    assert(without_prefix(t, '+') =~= digits.push(c));
    assert(digits.push(c).drop_last() =~= digits);
    assert forall|i: int| 0 <= i < digits.push(c).len() implies is_digit(
        #[trigger] digits.push(c)[i],
    ) by {
        if i < digits.len() {
            assert(digits.push(c)[i] == digits[i]);
        }
    }
}

/// Digits that write a number that is too great stay too great with more digits behind.
pub proof fn law_too_great_stays_too_great(s: Seq<char>, d: nat)
    requires
        d < 10,
        s.len() > 0,
        forall|i: int| 0 <= i < s.len() ==> '0' <= #[trigger] s[i] && s[i] <= '9',
        parsed_u64(s) is None,
    ensures
        parsed_u64(s + decimal(d)) is None,
{
    assert forall|i: int| 0 <= i < s.len() implies is_digit(#[trigger] s[i]) by {}
    assert(without_prefix(s, '+') == s);
    let c = digit_char(d);
    let t = s + decimal(d);
    assert(t =~= s.push(c));
    assert(without_prefix(t, '+') == t);
    assert(t.drop_last() =~= s);
}

/// A string without the separator is one piece. Of two strings with the separator
/// between them the pieces are those of the one and then those of the other.
pub proof fn law_split_cuts_at_separators(a: Seq<char>, b: Seq<char>, sep: char)
    ensures
        !a.contains(sep) ==> split(a, sep) == seq![a],
        split(a.push(sep) + b, sep) == split(a, sep) + split(b, sep),
{
    if !a.contains(sep) {
        lemma_split_whole(a, sep);
    }
    lemma_split_both(a, b, sep);
}

/// A string without the separator is one piece.
proof fn lemma_split_whole(a: Seq<char>, sep: char)
    requires
        !a.contains(sep),
    ensures
        split(a, sep) == seq![a],
    decreases a.len(),
{
    if a.len() == 0 {
        assert(a =~= Seq::<char>::empty());
    } else {
        let front = a.drop_last();
        assert forall|i: int| 0 <= i < front.len() implies front[i] != sep by {
            assert(a[i] != sep);
        }
        lemma_split_whole(front, sep);
        assert(a[a.len() - 1] != sep);
        assert(front.push(a.last()) =~= a);
        assert(split(a, sep) =~= seq![a]);
    }
}

/// There is always a piece.
proof fn lemma_split_some(a: Seq<char>, sep: char)
    ensures
        split(a, sep).len() > 0,
    decreases a.len(),
{
    if a.len() > 0 {
        lemma_split_some(a.drop_last(), sep);
    }
}

/// Cutting behind a separator leaves the pieces in front of it as they are.
proof fn lemma_split_both(a: Seq<char>, b: Seq<char>, sep: char)
    ensures
        split(a.push(sep) + b, sep) == split(a, sep) + split(b, sep),
    decreases b.len(),
{
    let s = a.push(sep) + b;
    if b.len() == 0 {
        assert(s.drop_last() =~= a);
        assert(split(s, sep) =~= split(a, sep) + split(b, sep));
    } else {
        lemma_split_both(a, b.drop_last(), sep);
        lemma_split_some(b.drop_last(), sep);
        assert(s.drop_last() =~= a.push(sep) + b.drop_last());
        assert(split(s, sep) =~= split(a, sep) + split(b, sep));
    }
}

/// Filling up keeps the string in front, adds only spaces and stops at the width.
pub proof fn law_padding_adds_spaces(s: Seq<char>, width: nat)
    ensures
        padded(s, width).len() == (if s.len() < width {
            width
        } else {
            s.len()
        }),
        padded(s, width).take(s.len() as int) == s,
        forall|i: int| s.len() <= i < padded(s, width).len() ==> #[trigger] padded(s, width)[i] == ' ',
{
    assert(padded(s, width).take(s.len() as int) =~= s);
}

/// Among the ASCII characters tab, line feed, vertical tab, form feed, carriage return
/// and space are white space, and no others; beyond them, what Unicode lists.
pub proof fn law_white_space(c: char)
    ensures
        (c as int) < 128 ==> (is_space(c) <==> c == '\t' || c == '\n' || c == '\u{b}' || c
            == '\u{c}' || c == '\r' || c == ' '),
        (c as int) >= 128 ==> (is_space(c) <==> c == '\u{85}' || c == '\u{a0}' || c == '\u{1680}'
            || ('\u{2000}' <= c && c <= '\u{200a}') || c == '\u{2028}' || c == '\u{2029}' || c
            == '\u{202f}' || c == '\u{205f}' || c == '\u{3000}'),
{
}

/// The first word is what stands between the white space in front and the next white
/// space, or the end.
pub proof fn law_first_word_lies_between_spaces(
    spaces: Seq<char>,
    word: Seq<char>,
    rest: Seq<char>,
)
    requires
        forall|i: int| 0 <= i < spaces.len() ==> is_space(#[trigger] spaces[i]),
        forall|i: int| 0 <= i < word.len() ==> !is_space(#[trigger] word[i]),
        rest.len() > 0 ==> is_space(rest[0]) && word.len() > 0,
    ensures
        first_word(spaces + word + rest) == word,
    decreases spaces.len(),
{
    let s = spaces + word + rest;
    if spaces.len() > 0 {
        assert(s[0] == spaces[0]);
        assert(s.drop_first() =~= spaces.drop_first() + word + rest);
        assert forall|i: int| 0 <= i < spaces.drop_first().len() implies is_space(
            #[trigger] spaces.drop_first()[i],
        ) by {
            assert(spaces.drop_first()[i] == spaces[i + 1]);
        }
        law_first_word_lies_between_spaces(spaces.drop_first(), word, rest);
        let n = leading_spaces(s.drop_first()) as int;
        lemma_leading(s.drop_first());
        assert(s.skip(n + 1) =~= s.drop_first().skip(n));
    } else {
        assert(s =~= word + rest);
        if s.len() > 0 {
            if word.len() > 0 {
                assert(s[0] == word[0]);
            }
        }
        assert(s.skip(0) =~= s);
        lemma_leading_word(word, rest);
        assert(s.take(word.len() as int) =~= word);
    }
}

/// White space in front is part of the string.
proof fn lemma_leading(s: Seq<char>)
    ensures
        leading_spaces(s) <= s.len(),
    decreases s.len(),
{
    if s.len() > 0 && is_space(s[0]) {
        lemma_leading(s.drop_first());
    }
}

/// A word ends where the white space begins.
proof fn lemma_leading_word(word: Seq<char>, rest: Seq<char>)
    requires
        forall|i: int| 0 <= i < word.len() ==> !is_space(#[trigger] word[i]),
        rest.len() > 0 ==> is_space(rest[0]),
    ensures
        leading_word(word + rest) == word.len(),
    decreases word.len(),
{
    let s = word + rest;
    if word.len() > 0 {
        assert(s[0] == word[0]);
        assert(s.drop_first() =~= word.drop_first() + rest);
        assert forall|i: int| 0 <= i < word.drop_first().len() implies !is_space(
            #[trigger] word.drop_first()[i],
        ) by {
            assert(word.drop_first()[i] == word[i + 1]);
        }
        lemma_leading_word(word.drop_first(), rest);
    } else {
        assert(s =~= rest);
    }
}

/// A prefix that is there is taken off once; where it is not there nothing is.
pub proof fn law_prefix_is_taken_off(s: Seq<char>, prefix: char)
    ensures
        without_prefix(seq![prefix] + s, prefix) == s,
        s.len() == 0 || s[0] != prefix ==> without_prefix(s, prefix) == s,
{
    assert((seq![prefix] + s).drop_first() =~= s);
}

/// Between a path and a relative path behind it stands exactly one slash, put there
/// where the first does not end with one.
pub proof fn law_paths_are_joined_by_one_slash(base: Seq<char>, part: Seq<char>)
    ensures
        base.len() > 0 && base[base.len() - 1] != '/' ==> joined(base, part) == base.push('/')
            + part,
        joined(base.push('/'), part) == base.push('/') + part,
        joined(Seq::empty(), part) == part,
{
    reveal_strlit("/");
    assert(base + "/"@ =~= base.push('/'));
}

/// Strings are taken by all their characters, lists of them item by item, and a string
/// that is missing stays missing.
pub proof fn law_strings_keep_their_characters(
    list: Seq<String>,
    pairs: Seq<(String, String)>,
    s: String,
)
    ensures
        texts_of(list).len() == list.len(),
        forall|i: int| 0 <= i < list.len() ==> #[trigger] texts_of(list)[i] == list[i]@,
        pairs_of(pairs).len() == pairs.len(),
        forall|i: int|
            0 <= i < pairs.len() ==> (#[trigger] pairs_of(pairs)[i]).0 == pairs[i].0@
                && pairs_of(pairs)[i].1 == pairs[i].1@,
        opt_text(Some(s)) == Some(s@),
        opt_text(None) is None,
        refused_text::<u8>(Err(s)) == Err::<u8, Seq<char>>(s@),
        forall|n: u8| #[trigger] refused_text::<u8>(Ok(n)) == Ok::<u8, Seq<char>>(n),
{
}

} // verus!
