//! Character-level text model: the library reads strings as sequences of
//! `char` and states every transformation over those sequences.
use vstd::prelude::*;

verus! {

// ---------------------------------------------------------------------------
// Specifications
// ---------------------------------------------------------------------------

/// Unicode `White_Space`, the set that `str::trim` and `split_whitespace` use.
pub open spec fn is_ws(c: char) -> bool {
    let u = c as u32;
    ||| 0x9 <= u <= 0xd
    ||| u == 0x20
    ||| u == 0x85
    ||| u == 0xa0
    ||| u == 0x1680
    ||| 0x2000 <= u <= 0x200a
    ||| u == 0x2028
    ||| u == 0x2029
    ||| u == 0x202f
    ||| u == 0x205f
    ||| u == 0x3000
}

/// `s` with its leading whitespace removed.
pub open spec fn trim_start(s: Seq<char>) -> Seq<char>
    decreases s.len(),
{
    if s.len() > 0 && is_ws(s[0]) {
        trim_start(s.drop_first())
    } else {
        s
    }
}

/// `s` with its trailing whitespace removed.
pub open spec fn trim_end(s: Seq<char>) -> Seq<char>
    decreases s.len(),
{
    if s.len() > 0 && is_ws(s.last()) {
        trim_end(s.drop_last())
    } else {
        s
    }
}

/// `s` with whitespace removed from both ends.
pub open spec fn trim(s: Seq<char>) -> Seq<char> {
    trim_end(trim_start(s))
}

/// `s` with every trailing occurrence of `c` removed.
pub open spec fn trim_end_char(s: Seq<char>, c: char) -> Seq<char>
    decreases s.len(),
{
    if s.len() > 0 && s.last() == c {
        trim_end_char(s.drop_last(), c)
    } else {
        s
    }
}

/// `s` with every leading and trailing occurrence of `c` removed.
pub open spec fn trim_char(s: Seq<char>, c: char) -> Seq<char> {
    trim_end_char(trim_start_char(s, c), c)
}

/// `s` with every leading occurrence of `c` removed.
pub open spec fn trim_start_char(s: Seq<char>, c: char) -> Seq<char>
    decreases s.len(),
{
    if s.len() > 0 && s[0] == c {
        trim_start_char(s.drop_first(), c)
    } else {
        s
    }
}

/// How many times `c` repeats at the start of `s`.
pub open spec fn count_leading(s: Seq<char>, c: char) -> nat
    decreases s.len(),
{
    if s.len() > 0 && s[0] == c {
        1 + count_leading(s.drop_first(), c)
    } else {
        0
    }
}

pub open spec fn starts_with(s: Seq<char>, p: Seq<char>) -> bool {
    p.len() <= s.len() && s.take(p.len() as int) == p
}

/// `s` without the prefix `p` (meaningful when `starts_with(s, p)`).
pub open spec fn strip_prefix(s: Seq<char>, p: Seq<char>) -> Seq<char> {
    s.skip(p.len() as int)
}

/// `str::strip_prefix(p).unwrap_or(s)`.
pub open spec fn strip_prefix_or_self(s: Seq<char>, p: Seq<char>) -> Seq<char> {
    if starts_with(s, p) {
        strip_prefix(s, p)
    } else {
        s
    }
}

/// The first position at or after `i` where `p` occurs in `s`.
pub open spec fn find_from(s: Seq<char>, p: Seq<char>, i: int) -> Option<int>
    decreases s.len() + 1 - i,
{
    if i < 0 || i + p.len() > s.len() {
        None
    } else if s.subrange(i, i + p.len()) == p {
        Some(i)
    } else {
        find_from(s, p, i + 1)
    }
}

/// `str::split_once(p)`: the text before and after the first `p`.
pub open spec fn split_once(s: Seq<char>, p: Seq<char>) -> Option<(Seq<char>, Seq<char>)> {
    match find_from(s, p, 0) {
        Some(i) => Some((s.take(i), s.skip(i + p.len()))),
        None => None,
    }
}

/// The first position at or after `i` holding `c`, or `s.len()`.
pub open spec fn char_pos(s: Seq<char>, c: char, i: int) -> int
    decreases s.len() - i,
{
    if i < 0 || i >= s.len() {
        s.len() as int
    } else if s[i] == c {
        i
    } else {
        char_pos(s, c, i + 1)
    }
}

/// The first piece of `s.split(c)`.
pub open spec fn before_char(s: Seq<char>, c: char) -> Seq<char> {
    s.take(char_pos(s, c, 0))
}

/// A line without the `\r` of a `\r\n` ending.
pub open spec fn strip_cr(line: Seq<char>) -> Seq<char> {
    if line.len() > 0 && line.last() == '\r' {
        line.drop_last()
    } else {
        line
    }
}

/// `str::lines` over the text that starts at position `i`: lines end at
/// `\n` or `\r\n`, and a final line ending is optional.
pub open spec fn lines_from(s: Seq<char>, i: int) -> Seq<Seq<char>>
    decreases s.len() - i,
{
    if i < 0 || i >= s.len() {
        seq![]
    } else {
        let e = char_pos(s, '\n', i);
        if e < s.len() {
            proof {
                lemma_char_pos_bounds(s, '\n', i);
            }
            seq![strip_cr(s.subrange(i, e))] + lines_from(s, e + 1)
        } else {
            seq![s.subrange(i, s.len() as int)]
        }
    }
}

/// `str::lines`.
pub open spec fn lines(s: Seq<char>) -> Seq<Seq<char>> {
    lines_from(s, 0)
}

pub open spec fn is_digit(c: char) -> bool {
    48 <= c as u32 <= 57
}

pub open spec fn all_digits(s: Seq<char>) -> bool {
    forall|i: int| 0 <= i < s.len() ==> is_digit(#[trigger] s[i])
}

/// The number that a run of decimal digits denotes.
pub open spec fn digits_value(s: Seq<char>) -> nat
    decreases s.len(),
{
    if s.len() == 0 {
        0
    } else {
        digits_value(s.drop_last()) * 10 + (s.last() as u32 - 48) as nat
    }
}

/// `<u32 as FromStr>::from_str`: an optional `+` followed by one or more
/// decimal digits whose value fits in a `u32`.
pub open spec fn parse_u32(s: Seq<char>) -> Option<u32> {
    let d = if s.len() > 0 && s[0] == '+' {
        s.drop_first()
    } else {
        s
    };
    if d.len() > 0 && all_digits(d) && digits_value(d) <= u32::MAX {
        Some(digits_value(d) as u32)
    } else {
        None
    }
}

/// The decimal digits of `n`, most significant first, without leading zeros.
pub open spec fn decimal(n: nat) -> Seq<char>
    decreases n,
{
    if n < 10 {
        seq![digit_char(n)]
    } else {
        decimal(n / 10).push(digit_char(n % 10))
    }
}

pub open spec fn digit_char(d: nat) -> char {
    ((d + 48) as u8) as char
}

/// `s` with every character mapped through `map`.
pub open spec fn lowercase_ascii(s: Seq<char>) -> Seq<char> {
    s.map_values(|c: char| ascii_lower(c))
}

pub open spec fn ascii_lower(c: char) -> char {
    if 65 <= c as u32 <= 90 {
        ((c as u32 + 32) as u8) as char
    } else {
        c
    }
}

/// The parts joined with `sep` between neighbours (`[T]::join`).
pub open spec fn join_with(parts: Seq<Seq<char>>, sep: Seq<char>) -> Seq<char>
    decreases parts.len(),
{
    if parts.len() == 0 {
        seq![]
    } else if parts.len() == 1 {
        parts[0]
    } else {
        join_with(parts.drop_last(), sep) + sep + parts.last()
    }
}

/// The last position of `c` in `s[..i]`, or -1.
pub open spec fn last_pos_before(s: Seq<char>, c: char, i: int) -> int
    decreases i,
{
    if i <= 0 || i > s.len() {
        -1
    } else if s[i - 1] == c {
        i - 1
    } else {
        last_pos_before(s, c, i - 1)
    }
}

/// The last position of `c` in `s`, or -1.
pub open spec fn last_pos(s: Seq<char>, c: char) -> int {
    last_pos_before(s, c, s.len() as int)
}

/// `s.rsplit(c).next()`: the text after the last `c` (all of `s` without one).
pub open spec fn last_segment(s: Seq<char>, c: char) -> Seq<char> {
    s.skip(last_pos(s, c) + 1)
}

/// `s.rsplit_once(c)`: the text before and after the last `c`.
pub open spec fn rsplit_once_char(s: Seq<char>, c: char) -> Option<(Seq<char>, Seq<char>)> {
    let k = last_pos(s, c);
    if k < 0 {
        None
    } else {
        Some((s.take(k), s.skip(k + 1)))
    }
}

/// Whether `p` occurs anywhere in `s`.
pub open spec fn contains(s: Seq<char>, p: Seq<char>) -> bool {
    find_from(s, p, 0) is Some
}

// ---------------------------------------------------------------------------
// Lemmas
// ---------------------------------------------------------------------------

pub proof fn lemma_char_pos_bounds(s: Seq<char>, c: char, i: int)
    requires
        0 <= i,
    ensures
        i <= char_pos(s, c, i) || i > s.len(),
        char_pos(s, c, i) <= s.len(),
        char_pos(s, c, i) < s.len() ==> s[char_pos(s, c, i)] == c,
        forall|j: int| i <= j < char_pos(s, c, i) ==> s[j] != c,
    decreases s.len() - i,
{
    if i < s.len() && s[i] != c {
        lemma_char_pos_bounds(s, c, i + 1);
    }
}

pub proof fn lemma_find_from_bounds(s: Seq<char>, p: Seq<char>, i: int)
    ensures
        find_from(s, p, i) matches Some(k) ==> {
            &&& i <= k
            &&& k + p.len() <= s.len()
            &&& s.subrange(k, k + p.len()) == p
        },
    decreases s.len() + 1 - i,
{
    if !(i < 0 || i + p.len() > s.len()) && s.subrange(i, i + p.len()) != p {
        lemma_find_from_bounds(s, p, i + 1);
    }
}

/// A longer run of digits never denotes a smaller number.
pub proof fn lemma_digits_value_prefix(s: Seq<char>, k: int)
    requires
        0 <= k <= s.len(),
    ensures
        digits_value(s.take(k)) <= digits_value(s),
    decreases s.len() - k,
{
    if k < s.len() {
        lemma_digits_value_prefix(s, k + 1);
        assert(s.take(k + 1).drop_last() =~= s.take(k));
    } else {
        assert(s.take(k) =~= s);
    }
}

/// The decimal digits of a number are digits, and read back as the number.
pub proof fn lemma_decimal_reads_back(n: nat)
    ensures
        decimal(n).len() > 0,
        all_digits(decimal(n)),
        digits_value(decimal(n)) == n,
    decreases n,
{
    if n < 10 {
        assert(decimal(n) == seq![digit_char(n)]);
        assert(digit_char(n) as u32 == n + 48);
        assert(seq![digit_char(n)].drop_last() =~= Seq::<char>::empty());
        assert(digits_value(seq![digit_char(n)]) == digits_value(Seq::<char>::empty()) * 10 + n);
    } else {
        lemma_decimal_reads_back(n / 10);
        let d = n % 10;
        assert(digit_char(d) as u32 == d + 48);
        let t = decimal(n / 10).push(digit_char(d));
        assert(t.drop_last() =~= decimal(n / 10));
        assert(t.last() == digit_char(d));
        assert(digits_value(t) == digits_value(decimal(n / 10)) * 10 + d);
        assert((n / 10) * 10 + n % 10 == n) by (nonlinear_arith);
        assert forall|i: int| 0 <= i < t.len() implies is_digit(#[trigger] t[i]) by {
            if i < t.len() - 1 {
                assert(t[i] == decimal(n / 10)[i]);
            }
        }
    }
}

/// Past a stretch without `c`, the search for `c` goes on where the
/// stretch ends.
pub proof fn lemma_char_pos_skips(s: Seq<char>, c: char, i: int, j: int)
    requires
        0 <= i <= j <= s.len(),
        forall|k: int| i <= k < j ==> s[k] != c,
    ensures
        char_pos(s, c, i) == char_pos(s, c, j),
    decreases j - i,
{
    if i < j {
        lemma_char_pos_skips(s, c, i + 1, j);
    }
}

/// `char_pos` inside a prefix that holds `c` at or after `i` does not look
/// past the prefix.
proof fn lemma_char_pos_in_prefix(a: Seq<char>, b: Seq<char>, c: char, i: int)
    requires
        0 <= i,
        char_pos(a, c, i) < a.len(),
    ensures
        char_pos(a + b, c, i) == char_pos(a, c, i),
    decreases a.len() - i,
{
    if i < a.len() && a[i] != c {
        lemma_char_pos_in_prefix(a, b, c, i + 1);
    }
}

/// `char_pos` in the part after a prefix is `char_pos` in that part, moved
/// by the prefix's length.
proof fn lemma_char_pos_shift(a: Seq<char>, b: Seq<char>, c: char, j: int)
    requires
        0 <= j,
    ensures
        char_pos(a + b, c, a.len() + j) == a.len() + char_pos(b, c, j),
    decreases b.len() - j,
{
    if j < b.len() {
        assert((a + b)[a.len() + j] == b[j]);
        if b[j] != c {
            lemma_char_pos_shift(a, b, c, j + 1);
        }
    }
}

/// The lines of a text that follows a prefix, read from past the prefix.
proof fn lemma_lines_from_shift(a: Seq<char>, b: Seq<char>, j: int)
    requires
        0 <= j,
    ensures
        lines_from(a + b, a.len() + j) == lines_from(b, j),
    decreases b.len() - j,
{
    if j < b.len() {
        lemma_char_pos_shift(a, b, '\n', j);
        lemma_char_pos_bounds(b, '\n', j);
        let e = char_pos(b, '\n', j);
        assert((a + b).subrange(a.len() + j, a.len() + e) =~= b.subrange(j, e));
        if e < b.len() {
            lemma_lines_from_shift(a, b, e + 1);
        } else {
            assert((a + b).subrange(a.len() + j, (a + b).len() as int) =~= b.subrange(j, b.len() as int));
        }
    }
}

/// The lines of a text whose first part ends a line are the lines of each
/// part, in order.
pub proof fn lemma_lines_concat(a: Seq<char>, b: Seq<char>)
    requires
        a.len() == 0 || a.last() == '\n',
    ensures
        lines(a + b) == lines(a) + lines(b),
{
    lemma_lines_from_concat(a, b, 0);
}

proof fn lemma_lines_from_concat(a: Seq<char>, b: Seq<char>, i: int)
    requires
        a.len() == 0 || a.last() == '\n',
        0 <= i <= a.len(),
    ensures
        lines_from(a + b, i) == lines_from(a, i) + lines_from(b, 0),
    decreases a.len() - i,
{
    if i == a.len() {
        lemma_lines_from_shift(a, b, 0);
        assert(lines_from(a, i) =~= Seq::<Seq<char>>::empty());
        assert(lines_from(a, i) + lines_from(b, 0) =~= lines_from(b, 0));
    } else {
        lemma_char_pos_bounds(a, '\n', i);
        let e = char_pos(a, '\n', i);
        if e == a.len() {
            assert(a[a.len() - 1] != '\n');
        }
        lemma_char_pos_in_prefix(a, b, '\n', i);
        assert((a + b).subrange(i, e) =~= a.subrange(i, e));
        lemma_lines_from_concat(a, b, e + 1);
        let x = strip_cr(a.subrange(i, e));
        assert(seq![x] + lines_from(a, e + 1) + lines_from(b, 0) =~= seq![x] + (lines_from(a, e + 1)
            + lines_from(b, 0)));
    }
}

/// `p` occurs in `s` at position `j`.
pub open spec fn occurs_at(s: Seq<char>, p: Seq<char>, j: int) -> bool {
    0 <= j && j + p.len() <= s.len() && s.subrange(j, j + p.len()) == p
}

/// `find_from` finds the first occurrence at or after `i`, and `None` means
/// there is none.
pub proof fn lemma_find_from_first(s: Seq<char>, p: Seq<char>, i: int)
    requires
        0 <= i,
    ensures
        find_from(s, p, i) matches Some(k) ==> i <= k && occurs_at(s, p, k) && forall|j: int|
            i <= j < k ==> !#[trigger] occurs_at(s, p, j),
        find_from(s, p, i) is None ==> forall|j: int| i <= j ==> !#[trigger] occurs_at(s, p, j),
    decreases s.len() + 1 - i,
{
    if i + p.len() <= s.len() && s.subrange(i, i + p.len()) != p {
        lemma_find_from_first(s, p, i + 1);
    }
}

/// `find_from` from `i` gives `k` when `p` occurs at `k` and nowhere from
/// `i` on before it.
proof fn lemma_find_from_at(s: Seq<char>, p: Seq<char>, i: int, k: int)
    requires
        0 <= i <= k,
        occurs_at(s, p, k),
        forall|j: int| i <= j < k ==> !#[trigger] occurs_at(s, p, j),
    ensures
        find_from(s, p, i) == Some(k),
    decreases k - i,
{
    if i < k {
        assert(!occurs_at(s, p, i));
        lemma_find_from_at(s, p, i + 1, k);
    }
}

/// For a separator whose first character does not occur again in it,
/// `split_once` cuts at `x` exactly when the text is `x`, the separator and
/// `y`, and `x` does not contain the separator.
pub proof fn lemma_split_once_iff(s: Seq<char>, p: Seq<char>, x: Seq<char>, y: Seq<char>)
    requires
        p.len() > 0,
        forall|m: int| 0 < m < p.len() ==> #[trigger] p[m] != p[0],
    ensures
        split_once(s, p) == Some((x, y)) <==> (s == x + p + y && !contains(x, p)),
{
    lemma_find_from_first(s, p, 0);
    lemma_find_from_first(x, p, 0);
    if split_once(s, p) == Some((x, y)) {
        let k = find_from(s, p, 0)->0;
        assert(x == s.take(k));
        assert(s =~= x + p + y) by {
            assert(s.subrange(k, k + p.len()) == p);
        }
        if contains(x, p) {
            let j = find_from(x, p, 0)->0;
            assert(s.subrange(j, j + p.len()) =~= x.subrange(j, j + p.len()));
            assert(occurs_at(s, p, j));
        }
    }
    if s == x + p + y && !contains(x, p) {
        let k = x.len() as int;
        assert(s.subrange(k, k + p.len()) =~= p);
        assert forall|j: int| 0 <= j < k implies !#[trigger] occurs_at(s, p, j) by {
            if occurs_at(s, p, j) {
                if j + p.len() <= k {
                    assert(x.subrange(j, j + p.len()) =~= s.subrange(j, j + p.len()));
                    assert(occurs_at(x, p, j));
                } else {
                    let m = k - j;
                    assert(s.subrange(j, j + p.len())[m] == s[k]);
                    assert(s[k] == p[0]);
                    assert(p[m] != p[0]);
                }
            }
        }
        lemma_find_from_at(s, p, 0, k);
        assert(s.take(k) =~= x);
        assert(s.skip(k + p.len()) =~= y);
    }
}

proof fn lemma_trim_start_shape(s: Seq<char>)
    ensures
        trim_start(s).len() == 0 || !is_ws(trim_start(s)[0]),
    decreases s.len(),
{
    if s.len() > 0 && is_ws(s[0]) {
        lemma_trim_start_shape(s.drop_first());
    }
}

proof fn lemma_trim_end_shape(s: Seq<char>)
    ensures
        trim_end(s).len() <= s.len(),
        trim_end(s) == s.take(trim_end(s).len() as int),
        trim_end(s).len() == 0 || !is_ws(trim_end(s).last()),
    decreases s.len(),
{
    if s.len() > 0 && is_ws(s.last()) {
        lemma_trim_end_shape(s.drop_last());
        let k = trim_end(s.drop_last()).len() as int;
        assert(s.drop_last().take(k) =~= s.take(k));
    } else {
        assert(s.take(s.len() as int) =~= s);
    }
}

/// A trimmed text neither starts nor ends with whitespace, so trimming it
/// again changes nothing.
pub proof fn lemma_trim_idempotent(s: Seq<char>)
    ensures
        trim(s).len() == 0 || (!is_ws(trim(s)[0]) && !is_ws(trim(s).last())),
        trim(trim(s)) == trim(s),
{
    let x = trim_start(s);
    lemma_trim_start_shape(s);
    lemma_trim_end_shape(x);
    let y = trim(s);
    if y.len() > 0 {
        assert(y[0] == x[0]);
    }
    assert(trim_start(y) == y);
    assert(trim_end(y) == y);
}

// ---------------------------------------------------------------------------
// Executable text operations
// ---------------------------------------------------------------------------

/// The characters of a string slice, in order.
pub fn chars_of(s: &str) -> (r: Vec<char>)
    ensures
        r@ == s@,
{
    let mut r: Vec<char> = Vec::new();
    for c in it: s.chars()
        invariant
            it.seq() == s@,
            r@ == s@.take(it.index() as int),
    {
        r.push(c);
    }
    r
}

/// Builds a string holding exactly the given characters (std's
/// `FromIterator<&char> for String`).
#[verifier::external_body]
pub(crate) fn string_from_chars(cs: &[char]) -> (r: String)
    ensures
        r@ == cs@,
{
    cs.iter().collect()
}

/// Appends one character to a string (std's `String::push`).
#[verifier::external_body]
pub(crate) fn push_char(s: &mut String, c: char)
    ensures
        final(s)@ == old(s)@.push(c),
{
    s.push(c);
}

/// Appends a string slice to a string (std's `String::push_str`).
#[verifier::external_body]
pub(crate) fn push_str(s: &mut String, t: &str)
    ensures
        final(s)@ == old(s)@ + t@,
{
    s.push_str(t);
}

/// A copy of a string slice as an owned string.
pub fn to_owned_string(s: &str) -> (r: String)
    ensures
        r@ == s@,
{
    s.to_owned()
}

pub fn char_is_ws(c: char) -> (b: bool)
    ensures
        b == is_ws(c),
{
    let u = c as u32;
    (0x9 <= u && u <= 0xd) || u == 0x20 || u == 0x85 || u == 0xa0 || u == 0x1680 || (0x2000 <= u
        && u <= 0x200a) || u == 0x2028 || u == 0x2029 || u == 0x202f || u == 0x205f || u == 0x3000
}

/// Start of the text left in `s[lo..hi]` once leading whitespace is removed.
pub fn trim_start_at(s: &[char], lo: usize, hi: usize) -> (r: usize)
    requires
        lo <= hi <= s@.len(),
    ensures
        lo <= r <= hi,
        s@.subrange(r as int, hi as int) == trim_start(s@.subrange(lo as int, hi as int)),
{
    let mut i = lo;
    while i < hi && char_is_ws(s[i])
        invariant
            lo <= i <= hi <= s@.len(),
            trim_start(s@.subrange(i as int, hi as int)) == trim_start(
                s@.subrange(lo as int, hi as int),
            ),
        decreases hi - i,
    {
        assert(s@.subrange(i as int, hi as int).drop_first() =~= s@.subrange(
            i + 1,
            hi as int,
        ));
        i = i + 1;
    }
    i
}

/// End of the text left in `s[lo..hi]` once trailing whitespace is removed.
pub fn trim_end_at(s: &[char], lo: usize, hi: usize) -> (r: usize)
    requires
        lo <= hi <= s@.len(),
    ensures
        lo <= r <= hi,
        s@.subrange(lo as int, r as int) == trim_end(s@.subrange(lo as int, hi as int)),
{
    let mut j = hi;
    while j > lo && char_is_ws(s[j - 1])
        invariant
            lo <= j <= hi <= s@.len(),
            trim_end(s@.subrange(lo as int, j as int)) == trim_end(
                s@.subrange(lo as int, hi as int),
            ),
        decreases j - lo,
    {
        assert(s@.subrange(lo as int, j as int).drop_last() =~= s@.subrange(
            lo as int,
            j - 1,
        ));
        j = j - 1;
    }
    j
}

/// Bounds of the text left in `s[lo..hi]` once whitespace is removed from
/// both ends.
pub fn trim_at(s: &[char], lo: usize, hi: usize) -> (r: (usize, usize))
    requires
        lo <= hi <= s@.len(),
    ensures
        lo <= r.0 <= r.1 <= hi,
        s@.subrange(r.0 as int, r.1 as int) == trim(s@.subrange(lo as int, hi as int)),
{
    let a = trim_start_at(s, lo, hi);
    let b = trim_end_at(s, a, hi);
    (a, b)
}

/// End of the text left in `s[lo..hi]` once trailing `c`s are removed.
pub fn trim_end_char_at(s: &[char], lo: usize, hi: usize, c: char) -> (r: usize)
    requires
        lo <= hi <= s@.len(),
    ensures
        lo <= r <= hi,
        s@.subrange(lo as int, r as int) == trim_end_char(s@.subrange(lo as int, hi as int), c),
{
    let mut j = hi;
    while j > lo && s[j - 1] == c
        invariant
            lo <= j <= hi <= s@.len(),
            trim_end_char(s@.subrange(lo as int, j as int), c) == trim_end_char(
                s@.subrange(lo as int, hi as int),
                c,
            ),
        decreases j - lo,
    {
        assert(s@.subrange(lo as int, j as int).drop_last() =~= s@.subrange(
            lo as int,
            j - 1,
        ));
        j = j - 1;
    }
    j
}

/// Start of the text left in `s[lo..hi]` once leading `c`s are removed.
pub fn trim_start_char_at(s: &[char], lo: usize, hi: usize, c: char) -> (r: usize)
    requires
        lo <= hi <= s@.len(),
    ensures
        lo <= r <= hi,
        s@.subrange(r as int, hi as int) == trim_start_char(s@.subrange(lo as int, hi as int), c),
{
    let mut i = lo;
    while i < hi && s[i] == c
        invariant
            lo <= i <= hi <= s@.len(),
            trim_start_char(s@.subrange(i as int, hi as int), c) == trim_start_char(
                s@.subrange(lo as int, hi as int),
                c,
            ),
        decreases hi - i,
    {
        assert(s@.subrange(i as int, hi as int).drop_first() =~= s@.subrange(
            i + 1,
            hi as int,
        ));
        i = i + 1;
    }
    i
}

/// How many times `c` repeats at the start of `s[lo..hi]`.
pub fn count_leading_at(s: &[char], lo: usize, hi: usize, c: char) -> (r: usize)
    requires
        lo <= hi <= s@.len(),
    ensures
        r as nat == count_leading(s@.subrange(lo as int, hi as int), c),
        lo + r <= hi,
        forall|k: int| lo <= k < lo + r ==> s@[k] == c,
{
    let mut i = lo;
    while i < hi && s[i] == c
        invariant
            lo <= i <= hi <= s@.len(),
            count_leading(s@.subrange(lo as int, hi as int), c) == (i - lo) + count_leading(
                s@.subrange(i as int, hi as int),
                c,
            ),
            forall|k: int| lo <= k < i ==> s@[k] == c,
        decreases hi - i,
    {
        assert(s@.subrange(i as int, hi as int).drop_first() =~= s@.subrange(
            i + 1,
            hi as int,
        ));
        i = i + 1;
    }
    i - lo
}

/// Whether `s[lo..hi]` begins with `p`.
pub fn starts_with_at(s: &[char], lo: usize, hi: usize, p: &[char]) -> (b: bool)
    requires
        lo <= hi <= s@.len(),
    ensures
        b == starts_with(s@.subrange(lo as int, hi as int), p@),
{
    if p.len() > hi - lo {
        return false;
    }
    let mut k: usize = 0;
    while k < p.len()
        invariant
            k <= p@.len() <= hi - lo,
            lo <= hi <= s@.len(),
            forall|m: int| 0 <= m < k ==> s@[lo + m] == p@[m],
        decreases p@.len() - k,
    {
        if s[lo + k] != p[k] {
            assert(s@.subrange(lo as int, hi as int).take(p@.len() as int)[k as int] != p@[k as int]);
            return false;
        }
        k = k + 1;
    }
    assert(s@.subrange(lo as int, hi as int).take(p@.len() as int) =~= p@);
    true
}

/// Whether `s[lo..hi]` equals `p`.
pub fn equals_at(s: &[char], lo: usize, hi: usize, p: &[char]) -> (b: bool)
    requires
        lo <= hi <= s@.len(),
    ensures
        b == (s@.subrange(lo as int, hi as int) == p@),
{
    if p.len() != hi - lo {
        assert(s@.subrange(lo as int, hi as int).len() != p@.len());
        return false;
    }
    let b = starts_with_at(s, lo, hi, p);
    proof {
        if b {
            assert(s@.subrange(lo as int, hi as int) =~= s@.subrange(lo as int, hi as int).take(
                p@.len() as int,
            ));
        } else {
            assert(s@.subrange(lo as int, hi as int) =~= s@.subrange(lo as int, hi as int).take(
                p@.len() as int,
            ));
        }
    }
    b
}

/// The first position in `s[lo..hi]`, counted from `lo`, where `p` occurs.
pub fn find_at(s: &[char], lo: usize, hi: usize, p: &[char]) -> (r: Option<usize>)
    requires
        lo <= hi <= s@.len(),
    ensures
        match r {
            Some(k) => find_from(s@.subrange(lo as int, hi as int), p@, 0) == Some(k as int),
            None => find_from(s@.subrange(lo as int, hi as int), p@, 0) is None,
        },
{
    let ghost t = s@.subrange(lo as int, hi as int);
    if p.len() > hi - lo {
        return None;
    }
    let last = hi - lo - p.len();
    let mut i: usize = 0;
    loop
        invariant
            lo <= hi <= s@.len(),
            last == hi - lo - p@.len(),
            i <= last,
            t == s@.subrange(lo as int, hi as int),
            find_from(t, p@, 0) == find_from(t, p@, i as int),
        decreases last - i,
    {
        let m = starts_with_at(s, lo + i, hi, p);
        proof {
            assert(s@.subrange((lo + i) as int, hi as int).take(p@.len() as int) =~= t.subrange(
                i as int,
                i + p@.len(),
            ));
        }
        if m {
            return Some(i);
        }
        if i == last {
            proof {
                assert(t.subrange(i as int, i + p@.len()) != p@);
                assert(find_from(t, p@, i + 1) is None);
            }
            return None;
        }
        i = i + 1;
    }
}

/// The first position in `s[lo..hi]`, counted from `lo`, that holds `c`, or
/// the length of that range.
pub fn char_pos_at(s: &[char], lo: usize, hi: usize, c: char) -> (r: usize)
    requires
        lo <= hi <= s@.len(),
    ensures
        r as int == char_pos(s@.subrange(lo as int, hi as int), c, 0),
        r <= hi - lo,
{
    let ghost t = s@.subrange(lo as int, hi as int);
    let mut i: usize = 0;
    while i < hi - lo && s[lo + i] != c
        invariant
            lo <= hi <= s@.len(),
            i <= hi - lo,
            t == s@.subrange(lo as int, hi as int),
            char_pos(t, c, 0) == char_pos(t, c, i as int),
        decreases hi - lo - i,
    {
        i = i + 1;
    }
    i
}

/// The first position at or after `i` in `s` that holds `c`, or `s.len()`.
pub fn char_pos_from(s: &[char], c: char, i: usize) -> (r: usize)
    requires
        i <= s@.len(),
    ensures
        r as int == char_pos(s@, c, i as int),
        i <= r <= s@.len(),
{
    let mut j = i;
    while j < s.len() && s[j] != c
        invariant
            i <= j <= s@.len(),
            char_pos(s@, c, i as int) == char_pos(s@, c, j as int),
        decreases s@.len() - j,
    {
        j = j + 1;
    }
    j
}

/// `<u32 as FromStr>::from_str` over `s[lo..hi]`.
pub fn parse_u32_at(s: &[char], lo: usize, hi: usize) -> (r: Option<u32>)
    requires
        lo <= hi <= s@.len(),
    ensures
        r == parse_u32(s@.subrange(lo as int, hi as int)),
{
    let ghost t = s@.subrange(lo as int, hi as int);
    let start = if lo < hi && s[lo] == '+' {
        lo + 1
    } else {
        lo
    };
    let ghost d = s@.subrange(start as int, hi as int);
    assert(d =~= (if t.len() > 0 && t[0] == '+' {
        t.drop_first()
    } else {
        t
    }));
    if start == hi {
        return None;
    }
    let mut acc: u64 = 0;
    let mut i = start;
    while i < hi
        invariant
            start <= i <= hi <= s@.len(),
            d == s@.subrange(start as int, hi as int),
            t == s@.subrange(lo as int, hi as int),
            d == (if t.len() > 0 && t[0] == '+' {
                t.drop_first()
            } else {
                t
            }),
            all_digits(s@.subrange(start as int, i as int)),
            acc as nat == digits_value(s@.subrange(start as int, i as int)),
            acc <= u32::MAX,
        decreases hi - i,
    {
        let c = s[i];
        let cu = c as u32;
        if !(48 <= cu && cu <= 57) {
            assert(d[i - start] == c);
            assert(!is_digit(d[i - start]));
            assert(!all_digits(d));
            assert(parse_u32(t) is None);
            return None;
        }
        let digit = (cu - 48) as u64;
        assert(s@.subrange(start as int, i + 1).drop_last() =~= s@.subrange(start as int, i as int));
        acc = acc * 10 + digit;
        if acc > u32::MAX as u64 {
            proof {
                assert(s@.subrange(start as int, i + 1) =~= d.take(i + 1 - start));
                lemma_digits_value_prefix(d, i + 1 - start);
                assert(digits_value(d) > u32::MAX);
                assert(parse_u32(t) is None);
            }
            return None;
        }
        i = i + 1;
    }
    assert(s@.subrange(start as int, i as int) =~= d);
    Some(acc as u32)
}

/// Lowercases the ASCII letters of `s[lo..hi]`.
pub fn lowercase_ascii_at(s: &[char], lo: usize, hi: usize) -> (r: Vec<char>)
    requires
        lo <= hi <= s@.len(),
    ensures
        r@ == lowercase_ascii(s@.subrange(lo as int, hi as int)),
{
    let mut r: Vec<char> = Vec::new();
    let mut i = lo;
    while i < hi
        invariant
            lo <= i <= hi <= s@.len(),
            r@ == lowercase_ascii(s@.subrange(lo as int, i as int)),
        decreases hi - i,
    {
        let c = s[i];
        let cu = c as u32;
        let l = if 65 <= cu && cu <= 90 {
            ((c as u32) + 32) as u8 as char
        } else {
            c
        };
        assert(lowercase_ascii(s@.subrange(lo as int, i + 1)) =~= lowercase_ascii(
            s@.subrange(lo as int, i as int),
        ).push(ascii_lower(c)));
        r.push(l);
        i = i + 1;
    }
    r
}

/// The decimal digits of `n`.
pub fn decimal_string(n: u64) -> (r: String)
    ensures
        r@ == decimal(n as nat),
{
    let mut digits: Vec<char> = Vec::new();
    let mut m = n;
    // digits are produced least significant first
    while m >= 10
        invariant
            decimal(n as nat) == decimal(m as nat) + digits@.reverse(),
        decreases m,
    {
        let d = m % 10;
        let c = ((d as u32) + 48) as u8 as char;
        assert(c == digit_char(d as nat));
        proof {
            assert(decimal(m as nat) == decimal((m / 10) as nat).push(digit_char((m % 10) as nat)));
            assert(digits@.push(c).reverse() =~= seq![c] + digits@.reverse());
        }
        digits.push(c);
        m = m / 10;
    }
    let c = ((m as u32) + 48) as u8 as char;
    assert(c == digit_char(m as nat));
    digits.push(c);
    assert(digits@.reverse() =~= seq![c] + digits@.drop_last().reverse());
    let mut out: Vec<char> = Vec::new();
    let mut k = digits.len();
    while k > 0
        invariant
            k <= digits@.len(),
            out@ == digits@.subrange(k as int, digits@.len() as int).reverse(),
        decreases k,
    {
        k = k - 1;
        assert(digits@.subrange(k as int, digits@.len() as int).reverse() =~= digits@.subrange(
            k + 1,
            digits@.len() as int,
        ).reverse().push(digits@[k as int]));
        out.push(digits[k]);
    }
    assert(digits@.subrange(0, digits@.len() as int) =~= digits@);
    string_from_chars(out.as_slice())
}

} // verus!

verus! {

pub proof fn lemma_last_pos_bounds(s: Seq<char>, c: char, i: int)
    requires
        0 <= i <= s.len(),
    ensures
        -1 <= last_pos_before(s, c, i) < i,
        last_pos_before(s, c, i) >= 0 ==> s[last_pos_before(s, c, i)] == c,
        forall|j: int| last_pos_before(s, c, i) < j < i ==> s[j] != c,
    decreases i,
{
    if i > 0 && s[i - 1] != c {
        lemma_last_pos_bounds(s, c, i - 1);
    }
}

/// Whether two strings hold the same characters.
pub fn str_eq(a: &str, b: &str) -> (r: bool)
    ensures
        r == (a@ == b@),
{
    let x = chars_of(a);
    let y = chars_of(b);
    assert(x@.subrange(0, x@.len() as int) =~= x@);
    equals_at(x.as_slice(), 0, x.len(), y.as_slice())
}

/// Whether `s` begins with `p`.
pub fn str_starts_with(s: &str, p: &str) -> (r: bool)
    ensures
        r == starts_with(s@, p@),
{
    let x = chars_of(s);
    let y = chars_of(p);
    assert(x@.subrange(0, x@.len() as int) =~= x@);
    starts_with_at(x.as_slice(), 0, x.len(), y.as_slice())
}

/// Whether `p` occurs in `s`.
pub fn str_contains(s: &str, p: &str) -> (r: bool)
    ensures
        r == contains(s@, p@),
{
    let x = chars_of(s);
    let y = chars_of(p);
    assert(x@.subrange(0, x@.len() as int) =~= x@);
    find_at(x.as_slice(), 0, x.len(), y.as_slice()).is_some()
}

/// Whether `c` occurs in `s`.
pub fn str_has_char(s: &str, c: char) -> (r: bool)
    ensures
        r == (char_pos(s@, c, 0) < s@.len()),
{
    let x = chars_of(s);
    assert(x@.subrange(0, x@.len() as int) =~= x@);
    char_pos_at(x.as_slice(), 0, x.len(), c) < x.len()
}

/// `s` with whitespace removed from both ends.
pub fn trimmed(s: &str) -> (r: String)
    ensures
        r@ == trim(s@),
{
    let x = chars_of(s);
    let (a, b) = trim_at(x.as_slice(), 0, x.len());
    assert(x@.subrange(0, x@.len() as int) =~= x@);
    string_from_chars(&x.as_slice()[a..b])
}

/// Whether `s` is empty once trimmed.
pub fn is_blank(s: &str) -> (r: bool)
    ensures
        r == (trim(s@).len() == 0),
{
    let x = chars_of(s);
    let (a, b) = trim_at(x.as_slice(), 0, x.len());
    assert(x@.subrange(0, x@.len() as int) =~= x@);
    a == b
}

/// The last position of `c` in `s[..i]`, or `None`.
pub fn last_pos_at(s: &[char], c: char, i: usize) -> (r: Option<usize>)
    requires
        i <= s@.len(),
    ensures
        match r {
            Some(k) => k as int == last_pos_before(s@, c, i as int),
            None => last_pos_before(s@, c, i as int) == -1,
        },
{
    let mut j = i;
    while j > 0 && s[j - 1] != c
        invariant
            j <= i <= s@.len(),
            last_pos_before(s@, c, i as int) == last_pos_before(s@, c, j as int),
        decreases j,
    {
        j = j - 1;
    }
    if j == 0 {
        None
    } else {
        Some(j - 1)
    }
}

/// `s.rsplit(c).next()`.
pub fn last_segment_of(s: &str, c: char) -> (r: String)
    ensures
        r@ == last_segment(s@, c),
{
    let x = chars_of(s);
    proof {
        lemma_last_pos_bounds(x@, c, x@.len() as int);
    }
    let start = match last_pos_at(x.as_slice(), c, x.len()) {
        Some(k) => k + 1,
        None => 0,
    };
    assert(x@.subrange(start as int, x@.len() as int) =~= last_segment(s@, c));
    string_from_chars(&x.as_slice()[start..x.len()])
}

/// `s.rsplit_once(c)`, the part before the last `c` only.
pub fn before_last(s: &str, c: char) -> (r: Option<String>)
    ensures
        match r {
            Some(p) => rsplit_once_char(s@, c) matches Some((a, _)) && p@ == a,
            None => rsplit_once_char(s@, c) is None,
        },
{
    let x = chars_of(s);
    proof {
        lemma_last_pos_bounds(x@, c, x@.len() as int);
    }
    match last_pos_at(x.as_slice(), c, x.len()) {
        Some(k) => {
            assert(x@.subrange(0, k as int) =~= x@.take(k as int));
            Some(string_from_chars(&x.as_slice()[0..k]))
        },
        None => None,
    }
}

/// The first `n` characters of `s` (all of it when shorter).
pub fn take_chars(s: &str, n: usize) -> (r: String)
    ensures
        r@ == (if s@.len() <= n {
            s@
        } else {
            s@.take(n as int)
        }),
{
    let x = chars_of(s);
    let m = if x.len() <= n {
        x.len()
    } else {
        n
    };
    assert(x@.subrange(0, x@.len() as int) =~= x@);
    assert(x@.subrange(0, m as int) =~= x@.take(m as int));
    string_from_chars(&x.as_slice()[0..m])
}

/// The first piece of `s.split(c)`: `s` up to its first `c`.
pub fn before_first(s: &str, c: char) -> (r: String)
    ensures
        r@ == before_char(s@, c),
{
    let x = chars_of(s);
    let k = char_pos_from(x.as_slice(), c, 0);
    assert(x@.subrange(0, k as int) =~= x@.take(k as int));
    string_from_chars(&x.as_slice()[0..k])
}

} // verus!
