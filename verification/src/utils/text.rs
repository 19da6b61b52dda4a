//! Character and string helpers with exact specifications.
//!
//! Texts are handled as sequences of `char`; each helper states its result
//! over `Seq<char>` with the meaning that the matching `str` method of std has.

use vstd::prelude::*;
use vstd::string::*;

verus! {

// ---------------------------------------------------------------------------
// Character classes
// ---------------------------------------------------------------------------

/// ASCII letters and digits.
pub open spec fn is_ascii_alnum(c: char) -> bool {
    ('a' <= c && c <= 'z') || ('A' <= c && c <= 'Z') || ('0' <= c && c <= '9')
}

/// The ASCII characters that carry the Unicode `White_Space` property.
pub open spec fn is_ascii_ws(c: char) -> bool {
    c == ' ' || c == '\t' || c == '\n' || c == '\r' || c == '\x0B' || c == '\x0C'
}

/// What `char::is_alphanumeric` answers for `c` (Unicode `Alphabetic` or numeric categories).
pub uninterp spec fn char_is_alphanumeric(c: char) -> bool;

/// What `char::is_whitespace` answers for `c` (Unicode `White_Space`).
pub uninterp spec fn char_is_whitespace(c: char) -> bool;

/// `char::is_alphanumeric`. Its result is named by `char_is_alphanumeric`; on ASCII
/// it is true exactly for letters and digits, as the Unicode tables give it.
#[verifier::external_body]
pub(crate) fn is_alphanumeric(c: char) -> (b: bool)
    ensures
        b == char_is_alphanumeric(c),
        (c as u32) < 128 ==> (b == is_ascii_alnum(c)),
{
    c.is_alphanumeric()
}

/// `char::is_whitespace`. Its result is named by `char_is_whitespace`; on ASCII it is
/// true exactly for space, tab, line feed, vertical tab, form feed and carriage return.
#[verifier::external_body]
pub(crate) fn is_whitespace(c: char) -> (b: bool)
    ensures
        b == char_is_whitespace(c),
        (c as u32) < 128 ==> (b == is_ascii_ws(c)),
{
    c.is_whitespace()
}

/// The predicate `char::is_whitespace` as a spec closure.
pub open spec fn ws_pred() -> spec_fn(char) -> bool {
    |c: char| char_is_whitespace(c)
}

/// ASCII lowercase of one character; other characters are unchanged.
pub open spec fn lower_char(c: char) -> char {
    if 'A' <= c && c <= 'Z' {
        ((c as u32) + 32) as char
    } else {
        c
    }
}

/// ASCII lowercase of a text (what `str::to_ascii_lowercase` gives).
pub open spec fn ascii_lower(s: Seq<char>) -> Seq<char> {
    s.map_values(|c: char| lower_char(c))
}

pub fn to_lower_char(c: char) -> (r: char)
    ensures
        r == lower_char(c),
{
    if 'A' <= c && c <= 'Z' {
        let b: u32 = c as u32;
        assert(65 <= b <= 90);
        let l: u8 = (b + 32) as u8;
        l as char
    } else {
        c
    }
}

// ---------------------------------------------------------------------------
// Conversions
// ---------------------------------------------------------------------------

/// Appends one character to a string (`String::push`).
#[verifier::external_body]
pub(crate) fn push_char(s: &mut String, c: char)
    ensures
        final(s)@ == old(s)@.push(c),
{
    s.push(c);
}

/// The characters of a string slice, in order.
pub fn str_chars(s: &str) -> (v: Vec<char>)
    ensures
        v@ == s@,
{
    let mut v: Vec<char> = Vec::new();
    let n = s.unicode_len();
    let mut i: usize = 0;
    while i < n
        invariant
            n == s@.len(),
            i <= n,
            v@ == s@.subrange(0, i as int),
        decreases n - i,
    {
        let c = s.get_char(i);
        v.push(c);
        i = i + 1;
    }
    v
}

/// The string made of the given characters.
pub fn string_from(v: &[char]) -> (s: String)
    ensures
        s@ == v@,
{
    let mut s = String::new();
    let mut i: usize = 0;
    while i < v.len()
        invariant
            i <= v@.len(),
            s@ == v@.subrange(0, i as int),
        decreases v@.len() - i,
    {
        push_char(&mut s, v[i]);
        i = i + 1;
    }
    s
}

/// The concatenation of two texts as a new string.
pub fn concat_str(a: &str, b: &str) -> (s: String)
    ensures
        s@ == a@ + b@,
{
    let mut s = a.to_owned();
    s.append(b);
    s
}

/// A copy of a char sequence.
pub fn copy_chars(v: &[char]) -> (r: Vec<char>)
    ensures
        r@ == v@,
{
    let mut r: Vec<char> = Vec::new();
    let mut i: usize = 0;
    while i < v.len()
        invariant
            i <= v@.len(),
            r@ == v@.subrange(0, i as int),
        decreases v@.len() - i,
    {
        r.push(v[i]);
        i = i + 1;
    }
    r
}

/// Appends all of `b` to `a`.
pub fn extend_chars(a: &mut Vec<char>, b: &[char])
    ensures
        final(a)@ == old(a)@ + b@,
{
    let mut i: usize = 0;
    while i < b.len()
        invariant
            i <= b@.len(),
            a@ == old(a)@ + b@.subrange(0, i as int),
        decreases b@.len() - i,
    {
        a.push(b[i]);
        i = i + 1;
        assert(b@.subrange(0, i as int) =~= b@.subrange(0, (i - 1) as int).push(b@[i - 1]));
    }
    assert(b@.subrange(0, b@.len() as int) =~= b@);
}

/// ASCII lowercase of a char sequence.
pub fn ascii_lowercase(s: &[char]) -> (r: Vec<char>)
    ensures
        r@ == ascii_lower(s@),
{
    let mut r: Vec<char> = Vec::new();
    let mut i: usize = 0;
    while i < s.len()
        invariant
            i <= s@.len(),
            r@ == ascii_lower(s@.subrange(0, i as int)),
        decreases s@.len() - i,
    {
        let c = to_lower_char(s[i]);
        r.push(c);
        i = i + 1;
        assert(ascii_lower(s@.subrange(0, i as int)) =~= ascii_lower(s@.subrange(0, (i - 1) as int)).push(lower_char(s@[i - 1])));
    }
    assert(s@.subrange(0, s@.len() as int) =~= s@);
    r
}

// ---------------------------------------------------------------------------
// Comparisons and searches
// ---------------------------------------------------------------------------

/// Equality of two char sequences.
pub fn chars_eq(a: &[char], b: &[char]) -> (r: bool)
    ensures
        r == (a@ == b@),
{
    if a.len() != b.len() {
        return false;
    }
    let mut i: usize = 0;
    while i < a.len()
        invariant
            a@.len() == b@.len(),
            i <= a@.len(),
            forall|k: int| 0 <= k < i ==> a@[k] == b@[k],
        decreases a@.len() - i,
    {
        if a[i] != b[i] {
            return false;
        }
        i = i + 1;
    }
    assert(a@ =~= b@);
    true
}

/// Equality of a char sequence with a string slice.
pub fn chars_eq_str(a: &[char], b: &str) -> (r: bool)
    ensures
        r == (a@ == b@),
{
    let bv = str_chars(b);
    chars_eq(a, bv.as_slice())
}

/// `s` begins with `p`.
pub open spec fn has_prefix(s: Seq<char>, p: Seq<char>) -> bool {
    p.len() <= s.len() && s.subrange(0, p.len() as int) == p
}

/// `t` occurs in `s` at position `i`.
pub open spec fn occurs_at(s: Seq<char>, t: Seq<char>, i: int) -> bool {
    0 <= i && i + t.len() <= s.len() && s.subrange(i, i + t.len()) == t
}

/// `t` occurs somewhere in `s` (what `str::contains` answers for a text pattern).
pub open spec fn has_sub(s: Seq<char>, t: Seq<char>) -> bool {
    exists|i: int| occurs_at(s, t, i)
}

/// `s` begins with `p` at position `at`.
fn matches_at(s: &[char], p: &[char], at: usize) -> (r: bool)
    requires
        at <= s@.len(),
    ensures
        r == (at + p@.len() <= s@.len() && s@.subrange(at as int, at + p@.len()) == p@),
{
    let sl = s.len();
    if p.len() > sl - at {
        return false;
    }
    let mut k: usize = 0;
    while k < p.len()
        invariant
            sl == s@.len(),
            at + p@.len() <= s@.len(),
            k <= p@.len(),
            forall|j: int| 0 <= j < k ==> s@[at + j] == p@[j],
        decreases p@.len() - k,
    {
        if s[at + k] != p[k] {
            assert(s@.subrange(at as int, at + p@.len())[k as int] != p@[k as int]);
            return false;
        }
        k = k + 1;
    }
    assert(s@.subrange(at as int, at + p@.len()) =~= p@);
    true
}

/// Whether `s` begins with `p`.
pub fn starts_with(s: &[char], p: &[char]) -> (r: bool)
    ensures
        r == has_prefix(s@, p@),
{
    matches_at(s, p, 0)
}

/// Whether `t` occurs in `s`.
pub fn contains_chars(s: &[char], t: &[char]) -> (r: bool)
    ensures
        r == has_sub(s@, t@),
{
    if t.len() > s.len() {
        assert forall|i: int| !occurs_at(s@, t@, i) by {}
        return false;
    }
    let last = s.len() - t.len();
    let mut i: usize = 0;
    while i < last
        invariant
            last == s@.len() - t@.len(),
            i <= last,
            forall|j: int| 0 <= j < i ==> !occurs_at(s@, t@, j),
        decreases last - i,
    {
        if matches_at(s, t, i) {
            assert(occurs_at(s@, t@, i as int));
            return true;
        }
        i = i + 1;
    }
    if matches_at(s, t, last) {
        assert(occurs_at(s@, t@, last as int));
        return true;
    }
    assert forall|j: int| !occurs_at(s@, t@, j) by {
        if 0 <= j && j + t@.len() <= s@.len() {
            assert(j <= last);
        }
    }
    false
}

/// Whether the text `t` occurs in `s`.
pub fn contains_str(s: &[char], t: &str) -> (r: bool)
    ensures
        r == has_sub(s@, t@),
{
    let tv = str_chars(t);
    contains_chars(s, tv.as_slice())
}

/// Whether some element of `s` equals `c`.
pub fn contains_char(s: &[char], c: char) -> (r: bool)
    ensures
        r == s@.contains(c),
{
    let mut i: usize = 0;
    while i < s.len()
        invariant
            i <= s@.len(),
            forall|j: int| 0 <= j < i ==> s@[j] != c,
        decreases s@.len() - i,
    {
        if s[i] == c {
            assert(s@[i as int] == c);
            return true;
        }
        i = i + 1;
    }
    false
}

// ---------------------------------------------------------------------------
// Trimming
// ---------------------------------------------------------------------------

/// `s` without the leading characters on which `p` holds.
pub open spec fn trim_start_by(s: Seq<char>, p: spec_fn(char) -> bool) -> Seq<char>
    decreases s.len(),
{
    if s.len() > 0 && p(s[0]) {
        trim_start_by(s.drop_first(), p)
    } else {
        s
    }
}

/// `s` without the trailing characters on which `p` holds.
pub open spec fn trim_end_by(s: Seq<char>, p: spec_fn(char) -> bool) -> Seq<char>
    decreases s.len(),
{
    if s.len() > 0 && p(s.last()) {
        trim_end_by(s.drop_last(), p)
    } else {
        s
    }
}

/// `s` without leading and trailing characters on which `p` holds.
pub open spec fn trim_by(s: Seq<char>, p: spec_fn(char) -> bool) -> Seq<char> {
    trim_end_by(trim_start_by(s, p), p)
}

/// `str::trim`: the text without leading and trailing Unicode white space.
pub open spec fn trim_ws(s: Seq<char>) -> Seq<char> {
    trim_by(s, ws_pred())
}

/// The predicate "is the character `c`" as a spec closure.
pub open spec fn is_char_pred(c: char) -> spec_fn(char) -> bool {
    |x: char| x == c
}

/// Index of the first character of `s` at or after `from` on which `p` fails.
proof fn lemma_trim_start_skip(s: Seq<char>, p: spec_fn(char) -> bool, i: int)
    requires
        0 <= i < s.len(),
        p(s[i]),
    ensures
        trim_start_by(s.skip(i), p) == trim_start_by(s.skip(i + 1), p),
{
    assert(s.skip(i).drop_first() =~= s.skip(i + 1));
}

proof fn lemma_trim_end_take(s: Seq<char>, p: spec_fn(char) -> bool, j: int)
    requires
        0 < j <= s.len(),
        p(s[j - 1]),
    ensures
        trim_end_by(s.take(j), p) == trim_end_by(s.take(j - 1), p),
{
    assert(s.take(j).drop_last() =~= s.take(j - 1));
}

/// `trim_by` for the white-space predicate, computed.
pub fn trim(s: &[char]) -> (r: Vec<char>)
    ensures
        r@ == trim_ws(s@),
{
    let n = s.len();
    let mut i: usize = 0;
    assert(s@.skip(0) =~= s@);
    while i < n && is_whitespace(s[i])
        invariant
            n == s@.len(),
            i <= n,
            trim_start_by(s@, ws_pred()) == trim_start_by(s@.skip(i as int), ws_pred()),
        decreases n - i,
    {
        proof {
            lemma_trim_start_skip(s@, ws_pred(), i as int);
        }
        i = i + 1;
    }
    let ghost mid = s@.skip(i as int);
    assert(trim_start_by(s@, ws_pred()) == mid);
    let mut j: usize = n;
    assert(mid.take(mid.len() as int) =~= mid);
    while j > i && is_whitespace(s[j - 1])
        invariant
            n == s@.len(),
            i <= j <= n,
            mid == s@.skip(i as int),
            trim_end_by(mid, ws_pred()) == trim_end_by(mid.take(j - i), ws_pred()),
        decreases j,
    {
        proof {
            assert(mid[j - i - 1] == s@[j - 1]);
            lemma_trim_end_take(mid, ws_pred(), j - i);
        }
        j = j - 1;
    }
    let mut r: Vec<char> = Vec::new();
    let mut k: usize = i;
    while k < j
        invariant
            i <= k <= j <= n,
            n == s@.len(),
            r@ == s@.subrange(i as int, k as int),
        decreases j - k,
    {
        r.push(s[k]);
        k = k + 1;
    }
    assert(mid.take(j - i) =~= s@.subrange(i as int, j as int));
    r
}

/// `str::trim_matches(c)` for one character: `s` without leading and trailing `c`.
pub fn trim_char(s: &[char], c: char) -> (r: Vec<char>)
    ensures
        r@ == trim_by(s@, is_char_pred(c)),
{
    let n = s.len();
    let mut i: usize = 0;
    assert(s@.skip(0) =~= s@);
    while i < n && s[i] == c
        invariant
            n == s@.len(),
            i <= n,
            trim_start_by(s@, is_char_pred(c)) == trim_start_by(s@.skip(i as int), is_char_pred(c)),
        decreases n - i,
    {
        proof {
            lemma_trim_start_skip(s@, is_char_pred(c), i as int);
        }
        i = i + 1;
    }
    let ghost mid = s@.skip(i as int);
    assert(trim_start_by(s@, is_char_pred(c)) == mid);
    let mut j: usize = n;
    assert(mid.take(mid.len() as int) =~= mid);
    while j > i && s[j - 1] == c
        invariant
            n == s@.len(),
            i <= j <= n,
            mid == s@.skip(i as int),
            trim_end_by(mid, is_char_pred(c)) == trim_end_by(mid.take(j - i), is_char_pred(c)),
        decreases j,
    {
        proof {
            assert(mid[j - i - 1] == s@[j - 1]);
            lemma_trim_end_take(mid, is_char_pred(c), j - i);
        }
        j = j - 1;
    }
    let mut r: Vec<char> = Vec::new();
    let mut k: usize = i;
    while k < j
        invariant
            i <= k <= j <= n,
            n == s@.len(),
            r@ == s@.subrange(i as int, k as int),
        decreases j - k,
    {
        r.push(s[k]);
        k = k + 1;
    }
    assert(mid.take(j - i) =~= s@.subrange(i as int, j as int));
    r
}

// ---------------------------------------------------------------------------
// Splitting
// ---------------------------------------------------------------------------

/// A line as `str::lines` yields it: one `'\r'` right before the line feed is dropped.
pub open spec fn strip_cr(l: Seq<char>) -> Seq<char> {
    if l.len() > 0 && l.last() == '\r' {
        l.drop_last()
    } else {
        l
    }
}

/// The lines of `s` from position `i` on, `cur` being the part of the current line
/// read so far (the shape of `str::lines`: a final line feed opens no new line).
pub open spec fn lines_from(s: Seq<char>, i: int, cur: Seq<char>) -> Seq<Seq<char>>
    decreases s.len() - i,
{
    if i < 0 || i >= s.len() {
        if cur.len() == 0 {
            seq![]
        } else {
            seq![cur]
        }
    } else if s[i] == '\n' {
        seq![strip_cr(cur)] + lines_from(s, i + 1, seq![])
    } else {
        lines_from(s, i + 1, cur.push(s[i]))
    }
}

/// `str::lines`.
pub open spec fn split_lines(s: Seq<char>) -> Seq<Seq<char>> {
    lines_from(s, 0, seq![])
}

/// The views of a vector of char vectors.
pub open spec fn views(v: Seq<Vec<char>>) -> Seq<Seq<char>> {
    v.map_values(|x: Vec<char>| x@)
}

fn strip_cr_exec(l: Vec<char>) -> (r: Vec<char>)
    ensures
        r@ == strip_cr(l@),
{
    let mut l = l;
    if l.len() > 0 && l[l.len() - 1] == '\r' {
        l.pop();
    }
    l
}

/// `str::lines` on a char sequence.
pub fn lines(s: &[char]) -> (r: Vec<Vec<char>>)
    ensures
        views(r@) == split_lines(s@),
{
    let mut out: Vec<Vec<char>> = Vec::new();
    let mut cur: Vec<char> = Vec::new();
    let mut i: usize = 0;
    while i < s.len()
        invariant
            i <= s@.len(),
            split_lines(s@) == views(out@) + lines_from(s@, i as int, cur@),
        decreases s@.len() - i,
    {
        let ghost old_out = out@;
        let ghost c0 = cur@;
        if s[i] == '\n' {
            let line = strip_cr_exec(cur);
            out.push(line);
            cur = Vec::new();
            assert(views(out@) =~= views(old_out).push(strip_cr(c0)));
            assert(views(out@) + lines_from(s@, i + 1, seq![]) =~= views(old_out) + (seq![strip_cr(c0)]
                + lines_from(s@, i + 1, seq![])));
        } else {
            cur.push(s[i]);
        }
        i = i + 1;
    }
    let ghost old_out = out@;
    if cur.len() > 0 {
        out.push(cur);
        assert(views(out@) =~= views(old_out).push(cur@));
    }
    assert(views(out@) =~= views(old_out) + lines_from(s@, i as int, cur@));
    out
}


/// The pieces of `s` from position `i` on, split at `sep`, `cur` being the piece read
/// so far (the shape of `str::split` with a character pattern: never empty).
pub open spec fn split_from(s: Seq<char>, sep: char, i: int, cur: Seq<char>) -> Seq<Seq<char>>
    decreases s.len() - i,
{
    if i < 0 || i >= s.len() {
        seq![cur]
    } else if s[i] == sep {
        seq![cur] + split_from(s, sep, i + 1, seq![])
    } else {
        split_from(s, sep, i + 1, cur.push(s[i]))
    }
}

/// `str::split(sep)`.
pub open spec fn split_on(s: Seq<char>, sep: char) -> Seq<Seq<char>> {
    split_from(s, sep, 0, seq![])
}

/// `str::split(sep)` on a char sequence.
pub fn split_char(s: &[char], sep: char) -> (r: Vec<Vec<char>>)
    ensures
        views(r@) == split_on(s@, sep),
{
    let mut out: Vec<Vec<char>> = Vec::new();
    let mut cur: Vec<char> = Vec::new();
    let mut i: usize = 0;
    while i < s.len()
        invariant
            i <= s@.len(),
            split_on(s@, sep) == views(out@) + split_from(s@, sep, i as int, cur@),
        decreases s@.len() - i,
    {
        let ghost old_out = out@;
        let ghost c0 = cur@;
        if s[i] == sep {
            out.push(cur);
            cur = Vec::new();
            assert(views(out@) =~= views(old_out).push(c0));
            assert(views(out@) + split_from(s@, sep, i + 1, seq![]) =~= views(old_out) + (seq![c0]
                + split_from(s@, sep, i + 1, seq![])));
        } else {
            cur.push(s[i]);
        }
        i = i + 1;
    }
    let ghost old_out = out@;
    out.push(cur);
    assert(views(out@) =~= views(old_out) + split_from(s@, sep, i as int, cur@));
    out
}

/// The non-empty runs of non-white-space characters of `s` from position `i` on,
/// `cur` being the run read so far (the shape of `str::split_whitespace`).
pub open spec fn words_from(s: Seq<char>, i: int, cur: Seq<char>) -> Seq<Seq<char>>
    decreases s.len() - i,
{
    if i < 0 || i >= s.len() {
        if cur.len() == 0 {
            seq![]
        } else {
            seq![cur]
        }
    } else if char_is_whitespace(s[i]) {
        (if cur.len() == 0 {
            seq![]
        } else {
            seq![cur]
        }) + words_from(s, i + 1, seq![])
    } else {
        words_from(s, i + 1, cur.push(s[i]))
    }
}

/// `str::split_whitespace`.
pub open spec fn split_ws(s: Seq<char>) -> Seq<Seq<char>> {
    words_from(s, 0, seq![])
}

/// `str::split_whitespace` on a char sequence.
pub fn split_whitespace(s: &[char]) -> (r: Vec<Vec<char>>)
    ensures
        views(r@) == split_ws(s@),
{
    let mut out: Vec<Vec<char>> = Vec::new();
    let mut cur: Vec<char> = Vec::new();
    let mut i: usize = 0;
    while i < s.len()
        invariant
            i <= s@.len(),
            split_ws(s@) == views(out@) + words_from(s@, i as int, cur@),
        decreases s@.len() - i,
    {
        let ghost old_out = out@;
        let ghost c0 = cur@;
        if is_whitespace(s[i]) {
            if cur.len() > 0 {
                out.push(cur);
                assert(views(out@) =~= views(old_out).push(c0));
                assert(views(out@) + words_from(s@, i + 1, seq![]) =~= views(old_out) + (seq![c0]
                    + words_from(s@, i + 1, seq![])));
            } else {
                assert(views(out@) + words_from(s@, i + 1, seq![]) =~= views(old_out) + (seq![]
                    + words_from(s@, i + 1, seq![])));
            }
            cur = Vec::new();
        } else {
            cur.push(s[i]);
        }
        i = i + 1;
    }
    let ghost old_out = out@;
    if cur.len() > 0 {
        out.push(cur);
        assert(views(out@) =~= views(old_out).push(cur@));
    }
    assert(views(out@) =~= views(old_out) + words_from(s@, i as int, cur@));
    out
}

// ---------------------------------------------------------------------------
// Decimal numerals
// ---------------------------------------------------------------------------

/// The decimal digit character for `d < 10`.
pub open spec fn digit_char(d: nat) -> char {
    (48 + d) as char
}

/// The decimal numeral of a natural number, without leading zeros.
pub open spec fn decimal(n: nat) -> Seq<char>
    decreases n,
{
    if n < 10 {
        seq![digit_char(n)]
    } else {
        decimal(n / 10).push(digit_char(n % 10))
    }
}

/// The decimal numeral of an integer, with a leading `-` when negative
/// (what `to_string` gives for Rust integers).
pub open spec fn decimal_int(x: int) -> Seq<char> {
    if x < 0 {
        seq!['-'] + decimal((-x) as nat)
    } else {
        decimal(x as nat)
    }
}

/// The decimal numeral of `n`.
pub fn u64_decimal(n: u64) -> (r: Vec<char>)
    ensures
        r@ == decimal(n as nat),
    decreases n,
{
    if n < 10 {
        let b: u8 = (48 + n) as u8;
        let mut v: Vec<char> = Vec::new();
        v.push(b as char);
        assert(v@ =~= seq![digit_char(n as nat)]);
        v
    } else {
        let mut v = u64_decimal(n / 10);
        let b: u8 = (48 + n % 10) as u8;
        v.push(b as char);
        v
    }
}

/// The decimal numeral of `x`, signed.
pub fn i32_decimal(x: i32) -> (r: Vec<char>)
    ensures
        r@ == decimal_int(x as int),
{
    if x < 0 {
        let m: i64 = -(x as i64);
        let mut v: Vec<char> = Vec::new();
        v.push('-');
        let d = u64_decimal(m as u64);
        extend_chars(&mut v, d.as_slice());
        assert(v@ =~= seq!['-'] + decimal((-x) as nat));
        v
    } else {
        u64_decimal(x as u64)
    }
}


// ---------------------------------------------------------------------------
// UTF-8 length
// ---------------------------------------------------------------------------

/// Number of bytes of the UTF-8 encoding of `c`.
pub open spec fn char_width(c: char) -> nat {
    let v = c as u32;
    if v <= 0x7F {
        1
    } else if v <= 0x7FF {
        2
    } else if v <= 0xFFFF {
        3
    } else {
        4
    }
}

/// Number of bytes of the UTF-8 encoding of `s` (what `str::len` answers).
pub open spec fn utf8_len(s: Seq<char>) -> nat
    decreases s.len(),
{
    if s.len() == 0 {
        0
    } else {
        char_width(s[0]) + utf8_len(s.drop_first())
    }
}

/// `utf8_len` is the length of vstd's `encode_utf8`.
pub proof fn lemma_utf8_len_encode(s: Seq<char>)
    ensures
        utf8_len(s) == vstd::utf8::encode_utf8(s).len(),
    decreases s.len(),
{
    if s.len() > 0 {
        lemma_utf8_len_encode(s.drop_first());
        vstd::utf8::char_is_scalar(s[0]);
    }
}

/// Whether the UTF-8 encoding of `s` is longer than `limit` bytes.
pub fn utf8_len_exceeds(s: &[char], limit: usize) -> (r: bool)
    ensures
        r == (utf8_len(s@) > limit),
{
    let mut total: usize = 0;
    let mut i: usize = 0;
    assert(s@.skip(0) =~= s@);
    while i < s.len()
        invariant
            i <= s@.len(),
            total <= limit,
            total + utf8_len(s@.skip(i as int)) == utf8_len(s@),
        decreases s@.len() - i,
    {
        let v: u32 = s[i] as u32;
        let w: usize = if v <= 0x7F {
            1
        } else if v <= 0x7FF {
            2
        } else if v <= 0xFFFF {
            3
        } else {
            4
        };
        assert(s@.skip(i as int).drop_first() =~= s@.skip(i + 1));
        assert(w == char_width(s@[i as int]));
        if w > limit - total {
            return true;
        }
        total = total + w;
        i = i + 1;
    }
    false
}


/// The exact UTF-8 length of `s` in bytes.
pub fn utf8_length(s: &[char]) -> (r: u128)
    ensures
        r == utf8_len(s@),
{
    let mut total: u128 = 0;
    let mut i: usize = 0;
    assert(s@.skip(0) =~= s@);
    while i < s.len()
        invariant
            i <= s@.len(),
            total <= 4 * i,
            total + utf8_len(s@.skip(i as int)) == utf8_len(s@),
        decreases s@.len() - i,
    {
        let v: u32 = s[i] as u32;
        let w: u128 = if v <= 0x7F {
            1
        } else if v <= 0x7FF {
            2
        } else if v <= 0xFFFF {
            3
        } else {
            4
        };
        assert(s@.skip(i as int).drop_first() =~= s@.skip(i + 1));
        total = total + w;
        i = i + 1;
    }
    total
}

} // verus!
