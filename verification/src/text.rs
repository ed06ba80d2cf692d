//! Character-sequence utilities shared by the parsers of the library.
//!
//! Text is handled as `Vec<char>` in executable code and as `Seq<char>` in
//! specifications. Conversions from and to `String` keep the view unchanged.

use vstd::prelude::*;

verus! {

// ---------------------------------------------------------------------------
// Trusted std items
// ---------------------------------------------------------------------------

/// `String::push` appends one character.
pub assume_specification[ String::push ](s: &mut String, ch: char)
    ensures
        final(s)@ == old(s)@.push(ch),
;

/// The Unicode `White_Space` property (PropList.txt): tab to carriage
/// return, space, next line, no-break space, ogham space mark, the spaces
/// U+2000 to U+200A, the line and paragraph separators, narrow no-break
/// space, medium mathematical space and ideographic space.
pub open spec fn white_space(c: char) -> bool {
    let n = c as u32;
    (0x09 <= n <= 0x0D) || n == 0x20 || n == 0x85 || n == 0xA0 || n == 0x1680
        || (0x2000 <= n <= 0x200A) || n == 0x2028 || n == 0x2029 || n == 0x202F || n == 0x205F
        || n == 0x3000
}

/// `char::is_whitespace` tells whether `c` has the Unicode `White_Space`
/// property.
pub assume_specification[ char::is_whitespace ](c: char) -> (r: bool)
    ensures
        r == white_space(c),
;

/// Unicode lower-case mapping of a string, as computed by `str::to_lowercase`.
pub uninterp spec fn lowercase(s: Seq<char>) -> Seq<char>;

/// Calls `str::to_lowercase`; its result is only known through the name
/// `lowercase` (the Unicode case tables are not restated here).
#[verifier::external_body]
fn str_to_lowercase(s: &str) -> (res: String)
    ensures
        res@ == lowercase(s@),
{
    s.to_lowercase()
}

// ---------------------------------------------------------------------------
// Specifications
// ---------------------------------------------------------------------------

pub open spec fn ws_pred() -> spec_fn(char) -> bool {
    |c: char| white_space(c)
}

/// `s` without the longest suffix whose characters satisfy `p`.
pub open spec fn drop_trailing(s: Seq<char>, p: spec_fn(char) -> bool) -> Seq<char>
    decreases s.len(),
{
    if s.len() > 0 && p(s.last()) {
        drop_trailing(s.drop_last(), p)
    } else {
        s
    }
}

/// `s` without the longest prefix whose characters satisfy `p`.
pub open spec fn drop_leading(s: Seq<char>, p: spec_fn(char) -> bool) -> Seq<char>
    decreases s.len(),
{
    if s.len() > 0 && p(s[0]) {
        drop_leading(s.drop_first(), p)
    } else {
        s
    }
}

/// `str::trim_end`.
pub open spec fn trim_end(s: Seq<char>) -> Seq<char> {
    drop_trailing(s, ws_pred())
}

/// `str::trim_start`.
pub open spec fn trim_start(s: Seq<char>) -> Seq<char> {
    drop_leading(s, ws_pred())
}

/// `str::trim`.
pub open spec fn trim(s: Seq<char>) -> Seq<char> {
    trim_end(trim_start(s))
}

/// Index of the first occurrence of `c` in `s`.
pub open spec fn find_char(s: Seq<char>, c: char) -> Option<int>
    decreases s.len(),
{
    if s.len() == 0 {
        None
    } else if s[0] == c {
        Some(0)
    } else {
        match find_char(s.drop_first(), c) {
            Some(i) => Some(i + 1),
            None => None,
        }
    }
}

/// Index of the last occurrence of `c` in `s`.
pub open spec fn rfind_char(s: Seq<char>, c: char) -> Option<int>
    decreases s.len(),
{
    if s.len() == 0 {
        None
    } else if s.last() == c {
        Some(s.len() - 1)
    } else {
        rfind_char(s.drop_last(), c)
    }
}

/// Index of the last white-space character of `s`.
pub open spec fn rfind_ws(s: Seq<char>) -> Option<int>
    decreases s.len(),
{
    if s.len() == 0 {
        None
    } else if white_space(s.last()) {
        Some(s.len() - 1)
    } else {
        rfind_ws(s.drop_last())
    }
}

/// Whether `a` is a prefix of `b`.
pub open spec fn is_prefix(a: Seq<char>, b: Seq<char>) -> bool {
    a.len() <= b.len() && b.take(a.len() as int) == a
}

/// Neither first nor last character is white space (what `trim` leaves).
pub open spec fn is_trimmed(s: Seq<char>) -> bool {
    s.len() == 0 || (!white_space(s[0]) && !white_space(s.last()))
}

/// Whether `s` begins with `p`.
pub open spec fn starts_with(s: Seq<char>, p: Seq<char>) -> bool {
    p.len() <= s.len() && s.take(p.len() as int) == p
}

/// Whether `s` ends with `p`.
pub open spec fn ends_with(s: Seq<char>, p: Seq<char>) -> bool {
    p.len() <= s.len() && s.skip(s.len() - p.len()) == p
}

/// Index of the first occurrence of the non-empty pattern `pat` in `s`.
pub open spec fn find_sub(s: Seq<char>, pat: Seq<char>) -> Option<int>
    decreases s.len(),
{
    if s.len() < pat.len() || pat.len() == 0 {
        if pat.len() == 0 { Some(0) } else { None }
    } else if s.take(pat.len() as int) == pat {
        Some(0)
    } else {
        match find_sub(s.drop_first(), pat) {
            Some(i) => Some(i + 1),
            None => None,
        }
    }
}

/// `str::split` on a non-empty separator: the pieces between successive
/// non-overlapping occurrences, scanned from the left.
pub open spec fn split_on(s: Seq<char>, sep: Seq<char>) -> Seq<Seq<char>>
    recommends
        sep.len() > 0,
    decreases s.len(),
{
    match find_sub(s, sep) {
        Some(i) => if sep.len() > 0 && 0 <= i && i + sep.len() <= s.len() {
            seq![s.take(i)] + split_on(s.skip(i + sep.len()), sep)
        } else {
            seq![s]
        },
        None => seq![s],
    }
}

/// `str::splitn(n, sep)` for `n >= 1`.
pub open spec fn splitn_on(s: Seq<char>, n: nat, sep: Seq<char>) -> Seq<Seq<char>>
    decreases n,
{
    if n <= 1 {
        seq![s]
    } else {
        match find_sub(s, sep) {
            Some(i) => if sep.len() > 0 && 0 <= i && i + sep.len() <= s.len() {
                seq![s.take(i)] + splitn_on(s.skip(i + sep.len()), (n - 1) as nat, sep)
            } else {
                seq![s]
            },
            None => seq![s],
        }
    }
}

/// The elements of `parts` separated by `sep` (`[T]::join`).
pub open spec fn join(parts: Seq<Seq<char>>, sep: Seq<char>) -> Seq<char>
    decreases parts.len(),
{
    if parts.len() == 0 {
        Seq::empty()
    } else if parts.len() == 1 {
        parts[0]
    } else {
        join(parts.drop_last(), sep) + sep + parts.last()
    }
}

/// The views of a sequence of character vectors.
pub open spec fn views(v: Seq<Vec<char>>) -> Seq<Seq<char>> {
    Seq::new(v.len(), |i: int| v[i]@)
}

/// Whether every character of `s` is an ASCII decimal digit.
pub open spec fn all_digits(s: Seq<char>) -> bool {
    forall|i: int| 0 <= i < s.len() ==> is_digit(#[trigger] s[i])
}

pub open spec fn is_digit(c: char) -> bool {
    '0' <= c && c <= '9'
}

pub open spec fn digit_value(c: char) -> nat {
    (c as int - '0' as int) as nat
}

/// The number written by the decimal digits `s`.
pub open spec fn digits_value(s: Seq<char>) -> nat
    decreases s.len(),
{
    if s.len() == 0 {
        0
    } else {
        digits_value(s.drop_last()) * 10 + digit_value(s.last())
    }
}

/// What `str::parse` gives for an unsigned type whose largest value is `max`:
/// an optional `+`, then at least one ASCII digit, and a value within range.
pub open spec fn parse_unsigned(s: Seq<char>, max: nat) -> Option<nat> {
    let d = if s.len() > 0 && s[0] == '+' { s.drop_first() } else { s };
    if d.len() > 0 && all_digits(d) && digits_value(d) <= max {
        Some(digits_value(d))
    } else {
        None
    }
}

pub open spec fn digit_char(d: nat) -> char {
    if d == 0 { '0' } else if d == 1 { '1' } else if d == 2 { '2' } else if d == 3 { '3' }
    else if d == 4 { '4' } else if d == 5 { '5' } else if d == 6 { '6' } else if d == 7 { '7' }
    else if d == 8 { '8' } else { '9' }
}

/// Decimal notation of `n`, without leading zeros (`Display` for integers).
pub open spec fn decimal(n: nat) -> Seq<char>
    decreases n,
{
    if n < 10 {
        seq![digit_char(n)]
    } else {
        decimal(n / 10).push(digit_char(n % 10))
    }
}

// ---------------------------------------------------------------------------
// Lemmas
// ---------------------------------------------------------------------------

pub proof fn lemma_drop_trailing_prefix(s: Seq<char>, p: spec_fn(char) -> bool)
    ensures
        drop_trailing(s, p).len() <= s.len(),
        drop_trailing(s, p) == s.take(drop_trailing(s, p).len() as int),
        drop_trailing(s, p).len() == 0 || !p(drop_trailing(s, p).last()),
        forall|i: int| drop_trailing(s, p).len() <= i < s.len() ==> p(#[trigger] s[i]),
    decreases s.len(),
{
    if s.len() > 0 && p(s.last()) {
        lemma_drop_trailing_prefix(s.drop_last(), p);
        let r = drop_trailing(s.drop_last(), p);
        assert(s.drop_last().take(r.len() as int) =~= s.take(r.len() as int));
        assert forall|i: int| r.len() <= i < s.len() implies p(#[trigger] s[i]) by {
            if i < s.len() - 1 {
                assert(s.drop_last()[i] == s[i]);
            }
        }
    } else {
        assert(s.take(s.len() as int) =~= s);
    }
}

pub proof fn lemma_drop_leading_suffix(s: Seq<char>, p: spec_fn(char) -> bool)
    ensures
        drop_leading(s, p).len() <= s.len(),
        drop_leading(s, p) == s.skip(s.len() - drop_leading(s, p).len()),
        drop_leading(s, p).len() == 0 || !p(drop_leading(s, p)[0]),
        forall|i: int| 0 <= i < s.len() - drop_leading(s, p).len() ==> p(#[trigger] s[i]),
    decreases s.len(),
{
    if s.len() > 0 && p(s[0]) {
        lemma_drop_leading_suffix(s.drop_first(), p);
        let r = drop_leading(s.drop_first(), p);
        assert(s.drop_first().skip(s.drop_first().len() - r.len()) =~= s.skip(s.len() - r.len()));
        assert forall|i: int| 0 <= i < s.len() - r.len() implies p(#[trigger] s[i]) by {
            if i > 0 {
                assert(s.drop_first()[i - 1] == s[i]);
            }
        }
    } else {
        assert(s.skip(0) =~= s);
    }
}

/// Trimming leaves a contiguous piece of the input.
pub proof fn lemma_trim_subrange(s: Seq<char>)
    ensures
        exists|a: int, b: int| 0 <= a <= b <= s.len() && trim(s) == s.subrange(a, b),
        trim(s).len() <= s.len(),
{
    lemma_drop_leading_suffix(s, ws_pred());
    let t = trim_start(s);
    lemma_drop_trailing_prefix(t, ws_pred());
    let r = trim_end(t);
    let a = s.len() - t.len();
    let b = a + r.len();
    assert(r =~= s.subrange(a, b));
}

/// If `s` neither starts nor ends with white space, `trim` leaves it alone.
pub proof fn lemma_trim_of_trimmed(s: Seq<char>)
    requires
        s.len() == 0 || (!white_space(s[0]) && !white_space(s.last())),
    ensures
        trim(s) == s,
{
}

/// `trim` is idempotent.
pub proof fn lemma_trim_idem(s: Seq<char>)
    ensures
        trim(trim(s)) == trim(s),
{
    let t = trim_start(s);
    lemma_drop_leading_suffix(s, ws_pred());
    lemma_drop_trailing_prefix(t, ws_pred());
    let r = trim_end(t);
    if r.len() > 0 {
        assert(r[0] == t[0]);
        lemma_trim_of_trimmed(r);
    }
}

// ---------------------------------------------------------------------------
// Executable helpers
// ---------------------------------------------------------------------------

/// The characters of `s`, in order.
pub fn chars_of(s: &str) -> (res: Vec<char>)
    ensures
        res@ == s@,
{
    let mut out: Vec<char> = Vec::new();
    for c in it: s.chars()
        invariant
            out@ == it.seq().take(it.index() as int),
    {
        out.push(c);
    }
    out
}

/// The string made of the characters `v`.
pub fn string_of(v: &[char]) -> (res: String)
    ensures
        res@ == v@,
{
    let mut out = String::new();
    let mut i: usize = 0;
    while i < v.len()
        invariant
            i <= v@.len(),
            out@ == v@.take(i as int),
        decreases v@.len() - i,
    {
        out.push(v[i]);
        assert(v@.take(i + 1) =~= v@.take(i as int).push(v@[i as int]));
        i += 1;
    }
    assert(v@.take(v@.len() as int) =~= v@);
    out
}

/// Lower-cases a character sequence with `str::to_lowercase`.
pub fn lower_chars(v: &[char]) -> (res: Vec<char>)
    ensures
        res@ == lowercase(v@),
{
    let s = string_of(v);
    let l = str_to_lowercase(s.as_str());
    chars_of(l.as_str())
}

/// A copy of `v[lo..hi]`.
pub fn slice_chars(v: &[char], lo: usize, hi: usize) -> (res: Vec<char>)
    requires
        lo <= hi <= v@.len(),
    ensures
        res@ == v@.subrange(lo as int, hi as int),
{
    let mut out: Vec<char> = Vec::new();
    let mut i = lo;
    while i < hi
        invariant
            lo <= i <= hi <= v@.len(),
            out@ == v@.subrange(lo as int, i as int),
        decreases hi - i,
    {
        out.push(v[i]);
        assert(v@.subrange(lo as int, i + 1) =~= v@.subrange(lo as int, i as int).push(v@[i as int]));
        i += 1;
    }
    out
}

/// `a` followed by `b`.
pub fn concat_chars(a: &[char], b: &[char]) -> (res: Vec<char>)
    ensures
        res@ == a@ + b@,
{
    let mut out = slice_chars(a, 0, a.len());
    let mut i: usize = 0;
    while i < b.len()
        invariant
            i <= b@.len(),
            out@ == a@ + b@.take(i as int),
        decreases b@.len() - i,
    {
        out.push(b[i]);
        assert(b@.take(i + 1) =~= b@.take(i as int).push(b@[i as int]));
        i += 1;
    }
    assert(a@.subrange(0, a@.len() as int) =~= a@);
    assert(b@.take(b@.len() as int) =~= b@);
    out
}

/// The string `a` followed by `b`.
pub fn concat_str(a: &str, b: &str) -> (res: String)
    ensures
        res@ == a@ + b@,
{
    string_of(concat_chars(chars_of(a).as_slice(), chars_of(b).as_slice()).as_slice())
}

/// Whether two character sequences are equal.
pub fn chars_eq(a: &[char], b: &[char]) -> (res: bool)
    ensures
        res == (a@ == b@),
{
    if a.len() != b.len() {
        return false;
    }
    let mut i: usize = 0;
    while i < a.len()
        invariant
            a@.len() == b@.len(),
            i <= a@.len(),
            forall|j: int| 0 <= j < i ==> a@[j] == b@[j],
        decreases a@.len() - i,
    {
        if a[i] != b[i] {
            return false;
        }
        i += 1;
    }
    assert(a@ =~= b@);
    true
}

/// Whether `v` equals the literal `lit`.
pub fn eq_lit(v: &[char], lit: &str) -> (res: bool)
    ensures
        res == (v@ == lit@),
{
    let l = chars_of(lit);
    chars_eq(v, l.as_slice())
}

/// `str::trim_end` on characters.
pub fn trim_end_chars(v: &[char]) -> (res: Vec<char>)
    ensures
        res@ == trim_end(v@),
{
    let mut e = v.len();
    assert(v@.take(e as int) =~= v@);
    while e > 0 && v[e - 1].is_whitespace()
        invariant
            e <= v@.len(),
            trim_end(v@) == trim_end(v@.take(e as int)),
        decreases e,
    {
        assert(v@.take(e as int).drop_last() =~= v@.take(e - 1));
        e -= 1;
    }
    assert(v@.take(e as int) =~= v@.subrange(0, e as int));
    slice_chars(v, 0, e)
}

/// `str::trim_start` on characters.
pub fn trim_start_chars(v: &[char]) -> (res: Vec<char>)
    ensures
        res@ == trim_start(v@),
{
    let mut b: usize = 0;
    assert(v@.skip(0) =~= v@);
    while b < v.len() && v[b].is_whitespace()
        invariant
            b <= v@.len(),
            trim_start(v@) == trim_start(v@.skip(b as int)),
        decreases v@.len() - b,
    {
        assert(v@.skip(b as int).drop_first() =~= v@.skip(b + 1));
        b += 1;
    }
    assert(v@.skip(b as int) =~= v@.subrange(b as int, v@.len() as int));
    slice_chars(v, b, v.len())
}

/// `str::trim` on characters.
pub fn trim_chars(v: &[char]) -> (res: Vec<char>)
    ensures
        res@ == trim(v@),
{
    let t = trim_start_chars(v);
    trim_end_chars(t.as_slice())
}

/// First index of `c` in `v`.
pub fn find_char_exec(v: &[char], c: char) -> (res: Option<usize>)
    ensures
        res matches Some(i) ==> find_char(v@, c) == Some(i as int),
        res is None ==> find_char(v@, c) is None,
{
    let mut i: usize = 0;
    assert(v@.skip(0) =~= v@);
    while i < v.len()
        invariant
            i <= v@.len(),
            find_char(v@, c) == (match find_char(v@.skip(i as int), c) {
                Some(k) => Some(k + i),
                None => None,
            }),
        decreases v@.len() - i,
    {
        if v[i] == c {
            return Some(i);
        }
        assert(v@.skip(i as int).drop_first() =~= v@.skip(i + 1));
        i += 1;
    }
    None
}

/// Last index of `c` in `v`.
pub fn rfind_char_exec(v: &[char], c: char) -> (res: Option<usize>)
    ensures
        res matches Some(i) ==> rfind_char(v@, c) == Some(i as int) && i < v@.len(),
        res is None ==> rfind_char(v@, c) is None,
{
    let mut e = v.len();
    assert(v@.take(e as int) =~= v@);
    while e > 0
        invariant
            e <= v@.len(),
            rfind_char(v@, c) == rfind_char(v@.take(e as int), c),
        decreases e,
    {
        if v[e - 1] == c {
            return Some(e - 1);
        }
        assert(v@.take(e as int).drop_last() =~= v@.take(e - 1));
        e -= 1;
    }
    None
}

/// Whether `v[at..]` begins with `pat`.
pub fn matches_at(v: &[char], at: usize, pat: &[char]) -> (res: bool)
    requires
        at <= v@.len(),
    ensures
        res == starts_with(v@.skip(at as int), pat@),
{
    let n = v.len();
    if pat.len() > n - at {
        return false;
    }
    let mut j: usize = 0;
    while j < pat.len()
        invariant
            n == v@.len(),
            at <= v@.len(),
            pat@.len() <= v@.len() - at,
            j <= pat@.len(),
            forall|k: int| 0 <= k < j ==> v@[at + k] == pat@[k],
        decreases pat@.len() - j,
    {
        let k = at + j;
        if v[k] != pat[j] {
            assert(v@.skip(at as int).take(pat@.len() as int)[j as int] != pat@[j as int]);
            return false;
        }
        j += 1;
    }
    assert(v@.skip(at as int).take(pat@.len() as int) =~= pat@);
    true
}

/// First index of the non-empty pattern `pat` in `v`.
pub fn find_sub_exec(v: &[char], pat: &[char]) -> (res: Option<usize>)
    requires
        pat@.len() > 0,
    ensures
        res matches Some(i) ==> find_sub(v@, pat@) == Some(i as int) && i + pat@.len() <= v@.len(),
        res is None ==> find_sub(v@, pat@) is None,
{
    let mut i: usize = 0;
    assert(v@.skip(0) =~= v@);
    while i < v.len()
        invariant
            i <= v@.len(),
            pat@.len() > 0,
            find_sub(v@, pat@) == (match find_sub(v@.skip(i as int), pat@) {
                Some(k) => Some(k + i),
                None => None,
            }),
        decreases v@.len() - i,
    {
        if matches_at(v, i, pat) {
            return Some(i);
        }
        if v.len() - i < pat.len() {
            return None;
        }
        assert(v@.skip(i as int).drop_first() =~= v@.skip(i + 1));
        i += 1;
    }
    None
}

/// Whether `v` ends with `pat`.
pub fn ends_with_exec(v: &[char], pat: &[char]) -> (res: bool)
    ensures
        res == ends_with(v@, pat@),
{
    if pat.len() > v.len() {
        return false;
    }
    let at = v.len() - pat.len();
    let r = matches_at(v, at, pat);
    assert(v@.skip(at as int).take(pat@.len() as int) =~= v@.skip(at as int));
    r
}

/// Whether `v` starts with `pat`.
pub fn starts_with_exec(v: &[char], pat: &[char]) -> (res: bool)
    ensures
        res == starts_with(v@, pat@),
{
    let r = matches_at(v, 0, pat);
    assert(v@.skip(0) =~= v@);
    r
}

/// Whether `v` ends with the literal `lit`.
pub fn ends_with_lit(v: &[char], lit: &str) -> (res: bool)
    ensures
        res == ends_with(v@, lit@),
{
    let l = chars_of(lit);
    ends_with_exec(v, l.as_slice())
}

/// Whether `v` starts with the literal `lit`.
pub fn starts_with_lit(v: &[char], lit: &str) -> (res: bool)
    ensures
        res == starts_with(v@, lit@),
{
    let l = chars_of(lit);
    starts_with_exec(v, l.as_slice())
}

/// Last index of a white-space character in `v`.
pub fn rfind_ws_exec(v: &[char]) -> (res: Option<usize>)
    ensures
        res matches Some(i) ==> rfind_ws(v@) == Some(i as int) && i < v@.len(),
        res is None ==> rfind_ws(v@) is None,
{
    let mut e = v.len();
    assert(v@.take(e as int) =~= v@);
    while e > 0
        invariant
            e <= v@.len(),
            rfind_ws(v@) == rfind_ws(v@.take(e as int)),
        decreases e,
    {
        if v[e - 1].is_whitespace() {
            return Some(e - 1);
        }
        assert(v@.take(e as int).drop_last() =~= v@.take(e - 1));
        e -= 1;
    }
    None
}

pub proof fn lemma_rfind_ws_bounds(s: Seq<char>)
    ensures
        rfind_ws(s) matches Some(i) ==> 0 <= i < s.len() && white_space(s[i]),
    decreases s.len(),
{
    if s.len() > 0 && !white_space(s.last()) {
        lemma_rfind_ws_bounds(s.drop_last());
    }
}

pub proof fn lemma_rfind_char_bounds(s: Seq<char>, c: char)
    ensures
        rfind_char(s, c) matches Some(i) ==> 0 <= i < s.len() && s[i] == c,
    decreases s.len(),
{
    if s.len() > 0 && s.last() != c {
        lemma_rfind_char_bounds(s.drop_last(), c);
    }
}

pub proof fn lemma_find_char_bounds(s: Seq<char>, c: char)
    ensures
        find_char(s, c) matches Some(i) ==> 0 <= i < s.len() && s[i] == c,
        find_char(s, c) is None ==> forall|j: int| 0 <= j < s.len() ==> s[j] != c,
    decreases s.len(),
{
    if s.len() > 0 && s[0] != c {
        lemma_find_char_bounds(s.drop_first(), c);
        assert forall|j: int| 0 <= j < s.len() && find_char(s, c) is None implies s[j] != c by {
            if j > 0 {
                assert(s.drop_first()[j - 1] == s[j]);
            }
        }
    }
}

/// `trim` always yields a trimmed sequence.
pub proof fn lemma_trim_is_trimmed(s: Seq<char>)
    ensures
        is_trimmed(trim(s)),
        is_prefix(trim(s), trim_start(s)),
{
    let t = trim_start(s);
    lemma_drop_leading_suffix(s, ws_pred());
    lemma_drop_trailing_prefix(t, ws_pred());
    let r = trim_end(t);
    if r.len() > 0 {
        assert(r[0] == t[0]);
    }
}

/// `trim_end` of a prefix of a trimmed sequence is trimmed, and is a prefix of it.
pub proof fn lemma_trim_end_prefix_trimmed(u: Seq<char>, k: int)
    requires
        is_trimmed(u),
        0 <= k <= u.len(),
    ensures
        is_trimmed(trim_end(u.take(k))),
        is_prefix(trim_end(u.take(k)), u),
{
    let p = u.take(k);
    lemma_drop_trailing_prefix(p, ws_pred());
    let r = trim_end(p);
    if r.len() > 0 {
        assert(r[0] == u[0]);
    }
    assert(u.take(r.len() as int) =~= p.take(r.len() as int));
}

pub proof fn lemma_prefix_trans(a: Seq<char>, b: Seq<char>, c: Seq<char>)
    requires
        is_prefix(a, b),
        is_prefix(b, c),
    ensures
        is_prefix(a, c),
{
    assert(c.take(a.len() as int) =~= b.take(a.len() as int));
}

/// `str::split` on a non-empty separator.
pub fn split_on_exec(s: &[char], sep: &[char]) -> (res: Vec<Vec<char>>)
    requires
        sep@.len() > 0,
    ensures
        views(res@) == split_on(s@, sep@),
        res@.len() > 0,
    decreases s@.len(),
{
    match find_sub_exec(s, sep) {
        Some(i) => {
            let head = slice_chars(s, 0, i);
            let len = s.len();
            let tail = slice_chars(s, i + sep.len(), len);
            assert(head@ =~= s@.take(i as int));
            assert(tail@ =~= s@.skip(i + sep@.len()));
            let mut rest = split_on_exec(tail.as_slice(), sep);
            let ghost rv = views(rest@);
            let mut out: Vec<Vec<char>> = Vec::new();
            out.push(head);
            out.append(&mut rest);
            assert(views(out@) =~= seq![s@.take(i as int)] + rv);
            out
        },
        None => {
            let mut out: Vec<Vec<char>> = Vec::new();
            out.push(slice_chars(s, 0, s.len()));
            assert(s@.subrange(0, s@.len() as int) =~= s@);
            assert(views(out@) =~= seq![s@]);
            out
        },
    }
}

/// `str::splitn(n, sep)` for `n >= 1` and a non-empty separator.
pub fn splitn_on_exec(s: &[char], n: usize, sep: &[char]) -> (res: Vec<Vec<char>>)
    requires
        sep@.len() > 0,
    ensures
        views(res@) == splitn_on(s@, n as nat, sep@),
    decreases n,
{
    if n <= 1 {
        let mut out: Vec<Vec<char>> = Vec::new();
        out.push(slice_chars(s, 0, s.len()));
        assert(s@.subrange(0, s@.len() as int) =~= s@);
        assert(views(out@) =~= seq![s@]);
        return out;
    }
    match find_sub_exec(s, sep) {
        Some(i) => {
            let head = slice_chars(s, 0, i);
            let len = s.len();
            let tail = slice_chars(s, i + sep.len(), len);
            assert(head@ =~= s@.take(i as int));
            assert(tail@ =~= s@.skip(i + sep@.len()));
            let mut rest = splitn_on_exec(tail.as_slice(), n - 1, sep);
            let ghost rv = views(rest@);
            let mut out: Vec<Vec<char>> = Vec::new();
            out.push(head);
            out.append(&mut rest);
            assert(views(out@) =~= seq![s@.take(i as int)] + rv);
            out
        },
        None => {
            let mut out: Vec<Vec<char>> = Vec::new();
            out.push(slice_chars(s, 0, s.len()));
            assert(s@.subrange(0, s@.len() as int) =~= s@);
            assert(views(out@) =~= seq![s@]);
            out
        },
    }
}

/// `[T]::join` with a separator.
pub fn join_exec(parts: &Vec<Vec<char>>, sep: &[char]) -> (res: Vec<char>)
    ensures
        res@ == join(views(parts@), sep@),
{
    let ghost pv = views(parts@);
    let mut out: Vec<char> = Vec::new();
    let mut i: usize = 0;
    while i < parts.len()
        invariant
            i <= parts@.len(),
            pv == views(parts@),
            out@ == join(pv.take(i as int), sep@),
        decreases parts@.len() - i,
    {
        assert(pv.take(i + 1).drop_last() =~= pv.take(i as int));
        assert(pv[i as int] == parts@[i as int]@);
        if i == 0 {
            out = slice_chars(parts[i].as_slice(), 0, parts[i].len());
            assert(parts@[i as int]@.subrange(0, parts@[i as int]@.len() as int) =~= parts@[i as int]@);
        } else {
            let with_sep = concat_chars(out.as_slice(), sep);
            out = concat_chars(with_sep.as_slice(), parts[i].as_slice());
        }
        i += 1;
    }
    assert(pv.take(parts@.len() as int) =~= pv);
    out
}

pub fn digit_char_exec(d: u64) -> (res: char)
    requires
        d < 10,
    ensures
        res == digit_char(d as nat),
{
    if d == 0 { '0' } else if d == 1 { '1' } else if d == 2 { '2' } else if d == 3 { '3' }
    else if d == 4 { '4' } else if d == 5 { '5' } else if d == 6 { '6' } else if d == 7 { '7' }
    else if d == 8 { '8' } else { '9' }
}

/// Decimal notation of `n` (what `to_string` gives for an unsigned integer).
pub fn decimal_exec(n: u64) -> (res: Vec<char>)
    ensures
        res@ == decimal(n as nat),
{
    let mut m = n;
    let mut acc: Vec<char> = Vec::new();
    while m >= 10
        invariant
            decimal(n as nat) == decimal(m as nat) + acc@,
        decreases m,
    {
        let d = digit_char_exec(m % 10);
        let ghost prev = acc@;
        acc.insert(0, d);
        assert(decimal(m as nat) == decimal((m / 10) as nat).push(digit_char((m % 10) as nat)));
        assert(acc@ =~= seq![d] + prev);
        assert(decimal(m as nat) + prev =~= decimal((m / 10) as nat) + acc@);
        m = m / 10;
    }
    let d = digit_char_exec(m);
    acc.insert(0, d);
    assert(acc@ =~= decimal(n as nat));
    acc
}

pub proof fn lemma_digits_value_prefix(s: Seq<char>, k: int)
    requires
        0 <= k <= s.len(),
    ensures
        digits_value(s.take(k)) <= digits_value(s),
    decreases s.len() - k,
{
    if k < s.len() {
        lemma_digits_value_prefix(s, k + 1);
        assert(s.take(k + 1).drop_last() =~= s.take(k));
    } else {
        assert(s.take(k) =~= s);
    }
}

/// `str::parse` for an unsigned type whose largest value is `max`.
pub fn parse_unsigned_exec(v: &[char], max: u64) -> (res: Option<u64>)
    ensures
        res matches Some(x) ==> parse_unsigned(v@, max as nat) == Some(x as nat),
        res is None ==> parse_unsigned(v@, max as nat) is None,
{
    let start: usize = if v.len() > 0 && v[0] == '+' { 1 } else { 0 };
    let ghost d = if v@.len() > 0 && v@[0] == '+' { v@.drop_first() } else { v@ };
    assert(d =~= v@.skip(start as int));
    if start >= v.len() {
        return None;
    }
    let mut acc: u64 = 0;
    let mut i = start;
    while i < v.len()
        invariant
            start <= i <= v@.len(),
            d =~= v@.skip(start as int),
            d == (if v@.len() > 0 && v@[0] == '+' { v@.drop_first() } else { v@ }),
            d.len() > 0,
            forall|j: int| 0 <= j < i - start ==> is_digit(#[trigger] d[j]),
            acc as nat == digits_value(d.take(i - start)),
            acc <= max,
        decreases v@.len() - i,
    {
        let c = v[i];
        if !is_digit_exec(c) {
            assert(!is_digit(d[i - start]));
            assert(!all_digits(d));
            return None;
        }
        let dv = (c as u64) - ('0' as u64);
        assert(d.take(i - start + 1).drop_last() =~= d.take(i - start));
        assert(dv as nat == digit_value(c));
        let next: u128 = (acc as u128) * 10 + (dv as u128);
        if next > max as u128 {
            proof {
                if all_digits(d) {
                    lemma_digits_value_prefix(d, i - start + 1);
                }
            }
            return None;
        }
        acc = next as u64;
        i += 1;
    }
    assert(d.take(d.len() as int) =~= d);
    Some(acc)
}

pub fn is_digit_exec(c: char) -> (res: bool)
    ensures
        res == is_digit(c),
{
    '0' <= c && c <= '9'
}

} // verus!
