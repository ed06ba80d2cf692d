//! Cleaning of track titles before a text search: generic trailing noise
//! ("Original Mix", "FREE DOWNLOAD", SoundCloud ids, stray domains, ...) is
//! removed, names of artists and remixers are kept.

use vstd::prelude::*;
use crate::text::{
    all_digits, chars_eq, chars_of, drop_trailing, ends_with, ends_with_lit, eq_lit, find_char,
    find_char_exec, is_digit, is_digit_exec, is_prefix, is_trimmed, lemma_drop_trailing_prefix,
    lemma_prefix_trans, lemma_rfind_char_bounds, lemma_rfind_ws_bounds, lemma_trim_end_prefix_trimmed,
    lemma_trim_idem, lemma_trim_is_trimmed, lemma_trim_of_trimmed, lemma_trim_subrange, lower_chars,
    lowercase, rfind_char, rfind_char_exec, rfind_ws, rfind_ws_exec, slice_chars, starts_with,
    starts_with_lit, string_of, trim, trim_chars, trim_end, trim_end_chars, trim_start, white_space,
    ws_pred,
};

verus! {

// ---------------------------------------------------------------------------
// Specification
// ---------------------------------------------------------------------------

/// Characters dropped from the end before each pass.
pub open spec fn is_junk(c: char) -> bool {
    c == ' ' || c == '\t' || c == '-' || c == '_' || c == '.' || c == ','
}

pub open spec fn junk_pred() -> spec_fn(char) -> bool {
    |c: char| is_junk(c)
}

/// Lower-cased annotations that carry no information for a search.
pub open spec fn noise_word(w: Seq<char>) -> bool {
    ||| w == "original mix"@
    ||| w == "original version"@
    ||| w == "original"@
    ||| w == "album version"@
    ||| w == "album mix"@
    ||| w == "single version"@
    ||| w == "single mix"@
    ||| w == "radio edit"@
    ||| w == "radio version"@
    ||| w == "extended"@
    ||| w == "extended mix"@
    ||| w == "extended version"@
    ||| w == "extended edit"@
    ||| w == "club mix"@
    ||| w == "club edit"@
    ||| w == "remastered"@
    ||| w == "remaster"@
    ||| w == "out now"@
    ||| w == "free download"@
    ||| w == "free dl"@
    ||| w == "free"@
    ||| w == "premiere"@
    ||| w == "bonus track"@
    ||| w == "bonus"@
    ||| w == "videoclip"@
    ||| w == "video clip"@
    ||| w == "official"@
    ||| w == "official video"@
    ||| w == "official audio"@
    ||| w == "lyrics"@
    ||| w == "lyric video"@
    ||| w == "audio"@
    ||| w == "hq"@
    ||| w == "hd"@
    ||| w == "320kbps"@
}

/// The content of a bracket group is noise once trimmed and lower-cased.
pub open spec fn is_noise(content: Seq<char>) -> bool {
    noise_word(lowercase(trim(content)))
}

/// A lower-cased word ends with one of the recognised top-level domains.
pub open spec fn has_tld(lower: Seq<char>) -> bool {
    ||| ends_with(lower, ".net"@)
    ||| ends_with(lower, ".com"@)
    ||| ends_with(lower, ".org"@)
    ||| ends_with(lower, ".fr"@)
    ||| ends_with(lower, ".io"@)
    ||| ends_with(lower, ".me"@)
    ||| ends_with(lower, ".to"@)
    ||| ends_with(lower, ".ru"@)
    ||| ends_with(lower, ".co"@)
    ||| ends_with(lower, ".tv"@)
    ||| ends_with(lower, ".fm"@)
    ||| ends_with(lower, ".biz"@)
    ||| ends_with(lower, ".info"@)
    ||| ends_with(lower, ".uk"@)
    ||| ends_with(lower, ".de"@)
    ||| ends_with(lower, ".es"@)
    ||| ends_with(lower, ".it"@)
    ||| ends_with(lower, ".nl"@)
}

/// Start of the last white-space separated word of `t`.
pub open spec fn last_word_start(t: Seq<char>) -> int {
    match rfind_ws(t) {
        Some(i) => i + 1,
        None => 0,
    }
}

/// Removes a final word that looks like a domain ("music-team.net",
/// "www.site.com"), unless nothing would be left.
pub open spec fn strip_trailing_domain(s: Seq<char>) -> Option<Seq<char>> {
    let t = trim_end(s);
    let start = last_word_start(t);
    let last = t.skip(start);
    let lower = lowercase(last);
    let looks = starts_with(lower, "www."@) || (find_char(last, '.') is Some && has_tld(lower));
    if !looks {
        None
    } else {
        let rest = trim_end(t.take(start));
        if rest.len() > 0 { Some(rest) } else { None }
    }
}

/// Removes a provider marker (`_soundcloud`, `_youtube`, `_bandcamp`,
/// `_spotify`) or a final `_<digits>` id.
pub open spec fn strip_trailing_provider_marker(s: Seq<char>) -> Option<Seq<char>> {
    if ends_with(s, "_soundcloud"@) {
        Some(trim_end(s.take(s.len() - 11)))
    } else if ends_with(s, "_youtube"@) {
        Some(trim_end(s.take(s.len() - 8)))
    } else if ends_with(s, "_bandcamp"@) {
        Some(trim_end(s.take(s.len() - 9)))
    } else if ends_with(s, "_spotify"@) {
        Some(trim_end(s.take(s.len() - 8)))
    } else {
        let t = trim_end(s);
        match rfind_char(t, '_') {
            None => None,
            Some(idx) => {
                let after = t.skip(idx + 1);
                if after.len() > 0 && all_digits(after) {
                    Some(trim_end(t.take(idx)))
                } else {
                    None
                }
            },
        }
    }
}

/// Removes a final group delimited by `open` and `close` whose content is noise.
pub open spec fn strip_trailing_group(s: Seq<char>, open: char, close: char) -> Option<Seq<char>> {
    let t = trim_end(s);
    if t.len() == 0 || t.last() != close {
        None
    } else {
        let inner = t.drop_last();
        match rfind_char(inner, open) {
            None => None,
            Some(o) => if is_noise(inner.skip(o + 1)) {
                Some(trim_end(t.take(o)))
            } else {
                None
            },
        }
    }
}

/// One cleaning pass.
pub open spec fn strip_one_pass(s: Seq<char>) -> Seq<char> {
    let u = trim(drop_trailing(s, junk_pred()));
    match strip_trailing_domain(u) {
        Some(r) => r,
        None => match strip_trailing_provider_marker(u) {
            Some(r) => r,
            None => match strip_trailing_group(u, '[', ']') {
                Some(r) => r,
                None => match strip_trailing_group(u, '(', ')') {
                    Some(r) => r,
                    None => u,
                },
            },
        },
    }
}

/// Repeats passes until one changes nothing.
pub open spec fn clean_loop(s: Seq<char>) -> Seq<char>
    decreases s.len(),
{
    let t = strip_one_pass(s);
    if t == s {
        s
    } else {
        proof {
            lemma_strip_one_pass_shape(s);
        }
        clean_loop(t)
    }
}

/// What `clean_for_search` returns.
pub open spec fn clean_title(title: Seq<char>) -> Seq<char> {
    let cleaned = trim(clean_loop(trim(title)));
    if cleaned.len() == 0 {
        trim(title)
    } else {
        cleaned
    }
}

// ---------------------------------------------------------------------------
// Lemmas
// ---------------------------------------------------------------------------

/// Each stripper returns a trimmed prefix of a trimmed input.
proof fn lemma_strippers_prefix(u: Seq<char>)
    requires
        is_trimmed(u),
    ensures
        strip_trailing_domain(u) matches Some(r) ==> is_prefix(r, u) && is_trimmed(r),
        strip_trailing_provider_marker(u) matches Some(r) ==> is_prefix(r, u) && is_trimmed(r),
        strip_trailing_group(u, '[', ']') matches Some(r) ==> is_prefix(r, u) && is_trimmed(r),
        strip_trailing_group(u, '(', ')') matches Some(r) ==> is_prefix(r, u) && is_trimmed(r),
{
    let t = trim_end(u);
    lemma_drop_trailing_prefix(u, ws_pred());
    assert(t == u);
    lemma_rfind_ws_bounds(t);
    let start = last_word_start(t);
    lemma_trim_end_prefix_trimmed(u, start);
    reveal_strlit("_soundcloud");
    reveal_strlit("_youtube");
    reveal_strlit("_bandcamp");
    reveal_strlit("_spotify");
    if ends_with(u, "_soundcloud"@) {
        lemma_trim_end_prefix_trimmed(u, u.len() - 11);
    }
    if ends_with(u, "_youtube"@) {
        lemma_trim_end_prefix_trimmed(u, u.len() - 8);
    }
    if ends_with(u, "_bandcamp"@) {
        lemma_trim_end_prefix_trimmed(u, u.len() - 9);
    }
    if ends_with(u, "_spotify"@) {
        lemma_trim_end_prefix_trimmed(u, u.len() - 8);
    }
    lemma_rfind_char_bounds(t, '_');
    if let Some(idx) = rfind_char(t, '_') {
        lemma_trim_end_prefix_trimmed(u, idx);
    }
    if t.len() > 0 {
        let inner = t.drop_last();
        lemma_rfind_char_bounds(inner, '[');
        lemma_rfind_char_bounds(inner, '(');
        if let Some(o) = rfind_char(inner, '[') {
            lemma_trim_end_prefix_trimmed(u, o);
        }
        if let Some(o) = rfind_char(inner, '(') {
            lemma_trim_end_prefix_trimmed(u, o);
        }
    }
}

/// The first step of a pass keeps a trimmed piece of the input; on a trimmed
/// input that piece is a prefix.
proof fn lemma_pass_base(s: Seq<char>)
    ensures
        is_trimmed(trim(drop_trailing(s, junk_pred()))),
        exists|a: int, b: int|
            0 <= a <= b <= s.len() && trim(drop_trailing(s, junk_pred())) == s.subrange(a, b),
        is_trimmed(s) ==> is_prefix(trim(drop_trailing(s, junk_pred())), s),
{
    let d = drop_trailing(s, junk_pred());
    lemma_drop_trailing_prefix(s, junk_pred());
    lemma_trim_is_trimmed(d);
    lemma_trim_subrange(d);
    let u = trim(d);
    let (a, b) = choose|a: int, b: int| 0 <= a <= b <= d.len() && u == d.subrange(a, b);
    assert(u =~= s.subrange(a, b));
    if is_trimmed(s) && d.len() > 0 {
        assert(d[0] == s[0]);
        let t = trim_start(d);
        assert(t == d);
        lemma_drop_trailing_prefix(d, ws_pred());
        assert(s.take(u.len() as int) =~= d.take(u.len() as int));
    }
    if is_trimmed(s) && d.len() == 0 {
        assert(u.len() == 0);
        assert(s.take(0) =~= u);
    }
}

/// A pass yields a trimmed, contiguous piece of its input; on a trimmed input
/// the piece is a prefix.
pub proof fn lemma_strip_one_pass_shape(s: Seq<char>)
    ensures
        is_trimmed(strip_one_pass(s)),
        exists|a: int, b: int| 0 <= a <= b <= s.len() && strip_one_pass(s) == s.subrange(a, b),
        strip_one_pass(s).len() <= s.len(),
        strip_one_pass(s) != s ==> strip_one_pass(s).len() < s.len(),
        is_trimmed(s) ==> is_prefix(strip_one_pass(s), s),
{
    let u = trim(drop_trailing(s, junk_pred()));
    lemma_pass_base(s);
    lemma_strippers_prefix(u);
    let r = strip_one_pass(s);
    assert(u.take(u.len() as int) =~= u);
    assert(is_prefix(r, u));
    let (a, b) = choose|a: int, b: int| 0 <= a <= b <= s.len() && u == s.subrange(a, b);
    assert(r =~= s.subrange(a, a + r.len()));
    if is_trimmed(s) {
        lemma_prefix_trans(r, u, s);
    }
    if r.len() == s.len() {
        assert(a == 0 && a + r.len() == s.len());
        assert(r =~= s);
    }
}

/// The loop stops on a fixpoint of a pass, which is trimmed, and on a trimmed
/// input yields a prefix of it.
pub proof fn lemma_clean_loop(s: Seq<char>)
    ensures
        strip_one_pass(clean_loop(s)) == clean_loop(s),
        is_trimmed(s) ==> is_trimmed(clean_loop(s)),
        is_trimmed(s) ==> is_prefix(clean_loop(s), s),
    decreases s.len(),
{
    let t = strip_one_pass(s);
    lemma_strip_one_pass_shape(s);
    if t == s {
        assert(s.take(s.len() as int) =~= s);
    } else {
        lemma_clean_loop(t);
        if is_trimmed(s) {
            lemma_prefix_trans(clean_loop(t), t, s);
        }
    }
}

/// A fixpoint of a pass is trimmed.
proof fn lemma_fixpoint_trimmed(s: Seq<char>)
    requires
        strip_one_pass(s) == s,
    ensures
        is_trimmed(s),
{
    lemma_strip_one_pass_shape(s);
}

/// Cleaning twice is cleaning once.
pub proof fn law_clean_idempotent(title: Seq<char>)
    ensures
        clean_title(clean_title(title)) == clean_title(title),
{
    let s0 = trim(title);
    lemma_trim_is_trimmed(title);
    let f = clean_loop(s0);
    lemma_clean_loop(s0);
    lemma_fixpoint_trimmed(f);
    lemma_trim_of_trimmed(f);
    assert(trim(f) == f);
    lemma_trim_idem(title);
    if f.len() > 0 {
        // clean_title(title) == f, a trimmed fixpoint.
        assert(clean_title(title) == f);
        assert(trim(f) == f);
        assert(clean_loop(f) == f);
    } else {
        assert(clean_title(title) == s0);
        assert(trim(s0) == s0);
    }
}

/// Cleaning only removes trailing text: the result is a prefix of the
/// trimmed title.
pub proof fn law_clean_is_prefix_of_trimmed(title: Seq<char>)
    ensures
        is_prefix(clean_title(title), trim(title)),
{
    let s0 = trim(title);
    lemma_trim_is_trimmed(title);
    lemma_clean_loop(s0);
    let f = clean_loop(s0);
    lemma_fixpoint_trimmed(f);
    lemma_trim_of_trimmed(f);
    assert(s0.take(s0.len() as int) =~= s0);
}

/// A title that is not blank never cleans down to nothing.
pub proof fn law_clean_never_empties(title: Seq<char>)
    ensures
        trim(title).len() > 0 ==> clean_title(title).len() > 0,
{
}

/// The last occurrence of `ch` in `x`, `ch`, `y` is the one after `x` when
/// `y` holds no `ch`.
proof fn lemma_rfind_after(x: Seq<char>, y: Seq<char>, ch: char)
    requires
        forall|j: int| 0 <= j < y.len() ==> y[j] != ch,
    ensures
        rfind_char(x.push(ch) + y, ch) == Some(x.len() as int),
    decreases y.len(),
{
    let s = x.push(ch) + y;
    if y.len() == 0 {
        assert(s =~= x.push(ch));
    } else {
        assert(s.drop_last() =~= x.push(ch) + y.drop_last());
        lemma_rfind_after(x, y.drop_last(), ch);
    }
}

/// A final group `open c close`, after a trimmed non-empty text `t` and a
/// space, whose content `c` is noise and holds no `open`, is removed and
/// leaves `t`.
proof fn lemma_group_removed(t: Seq<char>, c: Seq<char>, open: char, close: char)
    requires
        t.len() > 0,
        is_trimmed(t),
        is_noise(c),
        !white_space(close),
        forall|j: int| 0 <= j < c.len() ==> c[j] != open,
    ensures
        strip_trailing_group(t + seq![' ', open] + c + seq![close], open, close) == Some(t),
{
    let u = t + seq![' ', open] + c + seq![close];
    assert(u.last() == close);
    assert(trim_end(u) == u);
    let inner = u.drop_last();
    assert(inner =~= t.push(' ').push(open) + c);
    lemma_rfind_after(t.push(' '), c, open);
    let o: int = t.len() as int + 1;
    assert(inner.skip(o + 1) =~= c);
    assert(u.take(o) =~= t.push(' '));
    assert(white_space(' '));
    assert(t.push(' ').drop_last() =~= t);
    assert(trim_end(t.push(' ')) == trim_end(t));
    assert(trim_end(t) == t);
}

/// A pass over `u`, a trimmed title ending with `close` (not a separator,
/// not a digit, not white space), whose last word does not look like a
/// domain, removes no provider marker.
proof fn lemma_no_marker(u: Seq<char>, close: char)
    requires
        u.len() > 0,
        u.last() == close,
        !is_junk(close),
        !is_digit(close),
        close != 'd' && close != 'e' && close != 'p' && close != 'y',
        !white_space(close),
    ensures
        strip_trailing_provider_marker(u) is None,
        drop_trailing(u, junk_pred()) == u,
{
    reveal_strlit("_soundcloud");
    reveal_strlit("_youtube");
    reveal_strlit("_bandcamp");
    reveal_strlit("_spotify");
    if ends_with(u, "_soundcloud"@) {
        assert(u.skip(u.len() - 11)[10] == u.last());
    }
    if ends_with(u, "_youtube"@) {
        assert(u.skip(u.len() - 8)[7] == u.last());
    }
    if ends_with(u, "_bandcamp"@) {
        assert(u.skip(u.len() - 9)[8] == u.last());
    }
    if ends_with(u, "_spotify"@) {
        assert(u.skip(u.len() - 8)[7] == u.last());
    }
    assert(trim_end(u) == u);
    lemma_rfind_char_bounds(u, '_');
    if let Some(idx) = rfind_char(u, '_') {
        let after = u.skip(idx + 1);
        assert(idx != u.len() - 1);
        assert(after[after.len() - 1] == u.last());
        assert(!is_digit(after[after.len() - 1]));
    }
}

/// Every annotation of the documented noise list, in any letter case and
/// with any surrounding spaces, is dropped when it closes a title in
/// parentheses or square brackets: "T (annotation)" and "T [annotation]",
/// for a non-empty trimmed text `T`, lose the group and leave `T`. Unless
/// the title's last word looks like a web address (which the domain rule
/// removes first), a cleaning pass yields `T`, the whole cleaning goes on
/// as it would from `T`, and a title `T` that needs no cleaning is what
/// the search uses.
pub proof fn law_noise_annotations_dropped(t: Seq<char>, c: Seq<char>)
    requires
        t.len() > 0,
        is_trimmed(t),
        forall|j: int| 0 <= j < c.len() ==> c[j] != '(' && c[j] != '[',
        ({
            let w = lowercase(trim(c));
            ||| w == "original mix"@ ||| w == "original version"@ ||| w == "original"@
            ||| w == "album version"@ ||| w == "album mix"@ ||| w == "single version"@
            ||| w == "single mix"@ ||| w == "radio edit"@ ||| w == "radio version"@
            ||| w == "extended"@ ||| w == "extended mix"@ ||| w == "extended version"@
            ||| w == "extended edit"@ ||| w == "club mix"@ ||| w == "club edit"@
            ||| w == "remastered"@ ||| w == "remaster"@ ||| w == "out now"@
            ||| w == "free download"@ ||| w == "free dl"@ ||| w == "free"@
            ||| w == "premiere"@ ||| w == "bonus track"@ ||| w == "bonus"@
            ||| w == "videoclip"@ ||| w == "video clip"@ ||| w == "official"@
            ||| w == "official video"@ ||| w == "official audio"@ ||| w == "lyrics"@
            ||| w == "lyric video"@ ||| w == "audio"@ ||| w == "hq"@ ||| w == "hd"@
            ||| w == "320kbps"@
        }),
    ensures
        is_noise(c),
        ({
            let paren = t + seq![' ', '('] + c + seq![')'];
            let square = t + seq![' ', '['] + c + seq![']'];
            &&& strip_trailing_group(paren, '(', ')') == Some(t)
            &&& strip_trailing_group(square, '[', ']') == Some(t)
            &&& strip_trailing_domain(paren) is None ==> strip_one_pass(paren) == t
                && clean_loop(paren) == clean_loop(t)
                && (strip_one_pass(t) == t ==> clean_title(paren) == t)
            &&& strip_trailing_domain(square) is None ==> strip_one_pass(square) == t
                && clean_loop(square) == clean_loop(t)
                && (strip_one_pass(t) == t ==> clean_title(square) == t)
        }),
{
    let paren = t + seq![' ', '('] + c + seq![')'];
    let square = t + seq![' ', '['] + c + seq![']'];
    assert(is_noise(c));
    assert(!white_space(')') && !white_space(']'));
    lemma_group_removed(t, c, '(', ')');
    lemma_group_removed(t, c, '[', ']');
    lemma_no_marker(paren, ')');
    lemma_no_marker(square, ']');
    assert(paren[0] == t[0] && square[0] == t[0]);
    lemma_trim_of_trimmed(paren);
    lemma_trim_of_trimmed(square);
    lemma_trim_of_trimmed(t);
    if strip_trailing_domain(paren) is None {
        assert(paren.last() != ']');
        assert(strip_one_pass(paren) == t);
        assert(t.len() < paren.len());
        assert(clean_loop(paren) == clean_loop(t));
    }
    if strip_trailing_domain(square) is None {
        assert(strip_one_pass(square) == t);
        assert(t.len() < square.len());
        assert(clean_loop(square) == clean_loop(t));
    }
}

// ---------------------------------------------------------------------------
// Executable code
// ---------------------------------------------------------------------------

/// Whether a bracket content is a generic annotation.
pub fn is_noise_keyword(content: &[char]) -> (res: bool)
    ensures
        res == is_noise(content@),
{
    let t = trim_chars(content);
    let w = lower_chars(t.as_slice());
    let w = w.as_slice();
    eq_lit(w, "original mix") || eq_lit(w, "original version") || eq_lit(w, "original")
        || eq_lit(w, "album version") || eq_lit(w, "album mix") || eq_lit(w, "single version")
        || eq_lit(w, "single mix") || eq_lit(w, "radio edit") || eq_lit(w, "radio version")
        || eq_lit(w, "extended") || eq_lit(w, "extended mix") || eq_lit(w, "extended version")
        || eq_lit(w, "extended edit") || eq_lit(w, "club mix") || eq_lit(w, "club edit")
        || eq_lit(w, "remastered") || eq_lit(w, "remaster") || eq_lit(w, "out now")
        || eq_lit(w, "free download") || eq_lit(w, "free dl") || eq_lit(w, "free")
        || eq_lit(w, "premiere") || eq_lit(w, "bonus track") || eq_lit(w, "bonus")
        || eq_lit(w, "videoclip") || eq_lit(w, "video clip") || eq_lit(w, "official")
        || eq_lit(w, "official video") || eq_lit(w, "official audio") || eq_lit(w, "lyrics")
        || eq_lit(w, "lyric video") || eq_lit(w, "audio") || eq_lit(w, "hq") || eq_lit(w, "hd")
        || eq_lit(w, "320kbps")
}

fn has_tld_exec(lower: &[char]) -> (res: bool)
    ensures
        res == has_tld(lower@),
{
    ends_with_lit(lower, ".net") || ends_with_lit(lower, ".com") || ends_with_lit(lower, ".org")
        || ends_with_lit(lower, ".fr") || ends_with_lit(lower, ".io") || ends_with_lit(lower, ".me")
        || ends_with_lit(lower, ".to") || ends_with_lit(lower, ".ru") || ends_with_lit(lower, ".co")
        || ends_with_lit(lower, ".tv") || ends_with_lit(lower, ".fm") || ends_with_lit(lower, ".biz")
        || ends_with_lit(lower, ".info") || ends_with_lit(lower, ".uk") || ends_with_lit(lower, ".de")
        || ends_with_lit(lower, ".es") || ends_with_lit(lower, ".it") || ends_with_lit(lower, ".nl")
}

/// Removes a trailing domain-like word.
pub fn strip_trailing_domain_exec(s: &[char]) -> (res: Option<Vec<char>>)
    ensures
        res matches Some(r) ==> strip_trailing_domain(s@) == Some(r@),
        res is None ==> strip_trailing_domain(s@) is None,
{
    let t = trim_end_chars(s);
    let n = t.len();
    let start = match rfind_ws_exec(t.as_slice()) {
        Some(i) => i + 1,
        None => 0,
    };
    let last = slice_chars(t.as_slice(), start, t.len());
    assert(last@ =~= t@.skip(start as int));
    let lower = lower_chars(last.as_slice());
    let looks = starts_with_lit(lower.as_slice(), "www.")
        || (find_char_exec(last.as_slice(), '.').is_some() && has_tld_exec(lower.as_slice()));
    if !looks {
        return None;
    }
    let head = slice_chars(t.as_slice(), 0, start);
    assert(head@ =~= t@.take(start as int));
    let rest = trim_end_chars(head.as_slice());
    if rest.len() > 0 {
        Some(rest)
    } else {
        None
    }
}

/// Drops the last `n` characters of `s` and trims the end.
fn cut_and_trim(s: &[char], n: usize) -> (res: Vec<char>)
    requires
        n <= s@.len(),
    ensures
        res@ == trim_end(s@.take(s@.len() - n)),
{
    let head = slice_chars(s, 0, s.len() - n);
    assert(head@ =~= s@.take(s@.len() - n));
    trim_end_chars(head.as_slice())
}

/// Removes a provider marker or a trailing `_<digits>` id.
pub fn strip_trailing_provider_marker_exec(s: &[char]) -> (res: Option<Vec<char>>)
    ensures
        res matches Some(r) ==> strip_trailing_provider_marker(s@) == Some(r@),
        res is None ==> strip_trailing_provider_marker(s@) is None,
{
    if ends_with_lit(s, "_soundcloud") {
        proof { reveal_strlit("_soundcloud"); }
        return Some(cut_and_trim(s, 11));
    }
    if ends_with_lit(s, "_youtube") {
        proof { reveal_strlit("_youtube"); }
        return Some(cut_and_trim(s, 8));
    }
    if ends_with_lit(s, "_bandcamp") {
        proof { reveal_strlit("_bandcamp"); }
        return Some(cut_and_trim(s, 9));
    }
    if ends_with_lit(s, "_spotify") {
        proof { reveal_strlit("_spotify"); }
        return Some(cut_and_trim(s, 8));
    }
    let t = trim_end_chars(s);
    let n = t.len();
    match rfind_char_exec(t.as_slice(), '_') {
        None => None,
        Some(idx) => {
            let after = slice_chars(t.as_slice(), idx + 1, t.len());
            assert(after@ =~= t@.skip(idx + 1));
            let mut all = true;
            let mut k: usize = 0;
            while k < after.len()
                invariant
                    k <= after@.len(),
                    all == (forall|j: int| 0 <= j < k ==> is_digit(#[trigger] after@[j])),
                decreases after@.len() - k,
            {
                if !is_digit_exec(after[k]) {
                    all = false;
                }
                k += 1;
            }
            if after.len() > 0 && all {
                let head = slice_chars(t.as_slice(), 0, idx);
                assert(head@ =~= t@.take(idx as int));
                Some(trim_end_chars(head.as_slice()))
            } else {
                None
            }
        },
    }
}

/// Removes a trailing `open ... close` group whose content is noise.
pub fn strip_trailing_group_exec(s: &[char], open: char, close: char) -> (res: Option<Vec<char>>)
    ensures
        res matches Some(r) ==> strip_trailing_group(s@, open, close) == Some(r@),
        res is None ==> strip_trailing_group(s@, open, close) is None,
{
    let t = trim_end_chars(s);
    if t.len() == 0 || t[t.len() - 1] != close {
        return None;
    }
    let inner = slice_chars(t.as_slice(), 0, t.len() - 1);
    assert(inner@ =~= t@.drop_last());
    match rfind_char_exec(inner.as_slice(), open) {
        None => None,
        Some(o) => {
            let content = slice_chars(inner.as_slice(), o + 1, inner.len());
            assert(content@ =~= inner@.skip(o + 1));
            if is_noise_keyword(content.as_slice()) {
                let head = slice_chars(t.as_slice(), 0, o);
                assert(head@ =~= t@.take(o as int));
                Some(trim_end_chars(head.as_slice()))
            } else {
                None
            }
        },
    }
}

fn is_junk_exec(c: char) -> (res: bool)
    ensures
        res == is_junk(c),
{
    c == ' ' || c == '\t' || c == '-' || c == '_' || c == '.' || c == ','
}

/// Drops trailing separators (`' '`, `'\t'`, `-`, `_`, `.`, `,`).
fn drop_trailing_junk(v: &[char]) -> (res: Vec<char>)
    ensures
        res@ == drop_trailing(v@, junk_pred()),
{
    let mut e = v.len();
    assert(v@.take(e as int) =~= v@);
    while e > 0 && is_junk_exec(v[e - 1])
        invariant
            e <= v@.len(),
            drop_trailing(v@, junk_pred()) == drop_trailing(v@.take(e as int), junk_pred()),
        decreases e,
    {
        assert(v@.take(e as int).drop_last() =~= v@.take(e - 1));
        e -= 1;
    }
    assert(v@.take(e as int) =~= v@.subrange(0, e as int));
    slice_chars(v, 0, e)
}

/// One cleaning pass.
pub fn strip_one_pass_exec(s: &[char]) -> (res: Vec<char>)
    ensures
        res@ == strip_one_pass(s@),
{
    let d = drop_trailing_junk(s);
    let u = trim_chars(d.as_slice());
    if let Some(r) = strip_trailing_domain_exec(u.as_slice()) {
        return r;
    }
    if let Some(r) = strip_trailing_provider_marker_exec(u.as_slice()) {
        return r;
    }
    if let Some(r) = strip_trailing_group_exec(u.as_slice(), '[', ']') {
        return r;
    }
    if let Some(r) = strip_trailing_group_exec(u.as_slice(), '(', ')') {
        return r;
    }
    u
}

/// Cleans a title before a MusicBrainz search by removing generic suffixes
/// that make matches fail, without touching artist or remixer names. A title
/// that would be emptied is returned trimmed instead.
pub fn clean_for_search(title: &str) -> (res: String)
    ensures
        res@ == clean_title(title@),
{
    let v = chars_of(title);
    let start = trim_chars(v.as_slice());
    let mut s = trim_chars(v.as_slice());
    loop
        invariant
            clean_loop(s@) == clean_loop(start@),
            start@ == trim(title@),
        ensures
            clean_loop(s@) == clean_loop(start@),
            start@ == trim(title@),
            strip_one_pass(s@) == s@,
        decreases s@.len(),
    {
        let stripped = strip_one_pass_exec(s.as_slice());
        proof {
            lemma_strip_one_pass_shape(s@);
        }
        if chars_eq(stripped.as_slice(), s.as_slice()) {
            break;
        }
        s = stripped;
    }
    let cleaned = trim_chars(s.as_slice());
    if cleaned.len() == 0 {
        string_of(start.as_slice())
    } else {
        string_of(cleaned.as_slice())
    }
}

} // verus!
