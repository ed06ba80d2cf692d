//! Destination paths: rendering of the naming template, sanitising and
//! truncation of path components, quarantine areas, and the decisions taken
//! when a destination already exists.

use vstd::prelude::*;
use crate::models::{TrackInfo, TrackInfoView, min_for_organization};
use crate::paths::{
    extension, file_name, join_path, path_extension, path_file_name, path_join,
    path_strip_prefix, strip_prefix,
};
use crate::text::{
    chars_of, concat_chars, decimal, decimal_exec, find_char, find_char_exec, join, join_exec,
    lemma_find_char_bounds, lower_chars, lowercase, slice_chars, split_on, split_on_exec, string_of,
    is_trimmed, trim, trim_chars, trim_end, trim_end_chars, views,
};

verus! {

/// Longest path component kept, in bytes (file systems usually cap at 255;
/// room is left for the extension).
pub const MAX_COMPONENT_BYTES: usize = 200;

/// Default naming template. Placeholders: `{artist}` `{album}` `{title}`
/// `{year}` `{track}` `{genre}`; `/` separates directories.
pub const DEFAULT_TEMPLATE: &'static str = "{artist} - {year} - {album}/{track} - {title}";

// ---------------------------------------------------------------------------
// Sanitising and truncation
// ---------------------------------------------------------------------------

pub open spec fn is_bad_char(c: char) -> bool {
    c == '/' || c == '\\' || c == ':' || c == '*' || c == '?' || c == '"' || c == '<' || c == '>'
        || c == '|' || c == '\0'
}

pub open spec fn sanitize_char(c: char) -> char {
    if is_bad_char(c) { '_' } else { c }
}

/// Characters invalid in a file name replaced by `_`, then trimmed.
pub open spec fn sanitized(name: Seq<char>) -> Seq<char> {
    trim(name.map_values(|c: char| sanitize_char(c)))
}

/// Number of bytes of the UTF-8 encoding of `c`.
pub open spec fn utf8_width(c: char) -> nat {
    if (c as u32) < 0x80 { 1 } else if (c as u32) < 0x800 { 2 } else if (c as u32) < 0x10000 { 3 } else { 4 }
}

/// Number of bytes of the UTF-8 encoding of `s`.
pub open spec fn utf8_len(s: Seq<char>) -> nat
    decreases s.len(),
{
    if s.len() == 0 { 0 } else { utf8_width(s[0]) + utf8_len(s.drop_first()) }
}

/// Number of characters of the longest prefix of `s` that fits in `max` bytes.
pub open spec fn fit_len(s: Seq<char>, max: nat) -> nat
    decreases s.len(),
{
    if s.len() == 0 {
        0
    } else if utf8_width(s[0]) <= max {
        1 + fit_len(s.drop_first(), (max - utf8_width(s[0])) as nat)
    } else {
        0
    }
}

/// `s` cut at the last character boundary within `max` bytes and trimmed at
/// the end, when it is longer than `max` bytes.
pub open spec fn truncated(s: Seq<char>, max: nat) -> Seq<char> {
    if utf8_len(s) <= max { s } else { trim_end(s.take(fit_len(s, max) as int)) }
}

pub proof fn lemma_utf8_len_push(s: Seq<char>, c: char)
    ensures
        utf8_len(s.push(c)) == utf8_len(s) + utf8_width(c),
    decreases s.len(),
{
    if s.len() > 0 {
        assert(s.push(c).drop_first() =~= s.drop_first().push(c));
        assert(s.push(c)[0] == s[0]);
        lemma_utf8_len_push(s.drop_first(), c);
    } else {
        assert(s.push(c).drop_first() =~= Seq::<char>::empty());
        assert(s.push(c)[0] == c);
        assert(utf8_len(Seq::<char>::empty()) == 0);
    }
}

/// `utf8_len` is the length of the UTF-8 encoding of vstd.
pub proof fn lemma_utf8_len_encoding(s: Seq<char>)
    ensures
        utf8_len(s) == vstd::utf8::encode_utf8(s).len(),
    decreases s.len(),
{
    if s.len() > 0 {
        lemma_utf8_len_encoding(s.drop_first());
        let c = s[0];
        vstd::utf8::char_is_scalar(c);
    }
}

proof fn lemma_fit_len(s: Seq<char>, max: nat)
    ensures
        fit_len(s, max) <= s.len(),
        utf8_len(s.take(fit_len(s, max) as int)) <= max,
        fit_len(s, max) < s.len() ==> utf8_len(s.take(fit_len(s, max) as int + 1)) > max,
    decreases s.len(),
{
    if s.len() > 0 {
        let w = utf8_width(s[0]);
        if w <= max {
            lemma_fit_len(s.drop_first(), (max - w) as nat);
            let k = fit_len(s.drop_first(), (max - w) as nat) as int;
            assert(s.take(k + 1).drop_first() =~= s.drop_first().take(k));
            if k + 1 < s.len() {
                assert(s.take(k + 2).drop_first() =~= s.drop_first().take(k + 1));
            }
        } else {
            assert(s.take(1).drop_first() =~= Seq::<char>::empty());
        }
    }
}

/// A truncated component fits in its byte budget and is a prefix of the input.
pub proof fn law_truncated_fits(s: Seq<char>, max: nat)
    ensures
        utf8_len(truncated(s, max)) <= max,
        truncated(s, max).len() <= s.len(),
        s.take(truncated(s, max).len() as int) == truncated(s, max),
{
    if utf8_len(s) > max {
        lemma_fit_len(s, max);
        let p = s.take(fit_len(s, max) as int);
        crate::text::lemma_drop_trailing_prefix(p, crate::text::ws_pred());
        let r = trim_end(p);
        lemma_utf8_len_prefix(p, r.len() as int);
        assert(s.take(r.len() as int) =~= p.take(r.len() as int));
    } else {
        assert(s.take(s.len() as int) =~= s);
    }
}

proof fn lemma_utf8_len_prefix(s: Seq<char>, k: int)
    requires
        0 <= k <= s.len(),
    ensures
        utf8_len(s.take(k)) <= utf8_len(s),
    decreases s.len(),
{
    if k > 0 {
        lemma_utf8_len_prefix(s.drop_first(), k - 1);
        assert(s.take(k).drop_first() =~= s.drop_first().take(k - 1));
    }
}

/// A sanitised name holds none of the characters invalid in a file name.
pub proof fn law_sanitized_is_clean(name: Seq<char>)
    ensures
        forall|i: int| 0 <= i < sanitized(name).len() ==> !is_bad_char(#[trigger] sanitized(name)[i]),
{
    let m = name.map_values(|c: char| sanitize_char(c));
    crate::text::lemma_trim_subrange(m);
    let (a, b) = choose|a: int, b: int| 0 <= a <= b <= m.len() && trim(m) == m.subrange(a, b);
    assert forall|i: int| 0 <= i < sanitized(name).len() implies !is_bad_char(#[trigger] sanitized(name)[i]) by {
        assert(sanitized(name)[i] == m[a + i]);
    }
}

fn is_bad_char_exec(c: char) -> (res: bool)
    ensures
        res == is_bad_char(c),
{
    c == '/' || c == '\\' || c == ':' || c == '*' || c == '?' || c == '"' || c == '<' || c == '>'
        || c == '|' || c == '\0'
}

/// Replaces the characters invalid in a file name by `_` and trims.
pub fn sanitize_filename(name: &str) -> (res: String)
    ensures
        res@ == sanitized(name@),
{
    let v = chars_of(name);
    let mut out: Vec<char> = Vec::new();
    let mut i: usize = 0;
    while i < v.len()
        invariant
            i <= v@.len(),
            out@ == v@.take(i as int).map_values(|c: char| sanitize_char(c)),
        decreases v@.len() - i,
    {
        let c = v[i];
        out.push(if is_bad_char_exec(c) { '_' } else { c });
        assert(v@.take(i + 1).map_values(|c: char| sanitize_char(c)) =~= v@.take(i as int).map_values(
            |c: char| sanitize_char(c),
        ).push(sanitize_char(c)));
        i += 1;
    }
    assert(v@.take(v@.len() as int) =~= v@);
    string_of(trim_chars(out.as_slice()).as_slice())
}

fn utf8_width_exec(c: char) -> (res: u64)
    ensures
        res as nat == utf8_width(c),
{
    let u = c as u32;
    if u < 0x80 { 1 } else if u < 0x800 { 2 } else if u < 0x10000 { 3 } else { 4 }
}

/// Cuts `s` to at most `max_bytes` bytes without splitting a character.
pub fn truncate_component(s: &str, max_bytes: usize) -> (res: String)
    ensures
        res@ == truncated(s@, max_bytes as nat),
{
    let v = chars_of(s);
    // Total size.
    let mut total: u128 = 0;
    let mut i: usize = 0;
    while i < v.len()
        invariant
            i <= v@.len(),
            total as nat == utf8_len(v@.take(i as int)),
            total <= 4 * i,
        decreases v@.len() - i,
    {
        proof {
            lemma_utf8_len_push(v@.take(i as int), v@[i as int]);
            assert(v@.take(i + 1) =~= v@.take(i as int).push(v@[i as int]));
        }
        total = total + utf8_width_exec(v[i]) as u128;
        i += 1;
    }
    assert(v@.take(v@.len() as int) =~= v@);
    if total <= max_bytes as u128 {
        return string_of(v.as_slice());
    }
    // Longest prefix that fits.
    let mut k: usize = 0;
    let mut budget: u64 = max_bytes as u64;
    let ghost max = max_bytes as nat;
    assert(v@.skip(0) =~= v@);
    while k < v.len() && utf8_width_exec(v[k]) <= budget
        invariant
            k <= v@.len(),
            budget <= max,
            fit_len(v@, max) == k + fit_len(v@.skip(k as int), budget as nat),
        decreases v@.len() - k,
    {
        let w = utf8_width_exec(v[k]);
        assert(v@.skip(k as int).drop_first() =~= v@.skip(k + 1));
        budget = budget - w;
        k += 1;
    }
    assert(fit_len(v@.skip(k as int), budget as nat) == 0);
    let head = slice_chars(v.as_slice(), 0, k);
    assert(head@ =~= v@.take(k as int));
    string_of(trim_end_chars(head.as_slice()).as_slice())
}

// ---------------------------------------------------------------------------
// Template rendering
// ---------------------------------------------------------------------------

pub open spec fn text_or_empty(o: Option<Seq<char>>) -> Seq<char> {
    match o {
        Some(s) => s,
        None => Seq::empty(),
    }
}

/// Zero-padded to two digits (`{:02}`).
pub open spec fn pad2(n: nat) -> Seq<char> {
    if n < 10 { seq!['0'] + decimal(n) } else { decimal(n) }
}

/// Value substituted for `{token}`.
pub open spec fn token_text(token: Seq<char>, info: TrackInfoView) -> Seq<char> {
    if token == "artist"@ {
        text_or_empty(info.artist)
    } else if token == "album"@ {
        text_or_empty(info.album)
    } else if token == "title"@ {
        text_or_empty(info.title)
    } else if token == "genre"@ {
        text_or_empty(info.genre)
    } else if token == "year"@ {
        match info.year {
            Some(y) => decimal(y as nat),
            None => Seq::empty(),
        }
    } else if token == "track"@ {
        match info.track_number {
            Some(n) => pad2(n as nat),
            None => Seq::empty(),
        }
    } else {
        Seq::empty()
    }
}

/// Every `{token}` of a segment replaced by its value; an unclosed `{` and
/// what follows are kept as they are.
pub open spec fn substituted(rest: Seq<char>, info: TrackInfoView) -> Seq<char>
    decreases rest.len(),
{
    match find_char(rest, '{') {
        None => rest,
        Some(st) => match find_char(rest.skip(st), '}') {
            None => rest,
            Some(e) => if 0 <= st && 1 <= e && st + e < rest.len() {
                rest.take(st) + token_text(rest.subrange(st + 1, st + e), info) + substituted(
                    rest.skip(st + e + 1),
                    info,
                )
            } else {
                rest
            },
        },
    }
}

/// The pieces trimmed, with the blank ones left out.
pub open spec fn nonblank_trimmed(parts: Seq<Seq<char>>) -> Seq<Seq<char>>
    decreases parts.len(),
{
    if parts.len() == 0 {
        Seq::empty()
    } else {
        let r = nonblank_trimmed(parts.drop_last());
        let t = trim(parts.last());
        if t.len() == 0 { r } else { r.push(t) }
    }
}

/// Superfluous ` - ` separators left by empty tokens collapsed
/// ("Artist -  - Album" becomes "Artist - Album").
pub open spec fn collapsed(s: Seq<char>) -> Seq<char> {
    join(nonblank_trimmed(split_on(s, " - "@)), " - "@)
}

/// Text of a rendered component, before the fallbacks.
pub open spec fn component_text(segment: Seq<char>, info: TrackInfoView) -> Seq<char> {
    truncated(sanitized(collapsed(substituted(segment, info))), MAX_COMPONENT_BYTES as nat)
}

/// A rendered component: the file name (last segment) gets the extension and
/// falls back to `track`; an empty directory name falls back to `unknown`.
pub open spec fn component(segment: Seq<char>, info: TrackInfoView, ext: Seq<char>, last: bool) -> Seq<char> {
    let c = component_text(segment, info);
    if last && ext.len() > 0 {
        (if c.len() == 0 { "track"@ } else { c }) + "."@ + ext
    } else if c.len() == 0 {
        "unknown"@
    } else {
        c
    }
}

/// Components of the path rendered from `template`.
pub open spec fn rendered_components(template: Seq<char>, info: TrackInfoView, ext: Seq<char>) -> Seq<Seq<char>> {
    let segs = split_on(template, "/"@);
    Seq::new(segs.len(), |i: int| component(segs[i], info, ext, i == segs.len() - 1))
}

/// The relative path rendered from `template`.
pub open spec fn rendered_path(template: Seq<char>, info: TrackInfoView, ext: Seq<char>) -> Seq<char> {
    join(rendered_components(template, info, ext), "/"@)
}

/// Every rendered component is non-empty.
pub proof fn law_rendered_components_nonempty(template: Seq<char>, info: TrackInfoView, ext: Seq<char>)
    ensures
        forall|i: int|
            0 <= i < rendered_components(template, info, ext).len() ==> #[trigger] rendered_components(
                template,
                info,
                ext,
            )[i].len() > 0,
{
    reveal_strlit("track");
    reveal_strlit("unknown");
    reveal_strlit(".");
}

/// A valid path component: non-empty, at most 200 bytes of UTF-8, without
/// leading or trailing white space, and without any of `/ \ : * ? " < > |`
/// or NUL.
pub open spec fn clean_name(s: Seq<char>) -> bool {
    &&& s.len() > 0
    &&& utf8_len(s) <= MAX_COMPONENT_BYTES as nat
    &&& is_trimmed(s)
    &&& forall|i: int| 0 <= i < s.len() ==> !is_bad_char(#[trigger] s[i])
}

/// The text of a component is trimmed, within the byte limit, and free of
/// the forbidden characters.
proof fn lemma_component_text_clean(segment: Seq<char>, info: TrackInfoView)
    ensures
        component_text(segment, info).len() > 0 ==> clean_name(component_text(segment, info)),
{
    let x = sanitized(collapsed(substituted(segment, info)));
    let max = MAX_COMPONENT_BYTES as nat;
    law_sanitized_is_clean(collapsed(substituted(segment, info)));
    crate::text::lemma_trim_is_trimmed(collapsed(substituted(segment, info)).map_values(|c: char| sanitize_char(c)));
    law_truncated_fits(x, max);
    let t = truncated(x, max);
    assert forall|i: int| 0 <= i < t.len() implies !is_bad_char(#[trigger] t[i]) by {
        assert(t[i] == x.take(t.len() as int)[i]);
    }
    if utf8_len(x) > max {
        lemma_fit_len(x, max);
        crate::text::lemma_trim_end_prefix_trimmed(x, fit_len(x, max) as int);
    }
}

proof fn lemma_literal_clean()
    ensures
        clean_name("track"@),
        clean_name("unknown"@),
{
    reveal_strlit("track");
    reveal_strlit("unknown");
    assert(utf8_len("track"@) == 5) by {
        reveal_with_fuel(utf8_len, 6);
    }
    assert(utf8_len("unknown"@) == 7) by {
        reveal_with_fuel(utf8_len, 8);
    }
}

/// Every rendered component is a valid path component, except the file name
/// when there is an extension: it is then a valid component, a dot and the
/// extension.
pub proof fn law_rendered_components_clean(template: Seq<char>, info: TrackInfoView, ext: Seq<char>)
    ensures
        forall|i: int| 0 <= i < rendered_components(template, info, ext).len() ==> {
            let c = #[trigger] rendered_components(template, info, ext)[i];
            if i == rendered_components(template, info, ext).len() - 1 && ext.len() > 0 {
                exists|n: Seq<char>| clean_name(n) && c == n + "."@ + ext
            } else {
                clean_name(c)
            }
        },
{
    lemma_literal_clean();
    let comps = rendered_components(template, info, ext);
    let segs = split_on(template, "/"@);
    assert forall|i: int| 0 <= i < comps.len() implies {
        let c = #[trigger] comps[i];
        if i == comps.len() - 1 && ext.len() > 0 {
            exists|n: Seq<char>| clean_name(n) && c == n + "."@ + ext
        } else {
            clean_name(c)
        }
    } by {
        lemma_component_text_clean(segs[i], info);
        let t = component_text(segs[i], info);
        if i == comps.len() - 1 && ext.len() > 0 {
            let n = if t.len() == 0 { "track"@ } else { t };
            assert(clean_name(n) && comps[i] == n + "."@ + ext);
        }
    }
}

fn opt_chars(o: &Option<String>) -> (res: Vec<char>)
    ensures
        res@ == text_or_empty(crate::models::opt_text(*o)),
{
    match o {
        Some(s) => chars_of(s.as_str()),
        None => Vec::new(),
    }
}

fn token_value(token: &[char], info: &TrackInfo) -> (res: Vec<char>)
    ensures
        res@ == token_text(token@, info@),
{
    if crate::text::eq_lit(token, "artist") {
        opt_chars(&info.artist)
    } else if crate::text::eq_lit(token, "album") {
        opt_chars(&info.album)
    } else if crate::text::eq_lit(token, "title") {
        opt_chars(&info.title)
    } else if crate::text::eq_lit(token, "genre") {
        opt_chars(&info.genre)
    } else if crate::text::eq_lit(token, "year") {
        match info.year {
            Some(y) => decimal_exec(y as u64),
            None => Vec::new(),
        }
    } else if crate::text::eq_lit(token, "track") {
        match info.track_number {
            Some(n) => {
                let d = decimal_exec(n as u64);
                if n < 10 {
                    let mut z: Vec<char> = Vec::new();
                    z.push('0');
                    assert(z@ =~= seq!['0']);
                    concat_chars(z.as_slice(), d.as_slice())
                } else {
                    d
                }
            },
            None => Vec::new(),
        }
    } else {
        Vec::new()
    }
}

fn substitute_segment(segment: &[char], info: &TrackInfo) -> (res: Vec<char>)
    ensures
        res@ == substituted(segment@, info@),
    decreases segment@.len(),
{
    match find_char_exec(segment, '{') {
        None => slice_chars(segment, 0, segment.len()),
        Some(st) => {
            proof {
                lemma_find_char_bounds(segment@, '{');
            }
            let n = segment.len();
            let from_open = slice_chars(segment, st, n);
            assert(from_open@ =~= segment@.skip(st as int));
            match find_char_exec(from_open.as_slice(), '}') {
                None => slice_chars(segment, 0, n),
                Some(e) => {
                    proof {
                        lemma_find_char_bounds(from_open@, '}');
                        assert(from_open@[0] == '{');
                    }
                    let head = slice_chars(segment, 0, st);
                    let token = slice_chars(segment, st + 1, st + e);
                    let tail = slice_chars(segment, st + e + 1, n);
                    assert(head@ =~= segment@.take(st as int));
                    assert(tail@ =~= segment@.skip(st + e + 1));
                    let value = token_value(token.as_slice(), info);
                    let rest = substitute_segment(tail.as_slice(), info);
                    let a = concat_chars(head.as_slice(), value.as_slice());
                    concat_chars(a.as_slice(), rest.as_slice())
                },
            }
        },
    }
}

fn collapse_separators(s: &[char]) -> (res: Vec<char>)
    ensures
        res@ == collapsed(s@),
{
    let sep = chars_of(" - ");
    proof { reveal_strlit(" - "); }
    let parts = split_on_exec(s, sep.as_slice());
    let mut kept: Vec<Vec<char>> = Vec::new();
    let mut i: usize = 0;
    let ghost pv = views(parts@);
    while i < parts.len()
        invariant
            i <= parts@.len(),
            pv == views(parts@),
            views(kept@) == nonblank_trimmed(pv.take(i as int)),
        decreases parts@.len() - i,
    {
        assert(pv.take(i + 1).drop_last() =~= pv.take(i as int));
        let t = trim_chars(parts[i].as_slice());
        if t.len() > 0 {
            let ghost before = views(kept@);
            kept.push(t);
            assert(views(kept@) =~= before.push(t@));
        }
        i += 1;
    }
    assert(pv.take(parts@.len() as int) =~= pv);
    join_exec(&kept, sep.as_slice())
}

fn render_component(segment: &[char], info: &TrackInfo, ext: &[char], last: bool) -> (res: Vec<char>)
    ensures
        res@ == component(segment@, info@, ext@, last),
{
    let substituted = substitute_segment(segment, info);
    let collapsed = collapse_separators(substituted.as_slice());
    let clean = sanitize_filename(string_of(collapsed.as_slice()).as_str());
    let cut = truncate_component(clean.as_str(), MAX_COMPONENT_BYTES);
    let c = chars_of(cut.as_str());
    if last && ext.len() > 0 {
        let base = if c.len() == 0 { chars_of("track") } else { c };
        let dot = chars_of(".");
        let with_dot = concat_chars(base.as_slice(), dot.as_slice());
        concat_chars(with_dot.as_slice(), ext)
    } else if c.len() == 0 {
        chars_of("unknown")
    } else {
        c
    }
}

fn render_components(template: &str, info: &TrackInfo, ext: &[char]) -> (res: Vec<Vec<char>>)
    ensures
        views(res@) == rendered_components(template@, info@, ext@),
        res@.len() > 0,
{
    let t = chars_of(template);
    let slash = chars_of("/");
    proof { reveal_strlit("/"); }
    let segs = split_on_exec(t.as_slice(), slash.as_slice());
    let ghost sv = views(segs@);
    let mut out: Vec<Vec<char>> = Vec::new();
    let mut i: usize = 0;
    while i < segs.len()
        invariant
            i <= segs@.len(),
            sv == views(segs@),
            sv == split_on(template@, "/"@),
            out@.len() == i,
            forall|j: int| 0 <= j < i ==> #[trigger] out@[j]@ == component(sv[j], info@, ext@, j == sv.len() - 1),
        decreases segs@.len() - i,
    {
        let c = render_component(segs[i].as_slice(), info, ext, i == segs.len() - 1);
        out.push(c);
        i += 1;
    }
    assert(views(out@) =~= rendered_components(template@, info@, ext@));
    out
}

/// Renders the path, relative to the target root, that `template` gives for
/// `info`. Each `/`-separated segment becomes a sanitised, truncated component;
/// the extension is added to the last one (the file name).
pub fn render_relative_path(template: &str, info: &TrackInfo, ext: &str) -> (res: String)
    ensures
        res@ == rendered_path(template@, info@, ext@),
{
    let e = chars_of(ext);
    let comps = render_components(template, info, e.as_slice());
    let slash = chars_of("/");
    string_of(join_exec(&comps, slash.as_slice()).as_slice())
}

// ---------------------------------------------------------------------------
// Destinations
// ---------------------------------------------------------------------------

/// Path of a file relative to the source root; for a file outside that root,
/// its bare name (`unknown` when it has none).
pub open spec fn relative_to_source_spec(original: Seq<char>, source_root: Seq<char>) -> Seq<char> {
    match path_strip_prefix(original, source_root) {
        Some(r) => r,
        None => match path_file_name(original) {
            Some(n) => n,
            None => "unknown"@,
        },
    }
}

/// The first of `names` equal to `proposed` ignoring case.
pub open spec fn first_case_match(names: Seq<Seq<char>>, proposed: Seq<char>) -> Option<Seq<char>>
    decreases names.len(),
{
    if names.len() == 0 {
        None
    } else if lowercase(names[0]) == lowercase(proposed) {
        Some(names[0])
    } else {
        first_case_match(names.drop_first(), proposed)
    }
}

/// An existing folder name matching `proposed` ignoring case, else `proposed`.
pub open spec fn resolved_folder(names: Seq<Seq<char>>, proposed: Seq<char>) -> Seq<char> {
    match first_case_match(names, proposed) {
        Some(n) => n,
        None => proposed,
    }
}

pub open spec fn string_views(v: Seq<String>) -> Seq<Seq<char>> {
    Seq::new(v.len(), |i: int| v[i]@)
}

/// Extension of a path, empty when it has none.
pub open spec fn ext_of(p: Seq<char>) -> Seq<char> {
    match path_extension(p) {
        Some(e) => e,
        None => Seq::empty(),
    }
}

/// Where a track goes: under `_unsorted/` (relative structure kept) when the
/// metadata is not enough to file it, else at the rendered path, reusing an
/// existing first-level folder whose name differs only by case.
pub open spec fn destination(
    target: Seq<char>,
    info: TrackInfoView,
    original: Seq<char>,
    source_root: Seq<char>,
    template: Seq<char>,
    existing: Seq<Seq<char>>,
) -> Seq<char> {
    if !min_for_organization(info) {
        path_join(path_join(target, "_unsorted"@), relative_to_source_spec(original, source_root))
    } else {
        let comps = rendered_components(template, info, ext_of(original));
        path_join(
            path_join(target, resolved_folder(existing, comps[0])),
            join(comps.skip(1), "/"@),
        )
    }
}

/// Quarantine destination of a file whose content is unreadable.
pub open spec fn error_destination_spec(target: Seq<char>, original: Seq<char>, source_root: Seq<char>) -> Seq<char> {
    path_join(path_join(target, "_errors"@), relative_to_source_spec(original, source_root))
}

/// A destination under `target` moved under `target/_review/`.
pub open spec fn review_destination(target: Seq<char>, dest: Seq<char>) -> Seq<char> {
    match path_strip_prefix(dest, target) {
        Some(rel) => path_join(path_join(target, "_review"@), rel),
        None => dest,
    }
}

fn relative_to_source(original_path: &str, source_root: &str) -> (res: String)
    ensures
        res@ == relative_to_source_spec(original_path@, source_root@),
{
    match strip_prefix(original_path, source_root) {
        Some(r) => r,
        None => match file_name(original_path) {
            Some(n) => n,
            None => string_of(chars_of("unknown").as_slice()),
        },
    }
}

/// Looks for an existing folder whose name matches `proposed` ignoring case
/// and returns its exact name; otherwise returns `proposed`. `existing` holds
/// the names found in the target directory.
pub fn resolve_existing_folder(existing: &Vec<String>, proposed: &str) -> (res: String)
    ensures
        res@ == resolved_folder(string_views(existing@), proposed@),
{
    let wanted = lower_chars(chars_of(proposed).as_slice());
    let ghost names = string_views(existing@);
    let mut i: usize = 0;
    assert(names.skip(0) =~= names);
    while i < existing.len()
        invariant
            i <= existing@.len(),
            names == string_views(existing@),
            wanted@ == lowercase(proposed@),
            first_case_match(names, proposed@) == first_case_match(names.skip(i as int), proposed@),
        decreases existing@.len() - i,
    {
        let name = &existing[i];
        let low = lower_chars(chars_of(name.as_str()).as_slice());
        assert(names.skip(i as int)[0] == name@);
        if crate::text::chars_eq(low.as_slice(), wanted.as_slice()) {
            return name.clone();
        }
        assert(names.skip(i as int).drop_first() =~= names.skip(i + 1));
        i += 1;
    }
    string_of(chars_of(proposed).as_slice())
}

/// Destination path of an audio file for the naming `template`.
/// `source_root` is used to rebuild the relative structure under
/// `_unsorted/`; `existing_folders` lists the entries of `target`.
pub fn build_destination_path_with_template(
    target: &str,
    info: &TrackInfo,
    original_path: &str,
    source_root: &str,
    template: &str,
    existing_folders: &Vec<String>,
) -> (res: String)
    ensures
        res@ == destination(target@, info@, original_path@, source_root@, template@, string_views(existing_folders@)),
{
    let ext = match extension(original_path) {
        Some(e) => e,
        None => string_of(Vec::new().as_slice()),
    };
    if !info.has_minimum_for_organization() {
        let unsorted = join_path(target, "_unsorted");
        let rel = relative_to_source(original_path, source_root);
        proof { reveal_strlit("_unsorted"); }
        return join_path(unsorted.as_str(), rel.as_str());
    }
    let e = chars_of(ext.as_str());
    let comps = render_components(template, info, e.as_slice());
    let first = string_of(comps[0].as_slice());
    let resolved = resolve_existing_folder(existing_folders, first.as_str());
    let mut rest_parts: Vec<Vec<char>> = Vec::new();
    let mut i: usize = 1;
    while i < comps.len()
        invariant
            1 <= i <= comps@.len(),
            views(rest_parts@) == views(comps@).subrange(1, i as int),
        decreases comps@.len() - i,
    {
        let ghost before = views(rest_parts@);
        let piece = slice_chars(comps[i].as_slice(), 0, comps[i].len());
        assert(comps@[i as int]@.subrange(0, comps@[i as int]@.len() as int) =~= comps@[i as int]@);
        rest_parts.push(piece);
        assert(views(rest_parts@) =~= before.push(comps@[i as int]@));
        assert(views(rest_parts@) =~= views(comps@).subrange(1, i + 1));
        i += 1;
    }
    assert(views(comps@).subrange(1, comps@.len() as int) =~= views(comps@).skip(1));
    let slash = chars_of("/");
    let rest = string_of(join_exec(&rest_parts, slash.as_slice()).as_slice());
    let base = join_path(target, resolved.as_str());
    join_path(base.as_str(), rest.as_str())
}

/// Destination path of an audio file for the default template.
pub fn build_destination_path(
    target: &str,
    info: &TrackInfo,
    original_path: &str,
    source_root: &str,
    existing_folders: &Vec<String>,
) -> (res: String)
    ensures
        res@ == destination(target@, info@, original_path@, source_root@, DEFAULT_TEMPLATE@, string_views(existing_folders@)),
{
    build_destination_path_with_template(target, info, original_path, source_root, DEFAULT_TEMPLATE, existing_folders)
}

/// Quarantine destination for a file with a content error (unreadable, corrupt
/// tags): under `target/_errors/`, relative structure kept.
pub fn error_destination(target: &str, original_path: &str, source_root: &str) -> (res: String)
    ensures
        res@ == error_destination_spec(target@, original_path@, source_root@),
{
    let errors = join_path(target, "_errors");
    let rel = relative_to_source(original_path, source_root);
    join_path(errors.as_str(), rel.as_str())
}

/// Rebases a destination under `target/_review/` (quarantine for low
/// confidence matches); a destination outside `target` is returned unchanged.
pub fn redirect_to_review(target: &str, dest: &str) -> (res: String)
    ensures
        res@ == review_destination(target@, dest@),
{
    match strip_prefix(dest, target) {
        Some(rel) => {
            let review = join_path(target, "_review");
            join_path(review.as_str(), rel.as_str())
        },
        None => string_of(chars_of(dest).as_slice()),
    }
}

// ---------------------------------------------------------------------------
// Placing a file at its destination
// ---------------------------------------------------------------------------

/// Result of placing a file at its destination.
#[derive(Debug, Clone, Copy, PartialEq, Eq, Structural)]
pub enum CopyResult {
    Copied,
    Replaced { bitrate: u32 },
    Skipped { existing_bitrate: u32 },
}

/// What to do with a file and its destination.
#[derive(Debug, Clone, Copy, PartialEq, Eq, Structural)]
pub enum TransferPlan {
    /// Nothing to do on disk.
    LeaveAsIs { result: CopyResult },
    /// Copy (or move) the source to the free destination.
    Place,
    /// The source has the better bitrate: it replaces the destination.
    Replace { bitrate: u32 },
    /// Move mode, the destination is at least as good: only the source goes.
    DropSource { existing_bitrate: u32 },
}

/// The plan: nothing when source and destination are the same file; a free
/// destination receives the source; an occupied one is replaced only by a
/// strictly higher bitrate (an unreadable bitrate counts as 0). In move mode
/// the source is consumed in every case but the first.
pub open spec fn plan_spec(
    do_move: bool,
    same_file: bool,
    dest_exists: bool,
    src_bitrate: Option<u32>,
    dst_bitrate: Option<u32>,
) -> TransferPlan {
    let s = match src_bitrate { Some(b) => b, None => 0 };
    let d = match dst_bitrate { Some(b) => b, None => 0 };
    if same_file {
        TransferPlan::LeaveAsIs { result: CopyResult::Skipped { existing_bitrate: d } }
    } else if !dest_exists {
        TransferPlan::Place
    } else if s > d {
        TransferPlan::Replace { bitrate: s }
    } else if do_move {
        TransferPlan::DropSource { existing_bitrate: d }
    } else {
        TransferPlan::LeaveAsIs { result: CopyResult::Skipped { existing_bitrate: d } }
    }
}

/// What the plan reports once carried out.
pub open spec fn plan_result(plan: TransferPlan) -> CopyResult {
    match plan {
        TransferPlan::LeaveAsIs { result } => result,
        TransferPlan::Place => CopyResult::Copied,
        TransferPlan::Replace { bitrate } => CopyResult::Replaced { bitrate },
        TransferPlan::DropSource { existing_bitrate } => CopyResult::Skipped { existing_bitrate },
    }
}

/// Decides how a file is copied (or moved, with `do_move`) to `destination`,
/// given what the disk shows: whether both are the same file, whether the
/// destination exists, and the bitrates read from both (`None` if unreadable).
pub fn plan_transfer(
    do_move: bool,
    same_file: bool,
    dest_exists: bool,
    src_bitrate: Option<u32>,
    dst_bitrate: Option<u32>,
) -> (res: TransferPlan)
    ensures
        res == plan_spec(do_move, same_file, dest_exists, src_bitrate, dst_bitrate),
{
    let s = match src_bitrate { Some(b) => b, None => 0 };
    let d = match dst_bitrate { Some(b) => b, None => 0 };
    if same_file {
        TransferPlan::LeaveAsIs { result: CopyResult::Skipped { existing_bitrate: d } }
    } else if !dest_exists {
        TransferPlan::Place
    } else if s > d {
        TransferPlan::Replace { bitrate: s }
    } else if do_move {
        TransferPlan::DropSource { existing_bitrate: d }
    } else {
        TransferPlan::LeaveAsIs { result: CopyResult::Skipped { existing_bitrate: d } }
    }
}

impl TransferPlan {
    /// The result reported once the plan is carried out.
    pub fn result(&self) -> (res: CopyResult)
        ensures
            res == plan_result(*self),
    {
        match *self {
            TransferPlan::LeaveAsIs { result } => result,
            TransferPlan::Place => CopyResult::Copied,
            TransferPlan::Replace { bitrate } => CopyResult::Replaced { bitrate },
            TransferPlan::DropSource { existing_bitrate } => CopyResult::Skipped { existing_bitrate },
        }
    }
}

/// A file placed on itself is never touched; in move mode any other plan
/// consumes the source; a replacement only happens for a strictly better
/// bitrate; in copy mode the source is never removed.
pub proof fn law_transfer_safety(
    do_move: bool,
    same_file: bool,
    dest_exists: bool,
    src_bitrate: Option<u32>,
    dst_bitrate: Option<u32>,
)
    ensures
        same_file ==> plan_spec(do_move, same_file, dest_exists, src_bitrate, dst_bitrate) is LeaveAsIs,
        do_move && !same_file ==> !(plan_spec(do_move, same_file, dest_exists, src_bitrate, dst_bitrate) is LeaveAsIs),
        !do_move ==> !(plan_spec(do_move, same_file, dest_exists, src_bitrate, dst_bitrate) is DropSource),
        plan_spec(do_move, same_file, dest_exists, src_bitrate, dst_bitrate) matches TransferPlan::Replace { bitrate }
            ==> dest_exists && bitrate > (match dst_bitrate { Some(b) => b, None => 0u32 }),
{
}

} // verus!
