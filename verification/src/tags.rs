//! Heuristics that recover metadata from file and folder names, and the
//! choice of the tag fields written back into a file.

use vstd::prelude::*;
use crate::models::{TrackInfo, TrackInfoView, opt_text};
use crate::paths::{file_name, file_stem, parent, path_file_name, path_file_stem, path_parent};
use crate::text::{
    chars_of, drop_leading, find_sub, find_sub_exec, is_digit, is_digit_exec, parse_unsigned,
    parse_unsigned_exec, slice_chars, splitn_on, splitn_on_exec, string_of, trim, trim_chars,
    trim_start, trim_start_chars, views, is_trimmed,
};

verus! {

// ---------------------------------------------------------------------------
// File names
// ---------------------------------------------------------------------------

/// Number of leading ASCII digits of `t`, at most three.
pub open spec fn lead_digits(t: Seq<char>) -> nat {
    if t.len() > 0 && is_digit(t[0]) {
        if t.len() > 1 && is_digit(t[1]) {
            if t.len() > 2 && is_digit(t[2]) { 3 } else { 2 }
        } else {
            1
        }
    } else {
        0
    }
}

pub open spec fn is_number_separator(c: char) -> bool {
    c == '.' || c == '-' || c == ' ' || c == '_'
}

pub open spec fn number_separator_pred() -> spec_fn(char) -> bool {
    |c: char| is_number_separator(c)
}

/// `s` without a track-number prefix such as "01 - ", "00- ", "1." or "12 ":
/// up to three digits followed by at least one of `.`, `-`, space, `_`, with
/// something left after them; otherwise `s` itself.
pub open spec fn without_track_prefix(s: Seq<char>) -> Seq<char> {
    let t = trim_start(s);
    let k = lead_digits(t);
    if k == 0 {
        s
    } else {
        let rest = t.skip(k as int);
        let after = drop_leading(rest, number_separator_pred());
        if after.len() < rest.len() && after.len() > 0 { after } else { s }
    }
}

/// Artist and title read from a file stem: after the track-number prefix,
/// the text is split at the first " - "; without a usable split the whole
/// text is the title.
pub open spec fn artist_title_spec(stem: Seq<char>) -> (Option<Seq<char>>, Option<Seq<char>>) {
    let cleaned = trim(without_track_prefix(stem));
    if cleaned.len() == 0 {
        (None, None)
    } else {
        match find_sub(cleaned, " - "@) {
            Some(idx) => {
                let a = trim(cleaned.take(idx));
                let t = trim(cleaned.skip(idx + 3));
                if a.len() > 0 && t.len() > 0 {
                    (Some(a), Some(t))
                } else {
                    (None, Some(cleaned))
                }
            },
            None => (None, Some(cleaned)),
        }
    }
}

fn is_number_separator_exec(c: char) -> (res: bool)
    ensures
        res == is_number_separator(c),
{
    c == '.' || c == '-' || c == ' ' || c == '_'
}

/// Strips a track-number prefix ("01 - ", "00- ", "1.", "12 ", ...); returns
/// the input when there is no recognisable prefix.
pub fn strip_track_prefix(s: &[char]) -> (res: Vec<char>)
    ensures
        res@ == without_track_prefix(s@),
{
    let t = trim_start_chars(s);
    let mut k: usize = 0;
    while k < 3 && k < t.len() && is_digit_exec(t[k])
        invariant
            k <= 3,
            k <= t@.len(),
            forall|j: int| 0 <= j < k ==> is_digit(#[trigger] t@[j]),
        decreases 3 - k,
    {
        k += 1;
    }
    assert(k == lead_digits(t@));
    if k == 0 {
        return slice_chars(s, 0, s.len());
    }
    let n = t.len();
    let rest = slice_chars(t.as_slice(), k, n);
    assert(rest@ =~= t@.skip(k as int));
    let mut b: usize = 0;
    assert(rest@.skip(0) =~= rest@);
    while b < rest.len() && is_number_separator_exec(rest[b])
        invariant
            b <= rest@.len(),
            drop_leading(rest@, number_separator_pred()) == drop_leading(
                rest@.skip(b as int),
                number_separator_pred(),
            ),
        decreases rest@.len() - b,
    {
        assert(rest@.skip(b as int).drop_first() =~= rest@.skip(b + 1));
        b += 1;
    }
    let after = slice_chars(rest.as_slice(), b, rest.len());
    assert(after@ =~= rest@.skip(b as int));
    if after.len() < rest.len() && after.len() > 0 {
        after
    } else {
        assert(s@.subrange(0, s@.len() as int) =~= s@);
        slice_chars(s, 0, s.len())
    }
}

/// Artist and title recovered from a file stem (see [`artist_title_spec`]).
pub fn artist_title_from_stem(stem: &str) -> (res: (Option<String>, Option<String>))
    ensures
        (opt_text(res.0), opt_text(res.1)) == artist_title_spec(stem@),
{
    let v = chars_of(stem);
    let stripped = strip_track_prefix(v.as_slice());
    let cleaned = trim_chars(stripped.as_slice());
    if cleaned.len() == 0 {
        return (None, None);
    }
    let sep = chars_of(" - ");
    proof { reveal_strlit(" - "); }
    if let Some(idx) = find_sub_exec(cleaned.as_slice(), sep.as_slice()) {
        let n = cleaned.len();
        let head = slice_chars(cleaned.as_slice(), 0, idx);
        let tail = slice_chars(cleaned.as_slice(), idx + 3, n);
        assert(head@ =~= cleaned@.take(idx as int));
        assert(tail@ =~= cleaned@.skip(idx + 3));
        let a = trim_chars(head.as_slice());
        let t = trim_chars(tail.as_slice());
        if a.len() > 0 && t.len() > 0 {
            return (Some(string_of(a.as_slice())), Some(string_of(t.as_slice())));
        }
    }
    (None, Some(string_of(cleaned.as_slice())))
}

/// Heuristic for files without tags: artist and title from the file name.
/// A track-number prefix is dropped, then the name is split at the first
/// " - "; without a separator only a title is returned.
pub fn parse_artist_title_from_filename(path: &str) -> (res: (Option<String>, Option<String>))
    ensures
        (opt_text(res.0), opt_text(res.1)) == artist_title_spec(
            match path_file_stem(path@) { Some(s) => s, None => Seq::empty() },
        ),
{
    let stem = match file_stem(path) {
        Some(s) => s,
        None => string_of(Vec::new().as_slice()),
    };
    artist_title_from_stem(stem.as_str())
}

// ---------------------------------------------------------------------------
// Folder names
// ---------------------------------------------------------------------------

/// Artist, year and album read from a folder name: "Artist - Year - Album"
/// (year between 1900 and 2100) or "Artist - Album"; nothing for technical
/// folders (leading `_` or `.`) or other names.
pub open spec fn folder_meta_spec(raw: Seq<char>) -> (Option<Seq<char>>, Option<u32>, Option<Seq<char>>) {
    let name = trim(raw);
    if name.len() == 0 || name[0] == '_' || name[0] == '.' {
        (None, None, None)
    } else {
        let triple = splitn_on(name, 3, " - "@);
        let y = if triple.len() == 3 { parse_unsigned(trim(triple[1]), u32::MAX as nat) } else { None };
        if triple.len() == 3 && y is Some && 1900 <= y->0 <= 2100 && trim(triple[0]).len() > 0
            && trim(triple[2]).len() > 0 {
            (Some(trim(triple[0])), Some(y->0 as u32), Some(trim(triple[2])))
        } else {
            let pair = splitn_on(name, 2, " - "@);
            if pair.len() == 2 && trim(pair[0]).len() > 0 && trim(pair[1]).len() > 0 {
                (Some(trim(pair[0])), None, Some(trim(pair[1])))
            } else {
                (None, None, None)
            }
        }
    }
}

/// Artist, year and album recovered from a folder name (see
/// [`folder_meta_spec`]).
pub fn folder_metadata_from_name(raw: &str) -> (res: (Option<String>, Option<u32>, Option<String>))
    ensures
        (opt_text(res.0), res.1, opt_text(res.2)) == folder_meta_spec(raw@),
{
    let name = trim_chars(chars_of(raw).as_slice());
    if name.len() == 0 || name[0] == '_' || name[0] == '.' {
        return (None, None, None);
    }
    let sep = chars_of(" - ");
    proof { reveal_strlit(" - "); }
    let triple = splitn_on_exec(name.as_slice(), 3, sep.as_slice());
    assert(views(triple@).len() == triple@.len());
    if triple.len() == 3 {
        assert(views(triple@)[1] == triple@[1]@);
        let ytext = trim_chars(triple[1].as_slice());
        if let Some(year) = parse_unsigned_exec(ytext.as_slice(), 4294967295u64) {
            if 1900 <= year && year <= 2100 {
                assert(views(triple@)[0] == triple@[0]@);
                assert(views(triple@)[2] == triple@[2]@);
                let artist = trim_chars(triple[0].as_slice());
                let album = trim_chars(triple[2].as_slice());
                if artist.len() > 0 && album.len() > 0 {
                    return (
                        Some(string_of(artist.as_slice())),
                        Some(year as u32),
                        Some(string_of(album.as_slice())),
                    );
                }
            }
        }
    }
    let pair = splitn_on_exec(name.as_slice(), 2, sep.as_slice());
    assert(views(pair@).len() == pair@.len());
    if pair.len() == 2 {
        assert(views(pair@)[0] == pair@[0]@);
        assert(views(pair@)[1] == pair@[1]@);
        let artist = trim_chars(pair[0].as_slice());
        let album = trim_chars(pair[1].as_slice());
        if artist.len() > 0 && album.len() > 0 {
            return (Some(string_of(artist.as_slice())), None, Some(string_of(album.as_slice())));
        }
    }
    (None, None, None)
}

/// `pat` occurs in `s` at index `j`.
pub open spec fn occurs_at(s: Seq<char>, pat: Seq<char>, j: int) -> bool {
    0 <= j && j + pat.len() <= s.len() && s.subrange(j, j + pat.len()) == pat
}

/// `find_sub` gives the first occurrence, and `None` exactly when there is
/// none.
proof fn lemma_find_sub_first(s: Seq<char>, pat: Seq<char>)
    requires
        pat.len() > 0,
    ensures
        find_sub(s, pat) matches Some(i) ==> occurs_at(s, pat, i)
            && forall|j: int| 0 <= j < i ==> !occurs_at(s, pat, j),
        find_sub(s, pat) is None ==> forall|j: int| !occurs_at(s, pat, j),
    decreases s.len(),
{
    if s.len() >= pat.len() {
        assert(s.take(pat.len() as int) =~= s.subrange(0, pat.len() as int));
        if s.take(pat.len() as int) != pat {
            let t = s.drop_first();
            lemma_find_sub_first(t, pat);
            assert forall|j: int| #[trigger] occurs_at(s, pat, j) && j >= 1 implies occurs_at(t, pat, j - 1) by {
                assert(s.subrange(j, j + pat.len()) =~= t.subrange(j - 1, j - 1 + pat.len()));
            }
            assert forall|j: int| #[trigger] occurs_at(t, pat, j) implies occurs_at(s, pat, j + 1) by {
                assert(s.subrange(j + 1, j + 1 + pat.len()) =~= t.subrange(j, j + pat.len()));
            }
            assert(!occurs_at(s, pat, 0));
        }
    }
}

/// A piece of `s` before the first occurrence of `pat`, or any stretch of
/// it, holds no occurrence.
proof fn lemma_no_occurrence_before(s: Seq<char>, pat: Seq<char>, i: int, a: int, b: int)
    requires
        pat.len() > 0,
        0 <= i <= s.len(),
        forall|j: int| 0 <= j < i ==> !occurs_at(s, pat, j),
        0 <= a <= b <= i,
    ensures
        find_sub(s.take(i).subrange(a, b), pat) is None,
{
    let u = s.take(i).subrange(a, b);
    lemma_find_sub_first(u, pat);
    if find_sub(u, pat) is Some {
        let j = find_sub(u, pat)->0;
        assert(u.subrange(j, j + pat.len()) =~= s.subrange(a + j, a + j + pat.len()));
        assert(occurs_at(s, pat, a + j));
    }
}

/// What a folder name gives: an artist exactly when an album; a year only
/// with them, between 1900 and 2100; artist and album non-empty and trimmed,
/// the artist without " - "; nothing for an empty name, a technical folder
/// (leading `_` or `.`) or a name without " - ".
pub proof fn law_folder_meta_shape(raw: Seq<char>)
    ensures
        folder_meta_spec(raw).0 is Some <==> folder_meta_spec(raw).2 is Some,
        folder_meta_spec(raw).1 matches Some(y) ==> folder_meta_spec(raw).0 is Some && 1900 <= y <= 2100,
        folder_meta_spec(raw).0 matches Some(a) ==> a.len() > 0 && is_trimmed(a) && find_sub(a, " - "@) is None,
        folder_meta_spec(raw).2 matches Some(al) ==> al.len() > 0 && is_trimmed(al),
        ({
            let name = trim(raw);
            (name.len() == 0 || name[0] == '_' || name[0] == '.' || find_sub(name, " - "@) is None)
                ==> folder_meta_spec(raw) == (None::<Seq<char>>, None::<u32>, None::<Seq<char>>)
        }),
{
    reveal_strlit(" - ");
    let sep = " - "@;
    let name = trim(raw);
    if !(name.len() == 0 || name[0] == '_' || name[0] == '.') {
        lemma_find_sub_first(name, sep);
        let triple = splitn_on(name, 3, sep);
        let pair = splitn_on(name, 2, sep);
        if let Some(i) = find_sub(name, sep) {
            assert(triple[0] == name.take(i));
            assert(pair[0] == name.take(i));
            crate::text::lemma_trim_subrange(name.take(i));
            let (a, b) = choose|a: int, b: int| 0 <= a <= b <= name.take(i).len()
                && trim(name.take(i)) == name.take(i).subrange(a, b);
            lemma_no_occurrence_before(name, sep, i, a, b);
            crate::text::lemma_trim_is_trimmed(name.take(i));
            if triple.len() == 3 {
                crate::text::lemma_trim_is_trimmed(triple[2]);
            }
            if pair.len() == 2 {
                crate::text::lemma_trim_is_trimmed(pair[1]);
            }
        }
    }
}

/// Name of the folder that holds `path`.
pub open spec fn parent_folder_name(path: Seq<char>) -> Option<Seq<char>> {
    match path_parent(path) {
        Some(p) => path_file_name(p),
        None => None,
    }
}

/// Heuristic: artist / year / album from the name of the file's parent
/// folder ("Artist - Year - Album" or "Artist - Album").
pub fn parse_folder_metadata(path: &str) -> (res: (Option<String>, Option<u32>, Option<String>))
    ensures
        (opt_text(res.0), res.1, opt_text(res.2)) == (match parent_folder_name(path@) {
            Some(n) => folder_meta_spec(n),
            None => (None, None, None),
        }),
{
    let name = match parent(path) {
        Some(p) => file_name(p.as_str()),
        None => None,
    };
    match name {
        Some(n) => folder_metadata_from_name(n.as_str()),
        None => (None, None, None),
    }
}

// ---------------------------------------------------------------------------
// Writing tags
// ---------------------------------------------------------------------------

/// Which fields a file's tag already holds.
#[derive(Debug, Clone, Copy, PartialEq, Eq, Structural)]
pub struct TagPresence {
    pub artist: bool,
    pub album: bool,
    pub title: bool,
    pub year: bool,
    pub track: bool,
    pub track_total: bool,
    pub genre: bool,
    pub pictures: bool,
}

pub open spec fn write_field<T>(present: bool, value: Option<T>, overwrite: bool) -> Option<T> {
    if value is Some && (overwrite || !present) { value } else { None }
}

/// The values to write into a tag: a field of `info` is written when the tag
/// lacks it, or for any field when `overwrite` is set; the cover art only when
/// the tag holds no picture.
pub open spec fn tag_update_spec(present: TagPresence, info: TrackInfoView, overwrite: bool) -> TrackInfoView {
    TrackInfoView {
        artist: write_field(present.artist, info.artist, overwrite),
        album: write_field(present.album, info.album, overwrite),
        title: write_field(present.title, info.title, overwrite),
        year: write_field(present.year, info.year, overwrite),
        track_number: write_field(present.track, info.track_number, overwrite),
        total_tracks: write_field(present.track_total, info.total_tracks, overwrite),
        genre: write_field(present.genre, info.genre, overwrite),
        cover_art: write_field(present.pictures, info.cover_art, false),
    }
}

fn pick_text(present: bool, value: &Option<String>, overwrite: bool) -> (res: Option<String>)
    ensures
        opt_text(res) == write_field(present, opt_text(*value), overwrite),
{
    if overwrite || !present {
        crate::models::copy_opt_string(value)
    } else {
        None
    }
}

fn pick_number(present: bool, value: Option<u32>, overwrite: bool) -> (res: Option<u32>)
    ensures
        res == write_field(present, value, overwrite),
{
    if overwrite || !present { value } else { None }
}

/// The fields to write into a tag (see [`tag_update_spec`]).
pub fn plan_tag_update(present: &TagPresence, info: &TrackInfo, overwrite: bool) -> (res: TrackInfo)
    ensures
        res@ == tag_update_spec(*present, info@, overwrite),
{
    TrackInfo {
        artist: pick_text(present.artist, &info.artist, overwrite),
        album: pick_text(present.album, &info.album, overwrite),
        title: pick_text(present.title, &info.title, overwrite),
        year: pick_number(present.year, info.year, overwrite),
        track_number: pick_number(present.track, info.track_number, overwrite),
        total_tracks: pick_number(present.track_total, info.total_tracks, overwrite),
        genre: pick_text(present.genre, &info.genre, overwrite),
        cover_art: if !present.pictures {
            crate::models::copy_opt_bytes(&info.cover_art)
        } else {
            None
        },
    }
}

/// Without `overwrite`, a field already in the tag is never written.
pub proof fn law_tag_update_keeps_existing(present: TagPresence, info: TrackInfoView)
    ensures
        present.artist ==> tag_update_spec(present, info, false).artist is None,
        present.album ==> tag_update_spec(present, info, false).album is None,
        present.title ==> tag_update_spec(present, info, false).title is None,
        present.year ==> tag_update_spec(present, info, false).year is None,
        present.track ==> tag_update_spec(present, info, false).track_number is None,
        present.track_total ==> tag_update_spec(present, info, false).total_tracks is None,
        present.genre ==> tag_update_spec(present, info, false).genre is None,
        present.pictures ==> tag_update_spec(present, info, true).cover_art is None,
{
}

/// What the tag lacks is filled in: a field missing from the tag gets the
/// value of `info`, with or without `overwrite`; with `overwrite` every field
/// but the cover gets it. The cover is embedded exactly when the tag holds
/// no picture, and then it is `info`'s cover.
pub proof fn law_tag_update_fills_missing(present: TagPresence, info: TrackInfoView, overwrite: bool)
    ensures
        !present.artist || overwrite ==> tag_update_spec(present, info, overwrite).artist == info.artist,
        !present.album || overwrite ==> tag_update_spec(present, info, overwrite).album == info.album,
        !present.title || overwrite ==> tag_update_spec(present, info, overwrite).title == info.title,
        !present.year || overwrite ==> tag_update_spec(present, info, overwrite).year == info.year,
        !present.track || overwrite ==> tag_update_spec(present, info, overwrite).track_number == info.track_number,
        !present.track_total || overwrite
            ==> tag_update_spec(present, info, overwrite).total_tracks == info.total_tracks,
        !present.genre || overwrite ==> tag_update_spec(present, info, overwrite).genre == info.genre,
        !present.pictures ==> tag_update_spec(present, info, overwrite).cover_art == info.cover_art,
        present.pictures ==> tag_update_spec(present, info, overwrite).cover_art is None,
{
}

/// Image format of an embedded cover.
#[derive(Debug, Clone, Copy, PartialEq, Eq, Structural)]
pub enum CoverMime {
    Jpeg,
    Png,
}

/// JPEG when the data starts with the JPEG marker `FF D8`, PNG otherwise.
pub fn cover_mime(data: &[u8]) -> (res: CoverMime)
    ensures
        res == (if data@.len() >= 2 && data@[0] == 0xFF && data@[1] == 0xD8 {
            CoverMime::Jpeg
        } else {
            CoverMime::Png
        }),
{
    if data.len() >= 2 && data[0] == 0xFF && data[1] == 0xD8 {
        CoverMime::Jpeg
    } else {
        CoverMime::Png
    }
}

} // verus!
