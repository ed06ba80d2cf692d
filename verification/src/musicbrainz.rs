//! MusicBrainz answers: choice of the best release of a recording and
//! extraction of the track metadata. The JSON documents are read into the
//! plain records below by the caller.

use vstd::prelude::*;
use crate::models::{TrackInfo, TrackInfoView, opt_text};
use crate::text::{
    chars_of, concat_chars, concat_str, eq_lit, lower_chars, lowercase, parse_unsigned, parse_unsigned_exec,
    slice_chars, string_of,
};

verus! {

/// A release of a recording, as listed by MusicBrainz.
#[derive(Debug, Clone)]
pub struct MbRelease {
    pub id: Option<String>,
    pub title: Option<String>,
    pub date: Option<String>,
    /// `release-group.primary-type`.
    pub primary_type: Option<String>,
    /// `release-group.secondary-types`, when it is an array; an element that is
    /// not a string is `None`.
    pub secondary_types: Option<Vec<Option<String>>>,
    pub status: Option<String>,
    /// `media[0].track-offset`.
    pub track_offset: Option<u64>,
    /// `media[0].track-count`.
    pub track_count: Option<u64>,
}

/// A recording: the answer of a lookup by id, or one hit of a text search.
#[derive(Debug, Clone)]
pub struct MbRecording {
    pub title: Option<String>,
    /// `artist-credit[0].name`.
    pub artist: Option<String>,
    /// `genres[0].name`.
    pub genre: Option<String>,
    /// Search score (text search only).
    pub score: Option<u64>,
    /// `releases`, when it is an array.
    pub releases: Option<Vec<MbRelease>>,
}

pub open spec fn text_or_empty(o: Option<String>) -> Seq<char> {
    match o {
        Some(s) => s@,
        None => Seq::empty(),
    }
}

pub open spec fn secondary_penalty(st: Option<String>) -> int {
    let s = text_or_empty(st);
    if s == "Compilation"@ {
        -20
    } else if s == "Live"@ {
        -20
    } else if s == "DJ-mix"@ {
        -15
    } else if s == "Remix"@ {
        -10
    } else {
        0
    }
}

pub open spec fn penalties(sts: Seq<Option<String>>) -> int
    decreases sts.len(),
{
    if sts.len() == 0 { 0 } else { penalties(sts.drop_last()) + secondary_penalty(sts.last()) }
}

/// Score of a release: the album already in the tags first, then official
/// albums over EPs over singles; compilations, lives, DJ mixes and remixes are
/// penalised; official status and a known date give a small bonus.
pub open spec fn score_spec(r: MbRelease, existing: Option<Seq<char>>) -> int {
    let matches_existing = match (existing, r.title) {
        (Some(e), Some(t)) => lowercase(t@) == lowercase(e),
        _ => false,
    };
    let p = text_or_empty(r.primary_type);
    (if matches_existing { 100int } else { 0int })
    + (if p == "Album"@ { 10int } else if p == "EP"@ { 5int } else if p == "Single"@ { 2int } else { 0int })
    + (match r.secondary_types { Some(v) => penalties(v@), None => 0int })
    + (if p == "Compilation"@ || p == "Broadcast"@ { -20int } else { 0int })
    + (if opt_text(r.status) == Some("Official"@) { 3int } else { 0int })
    + (if r.date is Some { 1int } else { 0int })
}

/// The lowest value the running score takes while it is computed: before
/// the official and date bonuses are added.
pub open spec fn score_low_point(r: MbRelease, existing: Option<Seq<char>>) -> int {
    score_spec(r, existing) - (if opt_text(r.status) == Some("Official"@) { 3int } else { 0int })
        - (if r.date is Some { 1int } else { 0int })
}

/// The running score of a release stays within `i32`.
pub open spec fn score_fits(r: MbRelease, existing: Option<Seq<char>>) -> bool {
    score_low_point(r, existing) >= i32::MIN
}

/// Releases whose scores stay within `i32` while they are computed.
pub open spec fn releases_ok(rs: Seq<MbRelease>, existing: Option<Seq<char>>) -> bool {
    forall|i: int| 0 <= i < rs.len() ==> score_fits(#[trigger] rs[i], existing)
}

/// A matching album title only raises the score.
pub proof fn lemma_fits_without_album(rs: Seq<MbRelease>, existing: Option<Seq<char>>)
    requires
        releases_ok(rs, None),
    ensures
        releases_ok(rs, existing),
{
    assert forall|i: int| 0 <= i < rs.len() implies score_fits(#[trigger] rs[i], existing) by {
        assert(score_fits(rs[i], None));
    }
}

/// The penalties of a prefix are at least those of the whole list.
proof fn lemma_penalties_prefix(sts: Seq<Option<String>>, k: int)
    requires
        0 <= k <= sts.len(),
    ensures
        penalties(sts.take(k)) >= penalties(sts),
    decreases sts.len() - k,
{
    if k < sts.len() {
        assert(sts.take(k + 1).drop_last() =~= sts.take(k));
        lemma_penalties_prefix(sts, k + 1);
    } else {
        assert(sts.take(k) =~= sts);
    }
}

pub proof fn lemma_penalties_bounds(sts: Seq<Option<String>>)
    ensures
        -20 * sts.len() <= penalties(sts) <= 0,
    decreases sts.len(),
{
    if sts.len() > 0 {
        lemma_penalties_bounds(sts.drop_last());
    }
}

fn opt_eq_lit(o: &Option<String>, lit: &str) -> (res: bool)
    ensures
        res == (text_or_empty(*o) == lit@),
{
    match o {
        Some(s) => eq_lit(chars_of(s.as_str()).as_slice(), lit),
        None => eq_lit(Vec::new().as_slice(), lit),
    }
}

/// The part of the score given by the album title and the primary type.
fn score_base(release: &MbRelease, existing_album: Option<&str>) -> (res: i32)
    ensures
        res as int == score_spec(*release, crate::retry::opt_str_view(existing_album))
            - (match release.secondary_types { Some(v) => penalties(v@), None => 0int })
            - (if text_or_empty(release.primary_type) == "Compilation"@
                || text_or_empty(release.primary_type) == "Broadcast"@ { -20int } else { 0int })
            - (if opt_text(release.status) == Some("Official"@) { 3int } else { 0int })
            - (if release.date is Some { 1int } else { 0int }),
        0 <= res <= 110,
{
    let mut score: i32 = 0;
    let mut matched = false;
    if let Some(existing) = existing_album {
        if let Some(title) = &release.title {
            let a = lower_chars(chars_of(title.as_str()).as_slice());
            let b = lower_chars(chars_of(existing).as_slice());
            if crate::text::chars_eq(a.as_slice(), b.as_slice()) {
                matched = true;
            }
        }
    }
    if matched {
        score = score + 100;
    }
    let album = opt_eq_lit(&release.primary_type, "Album");
    let ep = opt_eq_lit(&release.primary_type, "EP");
    let single = opt_eq_lit(&release.primary_type, "Single");
    if album {
        score = score + 10;
    } else if ep {
        score = score + 5;
    } else if single {
        score = score + 2;
    }
    score
}

fn secondary_penalty_exec(st: &Option<String>) -> (res: i32)
    ensures
        res as int == secondary_penalty(*st),
{
    if opt_eq_lit(st, "Compilation") {
        -20
    } else if opt_eq_lit(st, "Live") {
        -20
    } else if opt_eq_lit(st, "DJ-mix") {
        -15
    } else if opt_eq_lit(st, "Remix") {
        -10
    } else {
        0
    }
}

fn is_compilation_type(release: &MbRelease) -> (res: bool)
    ensures
        res == (text_or_empty(release.primary_type) == "Compilation"@
            || text_or_empty(release.primary_type) == "Broadcast"@),
{
    opt_eq_lit(&release.primary_type, "Compilation") || opt_eq_lit(&release.primary_type, "Broadcast")
}

/// Score of a release (see [`score_spec`]). The running score is an `i32`;
/// `requires` leaves out the releases with so many penalties that it would
/// overflow.
pub fn score_release(release: &MbRelease, existing_album: Option<&str>) -> (res: i32)
    requires
        score_fits(*release, crate::retry::opt_str_view(existing_album)),
    ensures
        res as int == score_spec(*release, crate::retry::opt_str_view(existing_album)),
{
    let mut score: i32 = score_base(release, existing_album);
    let ghost base = score as int;
    let comp = is_compilation_type(release);
    let ghost pen = if release.secondary_types is Some { penalties(release.secondary_types->0@) } else { 0int };
    proof { reveal_strlit("Official"); }
    assert(base + pen >= i32::MIN);
    if let Some(secondary) = &release.secondary_types {
        let mut k: usize = 0;
        while k < secondary.len()
            invariant
                k <= secondary@.len(),
                score as int == base + penalties(secondary@.take(k as int)),
                0 <= base <= 110,
                score <= 110,
                base + penalties(secondary@) >= i32::MIN,
            decreases secondary@.len() - k,
        {
            proof {
                assert(secondary@.take(k + 1).drop_last() =~= secondary@.take(k as int));
                lemma_penalties_prefix(secondary@, k + 1);
                lemma_penalties_bounds(secondary@.take(k as int));
                lemma_penalties_bounds(secondary@.take(k + 1));
            }
            let d = secondary_penalty_exec(&secondary[k]);
            score = score + d;
            k += 1;
        }
        assert(secondary@.take(secondary@.len() as int) =~= secondary@);
    }
    if comp {
        score = score - 20;
    }
    let official = match &release.status {
        Some(s) => eq_lit(chars_of(s.as_str()).as_slice(), "Official"),
        None => false,
    };
    if official {
        score = score + 3;
    }
    if release.date.is_some() {
        score = score + 1;
    }
    score
}

/// Whether the running score of a release stays within `i32` (see
/// [`score_fits`]).
pub fn release_scorable(release: &MbRelease, existing_album: Option<&str>) -> (res: bool)
    ensures
        res == score_fits(*release, crate::retry::opt_str_view(existing_album)),
{
    let base = score_base(release, existing_album);
    let mut low: i128 = base as i128;
    if let Some(secondary) = &release.secondary_types {
        let mut k: usize = 0;
        while k < secondary.len()
            invariant
                k <= secondary@.len(),
                low as int == base as int + penalties(secondary@.take(k as int)),
                0 <= base <= 110,
                -20 * k <= low <= 110,
            decreases secondary@.len() - k,
        {
            proof {
                assert(secondary@.take(k + 1).drop_last() =~= secondary@.take(k as int));
                lemma_penalties_bounds(secondary@.take(k as int));
                lemma_penalties_bounds(secondary@.take(k + 1));
            }
            let d = secondary_penalty_exec(&secondary[k]);
            low = low + d as i128;
            k += 1;
        }
        assert(secondary@.take(secondary@.len() as int) =~= secondary@);
    }
    assert(low >= -20 * (usize::MAX as int));
    if is_compilation_type(release) {
        low = low - 20;
    }
    proof { reveal_strlit("Official"); }
    low >= i32::MIN as i128
}

/// Whether the running scores of all releases stay within `i32` (see
/// [`releases_ok`]).
pub fn releases_scorable(releases: &Vec<MbRelease>, existing_album: Option<&str>) -> (res: bool)
    ensures
        res == releases_ok(releases@, crate::retry::opt_str_view(existing_album)),
{
    let mut i: usize = 0;
    while i < releases.len()
        invariant
            i <= releases@.len(),
            forall|j: int| 0 <= j < i ==> score_fits(#[trigger] releases@[j], crate::retry::opt_str_view(existing_album)),
        decreases releases@.len() - i,
    {
        if !release_scorable(&releases[i], existing_album) {
            return false;
        }
        i += 1;
    }
    true
}

/// Other things equal, an album scores above an EP, which scores above a
/// single, which scores above a release of no known type; a matching album
/// title adds exactly 100.
pub proof fn law_score_type_order(r: MbRelease, album: String, ep: String, single: String, existing: Option<Seq<char>>)
    requires
        album@ == "Album"@,
        ep@ == "EP"@,
        single@ == "Single"@,
    ensures
        score_spec(MbRelease { primary_type: Some(album), ..r }, existing)
            == score_spec(MbRelease { primary_type: Some(ep), ..r }, existing) + 5,
        score_spec(MbRelease { primary_type: Some(ep), ..r }, existing)
            == score_spec(MbRelease { primary_type: Some(single), ..r }, existing) + 3,
        score_spec(MbRelease { primary_type: Some(single), ..r }, existing)
            == score_spec(MbRelease { primary_type: None, ..r }, existing) + 2,
        (r.title matches Some(t) && existing matches Some(e) && lowercase(t@) == lowercase(e))
            ==> score_spec(r, existing) == score_spec(r, None) + 100,
{
    reveal_strlit("Album");
    reveal_strlit("EP");
    reveal_strlit("Single");
    reveal_strlit("Compilation");
    reveal_strlit("Broadcast");
    assert("Album"@.len() == 5 && "EP"@.len() == 2 && "Single"@.len() == 6);
    assert("Compilation"@.len() == 11 && "Broadcast"@.len() == 9);
    assert("Album"@ != "Single"@) by {
        assert("Album"@[0] != "Single"@[0]);
    }
}

/// Index of the largest score; among equal scores the last one
/// (`Iterator::max_by_key`).
pub open spec fn best_index(scores: Seq<int>) -> Option<int>
    decreases scores.len(),
{
    if scores.len() == 0 {
        None
    } else {
        match best_index(scores.drop_last()) {
            None => Some(scores.len() - 1),
            Some(b) => if scores.last() >= scores[b] { Some(scores.len() - 1) } else { Some(b) },
        }
    }
}

pub open spec fn release_scores(rs: Seq<MbRelease>, existing: Option<Seq<char>>) -> Seq<int> {
    Seq::new(rs.len(), |i: int| score_spec(rs[i], existing))
}

pub proof fn lemma_best_index(scores: Seq<int>)
    ensures
        scores.len() == 0 <==> best_index(scores) is None,
        best_index(scores) matches Some(b) ==> 0 <= b < scores.len()
            && (forall|i: int| 0 <= i < scores.len() ==> scores[i] <= scores[b])
            && (forall|i: int| b < i < scores.len() ==> scores[i] < scores[b]),
    decreases scores.len(),
{
    if scores.len() > 0 {
        let rest = scores.drop_last();
        lemma_best_index(rest);
        assert forall|i: int| 0 <= i < rest.len() implies rest[i] == scores[i] by {}
    }
}

/// The chosen release has the highest score, and no later release has it too.
pub proof fn law_best_release_is_maximal(rs: Seq<MbRelease>, existing: Option<Seq<char>>)
    ensures
        best_index(release_scores(rs, existing)) matches Some(b) ==> (forall|i: int|
            0 <= i < rs.len() ==> score_spec(rs[i], existing) <= score_spec(rs[b], existing)),
{
    lemma_best_index(release_scores(rs, existing));
    if let Some(b) = best_index(release_scores(rs, existing)) {
        assert forall|i: int| 0 <= i < rs.len() implies score_spec(rs[i], existing) <= score_spec(rs[b], existing) by {
            assert(release_scores(rs, existing)[i] == score_spec(rs[i], existing));
        }
    }
}

/// Picks the best release of a list, given the album already known.
pub fn pick_best_release(releases: &Vec<MbRelease>, existing_album: Option<&str>) -> (res: Option<usize>)
    requires
        releases_ok(releases@, crate::retry::opt_str_view(existing_album)),
    ensures
        res matches Some(i) ==> i < releases@.len(),
        res matches Some(i) ==> best_index(release_scores(releases@, crate::retry::opt_str_view(existing_album))) == Some(i as int),
        res is None ==> best_index(release_scores(releases@, crate::retry::opt_str_view(existing_album))) is None,
{
    let ghost e = crate::retry::opt_str_view(existing_album);
    let ghost scores = release_scores(releases@, e);
    let mut best: Option<usize> = None;
    let mut best_score: i32 = 0;
    let mut i: usize = 0;
    while i < releases.len()
        invariant
            i <= releases@.len(),
            releases_ok(releases@, e),
            scores == release_scores(releases@, e),
            e == crate::retry::opt_str_view(existing_album),
            match best {
                Some(b) => best_index(scores.take(i as int)) == Some(b as int) && best_score as int == scores[b as int] && b < i,
                None => best_index(scores.take(i as int)) is None,
            },
        decreases releases@.len() - i,
    {
        assert(scores.take(i + 1).drop_last() =~= scores.take(i as int));
        let r = &releases[i];
        assert(score_fits(releases@[i as int], e));
        let s = score_release(r, existing_album);
        assert(scores[i as int] == s as int);
        match best {
            None => {
                best = Some(i);
                best_score = s;
            },
            Some(b) => {
                assert(scores.take(i as int)[b as int] == scores[b as int]);
                if s >= best_score {
                    best = Some(i);
                    best_score = s;
                }
            },
        }
        i += 1;
    }
    assert(scores.take(releases@.len() as int) =~= scores);
    best
}

/// Year read from the first four characters of a date.
pub open spec fn year_of_date(date: Option<String>) -> Option<u32> {
    match date {
        Some(d) => if d@.len() >= 4 {
            match parse_unsigned(d@.take(4), u32::MAX as nat) {
                Some(y) => Some(y as u32),
                None => None,
            }
        } else {
            None
        },
        None => None,
    }
}

/// Track metadata from a release and the recording's title, artist and genre.
pub open spec fn release_info(r: MbRelease, title: Option<Seq<char>>, artist: Option<Seq<char>>, genre: Option<Seq<char>>) -> TrackInfoView {
    TrackInfoView {
        artist,
        album: opt_text(r.title),
        title,
        year: year_of_date(r.date),
        track_number: match r.track_offset {
            Some(n) => Some(vstd::wrapping::u32_specs::wrapping_add(n as u32, 1)),
            None => None,
        },
        total_tracks: match r.track_count {
            Some(n) => Some(n as u32),
            None => None,
        },
        genre,
        cover_art: None,
    }
}

fn year_from_date(date: &Option<String>) -> (res: Option<u32>)
    ensures
        res == year_of_date(*date),
{
    match date {
        Some(d) => {
            let v = chars_of(d.as_str());
            if v.len() >= 4 {
                let head = slice_chars(v.as_slice(), 0, 4);
                assert(head@ =~= d@.take(4));
                match parse_unsigned_exec(head.as_slice(), 4294967295u64) {
                    Some(y) => Some(y as u32),
                    None => None,
                }
            } else {
                None
            }
        },
        None => None,
    }
}

/// Builds a partial [`TrackInfo`] from a release: album, year (first four
/// characters of the date), track number (`track-offset` + 1, wrapping) and
/// track count.
pub fn extract_from_release(
    release: &MbRelease,
    title: Option<String>,
    artist: Option<String>,
    genre: Option<String>,
) -> (res: TrackInfo)
    ensures
        res@ == release_info(*release, opt_text(title), opt_text(artist), opt_text(genre)),
{
    let track_number = match release.track_offset {
        Some(n) => Some((n as u32).wrapping_add(1)),
        None => None,
    };
    let total_tracks = match release.track_count {
        Some(n) => Some(n as u32),
        None => None,
    };
    TrackInfo {
        artist,
        album: crate::models::copy_opt_string(&release.title),
        title,
        year: year_from_date(&release.date),
        track_number,
        total_tracks,
        genre,
        cover_art: None,
    }
}

/// What a lookup by recording id gives: `None` without releases, else the
/// metadata of the best release.
pub open spec fn recording_info(rec: MbRecording, existing: Option<Seq<char>>) -> Option<TrackInfoView> {
    match rec.releases {
        None => None,
        Some(rs) => match best_index(release_scores(rs@, existing)) {
            None => None,
            Some(b) => Some(release_info(rs@[b], opt_text(rec.title), opt_text(rec.artist), opt_text(rec.genre))),
        },
    }
}

pub open spec fn opt_info_view(o: Option<TrackInfo>) -> Option<TrackInfoView> {
    match o {
        Some(i) => Some(i@),
        None => None,
    }
}

/// Parses the answer of a lookup by recording id; `existing_album` favours the
/// release matching the album already in the tags.
pub fn parse_recording_response(recording: &MbRecording, existing_album: Option<&str>) -> (res: Option<TrackInfo>)
    requires
        recording.releases matches Some(rs) ==> releases_ok(rs@, crate::retry::opt_str_view(existing_album)),
    ensures
        opt_info_view(res) == recording_info(*recording, crate::retry::opt_str_view(existing_album)),
{
    match &recording.releases {
        None => None,
        Some(releases) => match pick_best_release(releases, existing_album) {
            None => None,
            Some(b) => Some(extract_from_release(
                &releases[b],
                crate::models::copy_opt_string(&recording.title),
                crate::models::copy_opt_string(&recording.artist),
                crate::models::copy_opt_string(&recording.genre),
            )),
        },
    }
}

/// The id of the best release of a recording (no album preference).
pub fn extract_release_id(recording: &MbRecording) -> (res: Option<String>)
    requires
        recording.releases matches Some(rs) ==> releases_ok(rs@, None),
    ensures
        opt_text(res) == (match recording.releases {
            None => None,
            Some(rs) => match best_index(release_scores(rs@, None)) {
                None => None,
                Some(b) => opt_text(rs@[b].id),
            },
        }),
{
    match &recording.releases {
        None => None,
        Some(releases) => match pick_best_release(releases, None) {
            None => None,
            Some(b) => crate::models::copy_opt_string(&releases[b].id),
        },
    }
}

/// What a text search gives: the first hit, if its score is at least 80 and
/// it has releases, with the metadata and the id of its best release.
pub open spec fn search_info(recordings: Option<Seq<MbRecording>>, existing: Option<Seq<char>>) -> Option<(TrackInfoView, Seq<char>)> {
    match recordings {
        None => None,
        Some(recs) => if recs.len() == 0 {
            None
        } else {
            let first = recs[0];
            match first.score {
                None => None,
                Some(score) => if score < 80 {
                    None
                } else {
                    match first.releases {
                        None => None,
                        Some(rs) => match best_index(release_scores(rs@, existing)) {
                            None => None,
                            Some(b) => match opt_text(rs@[b].id) {
                                None => None,
                                Some(id) => Some((release_info(rs@[b], opt_text(first.title), opt_text(first.artist), None), id)),
                            },
                        },
                    }
                },
            }
        },
    }
}

/// A text search files the track under a release of the first hit whose
/// score, counting the 100 points of a title equal (ignoring case) to the
/// album already in the tags, is the highest of that hit's releases, and no
/// later release scores as much; the album and the release id come from
/// that release, the title and the artist from the hit. A first hit scored
/// below 80, or unscored, gives nothing.
pub proof fn law_text_search_picks_best_release(recordings: Seq<MbRecording>, existing: Option<Seq<char>>)
    ensures
        search_info(Some(recordings), existing) is Some ==> recordings.len() > 0
            && (recordings[0].score matches Some(sc) && sc >= 80),
        search_info(Some(recordings), existing) matches Some((info, _)) ==> info.title == opt_text(
            recordings[0].title) && info.artist == opt_text(recordings[0].artist),
        search_info(Some(recordings), existing) matches Some((info, id)) ==> ({
            let rs = recordings[0].releases->0@;
            exists|b: int| #![trigger rs[b]]
                0 <= b < rs.len()
                && opt_text(rs[b].id) == Some(id)
                && info.album == opt_text(rs[b].title)
                && (forall|i: int| 0 <= i < rs.len() ==> score_spec(#[trigger] rs[i], existing) <= score_spec(rs[b], existing))
                && (forall|i: int| b < i < rs.len() ==> score_spec(#[trigger] rs[i], existing) < score_spec(rs[b], existing))
        }),
{
    if let Some((info, id)) = search_info(Some(recordings), existing) {
        let rs = recordings[0].releases->0@;
        let scores = release_scores(rs, existing);
        lemma_best_index(scores);
        let b = best_index(scores)->0;
        assert forall|i: int| 0 <= i < rs.len() implies score_spec(#[trigger] rs[i], existing) <= score_spec(rs[b], existing) by {
            assert(scores[i] == score_spec(rs[i], existing));
        }
        assert forall|i: int| b < i < rs.len() implies score_spec(#[trigger] rs[i], existing) < score_spec(rs[b], existing) by {
            assert(scores[i] == score_spec(rs[i], existing));
        }
        assert(opt_text(rs[b].id) == Some(id));
    }
}

pub open spec fn opt_pair_view(o: Option<(TrackInfo, String)>) -> Option<(TrackInfoView, Seq<char>)> {
    match o {
        Some((i, s)) => Some((i@, s@)),
        None => None,
    }
}

pub open spec fn opt_vec_view<T>(o: Option<Vec<T>>) -> Option<Seq<T>> {
    match o {
        Some(v) => Some(v@),
        None => None,
    }
}

/// The releases of a text search's first hit, when it is scored (score of at
/// least 80), keep their running scores within `i32`.
pub open spec fn search_scorable(recordings: Option<Vec<MbRecording>>, existing: Option<Seq<char>>) -> bool {
    match recordings {
        Some(recs) => recs@.len() > 0 ==> match (recs@[0].score, recs@[0].releases) {
            (Some(sc), Some(rs)) => sc >= 80 ==> releases_ok(rs@, existing),
            _ => true,
        },
        None => true,
    }
}

/// Parses the answer of a text search (see [`search_info`]); `recordings` is
/// `None` when the answer has no `recordings` array.
pub fn parse_search_response(recordings: &Option<Vec<MbRecording>>, existing_album: Option<&str>) -> (res: Option<(TrackInfo, String)>)
    requires
        search_scorable(*recordings, crate::retry::opt_str_view(existing_album)),
    ensures
        opt_pair_view(res) == search_info(opt_vec_view(*recordings), crate::retry::opt_str_view(existing_album)),
{
    let recs = match recordings {
        Some(r) => r,
        None => return None,
    };
    if recs.len() == 0 {
        return None;
    }
    let first = &recs[0];
    let score = match first.score {
        Some(s) => s,
        None => return None,
    };
    if score < 80 {
        return None;
    }
    let releases = match &first.releases {
        Some(r) => r,
        None => return None,
    };
    let b = match pick_best_release(releases, existing_album) {
        Some(b) => b,
        None => return None,
    };
    let release = &releases[b];
    let id = match &release.id {
        Some(id) => id.clone(),
        None => return None,
    };
    let info = extract_from_release(
        release,
        crate::models::copy_opt_string(&first.title),
        crate::models::copy_opt_string(&first.artist),
        None,
    );
    Some((info, id))
}

// ---------------------------------------------------------------------------
// Queries
// ---------------------------------------------------------------------------

pub open spec fn encode_char(c: char) -> Seq<char> {
    if c == ' ' { "%20"@ } else if c == '"' { "%22"@ } else if c == ':' { "%3A"@ } else { seq![c] }
}

/// Spaces, double quotes and colons percent-encoded.
pub open spec fn url_encoded(s: Seq<char>) -> Seq<char>
    decreases s.len(),
{
    if s.len() == 0 { Seq::empty() } else { url_encoded(s.drop_last()) + encode_char(s.last()) }
}

/// Encodes a query for a URL by escaping spaces, double quotes and colons.
pub fn url_encode(s: &str) -> (res: String)
    ensures
        res@ == url_encoded(s@),
{
    let v = chars_of(s);
    let mut out: Vec<char> = Vec::new();
    let mut i: usize = 0;
    while i < v.len()
        invariant
            i <= v@.len(),
            out@ == url_encoded(v@.take(i as int)),
        decreases v@.len() - i,
    {
        assert(v@.take(i + 1).drop_last() =~= v@.take(i as int));
        let c = v[i];
        let piece = if c == ' ' {
            chars_of("%20")
        } else if c == '"' {
            chars_of("%22")
        } else if c == ':' {
            chars_of("%3A")
        } else {
            let mut p: Vec<char> = Vec::new();
            p.push(c);
            assert(p@ =~= seq![c]);
            p
        };
        out = concat_chars(out.as_slice(), piece.as_slice());
        i += 1;
    }
    assert(v@.take(v@.len() as int) =~= v@);
    string_of(out.as_slice())
}

/// URL of a text search for a recording by artist and title.
pub fn search_url(artist: &str, title: &str) -> (res: String)
    ensures
        res@ == "https://musicbrainz.org/ws/2/recording/?query="@ + url_encoded(
            "artist:\""@ + artist@ + "\" AND recording:\""@ + title@ + "\""@,
        ) + "&fmt=json&limit=5"@,
{
    let q1 = concat_str("artist:\"", artist);
    let q2 = concat_str(q1.as_str(), "\" AND recording:\"");
    let q3 = concat_str(q2.as_str(), title);
    let q = concat_str(q3.as_str(), "\"");
    let enc = url_encode(q.as_str());
    let u = concat_str("https://musicbrainz.org/ws/2/recording/?query=", enc.as_str());
    concat_str(u.as_str(), "&fmt=json&limit=5")
}

/// URL of a lookup of a recording by its MusicBrainz id.
pub fn lookup_url(recording_id: &str) -> (res: String)
    ensures
        res@ == "https://musicbrainz.org/ws/2/recording/"@ + recording_id@
            + "?inc=releases+artists+genres+release-groups&fmt=json"@,
{
    let u = concat_str("https://musicbrainz.org/ws/2/recording/", recording_id);
    concat_str(u.as_str(), "?inc=releases+artists+genres+release-groups&fmt=json")
}


// ---------------------------------------------------------------------------
// Answers
// ---------------------------------------------------------------------------

pub open spec fn opt_lookup_view(o: Option<(TrackInfo, Option<String>)>) -> Option<(TrackInfoView, Option<Seq<char>>)> {
    match o {
        Some((i, r)) => Some((i@, opt_text(r))),
        None => None,
    }
}

/// The metadata of the best release for the album already known, and the id
/// of the best release overall.
pub open spec fn lookup_spec(recording: MbRecording, existing: Option<Seq<char>>) -> Option<(TrackInfoView, Option<Seq<char>>)> {
    match recording_info(recording, existing) {
        Some(info) => Some((info, match recording.releases {
            None => None,
            Some(rs) => match best_index(release_scores(rs@, None)) {
                None => None,
                Some(b) => opt_text(rs@[b].id),
            },
        })),
        None => None,
    }
}

pub open spec fn recording_scorable(recording: MbRecording) -> bool {
    recording.releases matches Some(rs) ==> releases_ok(rs@, None)
}

/// What a lookup by recording id gives: nothing unless the HTTP status was a
/// success; then the metadata of the best release for the album already
/// known, and the id of the best release overall.
pub fn recording_lookup_outcome(success: bool, recording: &MbRecording, existing_album: Option<&str>) -> (res: Option<(TrackInfo, Option<String>)>)
    requires
        success ==> (recording.releases matches Some(rs) ==> releases_ok(rs@, None)),
    ensures
        opt_lookup_view(res) == (if !success {
            None
        } else {
            lookup_spec(*recording, crate::retry::opt_str_view(existing_album))
        }),
{
    if !success {
        return None;
    }
    proof {
        if recording.releases is Some {
            lemma_fits_without_album(recording.releases->0@, crate::retry::opt_str_view(existing_album));
        }
    }
    let release_id = extract_release_id(recording);
    match parse_recording_response(recording, existing_album) {
        Some(info) => Some((info, release_id)),
        None => None,
    }
}

/// What a text search gives: nothing unless the HTTP status was a success;
/// then the answer read by [`parse_search_response`].
pub fn text_search_outcome(success: bool, recordings: &Option<Vec<MbRecording>>, existing_album: Option<&str>) -> (res: Option<(TrackInfo, String)>)
    requires
        success ==> search_scorable(*recordings, crate::retry::opt_str_view(existing_album)),
    ensures
        opt_pair_view(res) == (if success {
            search_info(opt_vec_view(*recordings), crate::retry::opt_str_view(existing_album))
        } else {
            None
        }),
{
    if !success {
        return None;
    }
    parse_search_response(recordings, existing_album)
}

/// What a lookup by recording id gives, for any answer: nothing unless the
/// HTTP status was a success and the releases can be scored within `i32`;
/// then as [`recording_lookup_outcome`].
pub fn checked_recording_lookup(success: bool, recording: &MbRecording, existing_album: Option<&str>) -> (res: Option<(TrackInfo, Option<String>)>)
    ensures
        opt_lookup_view(res) == (if success && recording_scorable(*recording) {
            lookup_spec(*recording, crate::retry::opt_str_view(existing_album))
        } else {
            None
        }),
{
    if !success {
        return None;
    }
    if let Some(releases) = &recording.releases {
        if !releases_scorable(releases, None) {
            return None;
        }
    }
    recording_lookup_outcome(true, recording, existing_album)
}

/// What a text search gives, for any answer: nothing unless the HTTP status
/// was a success and the scored releases stay within `i32`; then as
/// [`text_search_outcome`].
pub fn checked_text_search(success: bool, recordings: &Option<Vec<MbRecording>>, existing_album: Option<&str>) -> (res: Option<(TrackInfo, String)>)
    ensures
        opt_pair_view(res) == (if success && search_scorable(*recordings, crate::retry::opt_str_view(existing_album)) {
            search_info(opt_vec_view(*recordings), crate::retry::opt_str_view(existing_album))
        } else {
            None
        }),
{
    if !success {
        return None;
    }
    if let Some(recs) = recordings {
        if recs.len() > 0 {
            let first = &recs[0];
            if let (Some(sc), Some(rs)) = (first.score, &first.releases) {
                if sc >= 80 && !releases_scorable(rs, existing_album) {
                    return None;
                }
            }
        }
    }
    text_search_outcome(true, recordings, existing_album)
}

} // verus!
