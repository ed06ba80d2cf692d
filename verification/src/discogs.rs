//! Discogs answers: the first hit of a release search and the details of a
//! release. The JSON documents are read into the plain records below by the
//! caller; the token travels in the `Authorization` header only.

use vstd::prelude::*;
use crate::cache_keys::{api_key, api_key_spec};
use crate::models::{TrackInfo, TrackInfoView, opt_text};
use crate::text::{
    chars_of, concat_str, eq_lit, find_sub, find_sub_exec, parse_unsigned, parse_unsigned_exec,
    slice_chars, string_of,
};

verus! {

/// A track of a Discogs tracklist.
#[derive(Debug, Clone)]
pub struct DiscogsTrack {
    pub position: String,
    pub title: String,
}

/// Full details of a Discogs release.
#[derive(Debug)]
pub struct ReleaseDetails {
    pub artist: Option<String>,
    pub album: Option<String>,
    pub year: Option<u32>,
    pub genre: Option<String>,
    pub tracks: Vec<DiscogsTrack>,
    pub cover_url: Option<String>,
}

/// One result of a release search.
#[derive(Debug, Clone)]
pub struct DiscogsSearchHit {
    /// `title`, written "Artist - Album".
    pub title: Option<String>,
    /// `year`, when it is a string.
    pub year_text: Option<String>,
    /// `year`, when it is an unsigned number.
    pub year_number: Option<u64>,
    /// `genre[0]`, when it is a string.
    pub genre: Option<String>,
    pub resource_url: Option<String>,
}

/// An entry of a release's tracklist.
#[derive(Debug, Clone)]
pub struct DiscogsTrackEntry {
    pub position: Option<String>,
    pub title: Option<String>,
}

/// An image of a release.
#[derive(Debug, Clone)]
pub struct DiscogsImage {
    /// `type` ("primary", "secondary").
    pub kind: Option<String>,
    pub uri: Option<String>,
}

/// A release as answered by `/releases/{id}`.
#[derive(Debug, Clone)]
pub struct DiscogsRelease {
    /// `artists[0].name`.
    pub artist: Option<String>,
    pub title: Option<String>,
    /// `year`, when it is an unsigned number.
    pub year_number: Option<u64>,
    /// `year`, when it is a string.
    pub year_text: Option<String>,
    /// `genres[0]`, when it is a string.
    pub genre: Option<String>,
    /// `tracklist`, when it is an array.
    pub tracklist: Option<Vec<DiscogsTrackEntry>>,
    /// `images`, when it is an array.
    pub images: Option<Vec<DiscogsImage>>,
}

// ---------------------------------------------------------------------------
// Search
// ---------------------------------------------------------------------------

/// Artist and album of a search title "Artist - Album": split at the first
/// " - "; without it, the whole title is the album.
pub open spec fn split_title(t: Seq<char>) -> (Option<Seq<char>>, Option<Seq<char>>) {
    match find_sub(t, " - "@) {
        Some(i) => (Some(t.take(i)), Some(t.skip(i + 3))),
        None => (None, Some(t)),
    }
}

pub open spec fn text_year(t: Option<String>) -> Option<u32> {
    match t {
        Some(s) => match parse_unsigned(s@, u32::MAX as nat) {
            Some(y) => Some(y as u32),
            None => None,
        },
        None => None,
    }
}

pub open spec fn number_year(n: Option<u64>) -> Option<u32> {
    match n {
        Some(y) => Some(y as u32),
        None => None,
    }
}

pub open spec fn first_some<T>(a: Option<T>, b: Option<T>) -> Option<T> {
    if a is Some { a } else { b }
}

/// What the first search hit gives: artist and album from its title, the
/// year (a string that parses, else a number), the first genre, and the
/// resource URL of the release.
pub open spec fn hit_info(h: DiscogsSearchHit) -> (TrackInfoView, Option<Seq<char>>) {
    let t = match h.title { Some(s) => s@, None => Seq::empty() };
    let (artist, album) = split_title(t);
    (TrackInfoView {
        artist,
        album,
        title: None,
        year: first_some(text_year(h.year_text), number_year(h.year_number)),
        track_number: None,
        total_tracks: None,
        genre: opt_text(h.genre),
        cover_art: None,
    }, opt_text(h.resource_url))
}

pub open spec fn search_info(results: Option<Seq<DiscogsSearchHit>>) -> Option<(TrackInfoView, Option<Seq<char>>)> {
    match results {
        Some(rs) => if rs.len() > 0 { Some(hit_info(rs[0])) } else { None },
        None => None,
    }
}

fn year_from_text(t: &Option<String>) -> (res: Option<u32>)
    ensures
        res == text_year(*t),
{
    match t {
        Some(s) => {
            let v = chars_of(s.as_str());
            match parse_unsigned_exec(v.as_slice(), 4294967295u64) {
                Some(y) => Some(y as u32),
                None => None,
            }
        },
        None => None,
    }
}

fn year_from_number(n: Option<u64>) -> (res: Option<u32>)
    ensures
        res == number_year(n),
{
    match n {
        Some(y) => Some(y as u32),
        None => None,
    }
}

/// Parses the answer of a release search: `None` when `results` is missing
/// or empty, else the metadata of the first hit and its resource URL.
pub fn parse_search_response(results: &Option<Vec<DiscogsSearchHit>>) -> (res: Option<(TrackInfo, Option<String>)>)
    ensures
        match res {
            Some((info, url)) => search_info(opt_hits(*results)) == Some((info@, opt_text(url))),
            None => search_info(opt_hits(*results)) is None,
        },
{
    let hits = match results {
        Some(h) => h,
        None => return None,
    };
    if hits.len() == 0 {
        return None;
    }
    let first = &hits[0];
    let t = match &first.title {
        Some(s) => chars_of(s.as_str()),
        None => Vec::new(),
    };
    let sep = chars_of(" - ");
    proof { reveal_strlit(" - "); }
    assert(sep@.len() == 3);
    let (artist, album) = match find_sub_exec(t.as_slice(), sep.as_slice()) {
        Some(i) => {
            let n = t.len();
            assert(i + 3 <= n);
            let a = slice_chars(t.as_slice(), 0, i);
            let b = slice_chars(t.as_slice(), i + 3, n);
            assert(a@ =~= t@.take(i as int));
            assert(b@ =~= t@.skip(i + 3));
            (Some(string_of(a.as_slice())), Some(string_of(b.as_slice())))
        },
        None => (None, Some(string_of(t.as_slice()))),
    };
    let year = match year_from_text(&first.year_text) {
        Some(y) => Some(y),
        None => year_from_number(first.year_number),
    };
    let info = TrackInfo {
        artist,
        album,
        title: None,
        year,
        track_number: None,
        total_tracks: None,
        genre: crate::models::copy_opt_string(&first.genre),
        cover_art: None,
    };
    Some((info, crate::models::copy_opt_string(&first.resource_url)))
}

pub open spec fn opt_hits(o: Option<Vec<DiscogsSearchHit>>) -> Option<Seq<DiscogsSearchHit>> {
    match o {
        Some(v) => Some(v@),
        None => None,
    }
}

// ---------------------------------------------------------------------------
// Release details
// ---------------------------------------------------------------------------

/// The tracks of a tracklist: entries without a title are dropped, a missing
/// position becomes empty.
pub open spec fn kept_tracks(entries: Seq<DiscogsTrackEntry>) -> Seq<(Seq<char>, Seq<char>)>
    decreases entries.len(),
{
    if entries.len() == 0 {
        Seq::empty()
    } else {
        let rest = kept_tracks(entries.drop_last());
        let e = entries.last();
        match e.title {
            Some(t) => rest.push((match e.position { Some(p) => p@, None => Seq::empty() }, t@)),
            None => rest,
        }
    }
}

pub open spec fn track_views(v: Seq<DiscogsTrack>) -> Seq<(Seq<char>, Seq<char>)> {
    Seq::new(v.len(), |i: int| (v[i].position@, v[i].title@))
}

/// Index of the first image of type "primary".
pub open spec fn first_primary(images: Seq<DiscogsImage>) -> Option<int>
    decreases images.len(),
{
    if images.len() == 0 {
        None
    } else {
        match first_primary(images.drop_last()) {
            Some(i) => Some(i),
            None => if opt_text(images.last().kind) == Some("primary"@) { Some(images.len() - 1) } else { None },
        }
    }
}

/// The cover: the URI of the first primary image, else of the first image.
pub open spec fn cover_of(images: Option<Seq<DiscogsImage>>) -> Option<Seq<char>> {
    match images {
        None => None,
        Some(imgs) => match first_primary(imgs) {
            Some(i) => opt_text(imgs[i].uri),
            None => if imgs.len() > 0 { opt_text(imgs[0].uri) } else { None },
        },
    }
}

/// Details of a release: the year is read as a number first, then as a
/// string.
pub open spec fn release_year(r: DiscogsRelease) -> Option<u32> {
    first_some(number_year(r.year_number), text_year(r.year_text))
}

pub open spec fn opt_images(o: Option<Vec<DiscogsImage>>) -> Option<Seq<DiscogsImage>> {
    match o {
        Some(v) => Some(v@),
        None => None,
    }
}

pub open spec fn tracks_of(o: Option<Vec<DiscogsTrackEntry>>) -> Seq<(Seq<char>, Seq<char>)> {
    match o {
        Some(v) => kept_tracks(v@),
        None => Seq::empty(),
    }
}

proof fn lemma_first_primary(images: Seq<DiscogsImage>)
    ensures
        first_primary(images) matches Some(i) ==> 0 <= i < images.len()
            && opt_text(images[i].kind) == Some("primary"@),
        first_primary(images) is None ==> forall|k: int| 0 <= k < images.len()
            ==> opt_text(#[trigger] images[k].kind) != Some("primary"@),
    decreases images.len(),
{
    if images.len() > 0 {
        let rest = images.drop_last();
        lemma_first_primary(rest);
        assert forall|k: int| 0 <= k < rest.len() implies rest[k] == images[k] by {}
    }
}

fn is_primary(img: &DiscogsImage) -> (res: bool)
    ensures
        res == (opt_text(img.kind) == Some("primary"@)),
{
    match &img.kind {
        Some(k) => eq_lit(chars_of(k.as_str()).as_slice(), "primary"),
        None => false,
    }
}

fn find_cover(images: &Option<Vec<DiscogsImage>>) -> (res: Option<String>)
    ensures
        opt_text(res) == cover_of(opt_images(*images)),
{
    let imgs = match images {
        Some(v) => v,
        None => return None,
    };
    let mut i: usize = 0;
    while i < imgs.len()
        invariant
            i <= imgs@.len(),
            opt_images(*images) == Some(imgs@),
            first_primary(imgs@.take(i as int)) is None,
        decreases imgs@.len() - i,
    {
        assert(imgs@.take(i + 1).drop_last() =~= imgs@.take(i as int));
        if is_primary(&imgs[i]) {
            proof {
                assert(first_primary(imgs@.take(i + 1)) == Some(i as int));
                lemma_first_primary_prefix(imgs@, i as int + 1);
                assert(cover_of(opt_images(*images)) == opt_text(imgs@[i as int].uri));
            }
            return crate::models::copy_opt_string(&imgs[i].uri);
        }
        i += 1;
    }
    assert(imgs@.take(imgs@.len() as int) =~= imgs@);
    if imgs.len() > 0 {
        crate::models::copy_opt_string(&imgs[0].uri)
    } else {
        None
    }
}

/// The first primary image of a prefix is the first primary image of the
/// whole list.
proof fn lemma_first_primary_prefix(images: Seq<DiscogsImage>, k: int)
    requires
        0 <= k <= images.len(),
        first_primary(images.take(k)) is Some,
    ensures
        first_primary(images) == first_primary(images.take(k)),
    decreases images.len() - k,
{
    if k < images.len() {
        assert(images.take(k + 1).drop_last() =~= images.take(k));
        lemma_first_primary_prefix(images, k + 1);
    } else {
        assert(images.take(k) =~= images);
    }
}

fn collect_tracks(entries: &Option<Vec<DiscogsTrackEntry>>) -> (res: Vec<DiscogsTrack>)
    ensures
        track_views(res@) == tracks_of(*entries),
{
    let mut out: Vec<DiscogsTrack> = Vec::new();
    let list = match entries {
        Some(v) => v,
        None => {
            assert(track_views(out@) =~= Seq::<(Seq<char>, Seq<char>)>::empty());
            return out;
        },
    };
    let mut i: usize = 0;
    while i < list.len()
        invariant
            i <= list@.len(),
            track_views(out@) == kept_tracks(list@.take(i as int)),
        decreases list@.len() - i,
    {
        assert(list@.take(i + 1).drop_last() =~= list@.take(i as int));
        let e = &list[i];
        match &e.title {
            Some(t) => {
                let position = match &e.position {
                    Some(p) => p.clone(),
                    None => String::new(),
                };
                let ghost before = out@;
                out.push(DiscogsTrack { position, title: t.clone() });
                assert(track_views(out@) =~= track_views(before).push((position@, t@)));
            },
            None => {},
        }
        i += 1;
    }
    assert(list@.take(list@.len() as int) =~= list@);
    out
}

/// Parses the details of a release: artist, album, year, first genre, the
/// titled tracks, and the cover (primary image, else the first one). Always
/// gives details.
pub fn parse_release_details(release: &DiscogsRelease) -> (res: Option<ReleaseDetails>)
    ensures
        res matches Some(d) && opt_text(d.artist) == opt_text(release.artist)
            && opt_text(d.album) == opt_text(release.title)
            && d.year == release_year(*release)
            && opt_text(d.genre) == opt_text(release.genre)
            && track_views(d.tracks@) == tracks_of(release.tracklist)
            && opt_text(d.cover_url) == cover_of(opt_images(release.images)),
{
    let year = match year_from_number(release.year_number) {
        Some(y) => Some(y),
        None => year_from_text(&release.year_text),
    };
    Some(ReleaseDetails {
        artist: crate::models::copy_opt_string(&release.artist),
        album: crate::models::copy_opt_string(&release.title),
        year,
        genre: crate::models::copy_opt_string(&release.genre),
        tracks: collect_tracks(&release.tracklist),
        cover_url: find_cover(&release.images),
    })
}

// ---------------------------------------------------------------------------
// Queries
// ---------------------------------------------------------------------------

pub open spec fn encode_char(c: char) -> Seq<char> {
    if c == ' ' { "+"@ } else if c == '&' { "%26"@ } else if c == '?' { "%3F"@ } else { seq![c] }
}

/// Spaces as `+`, `&` and `?` percent-encoded.
pub open spec fn url_encoded(s: Seq<char>) -> Seq<char>
    decreases s.len(),
{
    if s.len() == 0 { Seq::empty() } else { url_encoded(s.drop_last()) + encode_char(s.last()) }
}

/// Encodes a URL parameter: spaces become `+`, `&` and `?` are escaped.
pub fn url_encode(s: &str) -> (res: String)
    ensures
        res@ == url_encoded(s@),
{
    let v = chars_of(s);
    let mut out: Vec<char> = Vec::new();
    let mut i: usize = 0;
    while i < v.len()
        invariant
            i <= v@.len(),
            out@ == url_encoded(v@.take(i as int)),
        decreases v@.len() - i,
    {
        assert(v@.take(i + 1).drop_last() =~= v@.take(i as int));
        let c = v[i];
        if c == ' ' {
            out.push('+');
            proof { reveal_strlit("+"); }
            assert(encode_char(c) =~= seq!['+']);
        } else if c == '&' {
            proof { reveal_strlit("%26"); }
            out.push('%');
            out.push('2');
            out.push('6');
        } else if c == '?' {
            proof { reveal_strlit("%3F"); }
            out.push('%');
            out.push('3');
            out.push('F');
        } else {
            out.push(c);
        }
        assert(out@ =~= url_encoded(v@.take(i as int)) + encode_char(c));
        i += 1;
    }
    assert(v@.take(v@.len() as int) =~= v@);
    string_of(out.as_slice())
}

/// URL of a release search by artist and album title. The token is not part
/// of it: it goes in the `Authorization` header.
pub fn search_url(artist: &str, album: &str) -> (res: String)
    ensures
        res@ == "https://api.discogs.com/database/search?artist="@ + url_encoded(artist@)
            + "&release_title="@ + url_encoded(album@) + "&type=release&per_page=5"@,
{
    let a = url_encode(artist);
    let b = url_encode(album);
    let u1 = concat_str("https://api.discogs.com/database/search?artist=", a.as_str());
    let u2 = concat_str(u1.as_str(), "&release_title=");
    let u3 = concat_str(u2.as_str(), b.as_str());
    concat_str(u3.as_str(), "&type=release&per_page=5")
}

/// Value of the `Authorization` header of every Discogs request.
pub fn authorization_header(token: &str) -> (res: String)
    ensures
        res@ == "Discogs token="@ + token@,
{
    concat_str("Discogs token=", token)
}

/// Cache key of a release search: the normalised "artist|album".
pub fn search_cache_key(artist: &str, album: &str) -> (res: String)
    ensures
        res@ == api_key_spec(artist@ + "|"@ + album@),
{
    let a = concat_str(artist, "|");
    let q = concat_str(a.as_str(), album);
    api_key(q.as_str())
}

} // verus!
