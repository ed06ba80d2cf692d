//! Cover art: the choice of a cover among the images of an album folder, and
//! the front image of a Cover Art Archive answer.

use vstd::prelude::*;
use crate::models::opt_text;
use crate::paths::{extension, file_stem, path_extension, path_file_stem};
use crate::text::{chars_of, concat_str, eq_lit, find_sub, find_sub_exec, lower_chars, lowercase};

verus! {

/// An entry of an album folder, in the order the folder lists it.
#[derive(Debug, Clone)]
pub struct FolderEntry {
    pub path: String,
    /// Size in bytes (0 when it could not be read).
    pub size: u64,
}

/// An image of a Cover Art Archive answer.
#[derive(Debug, Clone)]
pub struct CoverArtImage {
    /// `front`, when it is a boolean.
    pub front: Option<bool>,
    /// `image`, when it is a string.
    pub image: Option<String>,
}

// ---------------------------------------------------------------------------
// Local cover
// ---------------------------------------------------------------------------

pub open spec fn contains(s: Seq<char>, pat: Seq<char>) -> bool {
    find_sub(s, pat) is Some
}

/// An image file: its extension, lower-cased, is jpg, jpeg, png or webp.
pub open spec fn is_image(p: Seq<char>) -> bool {
    match path_extension(p) {
        Some(e) => {
            let l = lowercase(e);
            l == "jpg"@ || l == "jpeg"@ || l == "png"@ || l == "webp"@
        },
        None => false,
    }
}

/// A file explicitly named as a cover: its stem, lower-cased, contains
/// cover, front, folder or albumart.
pub open spec fn is_named_cover(p: Seq<char>) -> bool {
    match path_file_stem(p) {
        Some(s) => {
            let l = lowercase(s);
            contains(l, "cover"@) || contains(l, "front"@) || contains(l, "folder"@) || contains(l, "albumart"@)
        },
        None => false,
    }
}

/// Index of the first image named as a cover.
pub open spec fn first_named(es: Seq<FolderEntry>) -> Option<int>
    decreases es.len(),
{
    if es.len() == 0 {
        None
    } else {
        match first_named(es.drop_last()) {
            Some(i) => Some(i),
            None => if is_image(es.last().path@) && is_named_cover(es.last().path@) {
                Some(es.len() - 1)
            } else {
                None
            },
        }
    }
}

/// Index of the largest image; among images of the same largest size, the
/// last one.
pub open spec fn largest_image(es: Seq<FolderEntry>) -> Option<int>
    decreases es.len(),
{
    if es.len() == 0 {
        None
    } else {
        let r = largest_image(es.drop_last());
        if is_image(es.last().path@) {
            match r {
                None => Some(es.len() - 1),
                Some(b) => if es.last().size >= es[b].size { Some(es.len() - 1) } else { Some(b) },
            }
        } else {
            r
        }
    }
}

/// The cover of a folder: the first image named as a cover, else the
/// largest image.
pub open spec fn chosen_cover(es: Seq<FolderEntry>) -> Option<int> {
    match first_named(es) {
        Some(i) => Some(i),
        None => largest_image(es),
    }
}

pub proof fn lemma_first_named(es: Seq<FolderEntry>)
    ensures
        first_named(es) matches Some(i) ==> 0 <= i < es.len() && is_image(es[i].path@)
            && is_named_cover(es[i].path@)
            && forall|k: int| 0 <= k < i ==> !(is_image(#[trigger] es[k].path@) && is_named_cover(es[k].path@)),
        first_named(es) is None ==> forall|k: int| 0 <= k < es.len()
            ==> !(is_image(#[trigger] es[k].path@) && is_named_cover(es[k].path@)),
    decreases es.len(),
{
    if es.len() > 0 {
        let rest = es.drop_last();
        lemma_first_named(rest);
        assert forall|k: int| 0 <= k < rest.len() implies rest[k] == es[k] by {}
    }
}

pub proof fn lemma_largest_image(es: Seq<FolderEntry>)
    ensures
        largest_image(es) matches Some(b) ==> 0 <= b < es.len() && is_image(es[b].path@)
            && forall|k: int| 0 <= k < es.len() && is_image(#[trigger] es[k].path@) ==> es[k].size <= es[b].size,
        largest_image(es) is None ==> forall|k: int| 0 <= k < es.len() ==> !is_image(#[trigger] es[k].path@),
    decreases es.len(),
{
    if es.len() > 0 {
        let rest = es.drop_last();
        lemma_largest_image(rest);
        assert forall|k: int| 0 <= k < rest.len() implies rest[k] == es[k] by {}
    }
}

/// The cover chosen in a folder is an image of it; a folder with an image
/// named as a cover gives such an image; otherwise no image is larger than the
/// one chosen; and a folder without images gives none.
pub proof fn law_chosen_cover(es: Seq<FolderEntry>)
    ensures
        chosen_cover(es) matches Some(i) ==> 0 <= i < es.len() && is_image(es[i].path@),
        (exists|k: int| 0 <= k < es.len() && is_image(es[k].path@) && is_named_cover(es[k].path@))
            ==> (chosen_cover(es) matches Some(i) && is_named_cover(es[i].path@)),
        first_named(es) is None ==> (chosen_cover(es) matches Some(i) ==> forall|k: int|
            0 <= k < es.len() && is_image(#[trigger] es[k].path@) ==> es[k].size <= es[i].size),
        (forall|k: int| 0 <= k < es.len() ==> !is_image(#[trigger] es[k].path@)) ==> chosen_cover(es) is None,
{
    lemma_first_named(es);
    lemma_largest_image(es);
    if first_named(es) is None && (forall|k: int| 0 <= k < es.len() ==> !is_image(#[trigger] es[k].path@)) {
        if let Some(b) = largest_image(es) {
            assert(is_image(es[b].path@));
        }
    }
}

fn lower_is_one_of_images(e: &String) -> (res: bool)
    ensures
        res == ({
            let l = lowercase(e@);
            l == "jpg"@ || l == "jpeg"@ || l == "png"@ || l == "webp"@
        }),
{
    let l = lower_chars(chars_of(e.as_str()).as_slice());
    let l = l.as_slice();
    eq_lit(l, "jpg") || eq_lit(l, "jpeg") || eq_lit(l, "png") || eq_lit(l, "webp")
}

fn is_image_exec(p: &String) -> (res: bool)
    ensures
        res == is_image(p@),
{
    match extension(p.as_str()) {
        Some(e) => lower_is_one_of_images(&e),
        None => false,
    }
}

fn contains_lit(v: &[char], lit: &str) -> (res: bool)
    requires
        lit@.len() > 0,
    ensures
        res == contains(v@, lit@),
{
    let p = chars_of(lit);
    find_sub_exec(v, p.as_slice()).is_some()
}

fn is_named_cover_exec(p: &String) -> (res: bool)
    ensures
        res == is_named_cover(p@),
{
    match file_stem(p.as_str()) {
        Some(s) => {
            let l = lower_chars(chars_of(s.as_str()).as_slice());
            proof {
                reveal_strlit("cover");
                reveal_strlit("front");
                reveal_strlit("folder");
                reveal_strlit("albumart");
            }
            contains_lit(l.as_slice(), "cover") || contains_lit(l.as_slice(), "front")
                || contains_lit(l.as_slice(), "folder") || contains_lit(l.as_slice(), "albumart")
        },
        None => false,
    }
}

/// Chooses the cover among the entries of an album folder (see
/// [`chosen_cover`]): the index of the entry whose bytes are the cover.
pub fn choose_local_cover(entries: &Vec<FolderEntry>) -> (res: Option<usize>)
    ensures
        match res {
            Some(i) => chosen_cover(entries@) == Some(i as int),
            None => chosen_cover(entries@) is None,
        },
{
    let n = entries.len();
    let mut named: Option<usize> = None;
    let mut largest: Option<usize> = None;
    let mut i: usize = 0;
    while i < n
        invariant
            n == entries@.len(),
            i <= n,
            match named {
                Some(k) => first_named(entries@.take(i as int)) == Some(k as int) && k < i,
                None => first_named(entries@.take(i as int)) is None,
            },
            match largest {
                Some(k) => largest_image(entries@.take(i as int)) == Some(k as int) && k < i,
                None => largest_image(entries@.take(i as int)) is None,
            },
        decreases n - i,
    {
        let ghost pre = entries@.take(i as int);
        assert(entries@.take(i + 1).drop_last() =~= pre);
        let e = &entries[i];
        let img = is_image_exec(&e.path);
        if img && named.is_none() && is_named_cover_exec(&e.path) {
            named = Some(i);
        }
        if img {
            match largest {
                None => {
                    largest = Some(i);
                },
                Some(b) => {
                    assert(pre[b as int] == entries@[b as int]);
                    if e.size >= entries[b].size {
                        largest = Some(i);
                    }
                },
            }
        }
        i += 1;
    }
    assert(entries@.take(n as int) =~= entries@);
    match named {
        Some(k) => Some(k),
        None => largest,
    }
}

// ---------------------------------------------------------------------------
// Cover Art Archive
// ---------------------------------------------------------------------------

/// Index of the first image marked `front: true`.
pub open spec fn first_front(images: Seq<CoverArtImage>) -> Option<int>
    decreases images.len(),
{
    if images.len() == 0 {
        None
    } else {
        match first_front(images.drop_last()) {
            Some(i) => Some(i),
            None => if images.last().front == Some(true) { Some(images.len() - 1) } else { None },
        }
    }
}

/// The URL of the front image: the first image marked front, else the first
/// image; `None` without images or when the chosen one has no URL.
pub open spec fn front_image_url(images: Option<Seq<CoverArtImage>>) -> Option<Seq<char>> {
    match images {
        None => None,
        Some(imgs) => match first_front(imgs) {
            Some(i) => opt_text(imgs[i].image),
            None => if imgs.len() > 0 { opt_text(imgs[0].image) } else { None },
        },
    }
}

pub open spec fn opt_images(o: Option<Vec<CoverArtImage>>) -> Option<Seq<CoverArtImage>> {
    match o {
        Some(v) => Some(v@),
        None => None,
    }
}

proof fn lemma_first_front_prefix(images: Seq<CoverArtImage>, k: int)
    requires
        0 <= k <= images.len(),
        first_front(images.take(k)) is Some,
    ensures
        first_front(images) == first_front(images.take(k)),
    decreases images.len() - k,
{
    if k < images.len() {
        assert(images.take(k + 1).drop_last() =~= images.take(k));
        lemma_first_front_prefix(images, k + 1);
    } else {
        assert(images.take(k) =~= images);
    }
}

/// The front image's URL of a Cover Art Archive answer (see
/// [`front_image_url`]); `images` is `None` when the answer has no array.
pub fn extract_front_image_url(images: &Option<Vec<CoverArtImage>>) -> (res: Option<String>)
    ensures
        opt_text(res) == front_image_url(opt_images(*images)),
{
    let imgs = match images {
        Some(v) => v,
        None => return None,
    };
    let mut i: usize = 0;
    while i < imgs.len()
        invariant
            i <= imgs@.len(),
            opt_images(*images) == Some(imgs@),
            first_front(imgs@.take(i as int)) is None,
        decreases imgs@.len() - i,
    {
        assert(imgs@.take(i + 1).drop_last() =~= imgs@.take(i as int));
        if imgs[i].front == Some(true) {
            proof {
                assert(first_front(imgs@.take(i + 1)) == Some(i as int));
                lemma_first_front_prefix(imgs@, i as int + 1);
            }
            return crate::models::copy_opt_string(&imgs[i].image);
        }
        i += 1;
    }
    assert(imgs@.take(imgs@.len() as int) =~= imgs@);
    if imgs.len() > 0 {
        crate::models::copy_opt_string(&imgs[0].image)
    } else {
        None
    }
}

/// URL of the Cover Art Archive entry of a MusicBrainz release.
pub fn release_url(release_id: &str) -> (res: String)
    ensures
        res@ == "https://coverartarchive.org/release/"@ + release_id@,
{
    concat_str("https://coverartarchive.org/release/", release_id)
}

} // verus!
