//! Which files of the source tree are audio files to process.

use vstd::prelude::*;
use crate::paths::{extension, file_name, path_extension, path_file_name};
use crate::text::{chars_of, eq_lit, lower_chars, lowercase, starts_with, starts_with_lit};

verus! {

/// Supported audio extensions, lower-cased.
pub open spec fn supported_extension(ext: Seq<char>) -> bool {
    ext == "mp3"@ || ext == "flac"@ || ext == "ogg"@ || ext == "m4a"@ || ext == "aac"@ || ext == "opus"@
        || ext == "wma"@
}

/// Whether the extension of `path`, ignoring case, is a supported audio one.
pub fn is_supported_audio(path: &str) -> (res: bool)
    ensures
        res == (match path_extension(path@) {
            Some(e) => supported_extension(lowercase(e)),
            None => false,
        }),
{
    match extension(path) {
        Some(e) => {
            let l = lower_chars(chars_of(e.as_str()).as_slice());
            let l = l.as_slice();
            eq_lit(l, "mp3") || eq_lit(l, "flac") || eq_lit(l, "ogg") || eq_lit(l, "m4a") || eq_lit(l, "aac")
                || eq_lit(l, "opus") || eq_lit(l, "wma")
        },
        None => false,
    }
}

/// Whether `path` is an AppleDouble sidecar (`._foo.mp3`) written by macOS on
/// exFAT/NTFS volumes: binary metadata, not audio.
pub fn is_apple_double(path: &str) -> (res: bool)
    ensures
        res == (match path_file_name(path@) {
            Some(n) => starts_with(n, "._"@),
            None => false,
        }),
{
    match file_name(path) {
        Some(n) => starts_with_lit(chars_of(n.as_str()).as_slice(), "._"),
        None => false,
    }
}

/// Whether a regular file found by the scan is kept.
pub fn is_scanned_audio(path: &str) -> (res: bool)
    ensures
        res == ((match path_file_name(path@) {
            Some(n) => !starts_with(n, "._"@),
            None => true,
        }) && (match path_extension(path@) {
            Some(e) => supported_extension(lowercase(e)),
            None => false,
        })),
{
    !is_apple_double(path) && is_supported_audio(path)
}

} // verus!
