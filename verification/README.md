# music_sorter

Sorts a music library: reads the tags of audio files, completes them with
MusicBrainz, AcoustID, the Cover Art Archive and Discogs, and files each track
under `Artist - Year - Album/NN - Title.ext` (configurable template), with
`_unsorted/`, `_review/` and `_errors/` for what cannot be filed with
confidence.

- `src/` is the library, verified with Verus: title cleaning, file and folder
  name heuristics, destination paths, the choice of a MusicBrainz release, the
  reading of the API answers, retry and pacing decisions, cache keys, and the
  two state machines that drive the enrichment of a track (`enricher`) and the
  processing of a file (`pipeline`).
- `app/` is the command-line program around it: argument parsing, the SQLite
  cache, HTTP, tag reading and writing, the file system, and the loops that
  carry out what the state machines ask.
- `tests/` exercises the library on concrete values.
