//! Acoustic fingerprints: reuse of a cached fingerprint, the AcoustID query
//! and the choice of a recording in its answer.

use vstd::prelude::*;
use crate::models::opt_text;
use crate::text::{chars_of, concat_str, decimal, decimal_exec, string_of};

verus! {

/// A Chromaprint fingerprint and the duration it was computed on (seconds).
#[derive(Debug, Clone)]
pub struct FingerprintResult {
    pub duration: u32,
    pub fingerprint: String,
}

/// A result of an AcoustID lookup.
#[derive(Debug, Clone)]
pub struct AcoustIdResult {
    /// Whether the result's score is above one half (a missing score counts
    /// as zero).
    pub passes: bool,
    /// `recordings[*].id`, when `recordings` is an array; an id that is not a
    /// string is `None`.
    pub recordings: Option<Vec<Option<String>>>,
}

/// The fingerprint to use when the cache already holds one for the file's
/// content: the stored duration is narrowed to `u32`. `None` means that the
/// cache had nothing, and `fpcalc` has to run.
pub fn generate_or_cached(cached: Option<(String, i64)>) -> (res: Option<FingerprintResult>)
    ensures
        match cached {
            Some((fp, d)) => res matches Some(r) && r.fingerprint@ == fp@ && r.duration == d as u32,
            None => res is None,
        },
{
    match cached {
        Some((fingerprint, duration)) => Some(FingerprintResult { fingerprint, duration: duration as u32 }),
        None => None,
    }
}

/// The recording ids offered by the results that pass, in order.
pub open spec fn passing_ids(results: Seq<AcoustIdResult>) -> Seq<Option<String>>
    decreases results.len(),
{
    if results.len() == 0 {
        Seq::empty()
    } else {
        let r = results.last();
        passing_ids(results.drop_last()) + (if r.passes {
            match r.recordings {
                Some(v) => v@,
                None => Seq::empty(),
            }
        } else {
            Seq::empty()
        })
    }
}

/// The first id that is a string.
pub open spec fn first_id(ids: Seq<Option<String>>) -> Option<Seq<char>>
    decreases ids.len(),
{
    if ids.len() == 0 {
        None
    } else {
        match ids[0] {
            Some(s) => Some(s@),
            None => first_id(ids.drop_first()),
        }
    }
}

pub open spec fn acoustid_recording(results: Option<Seq<AcoustIdResult>>) -> Option<Seq<char>> {
    match results {
        Some(rs) => first_id(passing_ids(rs)),
        None => None,
    }
}

pub open spec fn opt_results(o: Option<Vec<AcoustIdResult>>) -> Option<Seq<AcoustIdResult>> {
    match o {
        Some(v) => Some(v@),
        None => None,
    }
}

proof fn lemma_first_id_append(a: Seq<Option<String>>, b: Seq<Option<String>>)
    ensures
        first_id(a + b) == (match first_id(a) {
            Some(x) => Some(x),
            None => first_id(b),
        }),
    decreases a.len(),
{
    if a.len() == 0 {
        assert(a + b =~= b);
    } else {
        assert((a + b).drop_first() =~= a.drop_first() + b);
        lemma_first_id_append(a.drop_first(), b);
    }
}

/// The MusicBrainz recording id of an AcoustID answer: the first id offered
/// by a result whose score is above one half. `results` is `None` when the
/// answer has no `results` array.
pub fn parse_acoustid_response(results: &Option<Vec<AcoustIdResult>>) -> (res: Option<String>)
    ensures
        opt_text(res) == acoustid_recording(opt_results(*results)),
{
    let rs = match results {
        Some(v) => v,
        None => return None,
    };
    let mut i: usize = 0;
    while i < rs.len()
        invariant
            i <= rs@.len(),
            opt_results(*results) == Some(rs@),
            first_id(passing_ids(rs@.take(i as int))) is None,
        decreases rs@.len() - i,
    {
        let ghost pre = rs@.take(i as int);
        assert(rs@.take(i + 1).drop_last() =~= pre);
        let r = &rs[i];
        if r.passes {
            if let Some(recs) = &r.recordings {
                let mut j: usize = 0;
                while j < recs.len()
                    invariant
                        j <= recs@.len(),
                        first_id(recs@.take(j as int)) is None,
                        i < rs@.len(),
                        pre == rs@.take(i as int),
                        rs@.take(i + 1).drop_last() == pre,
                        rs@[i as int].passes,
                        rs@[i as int].recordings == Some(*recs),
                        first_id(passing_ids(pre)) is None,
                        opt_results(*results) == Some(rs@),
                    decreases recs@.len() - j,
                {
                    proof {
                        lemma_first_id_append(recs@.take(j as int), seq![recs@[j as int]]);
                        assert(recs@.take(j + 1) =~= recs@.take(j as int) + seq![recs@[j as int]]);
                    }
                    if let Some(id) = &recs[j] {
                        proof {
                            let ids = passing_ids(rs@.take(i + 1));
                            assert(rs@.take(i + 1).last() == rs@[i as int]);
                            assert(ids =~= passing_ids(pre) + recs@);
                            lemma_first_id_append(passing_ids(pre), recs@);
                            assert(recs@ =~= recs@.take(j + 1) + recs@.skip(j + 1));
                            lemma_first_id_append(recs@.take(j + 1), recs@.skip(j + 1));
                            lemma_passing_prefix(rs@, i + 1);
                        }
                        return Some(id.clone());
                    }
                    proof {
                        let one = seq![recs@[j as int]];
                        assert(one[0] is None);
                        assert(one.drop_first() =~= Seq::<Option<String>>::empty());
                        assert(first_id(Seq::<Option<String>>::empty()) is None);
                        assert(first_id(one) is None);
                        assert(first_id(recs@.take(j + 1)) is None);
                    }
                    j += 1;
                }
                proof {
                    assert(recs@.take(recs@.len() as int) =~= recs@);
                    assert(passing_ids(rs@.take(i + 1)) =~= passing_ids(pre) + recs@);
                    lemma_first_id_append(passing_ids(pre), recs@);
                }
            } else {
                assert(passing_ids(rs@.take(i + 1)) =~= passing_ids(pre));
            }
        } else {
            assert(passing_ids(rs@.take(i + 1)) =~= passing_ids(pre));
        }
        i += 1;
    }
    assert(rs@.take(rs@.len() as int) =~= rs@);
    None
}

/// Once a prefix of the results offers an id, the whole answer gives that id.
proof fn lemma_passing_prefix(rs: Seq<AcoustIdResult>, k: int)
    requires
        0 <= k <= rs.len(),
        first_id(passing_ids(rs.take(k))) is Some,
    ensures
        first_id(passing_ids(rs)) == first_id(passing_ids(rs.take(k))),
    decreases rs.len() - k,
{
    if k < rs.len() {
        assert(rs.take(k + 1).drop_last() =~= rs.take(k));
        let last = rs[k];
        let tail = if last.passes {
            match last.recordings {
                Some(v) => v@,
                None => Seq::empty(),
            }
        } else {
            Seq::<Option<String>>::empty()
        };
        assert(passing_ids(rs.take(k + 1)) =~= passing_ids(rs.take(k)) + tail);
        lemma_first_id_append(passing_ids(rs.take(k)), tail);
        lemma_passing_prefix(rs, k + 1);
    } else {
        assert(rs.take(k) =~= rs);
    }
}

/// URL of an AcoustID lookup of a fingerprint, asking for its recordings.
pub fn acoustid_lookup_url(api_key: &str, fp: &FingerprintResult) -> (res: String)
    ensures
        res@ == "https://api.acoustid.org/v2/lookup?client="@ + api_key@ + "&duration="@
            + decimal(fp.duration as nat) + "&fingerprint="@ + fp.fingerprint@ + "&meta=recordings"@,
{
    let d = decimal_exec(fp.duration as u64);
    let ds = string_of(d.as_slice());
    let u1 = concat_str("https://api.acoustid.org/v2/lookup?client=", api_key);
    let u2 = concat_str(u1.as_str(), "&duration=");
    let u3 = concat_str(u2.as_str(), ds.as_str());
    let u4 = concat_str(u3.as_str(), "&fingerprint=");
    let u5 = concat_str(u4.as_str(), fp.fingerprint.as_str());
    concat_str(u5.as_str(), "&meta=recordings")
}

} // verus!
