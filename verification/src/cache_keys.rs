//! Keys of the cache: the hash of a file's content and the normalised key of
//! an API query.

use vstd::prelude::*;
use crate::text::{
    chars_of, join, join_exec, lower_chars, lowercase, slice_chars, string_of, trim_start,
    drop_leading, ws_pred, white_space, views, lemma_drop_leading_suffix,
};

verus! {

/// Number of leading characters of `t` that are not white space.
pub open spec fn word_len(t: Seq<char>) -> nat
    decreases t.len(),
{
    if t.len() == 0 || white_space(t[0]) { 0 } else { 1 + word_len(t.drop_first()) }
}

pub proof fn lemma_word_len(t: Seq<char>)
    ensures
        word_len(t) <= t.len(),
        t.len() > 0 && !white_space(t[0]) ==> word_len(t) >= 1,
    decreases t.len(),
{
    if t.len() > 0 && !white_space(t[0]) {
        lemma_word_len(t.drop_first());
    }
}

/// The white-space separated words of `s` (`str::split_whitespace`).
pub open spec fn words(s: Seq<char>) -> Seq<Seq<char>>
    decreases s.len(),
{
    let t = trim_start(s);
    if t.len() == 0 {
        Seq::empty()
    } else {
        proof {
            lemma_drop_leading_suffix(s, ws_pred());
            lemma_word_len(t);
        }
        seq![t.take(word_len(t) as int)] + words(t.skip(word_len(t) as int))
    }
}

/// The cache key of a query: its words joined by single spaces, lower-cased.
pub open spec fn api_key_spec(s: Seq<char>) -> Seq<char> {
    lowercase(join(words(s), " "@))
}

/// A word: non-empty, without white space.
pub open spec fn is_word(w: Seq<char>) -> bool {
    w.len() > 0 && forall|i: int| 0 <= i < w.len() ==> !white_space(#[trigger] w[i])
}

proof fn lemma_word_len_of_word(w: Seq<char>, q: Seq<char>)
    requires
        forall|i: int| 0 <= i < w.len() ==> !white_space(#[trigger] w[i]),
    ensures
        word_len(w + q) == w.len() + word_len(q),
    decreases w.len(),
{
    if w.len() > 0 {
        assert((w + q).drop_first() =~= w.drop_first() + q);
        assert((w + q)[0] == w[0]);
        assert forall|i: int| 0 <= i < w.drop_first().len() implies !white_space(#[trigger] w.drop_first()[i]) by {
            assert(w.drop_first()[i] == w[i + 1]);
        }
        lemma_word_len_of_word(w.drop_first(), q);
    } else {
        assert(w + q =~= q);
    }
}

proof fn lemma_word_len_prefix(t: Seq<char>)
    ensures
        forall|i: int| 0 <= i < word_len(t) ==> !white_space(#[trigger] t[i]),
        word_len(t) <= t.len(),
    decreases t.len(),
{
    lemma_word_len(t);
    if t.len() > 0 && !white_space(t[0]) {
        lemma_word_len_prefix(t.drop_first());
        assert forall|i: int| 0 <= i < word_len(t) implies !white_space(#[trigger] t[i]) by {
            if i > 0 {
                assert(t.drop_first()[i - 1] == t[i]);
            }
        }
    }
}

/// The words of `s` only depend on `s` without its leading white space.
proof fn lemma_words_trim(x: Seq<char>, y: Seq<char>)
    requires
        trim_start(x) == trim_start(y),
    ensures
        words(x) == words(y),
{
}

proof fn lemma_trim_start_at_word(s: Seq<char>)
    requires
        s.len() > 0,
        !white_space(s[0]),
    ensures
        trim_start(s) == s,
{
}

proof fn lemma_trim_start_space(r: Seq<char>)
    ensures
        trim_start(seq![' '] + r) == trim_start(r),
{
    let x = seq![' '] + r;
    assert(white_space(' '));
    assert(x[0] == ' ');
    assert(x.drop_first() =~= r);
}

/// Every word given by `words` is a word.
proof fn lemma_words_are_words(s: Seq<char>)
    ensures
        forall|i: int| 0 <= i < words(s).len() ==> is_word(#[trigger] words(s)[i]),
    decreases s.len(),
{
    let t = trim_start(s);
    lemma_drop_leading_suffix(s, ws_pred());
    if t.len() > 0 {
        lemma_word_len(t);
        lemma_word_len_prefix(t);
        let w = t.take(word_len(t) as int);
        assert forall|i: int| 0 <= i < w.len() implies !white_space(#[trigger] w[i]) by {
            assert(w[i] == t[i]);
        }
        assert(is_word(w));
        lemma_words_are_words(t.skip(word_len(t) as int));
        let rest = words(t.skip(word_len(t) as int));
        assert(words(s) == seq![w] + rest);
        assert forall|i: int| 0 <= i < words(s).len() implies is_word(#[trigger] words(s)[i]) by {
            if i > 0 {
                assert(words(s)[i] == rest[i - 1]);
            }
        }
    }
}

/// A word followed by a space and more text: that word, then the words of
/// the rest.
proof fn lemma_words_cons(w: Seq<char>, r: Seq<char>)
    requires
        is_word(w),
    ensures
        words(w + seq![' '] + r) == seq![w] + words(r),
{
    let x = w + seq![' '] + r;
    assert(x[0] == w[0]);
    lemma_trim_start_at_word(x);
    assert(x =~= w + (seq![' '] + r));
    lemma_word_len_of_word(w, seq![' '] + r);
    assert((seq![' '] + r)[0] == ' ');
    assert(white_space(' '));
    assert(word_len(seq![' '] + r) == 0);
    assert(x.take(w.len() as int) =~= w);
    assert(x.skip(w.len() as int) =~= seq![' '] + r);
    lemma_trim_start_space(r);
    lemma_words_trim(seq![' '] + r, r);
}

/// A single word is its own list of words.
proof fn lemma_words_single(w: Seq<char>)
    requires
        is_word(w),
    ensures
        words(w) == seq![w],
{
    lemma_trim_start_at_word(w);
    lemma_word_len_of_word(w, Seq::empty());
    assert(w + Seq::<char>::empty() =~= w);
    assert(w.take(w.len() as int) =~= w);
    assert(w.skip(w.len() as int) =~= Seq::<char>::empty());
    assert(trim_start(Seq::<char>::empty()) =~= Seq::<char>::empty());
    assert(word_len(w) == w.len());
    assert(words(Seq::<char>::empty()) =~= Seq::<Seq<char>>::empty());
    assert(words(w) == seq![w.take(w.len() as int)] + words(w.skip(w.len() as int)));
    assert(seq![w] + Seq::<Seq<char>>::empty() =~= seq![w]);
}

/// Joining a first element to a non-empty rest.
proof fn lemma_join_cons(w: Seq<char>, rest: Seq<Seq<char>>, sep: Seq<char>)
    requires
        rest.len() > 0,
    ensures
        join(seq![w] + rest, sep) == w + sep + join(rest, sep),
    decreases rest.len(),
{
    let all = seq![w] + rest;
    if rest.len() == 1 {
        assert(all.drop_last() =~= seq![w]);
        assert(all.last() == rest[0]);
        assert(seq![w][0] == w);
        assert(join(seq![w], sep) == w);
        assert(join(rest, sep) == rest[0]);
    } else {
        assert(all.drop_last() =~= seq![w] + rest.drop_last());
        lemma_join_cons(w, rest.drop_last(), sep);
        assert(all.last() == rest.last());
        assert(join(rest, sep) == join(rest.drop_last(), sep) + sep + rest.last());
        assert(w + sep + join(rest.drop_last(), sep) + sep + rest.last()
            =~= w + sep + (join(rest.drop_last(), sep) + sep + rest.last()));
    }
}

proof fn lemma_words_of_join(ws: Seq<Seq<char>>)
    requires
        forall|i: int| 0 <= i < ws.len() ==> is_word(#[trigger] ws[i]),
    ensures
        words(join(ws, " "@)) == ws,
    decreases ws.len(),
{
    reveal_strlit(" ");
    if ws.len() == 0 {
        assert(trim_start(Seq::<char>::empty()) =~= Seq::<char>::empty());
        assert(words(Seq::<char>::empty()) =~= ws);
    } else if ws.len() == 1 {
        assert(is_word(ws[0]));
        lemma_words_single(ws[0]);
        assert(words(join(ws, " "@)) =~= ws);
    } else {
        let rest = ws.drop_first();
        assert(ws =~= seq![ws[0]] + rest);
        assert(is_word(ws[0]));
        assert forall|i: int| 0 <= i < rest.len() implies is_word(#[trigger] rest[i]) by {
            assert(rest[i] == ws[i + 1]);
        }
        lemma_join_cons(ws[0], rest, " "@);
        lemma_words_of_join(rest);
        assert(" "@ =~= seq![' ']);
        lemma_words_cons(ws[0], join(rest, " "@));
        assert(words(join(ws, " "@)) =~= ws);
    }
}

/// Normalising the white space of a query first does not change its key:
/// the key depends on the words only, not on how they are spaced.
pub proof fn law_api_key_ignores_spacing(s: Seq<char>)
    ensures
        words(join(words(s), " "@)) == words(s),
        api_key_spec(join(words(s), " "@)) == api_key_spec(s),
{
    lemma_words_are_words(s);
    lemma_words_of_join(words(s));
}

/// Normalises a string to serve as an API cache key: white-space runs become
/// one space, ends are trimmed, letters are lower-cased.
pub fn api_key(s: &str) -> (res: String)
    ensures
        res@ == api_key_spec(s@),
{
    let v = chars_of(s);
    let n = v.len();
    let mut out: Vec<Vec<char>> = Vec::new();
    let mut i: usize = 0;
    assert(v@.skip(0) =~= v@);
    while i < n
        invariant
            n == v@.len(),
            i <= n,
            words(v@) == views(out@) + words(v@.skip(i as int)),
        ensures
            i == n,
            words(v@) == views(out@) + words(v@.skip(i as int)),
        decreases n - i,
    {
        let ghost rest = v@.skip(i as int);
        // Skip white space.
        let mut j = i;
        while j < n && v[j].is_whitespace()
            invariant
                n == v@.len(),
                i <= j <= n,
                trim_start(rest) == trim_start(v@.skip(j as int)),
                rest == v@.skip(i as int),
            decreases n - j,
        {
            assert(v@.skip(j as int).drop_first() =~= v@.skip(j + 1));
            j += 1;
        }
        if j == n {
            assert(v@.skip(j as int) =~= Seq::<char>::empty());
            assert(words(rest) =~= Seq::<Seq<char>>::empty());
            assert(views(out@) + words(v@.skip(n as int)) =~= views(out@));
            assert(words(v@) == views(out@) + words(v@.skip(n as int)));
            i = n;
            break;
        }
        let ghost t = v@.skip(j as int);
        assert(trim_start(t) == t);
        // The word.
        let mut k = j;
        while k < n && !v[k].is_whitespace()
            invariant
                n == v@.len(),
                j <= k <= n,
                t == v@.skip(j as int),
                word_len(t) == (k - j) + word_len(v@.skip(k as int)),
            decreases n - k,
        {
            assert(v@.skip(k as int).drop_first() =~= v@.skip(k + 1));
            k += 1;
        }
        assert(word_len(v@.skip(k as int)) == 0);
        let w = slice_chars(v.as_slice(), j, k);
        assert(w@ =~= t.take(word_len(t) as int));
        assert(t.skip(word_len(t) as int) =~= v@.skip(k as int));
        let ghost before = views(out@);
        out.push(w);
        assert(views(out@) =~= before.push(w@));
        assert(words(rest) == seq![w@] + words(v@.skip(k as int)));
        assert(views(out@) + words(v@.skip(k as int)) =~= before + words(rest));
        i = k;
    }
    assert(v@.skip(i as int) =~= Seq::<char>::empty());
    assert(words(v@.skip(i as int)) =~= Seq::<Seq<char>>::empty());
    assert(views(out@) + words(v@.skip(i as int)) =~= views(out@));
    let space = chars_of(" ");
    let joined = join_exec(&out, space.as_slice());
    string_of(lower_chars(joined.as_slice()).as_slice())
}

/// SHA-256 digest of some bytes, as computed by the `sha2` crate.
pub uninterp spec fn sha256(data: Seq<u8>) -> Seq<u8>;

/// Calls `sha2::Sha256::digest`; the 32 bytes it returns are only known
/// through the name `sha256`.
#[verifier::external_body]
fn sha256_digest(data: &[u8]) -> (res: Vec<u8>)
    ensures
        res@ == sha256(data@),
        res@.len() == 32,
{
    <sha2::Sha256 as sha2::Digest>::digest(data).to_vec()
}

pub open spec fn hex_digit(n: u8) -> char {
    if n < 10 { ((n + 48) as u8) as char } else { ((n - 10 + 97) as u8) as char }
}

/// Lower-case hexadecimal notation: two digits per byte, high nibble first.
pub open spec fn hex_lower(data: Seq<u8>) -> Seq<char>
    decreases data.len(),
{
    if data.len() == 0 {
        Seq::empty()
    } else {
        seq![hex_digit(data[0] / 16), hex_digit(data[0] % 16)] + hex_lower(data.drop_first())
    }
}

/// Calls `hex::encode`, which writes each byte as two lower-case hex digits.
#[verifier::external_body]
fn hex_encode(data: &[u8]) -> (res: String)
    ensures
        res@ == hex_lower(data@),
{
    hex::encode(data)
}

/// Hex SHA-256 of the content of a file, given as bytes.
pub fn content_digest_hex(data: &[u8]) -> (res: String)
    ensures
        res@ == hex_lower(sha256(data@)),
        res@.len() == 64,
{
    let digest = sha256_digest(data);
    proof {
        lemma_hex_len(digest@);
    }
    hex_encode(digest.as_slice())
}

proof fn lemma_hex_len(data: Seq<u8>)
    ensures
        hex_lower(data).len() == 2 * data.len(),
    decreases data.len(),
{
    if data.len() > 0 {
        lemma_hex_len(data.drop_first());
    }
}

} // verus!
