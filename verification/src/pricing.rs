//! Which model family a transcript's model name belongs to, the key to the
//! (estimated) price table.
use vstd::prelude::*;
use vstd::string::*;
use crate::text::chars_of;

verus! {

/// A priced model family.
#[derive(Debug, Clone, Copy, PartialEq, Eq, Structural)]
pub enum ModelFamily {
    Opus,
    Sonnet,
    Haiku,
}

/// Whether `needle` occurs in `hay` as a contiguous run.
pub open spec fn contains_run(hay: Seq<char>, needle: Seq<char>) -> bool {
    exists|i: int|
        0 <= i && i + needle.len() <= hay.len() && #[trigger] hay.subrange(i, i + needle.len())
            == needle
}

/// The family a lowercased model name belongs to, by substring: "opus",
/// then "sonnet", then "haiku"; anything else is unrecognized.
pub open spec fn family_of_lowercase_spec(lower: Seq<char>) -> Option<ModelFamily> {
    if contains_run(lower, seq!['o', 'p', 'u', 's']) {
        Some(ModelFamily::Opus)
    } else if contains_run(lower, seq!['s', 'o', 'n', 'n', 'e', 't']) {
        Some(ModelFamily::Sonnet)
    } else if contains_run(lower, seq!['h', 'a', 'i', 'k', 'u']) {
        Some(ModelFamily::Haiku)
    } else {
        None
    }
}

/// "opus" occurs in `s` at some position.
pub open spec fn has_opus(s: Seq<char>) -> bool {
    exists|i: int| 0 <= i && i + 4 <= s.len() && #[trigger] s.subrange(i, i + 4) == seq!['o', 'p', 'u', 's']
}

/// "sonnet" occurs in `s` at some position.
pub open spec fn has_sonnet(s: Seq<char>) -> bool {
    exists|i: int|
        0 <= i && i + 6 <= s.len() && #[trigger] s.subrange(i, i + 6) == seq!['s', 'o', 'n', 'n', 'e', 't']
}

/// "haiku" occurs in `s` at some position.
pub open spec fn has_haiku(s: Seq<char>) -> bool {
    exists|i: int|
        0 <= i && i + 5 <= s.len() && #[trigger] s.subrange(i, i + 5) == seq!['h', 'a', 'i', 'k', 'u']
}

/// A lowercased name is classified by where the family names occur anywhere
/// in it (not only at its start): any name holding "opus" is Opus; else any
/// holding "sonnet" is Sonnet; else any holding "haiku" is Haiku; a name
/// holding none of them is unrecognized.
pub proof fn lemma_family_by_substring(lower: Seq<char>)
    ensures
        has_opus(lower) ==> family_of_lowercase_spec(lower) == Some(ModelFamily::Opus),
        !has_opus(lower) && has_sonnet(lower) ==> family_of_lowercase_spec(lower) == Some(
            ModelFamily::Sonnet,
        ),
        !has_opus(lower) && !has_sonnet(lower) && has_haiku(lower) ==> family_of_lowercase_spec(
            lower,
        ) == Some(ModelFamily::Haiku),
        !has_opus(lower) && !has_sonnet(lower) && !has_haiku(lower) ==> family_of_lowercase_spec(
            lower,
        ) is None,
{
    let opus = seq!['o', 'p', 'u', 's'];
    let sonnet = seq!['s', 'o', 'n', 'n', 'e', 't'];
    let haiku = seq!['h', 'a', 'i', 'k', 'u'];
    assert(opus.len() == 4 && sonnet.len() == 6 && haiku.len() == 5);
    assert(has_opus(lower) <==> contains_run(lower, opus)) by {
        if has_opus(lower) {
            let i = choose|i: int| 0 <= i && i + 4 <= lower.len() && #[trigger] lower.subrange(i, i + 4) == opus;
            assert(lower.subrange(i, i + opus.len()) == opus);
        }
        if contains_run(lower, opus) {
            let i = choose|i: int|
                0 <= i && i + opus.len() <= lower.len() && #[trigger] lower.subrange(i, i + opus.len()) == opus;
            assert(lower.subrange(i, i + 4) == opus);
        }
    }
    assert(has_sonnet(lower) <==> contains_run(lower, sonnet)) by {
        if has_sonnet(lower) {
            let i = choose|i: int| 0 <= i && i + 6 <= lower.len() && #[trigger] lower.subrange(i, i + 6) == sonnet;
            assert(lower.subrange(i, i + sonnet.len()) == sonnet);
        }
        if contains_run(lower, sonnet) {
            let i = choose|i: int|
                0 <= i && i + sonnet.len() <= lower.len() && #[trigger] lower.subrange(i, i + sonnet.len()) == sonnet;
            assert(lower.subrange(i, i + 6) == sonnet);
        }
    }
    assert(has_haiku(lower) <==> contains_run(lower, haiku)) by {
        if has_haiku(lower) {
            let i = choose|i: int| 0 <= i && i + 5 <= lower.len() && #[trigger] lower.subrange(i, i + 5) == haiku;
            assert(lower.subrange(i, i + haiku.len()) == haiku);
        }
        if contains_run(lower, haiku) {
            let i = choose|i: int|
                0 <= i && i + haiku.len() <= lower.len() && #[trigger] lower.subrange(i, i + haiku.len()) == haiku;
            assert(lower.subrange(i, i + 5) == haiku);
        }
    }
}

/// The lowercase form of `text` as `str::to_lowercase` computes it (Unicode
/// case mapping).
pub uninterp spec fn unicode_lowercase(text: Seq<char>) -> Seq<char>;

/// Calls `str::to_lowercase`. Claims only that the result is a function of
/// the text; the Unicode case-mapping tables are not restated here.
#[verifier::external_body]
pub(crate) fn to_lowercase(text: &str) -> (r: String)
    ensures
        r@ == unicode_lowercase(text@),
{
    text.to_lowercase()
}

fn contains_chars(hay: &Vec<char>, needle: &Vec<char>) -> (r: bool)
    ensures
        r == contains_run(hay@, needle@),
{
    let n = hay.len();
    let m = needle.len();
    if m > n {
        assert forall|i: int|
            0 <= i && i + needle@.len() <= hay@.len() implies #[trigger] hay@.subrange(
            i,
            i + needle@.len(),
        ) != needle@ by {}
        return false;
    }
    let mut i: usize = 0;
    while i <= n - m
        invariant
            m <= n,
            n == hay@.len(),
            m == needle@.len(),
            forall|k: int| 0 <= k < i ==> #[trigger] hay@.subrange(k, k + m) != needle@,
        decreases n - m + 1 - i,
    {
        let mut j: usize = 0;
        while j < m && hay[i + j] == needle[j]
            invariant
                i + m <= n,
                j <= m,
                n == hay@.len(),
                m == needle@.len(),
                forall|q: int| 0 <= q < j ==> hay@[i + q] == needle@[q],
            decreases m - j,
        {
            j = j + 1;
        }
        if j == m {
            assert(hay@.subrange(i as int, i + m) =~= needle@);
            return true;
        }
        assert(hay@.subrange(i as int, i + m)[j as int] != needle@[j as int]);
        i = i + 1;
    }
    false
}

/// The family of an already-lowercased model name.
pub fn family_of_lowercase(lower: &str) -> (r: Option<ModelFamily>)
    ensures
        r == family_of_lowercase_spec(lower@),
{
    let hay = chars_of(lower);
    let opus = vec!['o', 'p', 'u', 's'];
    let sonnet = vec!['s', 'o', 'n', 'n', 'e', 't'];
    let haiku = vec!['h', 'a', 'i', 'k', 'u'];
    assert(opus@ =~= seq!['o', 'p', 'u', 's']);
    assert(sonnet@ =~= seq!['s', 'o', 'n', 'n', 'e', 't']);
    assert(haiku@ =~= seq!['h', 'a', 'i', 'k', 'u']);
    if contains_chars(&hay, &opus) {
        Some(ModelFamily::Opus)
    } else if contains_chars(&hay, &sonnet) {
        Some(ModelFamily::Sonnet)
    } else if contains_chars(&hay, &haiku) {
        Some(ModelFamily::Haiku)
    } else {
        None
    }
}

/// The family of a model name, matched by substring against its lowercase
/// form, so versioned names like `acme-opus-5` and bare family names like
/// `opus` are treated alike. `None` for anything unrecognized (a future
/// family, a typo): callers exclude such entries from cost rather than
/// guessing a price.
pub fn model_family(model: &str) -> (r: Option<ModelFamily>)
    ensures
        r == family_of_lowercase_spec(unicode_lowercase(model@)),
{
    let lower = to_lowercase(model);
    family_of_lowercase(lower.as_str())
}

} // verus!
