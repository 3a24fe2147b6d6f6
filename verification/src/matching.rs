//! Case-sensitive phrase matching over recognized text.
//!
//! Text and phrases are compared character by character: no trimming, no
//! case folding, no whitespace normalisation.
use vstd::prelude::*;

verus! {

/// `phrase` stands in `text` starting at character index `at`.
pub open spec fn occurs_at(text: Seq<char>, phrase: Seq<char>, at: int) -> bool {
    &&& 0 <= at
    &&& at + phrase.len() <= text.len()
    &&& text.subrange(at, at + phrase.len()) == phrase
}

/// `phrase` is a contiguous run of characters somewhere in `text`.
pub open spec fn contains_phrase(text: Seq<char>, phrase: Seq<char>) -> bool {
    exists|at: int| occurs_at(text, phrase, at)
}

/// The phrases of `phrases` that occur in `text`, in the order in which
/// they are listed (a phrase listed twice is kept twice).
pub open spec fn matches_in(text: Seq<char>, phrases: Seq<Seq<char>>) -> Seq<Seq<char>> {
    phrases.filter(|phrase: Seq<char>| contains_phrase(text, phrase))
}

/// The characters of `text`, in order.
pub fn characters(text: &str) -> (chars: Vec<char>)
    ensures
        chars@ == text@,
{
    let mut chars: Vec<char> = Vec::new();
    for c in it: text.chars()
        invariant
            it.seq() == text@,
            chars@ == text@.take(it.index() as int),
    {
        chars.push(c);
    }
    chars
}

/// Compares `phrase` with the characters of `text` that start at `at`.
fn occurs_here(text: &Vec<char>, phrase: &Vec<char>, at: usize) -> (found: bool)
    requires
        at + phrase.len() <= text.len(),
    ensures
        found == occurs_at(text@, phrase@, at as int),
{
    let mut k: usize = 0;
    while k < phrase.len()
        invariant
            k <= phrase.len(),
            at + phrase.len() <= text.len(),
            forall|j: int| 0 <= j < k ==> text@[at + j] == phrase@[j],
        decreases phrase.len() - k,
    {
        if text[at + k] != phrase[k] {
            return false;
        }
        k += 1;
    }
    assert(text@.subrange(at as int, at + phrase.len()) =~= phrase@);
    true
}

/// Searches `text` for `phrase`, trying every starting position from the left.
pub fn contains_chars(text: &Vec<char>, phrase: &Vec<char>) -> (found: bool)
    ensures
        found == contains_phrase(text@, phrase@),
{
    if phrase.len() > text.len() {
        return false;
    }
    let last: usize = text.len() - phrase.len();
    let mut at: usize = 0;
    loop
        invariant
            last == text.len() - phrase.len(),
            at <= last,
            forall|i: int| 0 <= i < at ==> !occurs_at(text@, phrase@, i),
        decreases last - at,
    {
        if occurs_here(text, phrase, at) {
            return true;
        }
        if at == last {
            return false;
        }
        at += 1;
    }
}

/// Whether `phrase` occurs in `text`: exact, case-sensitive substring
/// containment. The empty phrase occurs in every text.
pub fn text_contains(text: &str, phrase: &str) -> (found: bool)
    ensures
        found == contains_phrase(text@, phrase@),
{
    let text_chars = characters(text);
    let phrase_chars = characters(phrase);
    contains_chars(&text_chars, &phrase_chars)
}

/// The target phrases that occur in the recognized `text`, in target order.
pub fn matching_phrases(text: &str, phrases: &Vec<String>) -> (found: Vec<String>)
    ensures
        found.deep_view() == matches_in(text@, phrases.deep_view()),
{
    let text_chars = characters(text);
    let ghost occurs = |phrase: Seq<char>| contains_phrase(text@, phrase);
    let mut found: Vec<String> = Vec::new();
    let mut i: usize = 0;
    proof {
        reveal(Seq::filter);
    }
    while i < phrases.len()
        invariant
            i <= phrases.len(),
            text_chars@ == text@,
            occurs == (|phrase: Seq<char>| contains_phrase(text@, phrase)),
            found.deep_view() == phrases.deep_view().take(i as int).filter(occurs),
        decreases phrases.len() - i,
    {
        let phrase_chars = characters(phrases[i].as_str());
        let ghost seen = phrases.deep_view().take(i as int);
        proof {
            assert(phrases.deep_view().take(i + 1) =~= seen.push(phrases[i as int]@));
            seen.lemma_filter_push(phrases[i as int]@, occurs);
        }
        if contains_chars(&text_chars, &phrase_chars) {
            found.push(phrases[i].clone());
        }
        i += 1;
    }
    assert(phrases.deep_view().take(phrases.len() as int) =~= phrases.deep_view());
    found
}

} // verus!
