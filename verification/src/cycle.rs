//! One detection cycle: a sweep over every display.
//!
//! The cycle is all-or-nothing. Every display is scanned for the target
//! phrases; if any display could not be scanned the whole cycle fails,
//! otherwise the phrases found on the displays are merged into one set.
use crate::matching::{contains_phrase, matches_in, matching_phrases};
use crate::recognition::{
    recognition, recognized_text, DetectError, DetectErrorView, RecognizerOutput,
};
use vstd::prelude::*;

verus! {

/// The phrases matched by one cycle, each held once.
///
/// The view is the set of matched phrases. An empty result means that
/// nothing was found; it is a valid outcome, not a failure.
#[derive(Debug, PartialEq, Eq)]
pub struct CycleResult {
    found: Vec<String>,
}

impl View for CycleResult {
    type V = Set<Seq<char>>;

    open spec fn view(&self) -> Set<Seq<char>> {
        self.listed().to_set()
    }
}

impl CycleResult {
    #[verifier::type_invariant]
    spec fn distinct(self) -> bool {
        self.found.deep_view().no_duplicates()
    }

    /// The matched phrases in the order in which they were first found.
    pub closed spec fn listed(&self) -> Seq<Seq<char>> {
        self.found.deep_view()
    }

    /// The result of a cycle that found nothing.
    pub fn new() -> (result: Self)
        ensures
            result.listed() == Seq::<Seq<char>>::empty(),
            result@ == Set::<Seq<char>>::empty(),
    {
        CycleResult { found: Vec::new() }
    }

    /// Whether `phrase` is among the matched phrases.
    pub fn contains(&self, phrase: &str) -> (present: bool)
        ensures
            present == self@.contains(phrase@),
    {
        let wanted = String::from_str(phrase);
        let mut i: usize = 0;
        while i < self.found.len()
            invariant
                i <= self.found.len(),
                wanted@ == phrase@,
                forall|j: int| 0 <= j < i ==> self.found.deep_view()[j] != phrase@,
            decreases self.found.len() - i,
        {
            if self.found[i] == wanted {
                assert(self.found.deep_view()[i as int] == phrase@);
                return true;
            }
            i += 1;
        }
        false
    }

    /// Adds `phrase` unless it is already held.
    pub fn insert(&mut self, phrase: String)
        ensures
            final(self)@ == old(self)@.insert(phrase@),
            final(self).listed() == with_phrase(old(self).listed(), phrase@),
    {
        proof {
            use_type_invariant(&*self);
        }
        if !self.contains(phrase.as_str()) {
            let ghost before = self.found.deep_view();
            let mut found: Vec<String> = Vec::new();
            std::mem::swap(&mut self.found, &mut found);
            found.push(phrase);
            assert(found.deep_view() =~= before.push(phrase@));
            self.found = found;
            proof {
                before.lemma_push_to_set_commute(phrase@);
            }
        }
    }

    /// How many distinct phrases were matched.
    pub fn len(&self) -> (count: usize)
        ensures
            count == self@.len(),
            count == self.listed().len(),
    {
        proof {
            use_type_invariant(self);
            self.found.deep_view().unique_seq_to_set();
        }
        self.found.len()
    }

    /// Whether the cycle found nothing.
    pub fn is_empty(&self) -> (empty: bool)
        ensures
            empty == self@.is_empty(),
            empty == (self.listed().len() == 0),
    {
        proof {
            use_type_invariant(self);
            self.found.deep_view().unique_seq_to_set();
        }
        self.found.len() == 0
    }

    /// The matched phrases, each once.
    pub fn phrases(&self) -> (list: &Vec<String>)
        ensures
            list.deep_view() == self.listed(),
            list.deep_view().no_duplicates(),
    {
        proof {
            use_type_invariant(self);
        }
        &self.found
    }

    /// Gives up the result for the list of its phrases, each once.
    pub fn into_phrases(self) -> (list: Vec<String>)
        ensures
            list.deep_view() == self.listed(),
            list.deep_view().no_duplicates(),
    {
        proof {
            use_type_invariant(&self);
        }
        self.found
    }
}

/// What was read from one display: text, or the failure that prevented it.
///
/// A display whose capture or recognition could not even be attempted
/// carries that failure; one whose recognizer ran carries what the
/// recognizer's answer means.
pub open spec fn reading_text(reading: Result<RecognizerOutput, DetectError>) -> Result<
    Seq<char>,
    DetectErrorView,
> {
    match reading {
        Ok(output) => recognition(output),
        Err(error) => Err(error@),
    }
}

/// What was read from each display, in display order.
pub open spec fn reading_texts(readings: Seq<Result<RecognizerOutput, DetectError>>) -> Seq<
    Result<Seq<char>, DetectErrorView>,
> {
    readings.map_values(|reading: Result<RecognizerOutput, DetectError>| reading_text(reading))
}

/// The failure of the first display, in display order, that could not be
/// read; `None` when every display was read.
pub open spec fn first_failure(texts: Seq<Result<Seq<char>, DetectErrorView>>) -> Option<
    DetectErrorView,
>
    decreases texts.len(),
{
    if texts.len() == 0 {
        None
    } else {
        match first_failure(texts.drop_last()) {
            Some(error) => Some(error),
            None => match texts.last() {
                Ok(_) => None,
                Err(error) => Some(error),
            },
        }
    }
}

/// The display was read and `phrase` occurs in its text.
pub open spec fn shows(reading: Result<Seq<char>, DetectErrorView>, phrase: Seq<char>) -> bool {
    match reading {
        Ok(text) => contains_phrase(text, phrase),
        Err(_) => false,
    }
}

/// The target phrases that occur in the text of at least one display.
pub open spec fn found_on_displays(
    phrases: Seq<Seq<char>>,
    texts: Seq<Result<Seq<char>, DetectErrorView>>,
) -> Set<Seq<char>> {
    Set::new(
        |phrase: Seq<char>|
            phrases.contains(phrase) && exists|d: int|
                0 <= d < texts.len() && #[trigger] shows(texts[d], phrase),
    )
}

/// `held` with `phrase` added at the end unless it is held already.
pub open spec fn with_phrase(held: Seq<Seq<char>>, phrase: Seq<char>) -> Seq<Seq<char>> {
    if held.to_set().contains(phrase) {
        held
    } else {
        held.push(phrase)
    }
}

/// `held` with each phrase of `more` added in turn.
pub open spec fn with_phrases(held: Seq<Seq<char>>, more: Seq<Seq<char>>) -> Seq<Seq<char>>
    decreases more.len(),
{
    if more.len() == 0 {
        held
    } else {
        with_phrase(with_phrases(held, more.drop_last()), more.last())
    }
}

/// The found phrases in the order of their first finding: display by
/// display, and on one display in target order.
pub open spec fn found_in_order(
    phrases: Seq<Seq<char>>,
    texts: Seq<Result<Seq<char>, DetectErrorView>>,
) -> Seq<Seq<char>>
    decreases texts.len(),
{
    if texts.len() == 0 {
        Seq::empty()
    } else {
        let earlier = found_in_order(phrases, texts.drop_last());
        match texts.last() {
            Ok(text) => with_phrases(earlier, matches_in(text, phrases)),
            Err(_) => earlier,
        }
    }
}

/// The outcome of a cycle: the failure of the first unreadable display, or,
/// when all were read, the set of phrases found on them.
pub open spec fn cycle_outcome(
    phrases: Seq<Seq<char>>,
    texts: Seq<Result<Seq<char>, DetectErrorView>>,
) -> Result<Set<Seq<char>>, DetectErrorView> {
    match first_failure(texts) {
        Some(error) => Err(error),
        None => Ok(found_on_displays(phrases, texts)),
    }
}

/// The view of a cycle's result: the matched set, or the failure.
pub open spec fn outcome_view(outcome: Result<CycleResult, DetectError>) -> Result<
    Set<Seq<char>>,
    DetectErrorView,
> {
    match outcome {
        Ok(found) => Ok(found@),
        Err(error) => Err(error@),
    }
}

/// A cycle fails exactly when some display could not be read, and then
/// with the failure of the earliest such display.
pub proof fn lemma_first_failure(texts: Seq<Result<Seq<char>, DetectErrorView>>)
    ensures
        first_failure(texts) is None <==> forall|d: int|
            0 <= d < texts.len() ==> (#[trigger] texts[d]) is Ok,
        first_failure(texts) matches Some(error) ==> exists|d: int|
            0 <= d < texts.len() && #[trigger] texts[d] == Err::<Seq<char>, DetectErrorView>(error)
                && forall|e: int| 0 <= e < d ==> (#[trigger] texts[e]) is Ok,
    decreases texts.len(),
{
    if texts.len() > 0 {
        let earlier = texts.drop_last();
        lemma_first_failure(earlier);
        assert(forall|d: int| 0 <= d < earlier.len() ==> earlier[d] == texts[d]);
        match first_failure(earlier) {
            Some(error) => {
                let d = choose|d: int|
                    0 <= d < earlier.len() && #[trigger] earlier[d] == Err::<
                        Seq<char>,
                        DetectErrorView,
                    >(error) && forall|e: int| 0 <= e < d ==> (#[trigger] earlier[e]) is Ok;
                assert(texts[d] == Err::<Seq<char>, DetectErrorView>(error));
                assert(forall|e: int| 0 <= e < d ==> (#[trigger] texts[e]) is Ok);
            },
            None => {
                let d = texts.len() - 1;
                if texts.last() is Err {
                    assert(texts[d] == Err::<Seq<char>, DetectErrorView>(texts.last()->Err_0));
                    assert(forall|e: int| 0 <= e < d ==> (#[trigger] texts[e]) is Ok);
                }
            },
        }
    }
}

/// What a display's reading is once its capture artifact has been deleted:
/// the recognizer's answer, unless the deletion failed. A display that
/// could not be recognized keeps that failure whatever the deletion did.
pub open spec fn settled(
    answer: Result<RecognizerOutput, DetectError>,
    removal: Result<(), DetectError>,
) -> Result<RecognizerOutput, DetectError> {
    match answer {
        Ok(output) => match removal {
            Ok(_) => Ok(output),
            Err(error) => Err(error),
        },
        Err(error) => Err(error),
    }
}

/// Settles the reading of one display from the recognizer's answer and the
/// outcome of deleting the capture artifact, which is attempted whether
/// the recognizer succeeded or failed.
pub fn reading_after_cleanup(
    answer: Result<RecognizerOutput, DetectError>,
    removal: Result<(), DetectError>,
) -> (reading: Result<RecognizerOutput, DetectError>)
    ensures
        reading == settled(answer, removal),
{
    match answer {
        Ok(output) => match removal {
            Ok(_) => Ok(output),
            Err(error) => Err(error),
        },
        Err(error) => Err(error),
    }
}

/// Scans what was read from one display for the target phrases: the
/// display's failure if it could not be read, else the phrases that occur
/// in its text, in target order.
pub fn scan_display(
    phrases: &Vec<String>,
    reading: &Result<RecognizerOutput, DetectError>,
) -> (result: Result<Vec<String>, DetectError>)
    ensures
        match reading_text(*reading) {
            Ok(text) => result matches Ok(found) && found.deep_view() == matches_in(
                text,
                phrases.deep_view(),
            ),
            Err(error) => result matches Err(e) && e@ == error,
        },
{
    match reading {
        Ok(output) => match recognized_text(output) {
            Ok(text) => Ok(matching_phrases(text.as_str(), phrases)),
            Err(error) => Err(error),
        },
        Err(error) => Err(error.clone()),
    }
}

/// Runs the deciding part of one detection cycle over what was read from
/// every display.
///
/// The cycle succeeds only if every display was read; a single unreadable
/// display fails the whole cycle and no partial result is given. On
/// success the result holds each target phrase that occurs on at least
/// one display, once, however many displays showed it.
pub fn detect(
    phrases: &Vec<String>,
    readings: &Vec<Result<RecognizerOutput, DetectError>>,
) -> (outcome: Result<CycleResult, DetectError>)
    ensures
        outcome_view(outcome) == cycle_outcome(phrases.deep_view(), reading_texts(readings@)),
        outcome is Ok <==> forall|d: int|
            0 <= d < readings.len() ==> reading_text(#[trigger] readings@[d]) is Ok,
        outcome matches Ok(found) ==> found.listed() == found_in_order(
            phrases.deep_view(),
            reading_texts(readings@),
        ),
{
    let ghost texts = reading_texts(readings@);
    let mut found = CycleResult::new();
    let mut d: usize = 0;
    while d < readings.len()
        invariant
            d <= readings.len(),
            texts == reading_texts(readings@),
            first_failure(texts.take(d as int)) is None,
            found@ == found_on_displays(phrases.deep_view(), texts.take(d as int)),
            found.listed() == found_in_order(phrases.deep_view(), texts.take(d as int)),
        decreases readings.len() - d,
    {
        let ghost seen = texts.take(d as int);
        let ghost next = texts.take(d + 1);
        proof {
            assert(next.drop_last() =~= seen);
            assert(next.last() == reading_text(readings[d as int]));
        }
        match scan_display(phrases, &readings[d]) {
            Ok(matched) => {
                let ghost text = reading_text(readings[d as int])->Ok_0;
                let ghost before = found@;
                let ghost held = found.listed();
                let mut k: usize = 0;
                while k < matched.len()
                    invariant
                        k <= matched.len(),
                        found@ == before + matched.deep_view().take(k as int).to_set(),
                        found.listed() == with_phrases(held, matched.deep_view().take(k as int)),
                    decreases matched.len() - k,
                {
                    proof {
                        assert(matched.deep_view().take(k + 1) =~= matched.deep_view().take(
                            k as int,
                        ).push(matched[k as int]@));
                        matched.deep_view().take(k as int).lemma_push_to_set_commute(
                            matched[k as int]@,
                        );
                        assert(matched.deep_view().take(k + 1).drop_last()
                            =~= matched.deep_view().take(k as int));
                    }
                    found.insert(matched[k].clone());
                    k += 1;
                }
                proof {
                    assert(matched.deep_view().take(matched.len() as int) =~= matched.deep_view());
                    law_found_is_union(phrases.deep_view(), seen, text);
                    assert(next =~= seen.push(Ok(text)));
                }
            },
            Err(error) => {
                proof {
                    lemma_failure_persists(next, texts);
                    assert(reading_text(readings@[d as int]) is Err);
                }
                return Err(error);
            },
        }
        d += 1;
    }
    proof {
        assert(texts.take(readings.len() as int) =~= texts);
        lemma_first_failure(texts);
        assert forall|d: int| 0 <= d < readings.len() implies reading_text(
            #[trigger] readings@[d],
        ) is Ok by {
            assert(texts[d] is Ok);
        }
    }
    Ok(found)
}

/// The found set is the union over the displays: reading one more display
/// adds exactly the target phrases that occur in that display's text, and
/// a phrase that was found before is not added again.
pub proof fn law_found_is_union(
    phrases: Seq<Seq<char>>,
    texts: Seq<Result<Seq<char>, DetectErrorView>>,
    text: Seq<char>,
)
    ensures
        found_on_displays(phrases, texts.push(Ok(text))) == found_on_displays(phrases, texts)
            + matches_in(text, phrases).to_set(),
{
    let occurs = |phrase: Seq<char>| contains_phrase(text, phrase);
    let more = texts.push(Ok(text));
    let left = found_on_displays(phrases, more);
    let right = found_on_displays(phrases, texts) + matches_in(text, phrases).to_set();
    broadcast use vstd::seq_lib::group_filter_ensures;

    assert forall|phrase: Seq<char>| left.contains(phrase) implies right.contains(phrase) by {
        let d = choose|d: int| 0 <= d < more.len() && #[trigger] shows(more[d], phrase);
        if d < texts.len() {
            assert(shows(texts[d], phrase));
        } else {
            let i = choose|i: int| 0 <= i < phrases.len() && phrases[i] == phrase;
            assert(occurs(phrases[i]));
            assert(phrases.filter(occurs).contains(phrases[i]));
        }
    }
    assert forall|phrase: Seq<char>| right.contains(phrase) implies left.contains(phrase) by {
        if found_on_displays(phrases, texts).contains(phrase) {
            let d = choose|d: int| 0 <= d < texts.len() && #[trigger] shows(texts[d], phrase);
            assert(shows(more[d], phrase));
        } else {
            let matched = phrases.filter(occurs);
            let i = choose|i: int| 0 <= i < matched.len() && matched[i] == phrase;
            assert(occurs(matched[i]));
            phrases.lemma_filter_contains_rev(occurs, phrase);
            assert(shows(more[texts.len() as int], phrase));
        }
    }
    assert(left =~= right);
}

/// A failure among the first displays is the failure of the whole sweep.
proof fn lemma_failure_persists(
    prefix: Seq<Result<Seq<char>, DetectErrorView>>,
    texts: Seq<Result<Seq<char>, DetectErrorView>>,
)
    requires
        prefix.len() <= texts.len(),
        prefix == texts.take(prefix.len() as int),
        first_failure(prefix) is Some,
    ensures
        first_failure(texts) == first_failure(prefix),
    decreases texts.len(),
{
    if prefix.len() < texts.len() {
        assert(texts.drop_last().take(prefix.len() as int) =~= prefix);
        lemma_failure_persists(prefix, texts.drop_last());
    } else {
        assert(prefix =~= texts);
    }
}

/// One unreadable display fails the cycle, whatever the other displays
/// show; a cycle whose displays were all read succeeds.
pub proof fn law_one_failure_fails_cycle(
    phrases: Seq<Seq<char>>,
    texts: Seq<Result<Seq<char>, DetectErrorView>>,
)
    ensures
        cycle_outcome(phrases, texts) is Err <==> exists|d: int|
            0 <= d < texts.len() && (#[trigger] texts[d]) is Err,
        cycle_outcome(phrases, texts) is Ok ==> cycle_outcome(phrases, texts)
            == Ok::<Set<Seq<char>>, DetectErrorView>(found_on_displays(phrases, texts)),
{
    lemma_first_failure(texts);
}

/// Adding phrases to a list without repetitions keeps it so, and the list
/// then holds what it held before and the added phrases.
proof fn lemma_with_phrases(held: Seq<Seq<char>>, more: Seq<Seq<char>>)
    requires
        held.no_duplicates(),
    ensures
        with_phrases(held, more).no_duplicates(),
        with_phrases(held, more).to_set() == held.to_set() + more.to_set(),
    decreases more.len(),
{
    if more.len() == 0 {
        assert(more.to_set() =~= Set::<Seq<char>>::empty());
        assert(held.to_set() + more.to_set() =~= held.to_set());
    } else {
        let front = with_phrases(held, more.drop_last());
        lemma_with_phrases(held, more.drop_last());
        front.lemma_push_to_set_commute(more.last());
        more.drop_last().lemma_push_to_set_commute(more.last());
        assert(more.drop_last().push(more.last()) =~= more);
        assert(with_phrase(front, more.last()).to_set() =~= held.to_set() + more.to_set());
    }
}

/// The listing of a sweep holds each found phrase exactly once: it has no
/// repetitions, and its phrases are the found set.
pub proof fn law_each_phrase_listed_once(
    phrases: Seq<Seq<char>>,
    texts: Seq<Result<Seq<char>, DetectErrorView>>,
)
    ensures
        found_in_order(phrases, texts).no_duplicates(),
        found_in_order(phrases, texts).to_set() == found_on_displays(phrases, texts),
    decreases texts.len(),
{
    if texts.len() == 0 {
        assert(found_in_order(phrases, texts).to_set() =~= found_on_displays(phrases, texts));
    } else {
        let earlier = texts.drop_last();
        law_each_phrase_listed_once(phrases, earlier);
        match texts.last() {
            Ok(text) => {
                lemma_with_phrases(found_in_order(phrases, earlier), matches_in(text, phrases));
                law_found_is_union(phrases, earlier, text);
                assert(earlier.push(Ok(text)) =~= texts);
            },
            Err(_) => {
                assert forall|phrase: Seq<char>|
                    found_on_displays(phrases, texts).contains(phrase) implies found_on_displays(
                        phrases,
                        earlier,
                    ).contains(phrase) by {
                    let d = choose|d: int|
                        0 <= d < texts.len() && #[trigger] shows(texts[d], phrase);
                    assert(shows(earlier[d], phrase));
                }
                assert forall|phrase: Seq<char>|
                    found_on_displays(phrases, earlier).contains(phrase) implies found_on_displays(
                        phrases,
                        texts,
                    ).contains(phrase) by {
                    let d = choose|d: int|
                        0 <= d < earlier.len() && #[trigger] shows(earlier[d], phrase);
                    assert(shows(texts[d], phrase));
                }
                assert(found_on_displays(phrases, texts) =~= found_on_displays(phrases, earlier));
            },
        }
    }
}

/// A display of one sweep is among the displays of any sweep that read the
/// same displays.
proof fn lemma_display_is_shared(
    first: Seq<Result<Seq<char>, DetectErrorView>>,
    second: Seq<Result<Seq<char>, DetectErrorView>>,
    d: int,
)
    requires
        first.to_multiset() == second.to_multiset(),
        0 <= d < first.len(),
    ensures
        second.contains(first[d]),
{
    first.to_multiset_ensures();
    second.to_multiset_ensures();
    assert(first.contains(first[d]));
    assert(second.to_multiset().count(first[d]) > 0);
}

/// What one sweep finds, a sweep that read the same displays finds too; and
/// if the one succeeds, so does the other.
proof fn lemma_found_is_kept(
    phrases: Seq<Seq<char>>,
    first: Seq<Result<Seq<char>, DetectErrorView>>,
    second: Seq<Result<Seq<char>, DetectErrorView>>,
)
    requires
        first.to_multiset() == second.to_multiset(),
    ensures
        found_on_displays(phrases, first).subset_of(found_on_displays(phrases, second)),
        cycle_outcome(phrases, second) is Ok ==> cycle_outcome(phrases, first) is Ok,
{
    assert forall|phrase: Seq<char>|
        found_on_displays(phrases, first).contains(phrase) implies found_on_displays(
            phrases,
            second,
        ).contains(phrase) by {
        let d = choose|d: int| 0 <= d < first.len() && #[trigger] shows(first[d], phrase);
        lemma_display_is_shared(first, second, d);
        let e = choose|e: int| 0 <= e < second.len() && second[e] == first[d];
        assert(shows(second[e], phrase));
    }
    lemma_first_failure(first);
    lemma_first_failure(second);
    if cycle_outcome(phrases, second) is Ok {
        assert forall|d: int| 0 <= d < first.len() implies (#[trigger] first[d]) is Ok by {
            lemma_display_is_shared(first, second, d);
            let e = choose|e: int| 0 <= e < second.len() && second[e] == first[d];
            assert(second[e] is Ok);
        }
    }
}

/// The order in which the displays are read does not matter: two sweeps
/// that read the same displays, in whatever order, succeed or fail
/// together and find the same set of phrases.
pub proof fn law_display_order_is_immaterial(
    phrases: Seq<Seq<char>>,
    first: Seq<Result<Seq<char>, DetectErrorView>>,
    second: Seq<Result<Seq<char>, DetectErrorView>>,
)
    requires
        first.to_multiset() == second.to_multiset(),
    ensures
        found_on_displays(phrases, first) == found_on_displays(phrases, second),
        cycle_outcome(phrases, first) is Ok <==> cycle_outcome(phrases, second) is Ok,
{
    lemma_found_is_kept(phrases, first, second);
    lemma_found_is_kept(phrases, second, first);
    assert(found_on_displays(phrases, first) =~= found_on_displays(phrases, second));
}

} // verus!
