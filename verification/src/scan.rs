//! The search itself: one decision for each thing that reading the wordlist
//! produces, and the whole search over a wordlist held in memory.

use crate::algorithm::Algorithm;
use crate::hexcode::hex_decoding;
use crate::outcome::{outcome_view, CrackError, CrackResult, Failure};
use crate::target::{candidate_of, is_valid_target, line_matches, TargetDigest};
use vstd::prelude::*;

verus! {

/// Whether line `i` of `lines` is the first that hashes to `target`.
pub open spec fn is_first_match(
    algorithm: Algorithm,
    target: Seq<u8>,
    lines: Seq<Seq<char>>,
    i: int,
) -> bool {
    &&& 0 <= i < lines.len()
    &&& line_matches(algorithm, target, lines[i])
    &&& forall|j: int| 0 <= j < i ==> !line_matches(algorithm, target, #[trigger] lines[j])
}

/// Whether some line of `lines` hashes to `target`.
pub open spec fn has_match(algorithm: Algorithm, target: Seq<u8>, lines: Seq<Seq<char>>) -> bool {
    exists|i: int| 0 <= i < lines.len() && line_matches(algorithm, target, #[trigger] lines[i])
}

/// What scanning `lines` in order for `target` finds: the candidate of the
/// first line that hashes to it, or nothing where no line does.
pub open spec fn scan_result(
    algorithm: Algorithm,
    target: Seq<u8>,
    lines: Seq<Seq<char>>,
) -> Option<Seq<char>> {
    if exists|i: int| is_first_match(algorithm, target, lines, i) {
        let first = choose|i: int| is_first_match(algorithm, target, lines, i);
        Some(candidate_of(lines[first]))
    } else {
        None
    }
}

/// What a search for `target_hex` in a readable wordlist with the lines
/// `lines` ends in. A target that is no digest of `algorithm` fails the
/// search whatever the wordlist holds.
pub open spec fn crack_outcome(
    algorithm: Algorithm,
    target_hex: Seq<char>,
    lines: Seq<Seq<char>>,
) -> Result<Option<Seq<char>>, Failure> {
    if is_valid_target(algorithm, target_hex) {
        Ok(scan_result(algorithm, hex_decoding(target_hex), lines))
    } else {
        Err(Failure::InvalidDigestFormat)
    }
}

/// There is at most one first match.
pub proof fn lemma_first_match_unique(
    algorithm: Algorithm,
    target: Seq<u8>,
    lines: Seq<Seq<char>>,
    i: int,
    k: int,
)
    requires
        is_first_match(algorithm, target, lines, i),
        is_first_match(algorithm, target, lines, k),
    ensures
        i == k,
{
    if i < k {
        assert(!line_matches(algorithm, target, lines[i]));
    } else if k < i {
        assert(!line_matches(algorithm, target, lines[k]));
    }
}

/// Where line `i` is the first match, the scan finds its candidate.
pub proof fn lemma_scan_finds_first_match(
    algorithm: Algorithm,
    target: Seq<u8>,
    lines: Seq<Seq<char>>,
    i: int,
)
    requires
        is_first_match(algorithm, target, lines, i),
    ensures
        scan_result(algorithm, target, lines) == Some(candidate_of(lines[i])),
{
    let first = choose|k: int| is_first_match(algorithm, target, lines, k);
    lemma_first_match_unique(algorithm, target, lines, i, first);
}

/// Where no line matches, the scan finds nothing.
pub proof fn lemma_scan_without_match(algorithm: Algorithm, target: Seq<u8>, lines: Seq<Seq<char>>)
    requires
        !has_match(algorithm, target, lines),
    ensures
        scan_result(algorithm, target, lines) is None,
{
    if exists|i: int| is_first_match(algorithm, target, lines, i) {
        let i = choose|i: int| is_first_match(algorithm, target, lines, i);
        assert(line_matches(algorithm, target, lines[i]));
    }
}

/// What one attempt to read the wordlist produced.
pub enum WordlistEvent<'a> {
    /// The next line, as it stands in the wordlist.
    Line(&'a str),
    /// The wordlist could not be opened, or its next line could not be read;
    /// the text says why.
    Unavailable(String),
    /// The wordlist has no more lines.
    End,
}

/// The mathematical value of a `WordlistEvent`.
pub enum EventView {
    Line(Seq<char>),
    Unavailable(Seq<char>),
    End,
}

impl<'a> View for WordlistEvent<'a> {
    type V = EventView;

    open spec fn view(&self) -> EventView {
        match self {
            WordlistEvent::Line(line) => EventView::Line(line@),
            WordlistEvent::Unavailable(cause) => EventView::Unavailable(cause@),
            WordlistEvent::End => EventView::End,
        }
    }
}

/// What the search does after an event.
pub enum Step {
    /// The line was no match: read on.
    Continue,
    /// The search is over, with this outcome; nothing more is to be read.
    Finished(Result<CrackResult, CrackError>),
}

impl View for Step {
    type V = Option<Result<Option<Seq<char>>, Failure>>;

    /// The outcome that the search ended with, if it ended.
    open spec fn view(&self) -> Option<Result<Option<Seq<char>>, Failure>> {
        match self {
            Step::Continue => None,
            Step::Finished(outcome) => Some(outcome_view(*outcome)),
        }
    }
}

/// What the search for `target` decides on `event`: a matching line ends it
/// with that line's candidate, any other line lets it go on, a failure to
/// read ends it with the cause, and the end of the wordlist ends it with
/// nothing found.
pub open spec fn step_decision(algorithm: Algorithm, target: Seq<u8>, event: EventView) -> Option<
    Result<Option<Seq<char>>, Failure>,
> {
    match event {
        EventView::Line(line) => if line_matches(algorithm, target, line) {
            Some(Ok(Some(candidate_of(line))))
        } else {
            None
        },
        EventView::Unavailable(cause) => Some(Err(Failure::WordlistUnavailable(cause))),
        EventView::End => Some(Ok(None)),
    }
}

/// What the search for `target` ends with when `events` come in this order:
/// the decision on the first event that ends it. Events after that one are
/// never looked at. `None` where no event ends the search.
pub open spec fn run_decision(
    algorithm: Algorithm,
    target: Seq<u8>,
    events: Seq<EventView>,
) -> Option<Result<Option<Seq<char>>, Failure>>
    decreases events.len(),
{
    if events.len() == 0 {
        None
    } else {
        match step_decision(algorithm, target, events.first()) {
            Some(end) => Some(end),
            None => run_decision(algorithm, target, events.drop_first()),
        }
    }
}

/// The events that reading a wordlist with the lines `lines` to its end
/// produces: each line in order, then the end.
pub open spec fn events_of(lines: Seq<Seq<char>>) -> Seq<EventView> {
    Seq::new(
        lines.len() + 1,
        |i: int|
            if i < lines.len() {
                EventView::Line(lines[i])
            } else {
                EventView::End
            },
    )
}

/// A first line that is no match has no part in what the scan finds.
pub proof fn lemma_scan_skips_non_match(
    algorithm: Algorithm,
    target: Seq<u8>,
    lines: Seq<Seq<char>>,
)
    requires
        lines.len() > 0,
        !line_matches(algorithm, target, lines.first()),
    ensures
        scan_result(algorithm, target, lines) == scan_result(
            algorithm,
            target,
            lines.drop_first(),
        ),
{
    let rest = lines.drop_first();
    assert forall|j: int| 0 <= j < rest.len() implies rest[j] == lines[j + 1] by {}
    if exists|i: int| is_first_match(algorithm, target, lines, i) {
        let i = choose|i: int| is_first_match(algorithm, target, lines, i);
        assert(i > 0);
        assert(rest[i - 1] == lines[i]);
        assert forall|j: int| 0 <= j < i - 1 implies !line_matches(
            algorithm,
            target,
            #[trigger] rest[j],
        ) by {
            assert(rest[j] == lines[j + 1]);
        }
        assert(is_first_match(algorithm, target, rest, i - 1));
        lemma_scan_finds_first_match(algorithm, target, lines, i);
        lemma_scan_finds_first_match(algorithm, target, rest, i - 1);
    } else if exists|k: int| is_first_match(algorithm, target, rest, k) {
        let k = choose|k: int| is_first_match(algorithm, target, rest, k);
        assert(lines[k + 1] == rest[k]);
        assert forall|j: int| 0 <= j < k + 1 implies !line_matches(
            algorithm,
            target,
            #[trigger] lines[j],
        ) by {
            if j > 0 {
                assert(lines[j] == rest[j - 1]);
            }
        }
        assert(is_first_match(algorithm, target, lines, k + 1));
    }
}

/// Deciding event by event over a wordlist that is read to its end gives
/// what the scan of its lines finds.
pub proof fn lemma_run_over_wordlist(algorithm: Algorithm, target: Seq<u8>, lines: Seq<Seq<char>>)
    ensures
        run_decision(algorithm, target, events_of(lines)) == Some(
            Ok::<Option<Seq<char>>, Failure>(scan_result(algorithm, target, lines)),
        ),
    decreases lines.len(),
{
    let events = events_of(lines);
    if lines.len() == 0 {
        assert(events.first() == EventView::End);
        assert(!has_match(algorithm, target, lines));
        lemma_scan_without_match(algorithm, target, lines);
    } else {
        assert(events.first() == EventView::Line(lines.first()));
        if line_matches(algorithm, target, lines.first()) {
            assert(is_first_match(algorithm, target, lines, 0));
            lemma_scan_finds_first_match(algorithm, target, lines, 0);
        } else {
            assert(events.drop_first() =~= events_of(lines.drop_first()));
            lemma_run_over_wordlist(algorithm, target, lines.drop_first());
            lemma_scan_skips_non_match(algorithm, target, lines);
        }
    }
}

/// A failure to read after lines of which none is a match ends the search
/// with that failure, whatever would have come after it.
pub proof fn lemma_run_stops_at_failure(
    algorithm: Algorithm,
    target: Seq<u8>,
    events: Seq<EventView>,
    k: int,
)
    requires
        0 <= k < events.len(),
        events[k] is Unavailable,
        forall|j: int| 0 <= j < k ==> step_decision(algorithm, target, #[trigger] events[j]) is None,
    ensures
        run_decision(algorithm, target, events) == Some(
            Err::<Option<Seq<char>>, Failure>(Failure::WordlistUnavailable(events[k]->Unavailable_0)),
        ),
    decreases k,
{
    if k > 0 {
        let rest = events.drop_first();
        assert(step_decision(algorithm, target, events[0]) is None);
        assert(rest[k - 1] == events[k]);
        assert forall|j: int| 0 <= j < k - 1 implies step_decision(
            algorithm,
            target,
            #[trigger] rest[j],
        ) is None by {
            assert(rest[j] == events[j + 1]);
        }
        lemma_run_stops_at_failure(algorithm, target, rest, k - 1);
    }
}

impl TargetDigest {
    /// Decides what the search does after `event`.
    pub fn step(&self, event: WordlistEvent<'_>) -> (next: Step)
        ensures
            next@ == step_decision(self.spec_algorithm(), self@, event@),
    {
        match event {
            WordlistEvent::Line(line) => match self.try_line(line) {
                Some(candidate) => Step::Finished(Ok(CrackResult::Found(candidate))),
                None => Step::Continue,
            },
            WordlistEvent::Unavailable(cause) => Step::Finished(
                Err(CrackError::WordlistUnavailable(cause)),
            ),
            WordlistEvent::End => Step::Finished(Ok(CrackResult::NotFound)),
        }
    }

    /// Scans `lines` in order and stops at the first that hashes to the
    /// target.
    pub fn scan(&self, lines: &Vec<String>) -> (result: CrackResult)
        ensures
            result@ == scan_result(self.spec_algorithm(), self@, lines.deep_view()),
    {
        let ghost all = lines.deep_view();
        let mut i: usize = 0;
        while i < lines.len()
            invariant
                all == lines.deep_view(),
                i <= lines.len(),
                forall|j: int|
                    0 <= j < i ==> !line_matches(self.spec_algorithm(), self@, #[trigger] all[j]),
            decreases lines.len() - i,
        {
            assert(all[i as int] == lines[i as int]@);
            match self.step(WordlistEvent::Line(lines[i].as_str())) {
                Step::Finished(Ok(result)) => {
                    proof {
                        lemma_scan_finds_first_match(
                            self.spec_algorithm(),
                            self@,
                            all,
                            i as int,
                        );
                    }
                    return result;
                },
                _ => {},
            }
            i = i + 1;
        }
        proof {
            lemma_scan_without_match(self.spec_algorithm(), self@, all);
        }
        CrackResult::NotFound
    }
}

/// Searches the wordlist `lines` for a line that hashes to `target_hex`
/// under `algorithm`.
///
/// The target is examined before any line is looked at: one that is no digest
/// of `algorithm` fails the search with `InvalidDigestFormat`. Otherwise the
/// lines are tried in order, and the first that matches is the result.
pub fn crack(algorithm: Algorithm, target_hex: &str, lines: &Vec<String>) -> (r: Result<
    CrackResult,
    CrackError,
>)
    ensures
        outcome_view(r) == crack_outcome(algorithm, target_hex@, lines.deep_view()),
{
    match TargetDigest::parse(algorithm, target_hex) {
        Ok(target) => Ok(target.scan(lines)),
        Err(error) => Err(error),
    }
}

} // verus!
