//! What holds of every search, stated over the model of `scan` and proved.

use crate::algorithm::Algorithm;
use crate::hexcode::{
    hex_decoding, in_lower_case, lemma_hex_decoding_ignores_case,
    lemma_hex_encoding_is_hex_string, lemma_hex_round_trip,
};
use crate::outcome::Failure;
use crate::scan::{
    crack_outcome, has_match, is_first_match, lemma_scan_finds_first_match,
    lemma_scan_without_match, scan_result,
};
use crate::target::{candidate_of, is_valid_target, line_matches};
use crate::text::trimmed;
use vstd::prelude::*;
use vstd::utf8::encode_utf8;

verus! {

/// The hex digest of any data is a valid target, and it stands for that
/// data's digest.
pub proof fn lemma_hex_digest_is_valid_target(algorithm: Algorithm, data: Seq<u8>)
    ensures
        is_valid_target(algorithm, algorithm.spec_hex_digest(data)),
        hex_decoding(algorithm.spec_hex_digest(data)) == algorithm.spec_digest(data),
{
    lemma_hex_encoding_is_hex_string(algorithm.spec_digest(data));
    lemma_hex_round_trip(algorithm.spec_digest(data));
}

/// A wordlist of one line, searched for the hex digest of that line's
/// candidate, gives the candidate: the line is matched by what is left of it
/// when the whitespace around it is removed.
pub proof fn lemma_line_is_found_by_its_candidate(algorithm: Algorithm, line: Seq<char>)
    ensures
        crack_outcome(
            algorithm,
            algorithm.spec_hex_digest(encode_utf8(trimmed(line))),
            seq![line],
        ) == Ok::<Option<Seq<char>>, Failure>(Some(trimmed(line))),
{
    let data = encode_utf8(trimmed(line));
    let lines = seq![line];
    lemma_hex_digest_is_valid_target(algorithm, data);
    let target = algorithm.spec_digest(data);
    assert(lines[0] == line);
    assert(line_matches(algorithm, target, lines[0]));
    assert(is_first_match(algorithm, target, lines, 0));
    lemma_scan_finds_first_match(algorithm, target, lines, 0);
}

/// A word with no whitespace at either end, searched for by its own hex
/// digest in a wordlist that holds just that word, is found.
pub proof fn lemma_word_is_found_by_its_digest(algorithm: Algorithm, word: Seq<char>)
    requires
        trimmed(word) == word,
    ensures
        crack_outcome(algorithm, algorithm.spec_hex_digest(encode_utf8(word)), seq![word]) == Ok::<
            Option<Seq<char>>,
            Failure,
        >(Some(word)),
{
    lemma_line_is_found_by_its_candidate(algorithm, word);
}

/// Where no line of the wordlist hashes to a valid target, nothing is found,
/// and that is no failure.
pub proof fn lemma_no_match_is_not_found(
    algorithm: Algorithm,
    target_hex: Seq<char>,
    lines: Seq<Seq<char>>,
)
    requires
        is_valid_target(algorithm, target_hex),
        !has_match(algorithm, hex_decoding(target_hex), lines),
    ensures
        crack_outcome(algorithm, target_hex, lines) == Ok::<Option<Seq<char>>, Failure>(None),
{
    lemma_scan_without_match(algorithm, hex_decoding(target_hex), lines);
}

/// Nothing is found only where no line matches: a search that ends with
/// nothing found has tried every line.
pub proof fn lemma_not_found_means_no_match(
    algorithm: Algorithm,
    target: Seq<u8>,
    lines: Seq<Seq<char>>,
)
    requires
        scan_result(algorithm, target, lines) is None,
    ensures
        !has_match(algorithm, target, lines),
{
    if has_match(algorithm, target, lines) {
        let k = choose|i: int|
            0 <= i < lines.len() && line_matches(algorithm, target, #[trigger] lines[i]);
        lemma_some_match_has_first(algorithm, target, lines, k);
    }
}

/// Where line `k` matches, some line at or before `k` is the first match.
pub proof fn lemma_some_match_has_first(
    algorithm: Algorithm,
    target: Seq<u8>,
    lines: Seq<Seq<char>>,
    k: int,
)
    requires
        0 <= k < lines.len(),
        line_matches(algorithm, target, lines[k]),
    ensures
        exists|i: int| 0 <= i <= k && is_first_match(algorithm, target, lines, i),
    decreases k,
{
    if exists|j: int| 0 <= j < k && line_matches(algorithm, target, #[trigger] lines[j]) {
        let j = choose|j: int| 0 <= j < k && line_matches(algorithm, target, #[trigger] lines[j]);
        lemma_some_match_has_first(algorithm, target, lines, j);
    } else {
        assert(is_first_match(algorithm, target, lines, k));
    }
}

/// A target whose length is not twice the digest length fails the search
/// with `InvalidDigestFormat`, whatever the wordlist holds: the wordlist has
/// no part in the outcome.
pub proof fn lemma_wrong_length_is_invalid(
    algorithm: Algorithm,
    target_hex: Seq<char>,
    lines: Seq<Seq<char>>,
)
    requires
        target_hex.len() != 2 * algorithm.spec_digest_length(),
    ensures
        crack_outcome(algorithm, target_hex, lines) == Err::<Option<Seq<char>>, Failure>(
            Failure::InvalidDigestFormat,
        ),
{
}

/// The case of the target's letters has no part in the outcome.
pub proof fn lemma_target_case_is_ignored(
    algorithm: Algorithm,
    target_hex: Seq<char>,
    lines: Seq<Seq<char>>,
)
    ensures
        crack_outcome(algorithm, in_lower_case(target_hex), lines) == crack_outcome(
            algorithm,
            target_hex,
            lines,
        ),
{
    lemma_hex_decoding_ignores_case(target_hex);
}

/// Two searches with the same algorithm, target and wordlist end alike.
pub proof fn lemma_search_is_repeatable(
    algorithm: Algorithm,
    target_hex: Seq<char>,
    lines: Seq<Seq<char>>,
    first: Result<Option<Seq<char>>, Failure>,
    second: Result<Option<Seq<char>>, Failure>,
)
    requires
        first == crack_outcome(algorithm, target_hex, lines),
        second == crack_outcome(algorithm, target_hex, lines),
    ensures
        first == second,
{
}

/// Of several lines that match, the earliest is the one that is found.
pub proof fn lemma_earliest_match_wins(
    algorithm: Algorithm,
    target_hex: Seq<char>,
    lines: Seq<Seq<char>>,
    i: int,
)
    requires
        is_valid_target(algorithm, target_hex),
        is_first_match(algorithm, hex_decoding(target_hex), lines, i),
    ensures
        crack_outcome(algorithm, target_hex, lines) == Ok::<Option<Seq<char>>, Failure>(
            Some(candidate_of(lines[i])),
        ),
{
    lemma_scan_finds_first_match(algorithm, hex_decoding(target_hex), lines, i);
}

} // verus!
