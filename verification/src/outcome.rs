//! What a search ends in: its result, or the reason why it could not be made.

use vstd::prelude::*;

verus! {

/// The result of a search that ran to its end.
#[derive(Debug, PartialEq, Eq)]
pub enum CrackResult {
    /// A line of the wordlist hashes to the target; this is the line, trimmed.
    Found(String),
    /// The wordlist was read to its end and no line hashes to the target.
    NotFound,
}

/// Why a search could not be made or could not be finished.
#[derive(Debug, PartialEq, Eq)]
pub enum CrackError {
    /// The target is not the hex notation of a digest of the algorithm: it has
    /// the wrong length or holds a character that is no hex digit.
    InvalidDigestFormat,
    /// The wordlist could not be opened or read; the text says why.
    WordlistUnavailable(String),
}

/// The mathematical value of a `CrackError`.
pub enum Failure {
    InvalidDigestFormat,
    WordlistUnavailable(Seq<char>),
}

impl View for CrackResult {
    type V = Option<Seq<char>>;

    /// The candidate that was found, if any.
    open spec fn view(&self) -> Option<Seq<char>> {
        match self {
            CrackResult::Found(candidate) => Some(candidate@),
            CrackResult::NotFound => None,
        }
    }
}

impl View for CrackError {
    type V = Failure;

    open spec fn view(&self) -> Failure {
        match self {
            CrackError::InvalidDigestFormat => Failure::InvalidDigestFormat,
            CrackError::WordlistUnavailable(cause) => Failure::WordlistUnavailable(cause@),
        }
    }
}

/// The mathematical value of what a search returns.
pub open spec fn outcome_view(r: Result<CrackResult, CrackError>) -> Result<
    Option<Seq<char>>,
    Failure,
> {
    match r {
        Ok(result) => Ok(result@),
        Err(error) => Err(error@),
    }
}

impl CrackResult {
    /// Whether a candidate was found.
    pub fn is_found(&self) -> (b: bool)
        ensures
            b == (self@ is Some),
    {
        match self {
            CrackResult::Found(_) => true,
            CrackResult::NotFound => false,
        }
    }

    /// The candidate that was found, if any.
    pub fn candidate(&self) -> (c: Option<&str>)
        ensures
            match c {
                Some(text) => self@ == Some(text@),
                None => self@ is None,
            },
    {
        match self {
            CrackResult::Found(candidate) => Some(candidate.as_str()),
            CrackResult::NotFound => None,
        }
    }
}

} // verus!
