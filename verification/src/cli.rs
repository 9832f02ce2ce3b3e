//! The command line of the search: what the arguments ask for, and the
//! messages that report how a search ended.

use crate::outcome::{CrackError, CrackResult, Failure};
use crate::text::{trim, trimmed};
use vstd::prelude::*;
use vstd::string::StringExecFns;

verus! {

/// What a command line asks for.
pub struct Invocation {
    /// Where the wordlist is to be read from.
    pub wordlist_path: String,
    /// The target digest in hex notation, without whitespace around it.
    pub target_hex: String,
}

/// Reads the arguments of the program, its own name first.
///
/// Exactly two arguments must follow the name: the path of the wordlist and
/// the target digest. The digest is taken without the whitespace around it.
/// Any other number of arguments asks for nothing.
pub fn parse_args(args: &Vec<String>) -> (r: Option<Invocation>)
    ensures
        match r {
            Some(invocation) => {
                &&& args@.len() == 3
                &&& invocation.wordlist_path@ == args@[1]@
                &&& invocation.target_hex@ == trimmed(args@[2]@)
            },
            None => args@.len() != 3,
        },
{
    if args.len() != 3 {
        return None;
    }
    let wordlist_path = args[1].clone();
    let target_hex = String::from_str(trim(args[2].as_str()));
    Some(Invocation { wordlist_path, target_hex })
}

/// The line that tells how `program` is to be called.
pub fn usage(program: &str) -> (line: String)
    ensures
        line@ == "Usage: "@ + program@ + " <wordlist_path> <target_hash_hex>"@,
{
    let mut line = String::from_str("Usage: ");
    line.append(program);
    line.append(" <wordlist_path> <target_hash_hex>");
    line
}

impl CrackResult {
    /// The message that reports this result. For a candidate that was found
    /// it ends with the candidate, letter for letter.
    pub fn message(&self) -> (text: String)
        ensures
            match self@ {
                Some(candidate) => text@ == "[+] Password found: "@ + candidate,
                None => text@ == "[-] Hash not found."@,
            },
    {
        match self {
            CrackResult::Found(candidate) => {
                let mut text = String::from_str("[+] Password found: ");
                text.append(candidate.as_str());
                text
            },
            CrackResult::NotFound => String::from_str("[-] Hash not found."),
        }
    }
}

impl CrackError {
    /// The message that reports this error. For a wordlist that could not be
    /// read it ends with the cause.
    pub fn message(&self) -> (text: String)
        ensures
            match self@ {
                Failure::InvalidDigestFormat => text@ == "[!] Hash not valid!"@,
                Failure::WordlistUnavailable(cause) => text@
                    == "[!] Wordlist not readable: "@ + cause,
            },
    {
        match self {
            CrackError::InvalidDigestFormat => String::from_str("[!] Hash not valid!"),
            CrackError::WordlistUnavailable(cause) => {
                let mut text = String::from_str("[!] Wordlist not readable: ");
                text.append(cause.as_str());
                text
            },
        }
    }
}

} // verus!
