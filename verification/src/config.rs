//! The settings of a chat front end: the token it signs in with and the
//! prefix that marks a message as a command.
//!
//! Neither value is built into the program: whoever starts it supplies both.

use vstd::prelude::*;

verus! {

/// The settings of the front end.
pub struct Config {
    token: String,
    prefix: String,
}

impl Config {
    /// The token, as a sequence of characters.
    pub closed spec fn spec_token(&self) -> Seq<char> {
        self.token@
    }

    /// The prefix, as a sequence of characters.
    pub closed spec fn spec_prefix(&self) -> Seq<char> {
        self.prefix@
    }

    /// Settings that hold the given token and prefix.
    pub fn new(token: String, prefix: String) -> (config: Config)
        ensures
            config.spec_token() == token@,
            config.spec_prefix() == prefix@,
    {
        Config { token, prefix }
    }

    /// The token that the front end signs in with.
    pub fn token(&self) -> (token: &str)
        ensures
            token@ == self.spec_token(),
    {
        self.token.as_str()
    }

    /// The prefix that marks a message as a command.
    pub fn prefix(&self) -> (prefix: &str)
        ensures
            prefix@ == self.spec_prefix(),
    {
        self.prefix.as_str()
    }
}

} // verus!
