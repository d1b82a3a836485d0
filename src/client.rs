//! The entry point: one bearer token, handed to each group of endpoints.
use vstd::prelude::*;
use crate::bots::BotsAPI;
use crate::emoji::EmojiAPI;
use crate::reactions::ReactionsApi;

verus! {

/// Holds the bearer token for the lifetime of the client; it is never changed.
#[derive(Debug)]
pub struct SlackClient {
    pub token: String,
}

impl SlackClient {
    pub fn new(token: &str) -> (r: Self)
        ensures
            r.token@ == token@,
    {
        SlackClient { token: token.to_owned() }
    }

    pub fn emoji(&self) -> (r: EmojiAPI)
        ensures
            r.token == self.token,
    {
        EmojiAPI { token: self.token.clone() }
    }

    pub fn reactions(&self) -> (r: ReactionsApi)
        ensures
            r.token == self.token,
    {
        ReactionsApi { token: self.token.clone() }
    }

    pub fn bots(&self) -> (r: BotsAPI)
        ensures
            r.token == self.token,
    {
        BotsAPI { token: self.token.clone() }
    }
}

} // verus!
