//! The bot itself: its token and the handler it was given for messages.

use vstd::prelude::*;
use crate::api::{gateway_url, gateway_url_spec, get_request, get_request_spec, Request};

verus! {

/// A Discord bot: the token it authenticates with and its message handler.
pub struct Bot<F: FnMut() -> bool> {
    token: String,
    on_message: F,
}

impl<F: FnMut() -> bool> Bot<F> {
    /// The token of this bot.
    pub closed spec fn token_view(&self) -> Seq<char> {
        self.token@
    }

    /// The message handler of this bot.
    pub closed spec fn handler_view(&self) -> F {
        self.on_message
    }

    /// A bot with this token and message handler.
    pub fn new(token: &str, on_message: F) -> (res: Self)
        ensures
            res.token_view() == token@,
            res.handler_view() == on_message,
    {
        Bot { token: token.to_owned(), on_message: on_message }
    }

    /// The token of this bot.
    pub fn get_token(&self) -> (res: &str)
        ensures
            res@ == self.token_view(),
    {
        self.token.as_str()
    }

    /// Connecting does nothing yet: the bot is left as it was.
    pub fn connect(&self) {
    }

    /// The request that asks Discord where this bot's gateway is.
    pub fn gateway_request(&self) -> (res: Request)
        ensures
            res@ == get_request_spec(gateway_url_spec(), self.token_view()),
    {
        get_request(gateway_url(), self.token.as_str())
    }
}

} // verus!
