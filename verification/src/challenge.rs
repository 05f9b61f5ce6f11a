//! The shapes a game challenge is requested and answered with.

use vstd::prelude::*;

use crate::codec::{push_digits, spec_digits};
use crate::game_type::GameType;
use crate::text::{chars_to_string, push_str_chars};

verus! {

/// A request to open a game challenge.
pub struct NewGameRequest {
    /// Whether this challenge should be listed publicly.
    pub public: bool,
    /// Whether the game will be ranked.
    pub ranked: bool,
    /// Whether the game follows the tournament rule: the queen cannot
    /// be played first.
    pub tournament_queen_rule: bool,
    pub game_type: GameType,
}

/// The answer to a created challenge: where to find it.
pub struct NewGameResponse {
    pub challenge_url: String,
}

impl NewGameResponse {
    /// The URL under which the fresh challenge is reachable.
    pub fn new(challenge_id: i32) -> (r: NewGameResponse)
        requires
            0 <= challenge_id,
        ensures
            r.challenge_url@ == "/game/challenge/"@ + spec_digits(challenge_id as nat),
    {
        let mut v: Vec<char> = Vec::new();
        push_str_chars(&mut v, "/game/challenge/");
        push_digits(&mut v, challenge_id as u32);
        NewGameResponse { challenge_url: chars_to_string(&v) }
    }
}

} // verus!
