//! Game lifecycle state and its persisted string form.

use vstd::prelude::*;

use crate::color::Color;
use crate::game_error::GameError;
use crate::text::str_eq;

verus! {

/// How a finished game ended.
#[derive(Clone, Copy, Debug, PartialEq, Eq, Structural, Hash)]
pub enum GameResult {
    Winner(Color),
    Draw,
}

/// Lifecycle: `NotStarted` to `InProgress` to `Finished`. Once finished,
/// the history and control logs may no longer change.
#[derive(Clone, Copy, Debug, PartialEq, Eq, Structural, Hash)]
pub enum GameStatus {
    NotStarted,
    InProgress,
    Finished(GameResult),
}

impl GameStatus {
    pub open spec fn is_finished(self) -> bool {
        match self {
            GameStatus::Finished(_) => true,
            _ => false,
        }
    }

    /// The persisted form of this status.
    pub open spec fn spec_str(self) -> Seq<char> {
        match self {
            GameStatus::NotStarted => "NotStarted"@,
            GameStatus::InProgress => "InProgress"@,
            GameStatus::Finished(GameResult::Winner(Color::White)) => "Finished:Winner(White)"@,
            GameStatus::Finished(GameResult::Winner(Color::Black)) => "Finished:Winner(Black)"@,
            GameStatus::Finished(GameResult::Draw) => "Finished:Draw"@,
        }
    }

    pub fn to_string(&self) -> (s: String)
        ensures
            s@ == self.spec_str(),
    {
        match self {
            GameStatus::NotStarted => "NotStarted",
            GameStatus::InProgress => "InProgress",
            GameStatus::Finished(GameResult::Winner(Color::White)) => "Finished:Winner(White)",
            GameStatus::Finished(GameResult::Winner(Color::Black)) => "Finished:Winner(Black)",
            GameStatus::Finished(GameResult::Draw) => "Finished:Draw",
        }.to_owned()
    }

    /// What parsing yields on a given text: the status whose persisted
    /// form it is, if any.
    pub open spec fn spec_parse(s: Seq<char>) -> Option<GameStatus> {
        if s == "NotStarted"@ {
            Some(GameStatus::NotStarted)
        } else if s == "InProgress"@ {
            Some(GameStatus::InProgress)
        } else if s == "Finished:Winner(White)"@ {
            Some(GameStatus::Finished(GameResult::Winner(Color::White)))
        } else if s == "Finished:Winner(Black)"@ {
            Some(GameStatus::Finished(GameResult::Winner(Color::Black)))
        } else if s == "Finished:Draw"@ {
            Some(GameStatus::Finished(GameResult::Draw))
        } else {
            None
        }
    }

    /// Parses the persisted form: succeeds exactly on the five strings
    /// that `to_string` produces.
    pub fn from_str(s: &str) -> (r: Result<GameStatus, GameError>)
        ensures
            match r {
                Ok(st) => GameStatus::spec_parse(s@) == Some(st),
                Err(e) => GameStatus::spec_parse(s@) is None && e.is_parsing_error(),
            },
    {
        if str_eq(s, "NotStarted") {
            Ok(GameStatus::NotStarted)
        } else if str_eq(s, "InProgress") {
            Ok(GameStatus::InProgress)
        } else if str_eq(s, "Finished:Winner(White)") {
            Ok(GameStatus::Finished(GameResult::Winner(Color::White)))
        } else if str_eq(s, "Finished:Winner(Black)") {
            Ok(GameStatus::Finished(GameResult::Winner(Color::Black)))
        } else if str_eq(s, "Finished:Draw") {
            Ok(GameStatus::Finished(GameResult::Draw))
        } else {
            Err(GameError::ParsingError {
                found: s.to_owned(),
                typ: "game status string".to_owned(),
            })
        }
    }
}

/// Encoding then parsing a status yields it back.
pub proof fn lemma_game_status_roundtrip(st: GameStatus)
    ensures
        GameStatus::spec_parse(st.spec_str()) == Some(st),
{
    reveal_strlit("NotStarted");
    reveal_strlit("InProgress");
    reveal_strlit("Finished:Winner(White)");
    reveal_strlit("Finished:Winner(Black)");
    reveal_strlit("Finished:Draw");
    assert("NotStarted"@.len() == 10 && "NotStarted"@[0] == 'N');
    assert("InProgress"@.len() == 10 && "InProgress"@[0] == 'I');
    assert("Finished:Winner(White)"@.len() == 22 && "Finished:Winner(White)"@[16] == 'W');
    assert("Finished:Winner(Black)"@.len() == 22 && "Finished:Winner(Black)"@[16] == 'B');
    assert("Finished:Draw"@.len() == 13);
}

} // verus!
