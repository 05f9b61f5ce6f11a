//! In-band protocol signals: draw offer/accept/reject, takeback
//! request/accept/reject, resignation.

use vstd::prelude::*;

use crate::color::Color;
use crate::game_error::GameError;
use crate::text::str_eq;

verus! {

/// A control signal. Only `TakebackRequest` and `DrawOffer` can be
/// outstanding; accepts, rejects and resignation resolve or end play.
#[derive(Clone, Copy, Debug, PartialEq, Eq, Structural, Hash)]
pub enum GameControl {
    TakebackRequest(Color),
    TakebackAccept,
    TakebackReject(Color),
    DrawOffer(Color),
    DrawAccept,
    DrawReject(Color),
    Resign(Color),
}

impl GameControl {
    /// Whether this signal, as the newest control-log entry, leaves an
    /// offer waiting for the other player.
    pub open spec fn is_offer(self) -> bool {
        match self {
            GameControl::TakebackRequest(_) => true,
            GameControl::DrawOffer(_) => true,
            _ => false,
        }
    }

    /// The persisted token for this signal.
    pub open spec fn spec_str(self) -> Seq<char> {
        match self {
            GameControl::TakebackRequest(Color::White) => "TakebackRequest(White)"@,
            GameControl::TakebackRequest(Color::Black) => "TakebackRequest(Black)"@,
            GameControl::TakebackAccept => "TakebackAccept"@,
            GameControl::TakebackReject(Color::White) => "TakebackReject(White)"@,
            GameControl::TakebackReject(Color::Black) => "TakebackReject(Black)"@,
            GameControl::DrawOffer(Color::White) => "DrawOffer(White)"@,
            GameControl::DrawOffer(Color::Black) => "DrawOffer(Black)"@,
            GameControl::DrawAccept => "DrawAccept"@,
            GameControl::DrawReject(Color::White) => "DrawReject(White)"@,
            GameControl::DrawReject(Color::Black) => "DrawReject(Black)"@,
            GameControl::Resign(Color::White) => "Resign(White)"@,
            GameControl::Resign(Color::Black) => "Resign(Black)"@,
        }
    }

    pub fn to_string(&self) -> (s: String)
        ensures
            s@ == self.spec_str(),
    {
        match self {
            GameControl::TakebackRequest(Color::White) => "TakebackRequest(White)",
            GameControl::TakebackRequest(Color::Black) => "TakebackRequest(Black)",
            GameControl::TakebackAccept => "TakebackAccept",
            GameControl::TakebackReject(Color::White) => "TakebackReject(White)",
            GameControl::TakebackReject(Color::Black) => "TakebackReject(Black)",
            GameControl::DrawOffer(Color::White) => "DrawOffer(White)",
            GameControl::DrawOffer(Color::Black) => "DrawOffer(Black)",
            GameControl::DrawAccept => "DrawAccept",
            GameControl::DrawReject(Color::White) => "DrawReject(White)",
            GameControl::DrawReject(Color::Black) => "DrawReject(Black)",
            GameControl::Resign(Color::White) => "Resign(White)",
            GameControl::Resign(Color::Black) => "Resign(Black)",
        }.to_owned()
    }

    /// What parsing yields on a given text: the signal whose persisted
    /// token it is, if any.
    pub open spec fn spec_parse(s: Seq<char>) -> Option<GameControl> {
        if s == "TakebackRequest(White)"@ {
            Some(GameControl::TakebackRequest(Color::White))
        } else if s == "TakebackRequest(Black)"@ {
            Some(GameControl::TakebackRequest(Color::Black))
        } else if s == "TakebackAccept"@ {
            Some(GameControl::TakebackAccept)
        } else if s == "TakebackReject(White)"@ {
            Some(GameControl::TakebackReject(Color::White))
        } else if s == "TakebackReject(Black)"@ {
            Some(GameControl::TakebackReject(Color::Black))
        } else if s == "DrawOffer(White)"@ {
            Some(GameControl::DrawOffer(Color::White))
        } else if s == "DrawOffer(Black)"@ {
            Some(GameControl::DrawOffer(Color::Black))
        } else if s == "DrawAccept"@ {
            Some(GameControl::DrawAccept)
        } else if s == "DrawReject(White)"@ {
            Some(GameControl::DrawReject(Color::White))
        } else if s == "DrawReject(Black)"@ {
            Some(GameControl::DrawReject(Color::Black))
        } else if s == "Resign(White)"@ {
            Some(GameControl::Resign(Color::White))
        } else if s == "Resign(Black)"@ {
            Some(GameControl::Resign(Color::Black))
        } else {
            None
        }
    }

    /// Parses a persisted token: succeeds exactly on the twelve tokens
    /// that `to_string` produces.
    pub fn from_str(s: &str) -> (r: Result<GameControl, GameError>)
        ensures
            match r {
                Ok(gc) => GameControl::spec_parse(s@) == Some(gc),
                Err(e) => GameControl::spec_parse(s@) is None && e.is_parsing_error(),
            },
    {
        if str_eq(s, "TakebackRequest(White)") {
            Ok(GameControl::TakebackRequest(Color::White))
        } else if str_eq(s, "TakebackRequest(Black)") {
            Ok(GameControl::TakebackRequest(Color::Black))
        } else if str_eq(s, "TakebackAccept") {
            Ok(GameControl::TakebackAccept)
        } else if str_eq(s, "TakebackReject(White)") {
            Ok(GameControl::TakebackReject(Color::White))
        } else if str_eq(s, "TakebackReject(Black)") {
            Ok(GameControl::TakebackReject(Color::Black))
        } else if str_eq(s, "DrawOffer(White)") {
            Ok(GameControl::DrawOffer(Color::White))
        } else if str_eq(s, "DrawOffer(Black)") {
            Ok(GameControl::DrawOffer(Color::Black))
        } else if str_eq(s, "DrawAccept") {
            Ok(GameControl::DrawAccept)
        } else if str_eq(s, "DrawReject(White)") {
            Ok(GameControl::DrawReject(Color::White))
        } else if str_eq(s, "DrawReject(Black)") {
            Ok(GameControl::DrawReject(Color::Black))
        } else if str_eq(s, "Resign(White)") {
            Ok(GameControl::Resign(Color::White))
        } else if str_eq(s, "Resign(Black)") {
            Ok(GameControl::Resign(Color::Black))
        } else {
            Err(GameError::ParsingError {
                found: s.to_owned(),
                typ: "game control string".to_owned(),
            })
        }
    }
}

/// One control-log record: the signal and the turn at which it was
/// raised.
#[derive(Clone, Copy, Debug, PartialEq, Eq, Structural, Hash)]
pub struct ControlEntry {
    pub turn: i32,
    pub control: GameControl,
}

/// Reveals the twelve control tokens and records the facts that tell
/// them apart.
pub proof fn lemma_game_control_token_facts()
    ensures
        "TakebackRequest(White)"@.len() == 22 && "TakebackRequest(White)"@[16] == 'W',
        "TakebackRequest(Black)"@.len() == 22 && "TakebackRequest(Black)"@[16] == 'B',
        "TakebackAccept"@.len() == 14,
        "TakebackReject(White)"@.len() == 21 && "TakebackReject(White)"@[15] == 'W',
        "TakebackReject(Black)"@.len() == 21 && "TakebackReject(Black)"@[15] == 'B',
        "DrawOffer(White)"@.len() == 16 && "DrawOffer(White)"@[10] == 'W',
        "DrawOffer(Black)"@.len() == 16 && "DrawOffer(Black)"@[10] == 'B',
        "DrawAccept"@.len() == 10,
        "DrawReject(White)"@.len() == 17 && "DrawReject(White)"@[11] == 'W',
        "DrawReject(Black)"@.len() == 17 && "DrawReject(Black)"@[11] == 'B',
        "Resign(White)"@.len() == 13 && "Resign(White)"@[7] == 'W',
        "Resign(Black)"@.len() == 13 && "Resign(Black)"@[7] == 'B',
        "TakebackRequest(White)"@[0] == 'T' && "DrawOffer(White)"@[0] == 'D',
        "DrawAccept"@[0] == 'D' && "TakebackAccept"@[0] == 'T',
        "DrawReject(White)"@[0] == 'D' && "Resign(White)"@[0] == 'R',
{
    reveal_strlit("TakebackRequest(White)");
    reveal_strlit("TakebackRequest(Black)");
    reveal_strlit("TakebackAccept");
    reveal_strlit("TakebackReject(White)");
    reveal_strlit("TakebackReject(Black)");
    reveal_strlit("DrawOffer(White)");
    reveal_strlit("DrawOffer(Black)");
    reveal_strlit("DrawAccept");
    reveal_strlit("DrawReject(White)");
    reveal_strlit("DrawReject(Black)");
    reveal_strlit("Resign(White)");
    reveal_strlit("Resign(Black)");
}

/// Encoding then parsing a control signal yields it back.
pub proof fn lemma_game_control_roundtrip(gc: GameControl)
    ensures
        GameControl::spec_parse(gc.spec_str()) == Some(gc),
{
    lemma_game_control_token_facts();
}

} // verus!
