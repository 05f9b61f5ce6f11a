//! Which expansion bugs are in play, and its persisted string form
//! `Base(+M)?(+L)?(+P)?` in the fixed letter order M, L, P.

use vstd::prelude::*;

use crate::game_error::GameError;
use crate::text::str_eq;

verus! {

/// The base game, optionally extended by Mosquito (M), Ladybug (L) and
/// Pillbug (P), in any combination.
#[derive(Clone, Copy, Debug, PartialEq, Eq, Structural, Hash)]
pub enum GameType {
    Base,
    M,
    L,
    P,
    ML,
    MP,
    LP,
    MLP,
}

impl Default for GameType {
    fn default() -> (r: Self)
        ensures
            r == GameType::Base,
    {
        GameType::Base
    }
}

impl GameType {
    /// The persisted form of this game type.
    pub open spec fn spec_str(self) -> Seq<char> {
        match self {
            GameType::Base => "Base"@,
            GameType::M => "Base+M"@,
            GameType::L => "Base+L"@,
            GameType::P => "Base+P"@,
            GameType::ML => "Base+ML"@,
            GameType::MP => "Base+MP"@,
            GameType::LP => "Base+LP"@,
            GameType::MLP => "Base+MLP"@,
        }
    }

    pub fn to_string(&self) -> (s: String)
        ensures
            s@ == self.spec_str(),
    {
        match self {
            GameType::Base => "Base",
            GameType::M => "Base+M",
            GameType::L => "Base+L",
            GameType::P => "Base+P",
            GameType::ML => "Base+ML",
            GameType::MP => "Base+MP",
            GameType::LP => "Base+LP",
            GameType::MLP => "Base+MLP",
        }.to_owned()
    }

    /// What parsing yields on a given text: the game type whose persisted
    /// form it is, if any.
    pub open spec fn spec_parse(s: Seq<char>) -> Option<GameType> {
        if s == "Base"@ {
            Some(GameType::Base)
        } else if s == "Base+M"@ {
            Some(GameType::M)
        } else if s == "Base+L"@ {
            Some(GameType::L)
        } else if s == "Base+P"@ {
            Some(GameType::P)
        } else if s == "Base+ML"@ {
            Some(GameType::ML)
        } else if s == "Base+MP"@ {
            Some(GameType::MP)
        } else if s == "Base+LP"@ {
            Some(GameType::LP)
        } else if s == "Base+MLP"@ {
            Some(GameType::MLP)
        } else {
            None
        }
    }

    /// Parses the persisted form: succeeds exactly on the eight strings
    /// that `to_string` produces, and returns the matching game type.
    pub fn from_str(s: &str) -> (r: Result<GameType, GameError>)
        ensures
            match r {
                Ok(gt) => GameType::spec_parse(s@) == Some(gt),
                Err(e) => GameType::spec_parse(s@) is None && e.is_parsing_error(),
            },
    {
        if str_eq(s, "Base") {
            Ok(GameType::Base)
        } else if str_eq(s, "Base+M") {
            Ok(GameType::M)
        } else if str_eq(s, "Base+L") {
            Ok(GameType::L)
        } else if str_eq(s, "Base+P") {
            Ok(GameType::P)
        } else if str_eq(s, "Base+ML") {
            Ok(GameType::ML)
        } else if str_eq(s, "Base+MP") {
            Ok(GameType::MP)
        } else if str_eq(s, "Base+LP") {
            Ok(GameType::LP)
        } else if str_eq(s, "Base+MLP") {
            Ok(GameType::MLP)
        } else {
            Err(GameError::ParsingError {
                found: s.to_owned(),
                typ: "game type string".to_owned(),
            })
        }
    }
}

/// Encoding then parsing a game type yields it back.
pub proof fn lemma_game_type_roundtrip(gt: GameType)
    ensures
        GameType::spec_parse(gt.spec_str()) == Some(gt),
{
    reveal_strlit("Base");
    reveal_strlit("Base+M");
    reveal_strlit("Base+L");
    reveal_strlit("Base+P");
    reveal_strlit("Base+ML");
    reveal_strlit("Base+MP");
    reveal_strlit("Base+LP");
    reveal_strlit("Base+MLP");
    assert("Base"@.len() == 4);
    assert("Base+M"@.len() == 6 && "Base+M"@[5] == 'M');
    assert("Base+L"@.len() == 6 && "Base+L"@[5] == 'L');
    assert("Base+P"@.len() == 6 && "Base+P"@[5] == 'P');
    assert("Base+ML"@.len() == 7 && "Base+ML"@[5] == 'M' && "Base+ML"@[6] == 'L');
    assert("Base+MP"@.len() == 7 && "Base+MP"@[5] == 'M' && "Base+MP"@[6] == 'P');
    assert("Base+LP"@.len() == 7 && "Base+LP"@[5] == 'L' && "Base+LP"@[6] == 'P');
    assert("Base+MLP"@.len() == 8);
    match gt {
        GameType::Base => assert(GameType::spec_parse("Base"@) == Some(GameType::Base)),
        GameType::M => assert(GameType::spec_parse("Base+M"@) == Some(GameType::M)),
        GameType::L => assert(GameType::spec_parse("Base+L"@) == Some(GameType::L)),
        GameType::P => assert(GameType::spec_parse("Base+P"@) == Some(GameType::P)),
        GameType::ML => assert(GameType::spec_parse("Base+ML"@) == Some(GameType::ML)),
        GameType::MP => assert(GameType::spec_parse("Base+MP"@) == Some(GameType::MP)),
        GameType::LP => assert(GameType::spec_parse("Base+LP"@) == Some(GameType::LP)),
        GameType::MLP => assert(GameType::spec_parse("Base+MLP"@) == Some(GameType::MLP)),
    }
}

} // verus!
