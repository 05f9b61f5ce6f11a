//! The game record and its protocol state machine: the turn counter,
//! the two append-only logs, the status, and the one-outstanding-offer
//! discipline.

use vstd::prelude::*;
use vstd::pervasive::unreached;

use crate::codec::{
    decode_control_history, decode_history, encode_control_history, encode_history,
    lemma_control_log_roundtrip, lemma_tokens_roundtrip, spec_decode_control_log,
    spec_decode_tokens, spec_encode_control_log, spec_encode_tokens, strings_view, valid_token,
};
use crate::color::Color;
use crate::game_control::{ControlEntry, GameControl};
use crate::game_error::GameError;
use crate::game_status::{GameResult, GameStatus};
use crate::game_type::GameType;

verus! {

/// The persisted shape of a game record: both logs and the status in
/// their encoded string forms.
pub struct NewGame {
    pub black_uid: String,
    pub game_status: String,
    pub game_type: String,
    pub history: String,
    pub game_control_history: String,
    pub rated: bool,
    pub tournament_queen_rule: bool,
    pub turn: i32,
    pub white_uid: String,
}

/// A game record. The move log holds one token per half-move, without
/// the terminating delimiter; the control log holds each signal with
/// the turn at which it was raised.
pub struct Game {
    pub id: i32,
    pub black_uid: String,
    pub white_uid: String,
    pub game_type: GameType,
    pub rated: bool,
    pub tournament_queen_rule: bool,
    pub turn: i32,
    pub history: Vec<String>,
    pub game_control_history: Vec<ControlEntry>,
    pub game_status: GameStatus,
}

impl Game {
    /// Well-formedness: the turn counter and every logged turn are
    /// non-negative, and no move token contains the delimiter.
    pub open spec fn wf(self) -> bool {
        &&& 0 <= self.turn
        &&& forall|i: int|
            0 <= i < self.history@.len() ==> valid_token(#[trigger] strings_view(self.history@)[i])
        &&& forall|i: int|
            0 <= i < self.game_control_history@.len() ==> 0 <= (
            #[trigger] self.game_control_history@[i]).turn
    }

    /// The newest control signal, if any.
    pub open spec fn spec_last_control(self) -> Option<GameControl> {
        if self.game_control_history@.len() == 0 {
            None
        } else {
            Some(self.game_control_history@.last().control)
        }
    }

    /// Whether the newest control-log entry is an unresolved offer.
    /// Only the last entry is consulted, so at most one offer can be
    /// outstanding at a time.
    pub open spec fn spec_has_unanswered(self) -> bool {
        self.game_control_history@.len() > 0 && self.game_control_history@.last().control.is_offer()
    }

    /// The newest entry is an unresolved takeback request.
    pub open spec fn spec_outstanding_takeback(self) -> bool {
        self.game_control_history@.len() > 0 && (match self.game_control_history@.last().control {
            GameControl::TakebackRequest(_) => true,
            _ => false,
        })
    }

    /// The newest entry is an unresolved draw offer.
    pub open spec fn spec_outstanding_draw(self) -> bool {
        self.game_control_history@.len() > 0 && (match self.game_control_history@.last().control {
            GameControl::DrawOffer(_) => true,
            _ => false,
        })
    }

    /// A move is an implicit decline of the pending offer: the rejection
    /// is issued by the mover, the opponent of the offering color.
    pub open spec fn implicit_rejection(gc: GameControl) -> GameControl {
        match gc {
            GameControl::TakebackRequest(c) => GameControl::TakebackReject(c.spec_opposite()),
            GameControl::DrawOffer(c) => GameControl::DrawReject(c.spec_opposite()),
            _ => gc,
        }
    }

    /// A fresh record: empty logs, turn zero, not started.
    pub fn new(
        id: i32,
        white_uid: String,
        black_uid: String,
        game_type: GameType,
        rated: bool,
        tournament_queen_rule: bool,
    ) -> (g: Game)
        ensures
            g.wf(),
            g.id == id,
            g.white_uid@ == white_uid@,
            g.black_uid@ == black_uid@,
            g.game_type == game_type,
            g.rated == rated,
            g.tournament_queen_rule == tournament_queen_rule,
            g.turn == 0,
            g.history@.len() == 0,
            g.game_control_history@.len() == 0,
            g.game_status == GameStatus::NotStarted,
    {
        Game {
            id,
            black_uid,
            white_uid,
            game_type,
            rated,
            tournament_queen_rule,
            turn: 0,
            history: Vec::new(),
            game_control_history: Vec::new(),
            game_status: GameStatus::NotStarted,
        }
    }

    /// The newest control signal, if any.
    pub fn last_game_control(&self) -> (r: Option<GameControl>)
        ensures
            r == self.spec_last_control(),
    {
        let n = self.game_control_history.len();
        if n == 0 {
            None
        } else {
            Some(self.game_control_history[n - 1].control)
        }
    }

    /// True iff the newest control-log entry is a `TakebackRequest` or
    /// `DrawOffer` that has not been resolved.
    pub fn has_unanswered_game_control(&self) -> (r: bool)
        ensures
            r == self.spec_has_unanswered(),
    {
        match self.last_game_control() {
            Some(GameControl::TakebackRequest(_)) => true,
            Some(GameControl::DrawOffer(_)) => true,
            _ => false,
        }
    }

    /// Appends the move token, advances the turn, sets the status and,
    /// if an offer was outstanding, also logs the mover's implicit
    /// rejection of it - exactly one extra entry, with the offering
    /// color inverted. Afterwards no offer is outstanding.
    pub fn make_move(&mut self, board_move: String, new_game_status: GameStatus)
        requires
            old(self).wf(),
            valid_token(board_move@),
            !old(self).game_status.is_finished(),
            old(self).turn < i32::MAX,
        ensures
            final(self).wf(),
            final(self).history@ == old(self).history@.push(board_move),
            final(self).turn == old(self).turn + 1,
            final(self).game_status == new_game_status,
            final(self).game_control_history@ == if old(self).spec_has_unanswered() {
                old(self).game_control_history@.push(
                    ControlEntry {
                        turn: old(self).turn,
                        control: Game::implicit_rejection(
                            old(self).game_control_history@.last().control,
                        ),
                    },
                )
            } else {
                old(self).game_control_history@
            },
            !final(self).spec_has_unanswered(),
            final(self).id == old(self).id,
            final(self).white_uid == old(self).white_uid,
            final(self).black_uid == old(self).black_uid,
            final(self).game_type == old(self).game_type,
            final(self).rated == old(self).rated,
            final(self).tournament_queen_rule == old(self).tournament_queen_rule,
    {
        if self.has_unanswered_game_control() {
            let gc = match self.last_game_control() {
                Some(GameControl::TakebackRequest(c)) => GameControl::TakebackReject(c.opposite()),
                Some(GameControl::DrawOffer(c)) => GameControl::DrawReject(c.opposite()),
                _ => unreached(),
            };
            let entry = ControlEntry { turn: self.turn, control: gc };
            self.game_control_history.push(entry);
        }
        self.history.push(board_move);
        self.turn = self.turn + 1;
        self.game_status = new_game_status;
        proof {
            assert forall|i: int|
                0 <= i < self.history@.len() implies valid_token(
                #[trigger] strings_view(self.history@)[i],
            ) by {
                if i < old(self).history@.len() {
                    assert(strings_view(self.history@)[i] == strings_view(old(self).history@)[i]);
                } else {
                    assert(strings_view(self.history@)[i] == board_move@);
                }
            }
        }
    }

    /// Appends one control-log entry tagged with the current turn; the
    /// move log and turn counter are untouched. Raising a second offer
    /// while one is outstanding is refused, and nothing changes.
    pub fn write_game_control(&mut self, game_control: GameControl) -> (r: Result<
        (),
        GameError,
    >)
        requires
            old(self).wf(),
            !old(self).game_status.is_finished(),
        ensures
            match r {
                Ok(_) => {
                    &&& !(game_control.is_offer() && old(self).spec_has_unanswered())
                    &&& final(self).wf()
                    &&& final(self).game_control_history@ == old(self).game_control_history@.push(
                        ControlEntry { turn: old(self).turn, control: game_control },
                    )
                    &&& final(self).spec_has_unanswered() == game_control.is_offer()
                    &&& final(self).history == old(self).history
                    &&& final(self).turn == old(self).turn
                    &&& final(self).game_status == old(self).game_status
                    &&& final(self).id == old(self).id
                    &&& final(self).white_uid == old(self).white_uid
                    &&& final(self).black_uid == old(self).black_uid
                    &&& final(self).game_type == old(self).game_type
                    &&& final(self).rated == old(self).rated
                    &&& final(self).tournament_queen_rule == old(self).tournament_queen_rule
                },
                Err(e) => {
                    &&& game_control.is_offer() && old(self).spec_has_unanswered()
                    &&& e == GameError::ProtocolViolation
                    &&& *final(self) == *old(self)
                },
            },
    {
        let is_offer = match game_control {
            GameControl::TakebackRequest(_) => true,
            GameControl::DrawOffer(_) => true,
            _ => false,
        };
        if is_offer && self.has_unanswered_game_control() {
            return Err(GameError::ProtocolViolation);
        }
        let entry = ControlEntry { turn: self.turn, control: game_control };
        self.game_control_history.push(entry);
        Ok(())
    }

    /// Replaces the move log wholesale with the caller's rolled-back
    /// history, decrements the turn counter, sets the status and logs
    /// the acceptance. Refused, with nothing changed, unless a takeback
    /// request is the outstanding offer.
    pub fn accept_takeback(
        &mut self,
        new_history: Vec<String>,
        new_game_status: GameStatus,
        game_control: GameControl,
    ) -> (r: Result<(), GameError>)
        requires
            old(self).wf(),
            !old(self).game_status.is_finished(),
            old(self).turn >= 1,
            game_control == GameControl::TakebackAccept,
            forall|i: int|
                0 <= i < new_history@.len() ==> valid_token(
                    #[trigger] strings_view(new_history@)[i],
                ),
        ensures
            match r {
                Ok(_) => {
                    &&& old(self).spec_outstanding_takeback()
                    &&& final(self).wf()
                    &&& final(self).history == new_history
                    &&& final(self).turn == old(self).turn - 1
                    &&& final(self).game_status == new_game_status
                    &&& final(self).game_control_history@ == old(self).game_control_history@.push(
                        ControlEntry { turn: old(self).turn, control: GameControl::TakebackAccept },
                    )
                    &&& !final(self).spec_has_unanswered()
                    &&& final(self).id == old(self).id
                    &&& final(self).white_uid == old(self).white_uid
                    &&& final(self).black_uid == old(self).black_uid
                    &&& final(self).game_type == old(self).game_type
                    &&& final(self).rated == old(self).rated
                    &&& final(self).tournament_queen_rule == old(self).tournament_queen_rule
                },
                Err(e) => {
                    &&& !old(self).spec_outstanding_takeback()
                    &&& e == GameError::ProtocolViolation
                    &&& *final(self) == *old(self)
                },
            },
    {
        let outstanding = match self.last_game_control() {
            Some(GameControl::TakebackRequest(_)) => true,
            _ => false,
        };
        if !outstanding {
            return Err(GameError::ProtocolViolation);
        }
        let entry = ControlEntry { turn: self.turn, control: game_control };
        self.game_control_history.push(entry);
        self.history = new_history;
        self.turn = self.turn - 1;
        self.game_status = new_game_status;
        Ok(())
    }

    /// Logs the acceptance and finishes the game as a draw. Refused,
    /// with nothing changed, unless a draw offer is the outstanding
    /// offer. For rated games the returned outcome tells the caller to
    /// recompute both players' ratings from a draw.
    pub fn accept_draw(&mut self, game_control: GameControl) -> (r: Result<
        Option<GameResult>,
        GameError,
    >)
        requires
            old(self).wf(),
            !old(self).game_status.is_finished(),
            game_control == GameControl::DrawAccept,
        ensures
            match r {
                Ok(out) => {
                    &&& old(self).spec_outstanding_draw()
                    &&& final(self).wf()
                    &&& final(self).game_status == GameStatus::Finished(GameResult::Draw)
                    &&& final(self).game_control_history@ == old(self).game_control_history@.push(
                        ControlEntry { turn: old(self).turn, control: GameControl::DrawAccept },
                    )
                    &&& !final(self).spec_has_unanswered()
                    &&& out == if old(self).rated {
                        Some(GameResult::Draw)
                    } else {
                        None::<GameResult>
                    }
                    &&& final(self).history == old(self).history
                    &&& final(self).turn == old(self).turn
                    &&& final(self).id == old(self).id
                    &&& final(self).white_uid == old(self).white_uid
                    &&& final(self).black_uid == old(self).black_uid
                    &&& final(self).game_type == old(self).game_type
                    &&& final(self).rated == old(self).rated
                    &&& final(self).tournament_queen_rule == old(self).tournament_queen_rule
                },
                Err(e) => {
                    &&& !old(self).spec_outstanding_draw()
                    &&& e == GameError::ProtocolViolation
                    &&& *final(self) == *old(self)
                },
            },
    {
        let outstanding = match self.last_game_control() {
            Some(GameControl::DrawOffer(_)) => true,
            _ => false,
        };
        if !outstanding {
            return Err(GameError::ProtocolViolation);
        }
        let entry = ControlEntry { turn: self.turn, control: game_control };
        self.game_control_history.push(entry);
        self.game_status = GameStatus::Finished(GameResult::Draw);
        if self.rated {
            Ok(Some(GameResult::Draw))
        } else {
            Ok(None)
        }
    }

    /// Logs the resignation and finishes the game with the given
    /// winner. For rated games the returned outcome tells the caller to
    /// recompute both players' ratings; unrated games return `None` and
    /// skip the rating update entirely.
    pub fn resign(
        &mut self,
        game_control: GameControl,
        new_game_status: GameStatus,
        winner: Color,
    ) -> (r: Option<GameResult>)
        requires
            old(self).wf(),
            !old(self).game_status.is_finished(),
            matches!(game_control, GameControl::Resign(_)),
            new_game_status == GameStatus::Finished(GameResult::Winner(winner)),
        ensures
            final(self).wf(),
            final(self).game_status == GameStatus::Finished(GameResult::Winner(winner)),
            final(self).game_control_history@ == old(self).game_control_history@.push(
                ControlEntry { turn: old(self).turn, control: game_control },
            ),
            r == if old(self).rated {
                Some(GameResult::Winner(winner))
            } else {
                None::<GameResult>
            },
            final(self).history == old(self).history,
            final(self).turn == old(self).turn,
            final(self).id == old(self).id,
            final(self).white_uid == old(self).white_uid,
            final(self).black_uid == old(self).black_uid,
            final(self).game_type == old(self).game_type,
            final(self).rated == old(self).rated,
            final(self).tournament_queen_rule == old(self).tournament_queen_rule,
    {
        let entry = ControlEntry { turn: self.turn, control: game_control };
        self.game_control_history.push(entry);
        self.game_status = new_game_status;
        if self.rated {
            Some(GameResult::Winner(winner))
        } else {
            None
        }
    }

    /// Direct status override, for transitions that touch no log and no
    /// rating (marking a game started, abandoned, and the like).
    pub fn set_status(&mut self, status: GameStatus)
        requires
            old(self).wf(),
        ensures
            final(self).wf(),
            final(self).game_status == status,
            final(self).history == old(self).history,
            final(self).game_control_history == old(self).game_control_history,
            final(self).turn == old(self).turn,
            final(self).id == old(self).id,
            final(self).white_uid == old(self).white_uid,
            final(self).black_uid == old(self).black_uid,
            final(self).game_type == old(self).game_type,
            final(self).rated == old(self).rated,
            final(self).tournament_queen_rule == old(self).tournament_queen_rule,
    {
        self.game_status = status;
    }

    /// The persisted form of this record: both logs, the status and the
    /// game type in their encoded string forms.
    pub fn to_row(&self) -> (row: NewGame)
        requires
            self.wf(),
        ensures
            row.history@ == spec_encode_tokens(strings_view(self.history@)),
            row.game_control_history@ == spec_encode_control_log(self.game_control_history@),
            row.game_status@ == self.game_status.spec_str(),
            row.game_type@ == self.game_type.spec_str(),
            row.turn == self.turn,
            row.rated == self.rated,
            row.tournament_queen_rule == self.tournament_queen_rule,
            row.white_uid@ == self.white_uid@,
            row.black_uid@ == self.black_uid@,
    {
        NewGame {
            black_uid: self.black_uid.clone(),
            game_status: self.game_status.to_string(),
            game_type: self.game_type.to_string(),
            history: encode_history(&self.history),
            game_control_history: encode_control_history(&self.game_control_history),
            rated: self.rated,
            tournament_queen_rule: self.tournament_queen_rule,
            turn: self.turn,
            white_uid: self.white_uid.clone(),
        }
    }

    /// Rebuilds a record from its persisted form: succeeds exactly when
    /// the status, the game type and both logs parse and the stored turn
    /// is non-negative.
    pub fn from_row(id: i32, row: &NewGame) -> (r: Result<Game, GameError>)
        ensures
            match r {
                Ok(g) => {
                    &&& g.wf()
                    &&& g.id == id
                    &&& GameStatus::spec_parse(row.game_status@) == Some(g.game_status)
                    &&& GameType::spec_parse(row.game_type@) == Some(g.game_type)
                    &&& spec_decode_tokens(row.history@) == Some(strings_view(g.history@))
                    &&& spec_decode_control_log(row.game_control_history@) == Some(
                        g.game_control_history@,
                    )
                    &&& g.turn == row.turn && 0 <= row.turn
                    &&& g.rated == row.rated
                    &&& g.tournament_queen_rule == row.tournament_queen_rule
                    &&& g.white_uid@ == row.white_uid@
                    &&& g.black_uid@ == row.black_uid@
                },
                Err(e) => {
                    &&& e.is_parsing_error()
                    &&& (GameStatus::spec_parse(row.game_status@) is None || GameType::spec_parse(
                        row.game_type@,
                    ) is None || spec_decode_tokens(row.history@) is None
                        || spec_decode_control_log(row.game_control_history@) is None || row.turn
                        < 0)
                },
            },
    {
        let game_status = GameStatus::from_str(row.game_status.as_str())?;
        let game_type = GameType::from_str(row.game_type.as_str())?;
        let history = decode_history(row.history.as_str())?;
        let game_control_history = decode_control_history(row.game_control_history.as_str())?;
        if row.turn < 0 {
            return Err(GameError::ParsingError {
                found: row.game_status.clone(),
                typ: "non-negative turn counter".to_owned(),
            });
        }
        Ok(Game {
            id,
            black_uid: row.black_uid.clone(),
            white_uid: row.white_uid.clone(),
            game_type,
            rated: row.rated,
            tournament_queen_rule: row.tournament_queen_rule,
            turn: row.turn,
            history,
            game_control_history,
            game_status,
        })
    }
}

/// Every well-formed record survives persistence: decoding what
/// `to_row` encodes - both logs, the status and the game type - yields
/// exactly what was encoded, the empty logs included.
pub proof fn lemma_record_encoding_roundtrip(g: Game)
    requires
        g.wf(),
    ensures
        spec_decode_tokens(spec_encode_tokens(strings_view(g.history@))) == Some(
            strings_view(g.history@),
        ),
        spec_decode_control_log(spec_encode_control_log(g.game_control_history@)) == Some(
            g.game_control_history@,
        ),
        GameStatus::spec_parse(g.game_status.spec_str()) == Some(g.game_status),
        GameType::spec_parse(g.game_type.spec_str()) == Some(g.game_type),
{
    lemma_tokens_roundtrip(strings_view(g.history@));
    lemma_control_log_roundtrip(g.game_control_history@);
    crate::game_status::lemma_game_status_roundtrip(g.game_status);
    crate::game_type::lemma_game_type_roundtrip(g.game_type);
}

} // verus!
