use hive_core::{
    AuthenticationError, Color, ControlEntry, DatabaseError, Game, GameControl, GameError,
    GameResult, GameStatus, GameType, NewGameResponse, ServerError,
};
use skillratings::glicko2::{glicko2, Glicko2Config, Glicko2Rating};
use skillratings::Outcomes;

fn fresh_game(rated: bool) -> Game {
    Game::new(
        1,
        "white-user".to_string(),
        "black-user".to_string(),
        GameType::Base,
        rated,
        true,
    )
}

#[test]
fn make_move_appends_and_advances() {
    let mut game = fresh_game(false);
    game.make_move("wQ (0,0)".to_string(), GameStatus::InProgress);
    assert_eq!(game.turn, 1);
    assert_eq!(game.history, vec!["wQ (0,0)".to_string()]);
    assert_eq!(game.game_status, GameStatus::InProgress);
    assert!(game.game_control_history.is_empty());
    assert!(!game.has_unanswered_game_control());
}

#[test]
fn offer_is_outstanding_until_answered() {
    let mut game = fresh_game(false);
    game.set_status(GameStatus::InProgress);
    game.write_game_control(GameControl::DrawOffer(Color::White))
        .unwrap();
    assert!(game.has_unanswered_game_control());
    assert_eq!(
        game.last_game_control(),
        Some(GameControl::DrawOffer(Color::White))
    );
    game.write_game_control(GameControl::DrawReject(Color::Black))
        .unwrap();
    assert!(!game.has_unanswered_game_control());
}

#[test]
fn takeback_request_is_outstanding_until_answered() {
    let mut game = fresh_game(false);
    game.set_status(GameStatus::InProgress);
    game.write_game_control(GameControl::TakebackRequest(Color::Black))
        .unwrap();
    assert!(game.has_unanswered_game_control());
    game.write_game_control(GameControl::TakebackReject(Color::White))
        .unwrap();
    assert!(!game.has_unanswered_game_control());
}

#[test]
fn second_offer_is_refused() {
    let mut game = fresh_game(false);
    game.set_status(GameStatus::InProgress);
    game.write_game_control(GameControl::DrawOffer(Color::White))
        .unwrap();
    let before = game.game_control_history.clone();
    let r = game.write_game_control(GameControl::TakebackRequest(Color::Black));
    assert_eq!(r, Err(GameError::ProtocolViolation));
    assert_eq!(game.game_control_history, before);
}

#[test]
fn move_implicitly_rejects_pending_offer() {
    // Example: at turn 5 White offers a draw; Black answers with a move.
    let mut game = fresh_game(false);
    game.set_status(GameStatus::InProgress);
    for (i, token) in ["wQ .", "bQ .", "wA1 .", "bA1 .", "wS1 ."].iter().enumerate() {
        game.make_move(token.to_string(), GameStatus::InProgress);
        assert_eq!(game.turn as usize, i + 1);
    }
    assert_eq!(game.turn, 5);
    game.write_game_control(GameControl::DrawOffer(Color::White))
        .unwrap();
    let controls_before = game.game_control_history.len();
    game.make_move("bS1 .".to_string(), GameStatus::InProgress);
    // exactly one implicit rejection, by the opposite color, at turn 5
    assert_eq!(game.game_control_history.len(), controls_before + 1);
    assert_eq!(
        game.game_control_history.last(),
        Some(&ControlEntry { turn: 5, control: GameControl::DrawReject(Color::Black) })
    );
    assert_eq!(game.turn, 6);
    assert!(!game.has_unanswered_game_control());
    let encoded = hive_core::encode_control_history(&game.game_control_history);
    assert_eq!(encoded, "5. DrawOffer(White);5. DrawReject(Black);");
}

#[test]
fn accept_draw_needs_outstanding_offer() {
    let mut game = fresh_game(true);
    game.set_status(GameStatus::InProgress);
    let r = game.accept_draw(GameControl::DrawAccept);
    assert_eq!(r, Err(GameError::ProtocolViolation));
    game.write_game_control(GameControl::DrawOffer(Color::Black))
        .unwrap();
    let out = game.accept_draw(GameControl::DrawAccept).unwrap();
    assert_eq!(out, Some(GameResult::Draw));
    assert_eq!(game.game_status, GameStatus::Finished(GameResult::Draw));
    assert!(!game.has_unanswered_game_control());
}

#[test]
fn accept_takeback_replaces_history_and_steps_back() {
    let mut game = fresh_game(false);
    game.set_status(GameStatus::InProgress);
    game.make_move("wQ .".to_string(), GameStatus::InProgress);
    game.make_move("bQ .".to_string(), GameStatus::InProgress);
    let r = game.accept_takeback(
        vec!["wQ .".to_string()],
        GameStatus::InProgress,
        GameControl::TakebackAccept,
    );
    assert_eq!(r, Err(GameError::ProtocolViolation));
    game.write_game_control(GameControl::TakebackRequest(Color::Black))
        .unwrap();
    game.accept_takeback(
        vec!["wQ .".to_string()],
        GameStatus::InProgress,
        GameControl::TakebackAccept,
    )
    .unwrap();
    assert_eq!(game.turn, 1);
    assert_eq!(game.history, vec!["wQ .".to_string()]);
    assert!(!game.has_unanswered_game_control());
}

#[test]
fn resignation_finishes_rated_game_and_updates_ratings() {
    // Example: Black resigns a rated game; White wins and both
    // players' ratings move in one logical transaction.
    let mut game = fresh_game(true);
    game.set_status(GameStatus::InProgress);
    let outcome = game.resign(
        GameControl::Resign(Color::Black),
        GameStatus::Finished(GameResult::Winner(Color::White)),
        Color::White,
    );
    assert_eq!(
        game.game_status,
        GameStatus::Finished(GameResult::Winner(Color::White))
    );
    assert_eq!(outcome, Some(GameResult::Winner(Color::White)));

    // the caller applies the Glicko-2 update the outcome asks for
    let white = Glicko2Rating::new();
    let black = Glicko2Rating::new();
    let config = Glicko2Config { tau: 0.5, ..Default::default() };
    let result = match outcome.unwrap() {
        GameResult::Winner(Color::White) => Outcomes::WIN,
        GameResult::Winner(Color::Black) => Outcomes::LOSS,
        GameResult::Draw => Outcomes::DRAW,
    };
    let (new_white, new_black) = glicko2(&white, &black, &result, &config);
    assert!(new_white.rating > white.rating);
    assert!(new_black.rating < black.rating);
}

#[test]
fn resignation_in_unrated_game_skips_ratings() {
    let mut game = fresh_game(false);
    game.set_status(GameStatus::InProgress);
    let outcome = game.resign(
        GameControl::Resign(Color::White),
        GameStatus::Finished(GameResult::Winner(Color::Black)),
        Color::Black,
    );
    assert_eq!(outcome, None);
    assert_eq!(
        game.game_status,
        GameStatus::Finished(GameResult::Winner(Color::Black))
    );
}

#[test]
fn row_roundtrip_preserves_record() {
    let mut game = fresh_game(true);
    game.set_status(GameStatus::InProgress);
    game.make_move("wQ (0,0)".to_string(), GameStatus::InProgress);
    game.make_move("bQ (1,0)".to_string(), GameStatus::InProgress);
    game.write_game_control(GameControl::DrawOffer(Color::White))
        .unwrap();
    let row = game.to_row();
    assert_eq!(row.history, "wQ (0,0);bQ (1,0);");
    assert_eq!(row.game_control_history, "2. DrawOffer(White);");
    assert_eq!(row.game_status, "InProgress");
    assert_eq!(row.game_type, "Base");
    let back = Game::from_row(game.id, &row).unwrap();
    assert_eq!(back.history, game.history);
    assert_eq!(back.game_control_history, game.game_control_history);
    assert_eq!(back.game_status, game.game_status);
    assert_eq!(back.game_type, game.game_type);
    assert_eq!(back.turn, game.turn);
    assert_eq!(back.rated, game.rated);
    assert_eq!(back.white_uid, game.white_uid);
    assert_eq!(back.black_uid, game.black_uid);
}

#[test]
fn from_row_rejects_bad_status() {
    let mut game = fresh_game(false);
    game.set_status(GameStatus::InProgress);
    let mut row = game.to_row();
    row.game_status = "Paused".to_string();
    assert!(matches!(
        Game::from_row(1, &row),
        Err(GameError::ParsingError { .. })
    ));
}

#[test]
fn challenge_url_carries_id() {
    let r = NewGameResponse::new(42);
    assert_eq!(r.challenge_url, "/game/challenge/42");
    let r0 = NewGameResponse::new(0);
    assert_eq!(r0.challenge_url, "/game/challenge/0");
}

#[test]
fn server_error_status_codes() {
    assert_eq!(
        ServerError::GameError(GameError::ProtocolViolation).status_code(),
        400
    );
    assert_eq!(
        ServerError::AuthenticationError(AuthenticationError::MissingToken).status_code(),
        401
    );
    assert_eq!(
        ServerError::AuthenticationError(AuthenticationError::Forbidden).status_code(),
        403
    );
    assert_eq!(
        ServerError::AuthenticationError(AuthenticationError::InternalError).status_code(),
        500
    );
    assert_eq!(
        ServerError::DatabaseError(DatabaseError::NotFound).status_code(),
        404
    );
    assert_eq!(
        ServerError::DatabaseError(DatabaseError::Other).status_code(),
        500
    );
    assert_eq!(ServerError::Unimplemented.status_code(), 500);
    let resp = ServerError::Unimplemented.error_response("not implemented".to_string());
    assert_eq!(resp.code, 500);
    assert_eq!(resp.message, "not implemented");
}
