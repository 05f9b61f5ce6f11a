use hive_core::{
    decode_control_history, decode_history, encode_control_history, encode_history, ControlEntry,
    Color, GameControl, GameError, GameStatus, GameResult, GameType,
};

#[test]
fn history_roundtrip_empty() {
    let moves: Vec<String> = Vec::new();
    let encoded = encode_history(&moves);
    assert_eq!(encoded, "");
    assert_eq!(decode_history(&encoded).unwrap(), moves);
}

#[test]
fn history_roundtrip_moves() {
    let moves = vec![
        "wQ (0,0)".to_string(),
        "bS1 (1,0)".to_string(),
        "wA1 (-1,0)".to_string(),
    ];
    let encoded = encode_history(&moves);
    assert_eq!(encoded, "wQ (0,0);bS1 (1,0);wA1 (-1,0);");
    assert_eq!(decode_history(&encoded).unwrap(), moves);
}

#[test]
fn decode_history_rejects_unterminated() {
    let r = decode_history("wQ (0,0);bS1 (1,0)");
    assert!(matches!(r, Err(GameError::ParsingError { .. })));
}

#[test]
fn control_history_roundtrip_empty() {
    let log: Vec<ControlEntry> = Vec::new();
    let encoded = encode_control_history(&log);
    assert_eq!(encoded, "");
    assert_eq!(decode_control_history(&encoded).unwrap(), log);
}

#[test]
fn control_history_roundtrip_entries() {
    let log = vec![
        ControlEntry { turn: 5, control: GameControl::DrawOffer(Color::White) },
        ControlEntry { turn: 5, control: GameControl::DrawReject(Color::Black) },
        ControlEntry { turn: 12, control: GameControl::TakebackRequest(Color::Black) },
        ControlEntry { turn: 12, control: GameControl::TakebackAccept },
        ControlEntry { turn: 30, control: GameControl::Resign(Color::White) },
    ];
    let encoded = encode_control_history(&log);
    let expected = "5. DrawOffer(White);5. DrawReject(Black);12. TakebackRequest(Black);12. TakebackAccept;30. Resign(White);";
    assert_eq!(encoded, expected);
    assert_eq!(decode_control_history(&encoded).unwrap(), log);
}

#[test]
fn decode_control_rejects_missing_turn() {
    let r = decode_control_history("DrawOffer(White);");
    assert!(matches!(r, Err(GameError::ParsingError { .. })));
}

#[test]
fn decode_control_rejects_missing_space() {
    let r = decode_control_history("5.DrawOffer(White);");
    assert!(matches!(r, Err(GameError::ParsingError { .. })));
}

#[test]
fn decode_control_rejects_bad_digits() {
    let r = decode_control_history("5x. DrawOffer(White);");
    assert!(matches!(r, Err(GameError::ParsingError { .. })));
}

#[test]
fn decode_control_rejects_huge_turn() {
    let r = decode_control_history("99999999999. DrawAccept;");
    assert!(matches!(r, Err(GameError::ParsingError { .. })));
}

#[test]
fn decode_control_rejects_unknown_signal() {
    let r = decode_control_history("5. DrawMaybe(White);");
    assert!(matches!(r, Err(GameError::ParsingError { .. })));
}

#[test]
fn game_type_strings_roundtrip() {
    let cases = [
        (GameType::Base, "Base"),
        (GameType::M, "Base+M"),
        (GameType::L, "Base+L"),
        (GameType::P, "Base+P"),
        (GameType::ML, "Base+ML"),
        (GameType::MP, "Base+MP"),
        (GameType::LP, "Base+LP"),
        (GameType::MLP, "Base+MLP"),
    ];
    for (gt, s) in cases {
        assert_eq!(gt.to_string(), s);
        assert_eq!(GameType::from_str(s).unwrap(), gt);
    }
    assert!(matches!(
        GameType::from_str("Base+X"),
        Err(GameError::ParsingError { .. })
    ));
}

#[test]
fn game_status_strings_roundtrip() {
    let cases = [
        (GameStatus::NotStarted, "NotStarted"),
        (GameStatus::InProgress, "InProgress"),
        (
            GameStatus::Finished(GameResult::Winner(Color::White)),
            "Finished:Winner(White)",
        ),
        (
            GameStatus::Finished(GameResult::Winner(Color::Black)),
            "Finished:Winner(Black)",
        ),
        (GameStatus::Finished(GameResult::Draw), "Finished:Draw"),
    ];
    for (st, s) in cases {
        assert_eq!(st.to_string(), s);
        assert_eq!(GameStatus::from_str(s).unwrap(), st);
    }
    assert!(matches!(
        GameStatus::from_str("Paused"),
        Err(GameError::ParsingError { .. })
    ));
}

#[test]
fn game_control_strings_roundtrip() {
    let all = [
        GameControl::TakebackRequest(Color::White),
        GameControl::TakebackRequest(Color::Black),
        GameControl::TakebackAccept,
        GameControl::TakebackReject(Color::White),
        GameControl::TakebackReject(Color::Black),
        GameControl::DrawOffer(Color::White),
        GameControl::DrawOffer(Color::Black),
        GameControl::DrawAccept,
        GameControl::DrawReject(Color::White),
        GameControl::DrawReject(Color::Black),
        GameControl::Resign(Color::White),
        GameControl::Resign(Color::Black),
    ];
    for gc in all {
        assert_eq!(GameControl::from_str(&gc.to_string()).unwrap(), gc);
    }
    assert!(matches!(
        GameControl::from_str("DrawOffer(Green)"),
        Err(GameError::ParsingError { .. })
    ));
}
