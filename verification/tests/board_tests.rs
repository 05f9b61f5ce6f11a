use hive_core::{Board, Bug, Color, Piece, Player, Position};

#[test]
fn neighbor_positions_of_origin() {
    let board = Board::new();
    let n = board.neighbor_positions(&Position(0, 0));
    assert_eq!(
        n,
        vec![
            Position(-1, -1),
            Position(0, -1),
            Position(1, 0),
            Position(0, 1),
            Position(-1, 1),
            Position(-1, 0),
        ]
    );
}

#[test]
fn neighbor_positions_distinct() {
    let board = Board::new();
    let n = board.neighbor_positions(&Position(3, -2));
    assert_eq!(n.len(), 6);
    for i in 0..6 {
        for j in 0..6 {
            if i != j {
                assert_ne!(n[i], n[j]);
            }
        }
    }
}

#[test]
fn neighbor_adjacency_symmetric_east_west() {
    let board = Board::new();
    let p = Position(0, 0);
    let east = Position(1, 0);
    assert!(board.neighbor_positions(&p).contains(&east));
    assert!(board.neighbor_positions(&east).contains(&p));
    let ne = Position(0, -1);
    assert!(board.neighbor_positions(&p).contains(&ne));
    assert!(board.neighbor_positions(&ne).contains(&p));
}

#[test]
fn spawnable_on_empty_board() {
    // Example: empty board, White at (0,0).
    let board = Board::new();
    assert!(board.spawnable(Color::White, &Position(0, 0)));
}

#[test]
fn spawnable_with_one_piece() {
    // Example: only a Black piece at (1,0); fewer than 2 pieces total.
    let mut board = Board::new();
    board.spawn(&Position(1, 0), Bug::Spider, Color::Black, 1);
    assert!(board.spawnable(Color::White, &Position(0, 0)));
}

#[test]
fn spawnable_next_to_enemy_and_friend() {
    // Example: White at (0,0), Black at (1,0).
    let mut board = Board::new();
    board.spawn(&Position(0, 0), Bug::Queen, Color::White, 1);
    board.spawn(&Position(1, 0), Bug::Queen, Color::Black, 1);
    // (1,-1) touches only the Black piece: not spawnable for White.
    assert!(!board.spawnable(Color::White, &Position(1, -1)));
    // (-1,0) touches only the White piece: spawnable for White.
    assert!(board.spawnable(Color::White, &Position(-1, 0)));
}

#[test]
fn spawn_stacks_pieces_in_order() {
    let mut board = Board::new();
    let p = Position(0, 0);
    board.spawn(&p, Bug::Queen, Color::White, 1);
    board.spawn(&p, Bug::Beetle, Color::Black, 1);
    let stacks = board.neighbors(&Position(0, 1));
    assert_eq!(stacks.len(), 1);
    assert_eq!(
        stacks[0],
        vec![
            Piece::new(Bug::Queen, Color::White, 1),
            Piece::new(Bug::Beetle, Color::Black, 1),
        ]
    );
    let tops = board.top_layer_neighbors(&Position(0, 1));
    assert_eq!(tops, vec![Piece::new(Bug::Beetle, Color::Black, 1)]);
}

#[test]
fn neighbors_keep_canonical_order() {
    let mut board = Board::new();
    let p = Position(0, 0);
    board.spawn(&Position(0, -1), Bug::Ant, Color::White, 1); // NE
    board.spawn(&Position(-1, 0), Bug::Grasshopper, Color::White, 1); // W
    let tops = board.top_layer_neighbors(&p);
    assert_eq!(
        tops,
        vec![
            Piece::new(Bug::Ant, Color::White, 1),
            Piece::new(Bug::Grasshopper, Color::White, 1),
        ]
    );
}

#[test]
fn negative_space_of_single_piece() {
    let mut board = Board::new();
    board.spawn(&Position(0, 0), Bug::Queen, Color::White, 1);
    let mut space = board.negative_space();
    let mut expected = vec![
        Position(-1, -1),
        Position(0, -1),
        Position(1, 0),
        Position(0, 1),
        Position(-1, 1),
        Position(-1, 0),
    ];
    space.sort();
    expected.sort();
    assert_eq!(space, expected);
}

#[test]
fn negative_space_omits_occupied() {
    let mut board = Board::new();
    board.spawn(&Position(0, 0), Bug::Queen, Color::White, 1);
    board.spawn(&Position(1, 0), Bug::Queen, Color::Black, 1);
    let space = board.negative_space();
    assert!(!space.contains(&Position(0, 0)));
    assert!(!space.contains(&Position(1, 0)));
    assert!(space.contains(&Position(0, 1)));
    // each frontier position appears exactly once
    for (i, a) in space.iter().enumerate() {
        for (j, b) in space.iter().enumerate() {
            if i != j {
                assert_ne!(a, b);
            }
        }
    }
}

#[test]
fn board_string_renders_rows() {
    let mut board = Board::new();
    board.spawn(&Position(0, 0), Bug::Queen, Color::White, 1);
    board.spawn(&Position(1, 0), Bug::Spider, Color::Black, 1);
    assert_eq!(board.board_string(), "wQ1 bS1 \n");
}

#[test]
fn board_string_empty_board() {
    let board = Board::new();
    assert_eq!(board.board_string(), "    \n");
}

#[test]
fn board_string_indents_odd_rows() {
    let mut board = Board::new();
    board.spawn(&Position(0, 0), Bug::Queen, Color::White, 1);
    board.spawn(&Position(0, 1), Bug::Ant, Color::Black, 2);
    assert_eq!(board.board_string(), "wQ1 \n  bA2 \n");
}

#[test]
fn player_starts_with_full_supply() {
    let player = Player::new(Color::White);
    assert_eq!(player.color(), Color::White);
    assert_eq!(player.remaining(&Bug::Queen), 1);
    assert_eq!(player.remaining(&Bug::Spider), 2);
    assert_eq!(player.remaining(&Bug::Beetle), 2);
    assert_eq!(player.remaining(&Bug::Grasshopper), 3);
    assert_eq!(player.remaining(&Bug::Ant), 3);
    assert_eq!(player.remaining(&Bug::Mosquito), 1);
    assert_eq!(player.remaining(&Bug::Ladybug), 1);
    assert_eq!(player.remaining(&Bug::Pillbug), 1);
}

#[test]
fn use_bug_decrements_until_exhausted() {
    let mut player = Player::new(Color::Black);
    player.use_bug(&Bug::Queen);
    assert_eq!(player.remaining(&Bug::Queen), 0);
    // exhausted supply: silent no-op, never negative
    player.use_bug(&Bug::Queen);
    assert_eq!(player.remaining(&Bug::Queen), 0);
    // other bugs untouched
    assert_eq!(player.remaining(&Bug::Ant), 3);
}
