use socha_client::error::SCError;
use socha_client::game::board::Board;
use socha_client::game::moves::Move;
use socha_client::game::piece::Piece;
use socha_client::game::piece_type::PieceType;
use socha_client::game::state::State;
use socha_client::game::team::Team;
use socha_client::game::vec2::Vec2;
use socha_client::game::coords::Coords;
use socha_client::numbers::{i64_to_string, parse_i64, parse_usize, u64_to_string};
use socha_client::xml::Element;

#[test]
fn numerals_read_back_what_was_written() {
    assert_eq!(u64_to_string(0), "0");
    assert_eq!(u64_to_string(907), "907");
    assert_eq!(i64_to_string(-45), "-45");
    assert_eq!(parse_usize("23").unwrap(), 23);
    assert_eq!(parse_i64("-45").unwrap(), -45);
    assert_eq!(parse_i64(&i64_to_string(i64::MIN)).unwrap(), i64::MIN);
    assert!(matches!(parse_usize(""), Err(SCError::InvalidNumber(_))));
    assert!(matches!(parse_usize("12a"), Err(SCError::InvalidNumber(_))));
    assert!(matches!(
        parse_usize("99999999999999999999999"),
        Err(SCError::InvalidNumber(_))
    ));
}

#[test]
fn boards_store_and_move_pieces() {
    let seagull = Piece::new(PieceType::Moewe, Team::One, 1);
    let starfish = Piece::new(PieceType::Seestern, Team::Two, 2);
    let mut board = Board::new(vec![
        (Vec2::new(2, 2), seagull),
        (Vec2::new(3, 2), starfish),
    ]);
    assert_eq!(board.get(Vec2::new(2, 2)), Some(seagull));
    assert_eq!(board.get(Vec2::new(0, 0)), None);
    assert!(Board::is_in_bounds(Vec2::new(7, 7)));
    assert!(!Board::is_in_bounds(Vec2::new(8, 0)));
    assert!(!Board::is_in_bounds(Vec2::new(-1, 3)));
    assert_eq!(Board::start_line(Team::One), 0);
    assert_eq!(Board::start_line(Team::Two), 7);

    // The seagull captures the starfish: the castles merge.
    board.perform(Move::new(Vec2::new(2, 2), Vec2::new(3, 2)));
    assert_eq!(board.get(Vec2::new(2, 2)), None);
    let merged = board.get(Vec2::new(3, 2)).unwrap();
    assert_eq!(merged.piece_type(), PieceType::Moewe);
    assert_eq!(merged.team(), Team::One);
    assert_eq!(merged.count(), 3);

    // Three pieces in one castle turn into an amber and leave the board.
    assert_eq!(board.check_amber(Vec2::new(3, 2)), 1);
    assert_eq!(board.get(Vec2::new(3, 2)), None);
    assert_eq!(board.check_amber(Vec2::new(3, 2)), 0);
}

#[test]
fn get_mut_edits_the_piece_in_place() {
    let mut board = Board::new(vec![
        (Vec2::new(1, 1), Piece::new(PieceType::Moewe, Team::One, 1)),
    ]);
    if let Some(piece) = board.get_mut(Vec2::new(1, 1)) {
        *piece = Piece::new(PieceType::Moewe, Team::One, 2);
    }
    assert_eq!(board.get(Vec2::new(1, 1)).unwrap().count(), 2);
    assert!(board.get_mut(Vec2::new(5, 5)).is_none());
}

#[test]
fn light_piece_on_opponent_home_line_scores() {
    let runner = Piece::new(PieceType::Herzmuschel, Team::One, 1);
    let mut board = Board::new(vec![(Vec2::new(7, 4), runner)]);
    assert_eq!(board.check_amber(Vec2::new(7, 4)), 1);
    assert_eq!(board.get(Vec2::new(7, 4)), None);
}

#[test]
fn directions_are_oriented_by_team() {
    let forward = Piece::new(PieceType::Herzmuschel, Team::One, 1);
    assert_eq!(forward.possible_directions(), vec![Vec2::new(1, 1), Vec2::new(1, -1)]);
    let backward = Piece::new(PieceType::Herzmuschel, Team::Two, 1);
    assert_eq!(backward.possible_directions(), vec![Vec2::new(-1, 1), Vec2::new(-1, -1)]);
    assert_eq!(PieceType::Robbe.possible_directions().len(), 8);
    assert!(PieceType::Moewe.is_light());
    assert!(!PieceType::Robbe.is_light());
}

#[test]
fn possible_moves_avoid_own_pieces() {
    let state = State {
        board: Board::new(vec![
            (Vec2::new(2, 2), Piece::new(PieceType::Herzmuschel, Team::One, 1)),
            (Vec2::new(3, 3), Piece::new(PieceType::Moewe, Team::One, 1)),
            (Vec2::new(3, 1), Piece::new(PieceType::Moewe, Team::Two, 1)),
        ]),
        ambers: vec![],
        turn: 0,
        last_move: None,
        start_team: Some(Team::One),
    };
    let moves = state.possible_moves();
    let from_heart: Vec<&Move> =
        moves.iter().filter(|m| m.from() == Vec2::new(2, 2)).collect();
    // Diagonally forward: (3,3) is blocked by its own seagull, (3,1) is an
    // enemy and may be captured.
    assert_eq!(from_heart.len(), 1);
    assert_eq!(from_heart[0].to(), Vec2::new(3, 1));
    assert_eq!(state.current_team(), Some(Team::One));

    // Despite its name this query yields move deltas, not squares.
    let deltas = state.board().possible_destinations_from(Vec2::new(2, 2));
    assert_eq!(deltas, vec![Vec2::new(1, -1)]);
}

#[test]
fn game_over_needs_full_round_and_score_or_limit() {
    let base = State {
        board: Board::empty(),
        ambers: vec![(Team::One, 2), (Team::Two, 0)],
        turn: 2,
        last_move: None,
        start_team: Some(Team::One),
    };
    assert!(base.is_over());
    let mid_round = State { turn: 3, ..base.clone() };
    assert!(!mid_round.is_over());
    let low_score = State { ambers: vec![(Team::One, 1), (Team::Two, 1)], ..base.clone() };
    assert!(!low_score.is_over());
    let over_limit = State {
        ambers: vec![],
        turn: 62,
        ..base.clone()
    };
    assert!(over_limit.is_over());
}

#[test]
fn child_applies_a_move_without_touching_bookkeeping() {
    let state = State {
        board: Board::new(vec![
            (Vec2::new(1, 1), Piece::new(PieceType::Moewe, Team::One, 1)),
        ]),
        ambers: vec![(Team::One, 0)],
        turn: 5,
        last_move: None,
        start_team: Some(Team::One),
    };
    let next = state.child(Move::new(Vec2::new(1, 1), Vec2::new(2, 1)));
    assert_eq!(next.turn(), 5);
    assert_eq!(next.board().get(Vec2::new(2, 1)).map(|p| p.piece_type()), Some(PieceType::Moewe));
    assert_eq!(next.board().get(Vec2::new(1, 1)), None);
}

#[test]
fn vec_arithmetic() {
    assert_eq!(Vec2::zero().plus(Vec2::new(2, 3)), Vec2::new(2, 3));
    assert_eq!(Vec2::new(5, 1).minus(Vec2::new(2, 3)), Vec2::new(3, -2));
    let m = Move::new(Vec2::new(1, 2), Vec2::new(3, 1));
    assert_eq!(m.delta(), Vec2::new(2, -1));
    assert_eq!(m.from().x(), 1);
    assert_eq!(m.to().y(), 1);
}

#[test]
fn coords_parse_as_unsigned_positions() {
    let c = Coords::from_element(
        &Element::from_str(r#"<coordinates x="4" y="6"/>"#).unwrap(),
    )
    .unwrap();
    assert_eq!(c, Coords::new(4, 6));
    assert_eq!(c.x(), 4);
    assert_eq!(c.y(), 6);
    assert!(Coords::from_element(
        &Element::from_str(r#"<coordinates x="-1" y="6"/>"#).unwrap()
    )
    .is_err());
}
