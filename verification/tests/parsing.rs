use socha_client::game::board::Board;
use socha_client::game::moves::Move;
use socha_client::game::piece::Piece;
use socha_client::game::piece_type::PieceType;
use socha_client::game::state::State;
use socha_client::game::team::Team;
use socha_client::game::vec2::Vec2;
use socha_client::protocol::player::Player;
use socha_client::xml::Element;

#[test]
fn vec2_test_parsing() {
    assert_eq!(
        Vec2::from_element(
            &Element::from_str(
                r#"
            <coords x="23" y="0" />
        "#
            )
            .unwrap()
        )
        .unwrap(),
        Vec2::new(23, 0)
    );
}

#[test]
fn move_test_parsing() {
    assert_eq!(
        Move::from_element(
            &Element::from_str(
                r#"
            <data class="move">
                <from x="3" y="4" />
                <to x="5" y="9" />
            </data>
        "#
            )
            .unwrap()
        )
        .unwrap(),
        Move::new(Vec2::new(3, 4), Vec2::new(5, 9))
    );
}

#[test]
fn piece_test_parsing() {
    assert_eq!(
        Piece::from_element(
            &Element::from_str(
                r#"
            <piece type="Herzmuschel" team="TWO" count="1" />
        "#
            )
            .unwrap()
        )
        .unwrap(),
        Piece::new(PieceType::Herzmuschel, Team::Two, 1)
    );
}

#[test]
fn board_test_parsing() {
    assert_eq!(
        Board::from_element(
            &Element::from_str(
                r#"
            <board>
                <pieces>
                    <entry>
                        <coordinates x="0" y="0" />
                        <piece type="Herzmuschel" team="ONE" count="1" />
                    </entry>
                    <entry>
                        <coordinates x="1" y="0" />
                        <piece type="Robbe" team="TWO" count="1" />
                    </entry>
                </pieces>
            </board>
        "#
            )
            .unwrap()
        )
        .unwrap(),
        Board::new(vec![
            (Vec2::new(0, 0), Piece::new(PieceType::Herzmuschel, Team::One, 1)),
            (Vec2::new(1, 0), Piece::new(PieceType::Robbe, Team::Two, 1)),
        ])
    );
}

#[test]
fn state_test_parsing() {
    assert_eq!(
        State::from_element(
            &Element::from_str(
                r#"
            <state turn="3">
                <board>
                    <pieces></pieces>
                </board>
                <ambers>
                    <entry>
                        <team>ONE</team>
                        <int>1</int>
                    </entry>
                    <entry>
                        <team>TWO</team>
                        <int>0</int>
                    </entry>
                </ambers>
            </state>
        "#
            )
            .unwrap()
        )
        .unwrap(),
        State {
            board: Board::empty(),
            ambers: vec![(Team::One, 1usize), (Team::Two, 0usize)],
            turn: 3,
            last_move: None,
            start_team: None,
        }
    );
}

#[test]
fn player_test_parsing() {
    assert_eq!(
        Player::from_element(
            &Element::from_str(
                r#"
            <player name="Alice" team="ONE" />
        "#
            )
            .unwrap()
        )
        .unwrap(),
        Player::new("Alice", Team::One)
    );
}
