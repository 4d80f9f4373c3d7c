use socha_client::error::SCError;
use socha_client::game::moves::Move;
use socha_client::game::vec2::Vec2;
use socha_client::protocol::request_payload::RequestPayload;
use socha_client::game::state::State;
use socha_client::game::team::Team;
use socha_client::protocol::event::Event;
use socha_client::protocol::event_payload::EventPayload;
use socha_client::protocol::game_result::{GameResult, Score};
use socha_client::protocol::player::Player;
use socha_client::protocol::request::Request;
use socha_client::protocol::score_aggregation::ScoreAggregation;
use socha_client::protocol::score_definition::ScoreDefinition;
use socha_client::xml::Element;

#[test]
fn join_prepared_round_trips_through_accessors() {
    let req = Request::JoinPrepared { reservation_code: "abc123".to_string() };
    let elem = req.to_element();
    assert_eq!(elem.name().as_str(), "joinPrepared");
    assert_eq!(elem.children.len(), 0);
    assert_eq!(elem.attributes.len(), 1);
    assert_eq!(elem.attribute("reservationCode").unwrap().as_str(), "abc123");
}

#[test]
fn join_encodes_game_type() {
    let elem = Request::Join.to_element();
    assert_eq!(elem.name().as_str(), "join");
    assert_eq!(
        elem.attribute("gameType").unwrap().as_str(),
        "swc_2022_ostseeschach"
    );
}

#[test]
fn join_room_encodes_room_id() {
    let req = Request::JoinRoom { room_id: "r7".to_string() };
    let elem = req.to_element();
    assert_eq!(elem.name().as_str(), "joinRoom");
    assert_eq!(elem.attribute("roomId").unwrap().as_str(), "r7");
}

#[test]
fn classifying_twice_yields_equal_events() {
    let samples = [
        r#"<joined roomId="r1"/>"#,
        r#"<left roomId="r1"/>"#,
        r#"<room roomId="r1"><data class="welcomeMessage"/></room>"#,
        r#"<room roomId="r1"><data class="moveRequest"/></room>"#,
        r#"<room roomId="r1"><data class="mystery"/></room>"#,
    ];
    for xml in samples {
        let elem = Element::from_str(xml).unwrap();
        let once = Event::from_element(&elem).unwrap();
        let twice = Event::from_element(&elem).unwrap();
        assert_eq!(once, twice);
    }
}

#[test]
fn joined_and_left_carry_room_ids() {
    let joined = Element::from_str(r#"<joined roomId="abc"/>"#).unwrap();
    match Event::from_element(&joined).unwrap() {
        Event::Joined { room_id } => assert_eq!(room_id, "abc"),
        other => panic!("unexpected event {:?}", other),
    }
    let left = Element::from_str(r#"<left roomId="abc"/>"#).unwrap();
    assert!(matches!(
        Event::from_element(&left).unwrap(),
        Event::Left { .. }
    ));
    let bare = Element::from_str("<joined/>").unwrap();
    assert!(matches!(
        Event::from_element(&bare),
        Err(SCError::MissingAttribute(_))
    ));
}

#[test]
fn unknown_top_level_tag_is_not_fatal_but_distinguished() {
    let elem = Element::from_str("<mystery/>").unwrap();
    match Event::from_element(&elem) {
        Err(SCError::UnknownElement(el)) => assert_eq!(el.name().as_str(), "mystery"),
        other => panic!("unexpected classification {:?}", other),
    }
}

#[test]
fn unknown_payload_class_is_the_unrecognized_event() {
    let elem =
        Element::from_str(r#"<room roomId="r"><data class="mystery"/></room>"#).unwrap();
    match Event::from_element(&elem).unwrap() {
        Event::Room { payload: EventPayload::Unrecognized(el), .. } => {
            assert_eq!(el.attribute("class").unwrap().as_str(), "mystery");
        },
        other => panic!("unexpected event {:?}", other),
    }
}

#[test]
fn memento_carries_the_state() {
    let elem = Element::from_str(
        r#"<room roomId="r">
            <data class="memento">
                <state turn="4">
                    <board><pieces></pieces></board>
                    <ambers></ambers>
                    <startTeam>TWO</startTeam>
                </state>
            </data>
        </room>"#,
    )
    .unwrap();
    match Event::from_element(&elem).unwrap() {
        Event::Room { payload: EventPayload::Memento(st), .. } => {
            assert_eq!(st.turn(), 4);
            assert_eq!(st.start_team(), Some(Team::Two));
            assert_eq!(st.current_team(), Some(Team::Two));
            assert_eq!(st.round(), 2);
        },
        other => panic!("unexpected event {:?}", other),
    }
}

#[test]
fn result_carries_scores_and_winner() {
    let elem = Element::from_str(
        r#"<room roomId="r">
            <data class="result">
                <definition>
                    <fragment>
                        <aggregation>SUM</aggregation>
                        <relevantForRanking>true</relevantForRanking>
                    </fragment>
                </definition>
                <scores>
                    <entry>
                        <player name="Alice" team="ONE"/>
                        <score><part>2</part><part>29</part></score>
                    </entry>
                </scores>
                <winner name="Alice" team="ONE"/>
            </data>
        </room>"#,
    )
    .unwrap();
    match Event::from_element(&elem).unwrap() {
        Event::Room { payload: EventPayload::GameResult(g), .. } => {
            assert_eq!(g.definition().fragments().len(), 1);
            assert_eq!(g.definition().fragments()[0].aggregation(), ScoreAggregation::Sum);
            assert!(g.definition().fragments()[0].relevant_for_ranking());
            assert_eq!(g.scores().len(), 1);
            assert_eq!(g.scores()[0].0.name(), "Alice");
            assert_eq!(g.scores()[0].1.parts(), &vec![2i64, 29i64]);
            assert_eq!(g.winner(), &Player::new("Alice", Team::One));
        },
        other => panic!("unexpected event {:?}", other),
    }
}

#[test]
fn result_constructors_expose_fields() {
    let definition = ScoreDefinition { fragments: vec![] };
    let winner = Player::new("Bob", Team::Two);
    let scores = vec![(winner.clone(), Score { parts: vec![1] })];
    let result = GameResult::new(definition, scores, winner.clone());
    assert_eq!(result.winner(), &winner);
    assert_eq!(result.scores().len(), 1);
}

#[test]
fn move_payload_encodes_the_canonical_submission() {
    let payload = RequestPayload::Move(Move::new(Vec2::new(2, 3), Vec2::new(3, 3)));
    let elem = payload.to_element();
    assert_eq!(elem.name().as_str(), "data");
    assert_eq!(elem.attribute("class").unwrap().as_str(), "move");
    assert_eq!(elem.child_by_name("from").unwrap().attribute("x").unwrap().as_str(), "2");
    assert_eq!(elem.child_by_name("to").unwrap().attribute("x").unwrap().as_str(), "3");
}

#[test]
fn unknown_team_and_aggregation_literals_are_rejected() {
    assert!(matches!(
        Team::from_str("THREE"),
        Err(SCError::UnknownVariant(_))
    ));
    assert!(matches!(
        ScoreAggregation::from_str("AVG"),
        Err(SCError::UnknownVariant(_))
    ));
    assert_eq!(Team::from_str("ONE").unwrap(), Team::One);
    assert_eq!(Team::One.opponent(), Team::Two);
    assert_eq!(Team::Two.name(), "TWO");
}

#[test]
fn malformed_state_in_memento_is_a_decode_error() {
    let elem = Element::from_str(
        r#"<room roomId="r"><data class="memento"><state turn="oops">
            <board><pieces></pieces></board><ambers></ambers>
        </state></data></room>"#,
    )
    .unwrap();
    assert!(matches!(
        Event::from_element(&elem),
        Err(SCError::InvalidNumber(_))
    ));
    let missing = Element::from_str(r#"<room roomId="r"><data class="memento"/></room>"#).unwrap();
    assert!(matches!(
        Event::from_element(&missing),
        Err(SCError::MissingChild(_))
    ));
}

#[test]
fn states_with_last_move_parse_it() {
    let elem = Element::from_str(
        r#"<state turn="1">
            <board><pieces></pieces></board>
            <ambers></ambers>
            <lastMove><from x="0" y="0"/><to x="1" y="1"/></lastMove>
        </state>"#,
    )
    .unwrap();
    let st = State::from_element(&elem).unwrap();
    let m = st.last_move().unwrap();
    assert_eq!(m.from().x(), 0);
    assert_eq!(m.to().y(), 1);
}
