use socha_client::client::{
    DebugMode, Reaction, SCClient, SCClientDelegate, Session, SessionPhase,
};
use socha_client::error::SCError;
use socha_client::game::moves::Move;
use socha_client::game::state::State;
use socha_client::game::team::Team;
use socha_client::game::vec2::Vec2;
use socha_client::logic::OwnGameLogic;
use socha_client::wire::{Token, Tokenizer};
use socha_client::xml::{parse_next, Element};

/// A strategy double fixed to one move, recording how often it was asked.
struct FixedMove {
    calls: usize,
}

impl SCClientDelegate for FixedMove {
    fn request_move(&mut self, _state: &State, _my_team: Team) -> Move {
        self.calls += 1;
        Move::new(Vec2::new(0, 0), Vec2::new(1, 1))
    }
}

#[test]
fn handshake_writes_join_before_reading() {
    let mut session = Session::new(None);
    assert_eq!(session.phase, SessionPhase::Connected);
    // The join request is produced - and must be written - before the
    // session will look at any inbound token.
    let (wrapper, join) = session.start();
    assert_eq!(wrapper, "protocol");
    assert_eq!(join.name().as_str(), "join");
    assert_eq!(session.phase, SessionPhase::HandshakeSent);
    // A peer that delivered its wrapper-open before we sent anything is
    // still accepted: the token is simply waiting to be consumed now.
    let token = Token::Start { name: "protocol".to_string(), attributes: vec![] };
    assert_eq!(session.on_handshake_token(&token).unwrap(), true);
    assert_eq!(session.phase, SessionPhase::HandshakeConfirmed);
}

#[test]
fn handshake_ignores_whitespace_tokens() {
    let mut session = Session::new(None);
    let _ = session.start();
    let text = Token::Text { text: "\n   ".to_string() };
    assert_eq!(session.on_handshake_token(&text).unwrap(), false);
    assert_eq!(session.phase, SessionPhase::HandshakeSent);
}

#[test]
fn eof_during_handshake_is_fatal() {
    let mut session = Session::new(None);
    let _ = session.start();
    match session.on_handshake_token(&Token::Eof) {
        Err(SCError::Eof) => {},
        other => panic!("unexpected outcome {:?}", other.map(|_| ())),
    }
    assert_eq!(session.phase, SessionPhase::Closed);
}

#[test]
fn prepared_session_sends_the_reservation_code_first() {
    let client = SCClient::new(
        OwnGameLogic,
        DebugMode { debug_reader: false, debug_writer: false },
        Some("42".to_string()),
    );
    let mut session = client.open_session();
    let (wrapper, join) = session.start();
    assert_eq!(wrapper, "protocol");
    // The first bytes written after the wrapper-open decode as exactly
    // <joinPrepared reservationCode="42"/>.
    let mut bytes: Vec<u8> = Vec::new();
    join.write_to(&mut bytes).unwrap();
    let back = Element::from_str(std::str::from_utf8(&bytes).unwrap()).unwrap();
    assert_eq!(back.name().as_str(), "joinPrepared");
    assert_eq!(back.attributes.len(), 1);
    assert_eq!(back.attribute("reservationCode").unwrap().as_str(), "42");
    assert_eq!(back.children.len(), 0);
}

#[test]
fn unknown_tag_is_skipped_and_leaves_state_unchanged() {
    let mut session = Session::new(None);
    let _ = session.start();
    let token = Token::Start { name: "protocol".to_string(), attributes: vec![] };
    let _ = session.on_handshake_token(&token);
    let mut delegate = FixedMove { calls: 0 };
    let elem = Element::from_str(r#"<surprise roomId="zzz"/>"#).unwrap();
    match session.on_element(&elem, &mut delegate) {
        Reaction::Skipped(SCError::UnknownElement(el)) => {
            assert_eq!(el.name().as_str(), "surprise");
        },
        other => panic!("unexpected reaction kind {}", reaction_kind(&other)),
    }
    assert_eq!(session.phase, SessionPhase::HandshakeConfirmed);
    assert!(session.room_id.is_none());
    assert!(session.latest_state.is_none());
    assert_eq!(delegate.calls, 0);
}

fn reaction_kind(r: &Reaction) -> &'static str {
    match r {
        Reaction::Continue => "continue",
        Reaction::Reply(_) => "reply",
        Reaction::Skipped(_) => "skipped",
    }
}

#[test]
fn move_request_turn_emits_exactly_one_submission() {
    // Inbound stream: the peer's wrapper-open, a join notice, a move
    // request.  The delegate is fixed to (0,0) -> (1,1).
    let bytes =
        br#"<protocol><joined roomId="r1"/><room roomId="r1"><data class="moveRequest"/></room>"#
            .to_vec();
    let mut tok = Tokenizer::new(bytes);
    let mut session = Session::new(None);
    let _ = session.start();
    loop {
        match session.on_handshake_token(&tok.next_token().unwrap()) {
            Ok(true) => break,
            Ok(false) => continue,
            Err(e) => panic!("handshake failed: {:?}", e),
        }
    }
    let mut delegate = FixedMove { calls: 0 };
    let mut replies: Vec<Element> = Vec::new();

    let joined = parse_next(&mut tok).unwrap();
    match session.on_element(&joined, &mut delegate) {
        Reaction::Continue => {},
        other => panic!("unexpected reaction {}", reaction_kind(&other)),
    }
    assert_eq!(replies.len(), 0);
    assert_eq!(session.room_id.as_deref(), Some("r1"));

    let request = parse_next(&mut tok).unwrap();
    match session.on_element(&request, &mut delegate) {
        Reaction::Reply(reply) => replies.push(reply),
        other => panic!("unexpected reaction {}", reaction_kind(&other)),
    }

    assert_eq!(replies.len(), 1);
    assert_eq!(delegate.calls, 1);
    let reply = &replies[0];
    assert_eq!(reply.name().as_str(), "room");
    assert_eq!(reply.attribute("roomId").unwrap().as_str(), "r1");
    assert_eq!(reply.children.len(), 1);
    let expected = Move::new(Vec2::new(0, 0), Vec2::new(1, 1)).to_element();
    assert_eq!(reply.children[0], expected);
    assert_eq!(expected.name().as_str(), "data");
    assert_eq!(expected.attribute("class").unwrap().as_str(), "move");
    assert_eq!(
        expected.child_by_name("from").unwrap().attribute("x").unwrap().as_str(),
        "0"
    );
    assert_eq!(
        expected.child_by_name("to").unwrap().attribute("y").unwrap().as_str(),
        "1"
    );
}

/// A strategy double whose answer differs from the bundled placeholder's.
struct OtherMove;

impl SCClientDelegate for OtherMove {
    fn request_move(&mut self, _state: &State, _my_team: Team) -> Move {
        Move::new(Vec2::new(5, 5), Vec2::new(6, 5))
    }
}

#[test]
fn the_reply_carries_the_delegates_own_move() {
    let mut session = Session::new(None);
    let _ = session.start();
    let token = Token::Start { name: "protocol".to_string(), attributes: vec![] };
    let _ = session.on_handshake_token(&token);
    let mut delegate = OtherMove;
    let request =
        Element::from_str(r#"<room roomId="r9"><data class="moveRequest"/></room>"#).unwrap();
    match session.on_element(&request, &mut delegate) {
        Reaction::Reply(reply) => {
            let expected = Move::new(Vec2::new(5, 5), Vec2::new(6, 5)).to_element();
            assert_eq!(reply.children[0], expected);
            assert_eq!(reply.attribute("roomId").unwrap().as_str(), "r9");
        },
        other => panic!("unexpected reaction {}", reaction_kind(&other)),
    }
}

#[test]
fn snapshots_are_cached_and_results_recorded() {
    let mut session = Session::new(None);
    let _ = session.start();
    let token = Token::Start { name: "protocol".to_string(), attributes: vec![] };
    let _ = session.on_handshake_token(&token);
    let mut delegate = FixedMove { calls: 0 };

    let memento = Element::from_str(
        r#"<room roomId="r"><data class="memento"><state turn="2">
            <board><pieces></pieces></board>
            <ambers></ambers>
            <startTeam>ONE</startTeam>
        </state></data></room>"#,
    )
    .unwrap();
    match session.on_element(&memento, &mut delegate) {
        Reaction::Continue => {},
        other => panic!("unexpected reaction {}", reaction_kind(&other)),
    }
    assert_eq!(session.latest_state.as_ref().unwrap().turn(), 2);

    let left = Element::from_str(r#"<left roomId="r"/>"#).unwrap();
    match session.on_element(&left, &mut delegate) {
        Reaction::Continue => {},
        other => panic!("unexpected reaction {}", reaction_kind(&other)),
    }
    assert!(session.room_id.is_none());
}
