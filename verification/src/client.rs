use vstd::prelude::*;
use vstd::string::StringExecFns;
use crate::error::SCError;
use crate::game::moves::{is_move_element, Move};
use crate::game::board::Board;
use crate::game::piece::Piece;
use crate::game::state::{is_state_of, state_of_fails, State};
use crate::game::vec2::Vec2;
use crate::game::team::Team;
use crate::protocol::event::Event;
use crate::protocol::event_payload::{payload_rel, EventPayload};
use crate::protocol::game_result::{is_result_of, result_of_fails, GameResult};
use crate::protocol::request::{is_request_element, Request};
use crate::wire::{Token, TokenModel};
use crate::xml::{spec_attr, spec_child, Element};

verus! {

/// A handler that implements the game player's behavior: the pluggable
/// move-selection strategy the session consults on each move request.
pub trait SCClientDelegate {
    /// The moves this strategy may answer for the given state and team:
    /// any move, unless the strategy narrows it.
    open spec fn spec_picks(&self, state: State, my_team: Team, m: Move) -> bool {
        true
    }

    /// Picks the move to submit, given the latest state snapshot and the
    /// team this client plays; the answer is one of the moves `spec_picks`
    /// admits.  The session performs no legality check before transmitting:
    /// an illegal move is the delegate's fault.  The call may take
    /// arbitrarily long and blocks the session meanwhile.
    fn request_move(&mut self, state: &State, my_team: Team) -> (m: Move)
        ensures
            old(self).spec_picks(*state, my_team, m),
    ;
}

/// Whether the reader and/or the writer of the stream should be swapped for
/// standard input/output to ease debugging.
#[derive(Debug, Clone, Copy, PartialEq, Eq, Structural)]
pub struct DebugMode {
    pub debug_reader: bool,
    pub debug_writer: bool,
}

/// The client configuration: the delegate, the stream debugging mode, and
/// the reservation code of a pre-arranged match slot, if any.
pub struct SCClient<D: SCClientDelegate> {
    pub delegate: D,
    pub debug_mode: DebugMode,
    pub reservation_code: Option<String>,
}

impl<D: SCClientDelegate> SCClient<D> {
    /// A client using the given delegate.
    pub fn new(delegate: D, debug_mode: DebugMode, reservation_code: Option<String>) -> (r: Self)
        ensures
            r.debug_mode == debug_mode,
            r.reservation_code == reservation_code,
    {
        Self { delegate, debug_mode, reservation_code }
    }

    /// A fresh session state machine for this client's join request.
    pub fn open_session(&self) -> (s: Session)
        ensures
            s.phase == SessionPhase::Connected,
            is_chosen_request(s.request, self.reservation_code),
            s.room_id is None,
            s.latest_state is None,
            s.result is None,
    {
        let code = match &self.reservation_code {
            Some(c) => Some(c.clone()),
            None => None,
        };
        Session::new(code)
    }
}

/// The connection-lifecycle phases of a session.  `Connected` and the
/// terminal `Closed` bracket the handshake; dispatching happens in
/// `HandshakeConfirmed`, where the current room is tracked separately.
#[derive(Debug, Clone, Copy, PartialEq, Eq, Structural)]
pub enum SessionPhase {
    /// The transport is up; nothing has been written yet.
    Connected,
    /// The wrapper-open and the join request have been handed to the
    /// writer; the peer's wrapper-open has not been seen.
    HandshakeSent,
    /// The peer's wrapper-open arrived; protocol units are dispatched.
    HandshakeConfirmed,
    /// The stream ended or failed; terminal.
    Closed,
}

/// The join request a session constructed with `code` must send: a prepared
/// join under that reservation code, or an open matchmaking join.
pub open spec fn is_chosen_request(req: Request, code: Option<String>) -> bool {
    match code {
        Option::Some(c) => req matches Request::JoinPrepared { reservation_code } &&
            reservation_code@ == c@,
        Option::None => req == Request::Join,
    }
}

/// What the dispatcher asks of the caller after one element: go on reading,
/// write a reply first, or go on after noting a skipped message.
pub enum Reaction {
    /// Informational message; nothing to write.
    Continue,
    /// Write this element, then go on reading.
    Reply(Element),
    /// The message was skipped: an unrecognized unit or a message this
    /// client cannot decode.  Never fatal; the session stays alive.
    Skipped(SCError),
}

/// The protocol session state machine.  It owns no transport: the caller
/// performs reads and writes and feeds tokens and elements in; the machine
/// decides every transition and every byte to write.
pub struct Session {
    pub phase: SessionPhase,
    pub request: Request,
    pub room_id: Option<String>,
    pub latest_state: Option<State>,
    pub result: Option<GameResult>,
}

/// A `room` element scoped to `rid` wrapping exactly one move-submission
/// payload for `m`.
pub open spec fn is_room_reply(e: Element, rid: Seq<char>, m: Move) -> bool {
    &&& e.name@ == "room"@
    &&& e.attributes@.len() == 1
    &&& e.attributes@[0].0@ == "roomId"@
    &&& e.attributes@[0].1@ == rid
    &&& e.children@.len() == 1
    &&& is_move_element(e.children@[0], m)
    &&& e.content@.len() == 0
}

/// A room-scoped move submission for some move.
pub open spec fn is_some_move_reply(e: Element, rid: Seq<char>) -> bool {
    exists|m: Move| is_room_reply(e, rid, m)
}

/// The state a move request is answered from: the cached snapshot, or the
/// blank state when no snapshot has arrived yet.
pub open spec fn spec_consulted_state(sess: Session, st: State) -> bool {
    match sess.latest_state {
        Option::Some(cached) => st == cached,
        Option::None => {
            &&& st.board@ == Map::<Vec2, Piece>::empty()
            &&& st.ambers@ == Seq::<(Team, usize)>::empty()
            &&& st.turn == 0
            &&& st.last_move is None
            &&& st.start_team is None
        },
    }
}

/// The team a move request is answered for: the state's current team, or
/// the first team while none is known.
pub open spec fn spec_consulted_team(st: State) -> Team {
    match st.spec_current_team() {
        Option::Some(t) => t,
        Option::None => Team::One,
    }
}

/// The reply to a move request: a room-scoped submission of a move the
/// delegate answers when consulted with the session's state and team.
pub open spec fn is_delegate_reply<D: SCClientDelegate>(
    sess: Session,
    delegate: D,
    reply: Element,
    rid: Seq<char>,
) -> bool {
    exists|st: State, m: Move|
        spec_consulted_state(sess, st) && #[trigger] delegate.spec_picks(
            st,
            spec_consulted_team(st),
            m,
        ) && is_room_reply(reply, rid, m)
}

/// The `data` child of a room-scoped message, where the element is one.
pub open spec fn spec_room_data(e: Element) -> Option<Element> {
    if e.name@ == "room"@ && spec_attr(e.attributes@, "roomId"@) is Some {
        spec_child(e, "data"@)
    } else {
        Option::None
    }
}

/// The payload class of a room-scoped message, where the element is one.
pub open spec fn spec_room_class(e: Element) -> Option<Seq<char>> {
    match spec_room_data(e) {
        Option::Some(de) => spec_attr(de.attributes@, "class"@),
        Option::None => Option::None,
    }
}

/// Whether a session may read handshake tokens: only after `start` has
/// handed the wrapper-open and the join request to the writer.
pub open spec fn can_read_handshake(s: Session) -> bool {
    s.phase == SessionPhase::HandshakeSent
}

/// Law: the join request is written before the client attempts to read the
/// peer's wrapper-open.  Reading handshake tokens is not enabled in the
/// phase a session is constructed in; only `start`, which returns the
/// wrapper name and the encoded join request for the writer, moves the
/// session into the phase where reading is allowed.
pub proof fn lemma_handshake_ordering(s: Session)
    requires
        s.phase == SessionPhase::Connected,
    ensures
        !can_read_handshake(s),
{
}

impl Session {
    /// A session that will join a prepared slot when a reservation code is
    /// given and open matchmaking otherwise.
    pub fn new(reservation_code: Option<String>) -> (r: Session)
        ensures
            r.phase == SessionPhase::Connected,
            is_chosen_request(r.request, reservation_code),
            r.room_id is None,
            r.latest_state is None,
            r.result is None,
    {
        let request = match reservation_code {
            Some(code) => Request::JoinPrepared { reservation_code: code },
            None => Request::Join,
        };
        Session {
            phase: SessionPhase::Connected,
            request,
            room_id: None,
            latest_state: None,
            result: None,
        }
    }

    /// Begins the handshake: returns the name of the outer wrapper element,
    /// to be written as an open tag with no matching close, and the encoded
    /// join request, to be written right after it.  Only then does the
    /// session enter the phase in which handshake tokens may be read.
    pub fn start(&mut self) -> (r: (String, Element))
        requires
            old(self).phase == SessionPhase::Connected,
        ensures
            final(self).phase == SessionPhase::HandshakeSent,
            final(self).request == old(self).request,
            final(self).room_id == old(self).room_id,
            final(self).latest_state == old(self).latest_state,
            final(self).result == old(self).result,
            r.0@ == "protocol"@,
            is_request_element(r.1, old(self).request),
    {
        self.phase = SessionPhase::HandshakeSent;
        let join = self.request.to_element();
        (String::from_str("protocol"), join)
    }

    /// Consumes one token while awaiting the peer's wrapper-open.  The
    /// wrapper-open confirms the handshake; the end of the stream is fatal
    /// and closes the session; anything else (whitespace between units,
    /// markup without content) is ignored.
    pub fn on_handshake_token(&mut self, t: &Token) -> (r: Result<bool, SCError>)
        requires
            old(self).phase == SessionPhase::HandshakeSent,
        ensures
            final(self).request == old(self).request,
            final(self).room_id == old(self).room_id,
            final(self).latest_state == old(self).latest_state,
            final(self).result == old(self).result,
            (t@ matches TokenModel::Start { name, .. } && name == "protocol"@) ==> (r
                == Ok::<bool, SCError>(true) && final(self).phase
                == SessionPhase::HandshakeConfirmed),
            t@ is Eof ==> (r matches Err(e) && e is Eof && final(self).phase
                == SessionPhase::Closed),
            (!(t@ matches TokenModel::Start { name, .. } && name == "protocol"@) && !(t@ is Eof))
                ==> (r == Ok::<bool, SCError>(false) && *final(self) == *old(self)),
    {
        match t {
            Token::Start { name, .. } => {
                if crate::strutil::str_eq(name.as_str(), "protocol") {
                    self.phase = SessionPhase::HandshakeConfirmed;
                    Ok(true)
                } else {
                    Ok(false)
                }
            },
            Token::Eof => {
                self.phase = SessionPhase::Closed;
                Err(SCError::Eof)
            },
            _ => Ok(false),
        }
    }

    /// Builds the room-scoped move submission for `m`.
    fn move_reply(room_id: &String, m: Move) -> (r: Element)
        ensures
            is_room_reply(r, room_id@, m),
    {
        let data = m.to_element();
        Element::new("room").attribute("roomId", room_id.as_str()).child(data).build()
    }

    /// Dispatches the payload of one room-scoped message.
    fn on_room_message<D: SCClientDelegate>(
        &mut self,
        room_id: String,
        payload: EventPayload,
        delegate: &mut D,
        Ghost(de): Ghost<Element>,
    ) -> (r: Reaction)
        requires
            payload_rel(de, Ok(payload)),
        ensures
            final(self).phase == old(self).phase,
            final(self).request == old(self).request,
            spec_attr(de.attributes@, "class"@) == Option::Some("welcomeMessage"@) ==> (r
                is Continue && *final(self) == *old(self)),
            spec_attr(de.attributes@, "class"@) == Option::Some("moveRequest"@) ==> (r matches
                Reaction::Reply(reply) && is_some_move_reply(reply, room_id@)
                && is_delegate_reply(*old(self), *old(delegate), reply, room_id@) && *final(self)
                == *old(self)),
            spec_attr(de.attributes@, "class"@) == Option::Some("memento"@) ==> (r is Continue
                && final(self).result == old(self).result && (spec_child(de, "state"@) matches
                Option::Some(se) && (final(self).latest_state matches Option::Some(st)
                && is_state_of(se, st)))),
            spec_attr(de.attributes@, "class"@) == Option::Some("result"@) ==> (r is Continue
                && final(self).latest_state == old(self).latest_state && (final(self).result matches Option::Some(g) && is_result_of(de, g))),
            (spec_attr(de.attributes@, "class"@) matches Option::Some(c) && c
                != "welcomeMessage"@ && c != "memento"@ && c != "moveRequest"@ && c
                != "result"@) ==> (r is Continue && *final(self) == *old(self)),
            r matches Reaction::Skipped(e) ==> !(e is Eof) && !(e is MalformedMarkup)
                && *final(self) == *old(self),
            final(self).room_id == old(self).room_id,
            r is Reply ==> *final(self) == *old(self),
    {
        proof {
            reveal_strlit("welcomeMessage");
            reveal_strlit("memento");
            reveal_strlit("moveRequest");
            reveal_strlit("result");
            assert("welcomeMessage"@.len() == 14);
            assert("memento"@.len() == 7);
            assert("moveRequest"@.len() == 11);
            assert("result"@.len() == 6);
        }
        match payload {
            EventPayload::Welcome => Reaction::Continue,
            EventPayload::Memento(st) => {
                self.latest_state = Some(st);
                Reaction::Continue
            },
            EventPayload::MoveRequest => {
                let fallback = State {
                    board: Board::empty(),
                    ambers: Vec::new(),
                    turn: 0,
                    last_move: None,
                    start_team: None,
                };
                let state = match &self.latest_state {
                    Some(st) => st,
                    None => &fallback,
                };
                let my_team = match state.current_team() {
                    Some(t) => t,
                    None => Team::One,
                };
                proof {
                    assert(self.latest_state is None ==> state.ambers@ =~= Seq::<(
                        Team,
                        usize,
                    )>::empty());
                    assert(spec_consulted_state(*old(self), *state));
                    assert(my_team == spec_consulted_team(*state));
                }
                let m = delegate.request_move(state, my_team);
                let reply = Self::move_reply(&room_id, m);
                proof {
                    assert(old(delegate).spec_picks(*state, my_team, m));
                    assert(is_room_reply(reply, room_id@, m));
                    assert(is_some_move_reply(reply, room_id@));
                    assert(is_delegate_reply(*old(self), *old(delegate), reply, room_id@));
                }
                Reaction::Reply(reply)
            },
            EventPayload::GameResult(g) => {
                self.result = Some(g);
                Reaction::Continue
            },
            EventPayload::Unrecognized(_) => Reaction::Continue,
        }
    }

    /// Dispatches one classified protocol unit.
    ///
    /// Join and leave notices update the room bookkeeping; a state snapshot
    /// becomes the latest known state; a move request consults the delegate
    /// synchronously and asks the caller to write the reply; a game result
    /// is recorded without closing the session.  An unrecognized unit, or
    /// one that cannot be decoded, is skipped and never fatal: the session
    /// state is left unchanged except for advancing past the element.  A
    /// move request that arrives before any snapshot consults the delegate
    /// with an empty state.
    #[verifier::rlimit(100)]
    #[verifier::spinoff_prover]
    pub fn on_element<D: SCClientDelegate>(&mut self, elem: &Element, delegate: &mut D) -> (r:
        Reaction)
        requires
            old(self).phase == SessionPhase::HandshakeConfirmed,
        ensures
            final(self).phase == old(self).phase,
            final(self).request == old(self).request,
            // an unrecognized top-level tag is skipped and changes nothing
            !(elem.name@ == "joined"@ || elem.name@ == "left"@ || elem.name@ == "room"@) ==> (
            r matches Reaction::Skipped(e) && e is UnknownElement && *final(self) == *old(self)),
            // a join notice records the room
            (elem.name@ == "joined"@ && spec_attr(elem.attributes@, "roomId"@) is Some) ==> (r
                is Continue && (final(self).room_id matches Some(s) && s@ == spec_attr(
                elem.attributes@,
                "roomId"@,
            )->Some_0) && final(self).latest_state == old(self).latest_state && final(self).result
                == old(self).result),
            // a leave notice clears the room
            (elem.name@ == "left"@ && spec_attr(elem.attributes@, "roomId"@) is Some) ==> (r
                is Continue && final(self).room_id is None
                && final(self).latest_state == old(self).latest_state
                && final(self).result == old(self).result),
            // a room message dispatches on its payload
            // a welcome message is informational
            spec_room_class(*elem) == Option::Some("welcomeMessage"@) ==> (r is Continue
                && *final(self) == *old(self)),
            // a move request is answered with a move of the delegate,
            // consulted with the cached snapshot and the session's team
            spec_room_class(*elem) == Option::Some("moveRequest"@) ==> (r matches
                Reaction::Reply(reply) && is_some_move_reply(
                reply,
                spec_attr(elem.attributes@, "roomId"@)->Some_0,
            ) && is_delegate_reply(
                *old(self),
                *old(delegate),
                reply,
                spec_attr(elem.attributes@, "roomId"@)->Some_0,
            ) && *final(self) == *old(self)),
            // a decodable snapshot becomes the cached latest state
            (spec_room_class(*elem) == Option::Some("memento"@) && (spec_room_data(*elem) matches
                Option::Some(de) && (spec_child(de, "state"@) matches Option::Some(se)
                && !state_of_fails(se)))) ==> (r is Continue && final(self).room_id == old(self).room_id && final(self).result == old(self).result && (final(self).latest_state matches Option::Some(st) && is_state_of(
                spec_child(spec_room_data(*elem)->Some_0, "state"@)->Some_0,
                st,
            ))),
            // an undecodable snapshot is skipped
            (spec_room_class(*elem) == Option::Some("memento"@) && (spec_room_data(*elem) matches
                Option::Some(de) && (spec_child(de, "state"@) is None || state_of_fails(
                spec_child(de, "state"@)->Some_0,
            )))) ==> (r is Skipped && *final(self) == *old(self)),
            // a decodable result is recorded; the session is not closed
            (spec_room_class(*elem) == Option::Some("result"@) && (spec_room_data(*elem) matches
                Option::Some(de) && !result_of_fails(de))) ==> (r is Continue && final(self).room_id == old(self).room_id && final(self).latest_state == old(self).latest_state
                && (final(self).result matches Option::Some(g) && is_result_of(
                spec_room_data(*elem)->Some_0,
                g,
            ))),
            // an undecodable result is skipped
            (spec_room_class(*elem) == Option::Some("result"@) && (spec_room_data(*elem) matches
                Option::Some(de) && result_of_fails(de))) ==> (r is Skipped && *final(self)
                == *old(self)),
            // an unrecognized payload class is tolerated and changes nothing
            (spec_room_class(*elem) matches Option::Some(c) && c != "welcomeMessage"@ && c
                != "memento"@ && c != "moveRequest"@ && c != "result"@) ==> (r is Continue
                && *final(self) == *old(self)),
            // a message that cannot be decoded is skipped and changes nothing
            r matches Reaction::Skipped(e) ==> !(e is Eof) && !(e is MalformedMarkup)
                && *final(self) == *old(self),
    {
        let event = Event::from_element(elem);
        proof {
            reveal_strlit("joined");
            reveal_strlit("left");
            reveal_strlit("room");
            reveal_strlit("welcomeMessage");
            reveal_strlit("memento");
            reveal_strlit("moveRequest");
            reveal_strlit("result");
            assert("joined"@.len() == 6);
            assert("left"@.len() == 4);
            assert("room"@.len() == 4);
            assert("welcomeMessage"@.len() == 14);
            assert("memento"@.len() == 7);
            assert("moveRequest"@.len() == 11);
            assert("result"@.len() == 6);
            assert("joined"@[0] == 'j');
            assert("result"@[0] == 'r');
            assert("left"@[0] == 'l');
            assert("room"@[0] == 'r');
            assert("room"@[1] == 'o');
            assert("left"@[1] == 'e');
        }
        match event {
            Ok(Event::Joined { room_id }) => {
                proof {
                    assert(elem.name@ == "joined"@);
                    assert(elem.name@ != "room"@);
                }
                self.room_id = Some(room_id);
                Reaction::Continue
            },
            Ok(Event::Left { .. }) => {
                self.room_id = None;
                Reaction::Continue
            },
            Ok(Event::Room { room_id, payload }) => {
                let ghost de = spec_child(*elem, "data"@)->Some_0;
                self.on_room_message(room_id, payload, delegate, Ghost(de))
            },
            Err(e) => Reaction::Skipped(e),
        }
    }
}

} // verus!
