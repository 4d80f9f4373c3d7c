use vstd::prelude::*;
use crate::error::SCError;
use crate::game::state::{is_state_of, State};
use crate::strutil::str_eq;
use crate::xml::{deep_like, spec_attr, spec_child, Element};
use super::event_payload::{payload_rel, EventPayload};
use super::game_result::{is_result_of, score_entry_matches, GameResult};
use super::player::Player;

verus! {

/// A message from the peer: a room join or leave notice, or a room-scoped
/// message with a payload.
#[derive(Debug, Clone, PartialEq, Eq)]
pub enum Event {
    /// The client joined the room with the given id.
    Joined { room_id: String },
    /// The client left the room with the given id.
    Left { room_id: String },
    /// A message scoped to a room, carrying a `data` payload.
    Room { room_id: String, payload: EventPayload },
}

/// How a top-level element classifies: the relation between the element and
/// what reading it yields.  A tag this client does not recognize yields the
/// `UnknownElement` error, which the dispatcher treats as skippable, never
/// as fatal.
pub open spec fn classify_rel(e: Element, r: Result<Event, SCError>) -> bool {
    if e.name@ == "joined"@ {
        match spec_attr(e.attributes@, "roomId"@) {
            Option::Some(rid) => r matches Ok(ev) && (ev matches Event::Joined { room_id }
                && room_id@ == rid),
            Option::None => r matches Err(err) && (err matches SCError::MissingAttribute(a) && a@
                == "roomId"@),
        }
    } else if e.name@ == "left"@ {
        match spec_attr(e.attributes@, "roomId"@) {
            Option::Some(rid) => r matches Ok(ev) && (ev matches Event::Left { room_id }
                && room_id@ == rid),
            Option::None => r matches Err(err) && (err matches SCError::MissingAttribute(a) && a@
                == "roomId"@),
        }
    } else if e.name@ == "room"@ {
        match spec_attr(e.attributes@, "roomId"@) {
            Option::None => r matches Err(err) && (err matches SCError::MissingAttribute(a) && a@
                == "roomId"@),
            Option::Some(rid) => match spec_child(e, "data"@) {
                Option::None => r matches Err(err) && (err matches SCError::MissingChild(n) && n@
                    == "data"@),
                Option::Some(de) => match r {
                    Ok(ev) => ev matches Event::Room { room_id, payload } && room_id@ == rid
                        && payload_rel(de, Ok(payload)),
                    Err(err) => payload_rel(de, Err(err)),
                },
            },
        }
    } else {
        r matches Err(err) && (err matches SCError::UnknownElement(el) && deep_like(el, e))
    }
}

impl Event {
    /// Classifies a top-level element as the event it carries.
    pub fn from_element(elem: &Element) -> (r: Result<Event, SCError>)
        ensures
            classify_rel(*elem, r),
    {
        if str_eq(elem.name().as_str(), "joined") {
            match elem.attribute("roomId") {
                Ok(rid) => Ok(Event::Joined { room_id: rid.clone() }),
                Err(e) => Err(e),
            }
        } else if str_eq(elem.name().as_str(), "left") {
            match elem.attribute("roomId") {
                Ok(rid) => Ok(Event::Left { room_id: rid.clone() }),
                Err(e) => Err(e),
            }
        } else if str_eq(elem.name().as_str(), "room") {
            let rid = match elem.attribute("roomId") {
                Ok(rid) => rid,
                Err(e) => {
                    return Err(e);
                },
            };
            let de = match elem.child_by_name("data") {
                Ok(c) => c,
                Err(e) => {
                    return Err(e);
                },
            };
            proof {
                assert(spec_child(*elem, "data"@) == Option::Some(*de));
            }
            match EventPayload::from_element(de) {
                Ok(payload) => Ok(Event::Room { room_id: rid.clone(), payload }),
                Err(e) => Err(e),
            }
        } else {
            Err(SCError::UnknownElement(elem.clone()))
        }
    }
}

/// Two players read off the same attributes agree on name and team.
pub open spec fn player_equiv(p1: Player, p2: Player) -> bool {
    p1.name@ == p2.name@ && p1.team == p2.team
}

/// Two elements agree one level deep.
pub open spec fn element_equiv(a: Element, b: Element) -> bool {
    &&& a.name == b.name
    &&& a.attributes@ == b.attributes@
    &&& a.content == b.content
    &&& a.children@.len() == b.children@.len()
}

/// Two states read off the same element agree on every component.
pub open spec fn state_equiv(s1: State, s2: State) -> bool {
    &&& s1.board@ == s2.board@
    &&& s1.ambers@ == s2.ambers@
    &&& s1.turn == s2.turn
    &&& s1.last_move == s2.last_move
    &&& s1.start_team == s2.start_team
}

/// Two results read off the same element agree on every component.
pub open spec fn result_equiv(g1: GameResult, g2: GameResult) -> bool {
    &&& g1.definition.fragments@ == g2.definition.fragments@
    &&& g1.scores@.len() == g2.scores@.len()
    &&& forall|i: int|
        0 <= i < g1.scores@.len() ==> player_equiv(
            (#[trigger] g1.scores@[i]).0,
            (#[trigger] g2.scores@[i]).0,
        ) && g1.scores@[i].1.parts@ == g2.scores@[i].1.parts@
    &&& player_equiv(g1.winner, g2.winner)
}

/// Two payloads read off the same element agree.
pub open spec fn payload_equiv(p1: EventPayload, p2: EventPayload) -> bool {
    match (p1, p2) {
        (EventPayload::Welcome, EventPayload::Welcome) => true,
        (EventPayload::MoveRequest, EventPayload::MoveRequest) => true,
        (EventPayload::Memento(s1), EventPayload::Memento(s2)) => state_equiv(s1, s2),
        (EventPayload::GameResult(g1), EventPayload::GameResult(g2)) => result_equiv(g1, g2),
        (EventPayload::Unrecognized(e1), EventPayload::Unrecognized(e2)) => element_equiv(e1, e2),
        _ => false,
    }
}

/// Two events read off the same element agree.
pub open spec fn event_equiv(ev1: Event, ev2: Event) -> bool {
    match (ev1, ev2) {
        (Event::Joined { room_id: a }, Event::Joined { room_id: b }) => a@ == b@,
        (Event::Left { room_id: a }, Event::Left { room_id: b }) => a@ == b@,
        (
            Event::Room { room_id: a, payload: p1 },
            Event::Room { room_id: b, payload: p2 },
        ) => a@ == b@ && payload_equiv(p1, p2),
        _ => false,
    }
}

/// Law: classification is a function of the element alone.  Two readings of
/// the same element succeed or fail together, and when they succeed they
/// yield events that agree on every component.
pub proof fn lemma_classify_deterministic(
    e: Element,
    r1: Result<Event, SCError>,
    r2: Result<Event, SCError>,
)
    requires
        classify_rel(e, r1),
        classify_rel(e, r2),
    ensures
        r1 is Ok <==> r2 is Ok,
        (r1 is Ok && r2 is Ok) ==> event_equiv(r1->Ok_0, r2->Ok_0),
{
    if e.name@ == "joined"@ || e.name@ == "left"@ {
    } else if e.name@ == "room"@ {
        if r1 is Ok && r2 is Ok {
            let de = spec_child(e, "data"@)->Some_0;
            let p1 = r1->Ok_0->Room_payload;
            let p2 = r2->Ok_0->Room_payload;
            lemma_payload_deterministic(de, Ok(p1), Ok(p2));
        } else if r1 is Ok != r2 is Ok {
            let de = spec_child(e, "data"@)->Some_0;
            if r1 is Ok {
                lemma_payload_deterministic(de, Ok(r1->Ok_0->Room_payload), Err(r2->Err_0));
            } else {
                lemma_payload_deterministic(de, Err(r1->Err_0), Ok(r2->Ok_0->Room_payload));
            }
        }
    }
}

/// Payload classification is a function of the element alone.
proof fn lemma_payload_deterministic(
    e: Element,
    r1: Result<EventPayload, SCError>,
    r2: Result<EventPayload, SCError>,
)
    requires
        payload_rel(e, r1),
        payload_rel(e, r2),
    ensures
        r1 is Ok <==> r2 is Ok,
        (r1 is Ok && r2 is Ok) ==> payload_equiv(r1->Ok_0, r2->Ok_0),
{
    reveal_strlit("welcomeMessage");
    reveal_strlit("memento");
    reveal_strlit("moveRequest");
    reveal_strlit("result");
    match spec_attr(e.attributes@, "class"@) {
        Option::None => {},
        Option::Some(c) => {
            if c == "memento"@ && r1 is Ok && r2 is Ok {
                let se = spec_child(e, "state"@)->Some_0;
                let s1 = r1->Ok_0->Memento_0;
                let s2 = r2->Ok_0->Memento_0;
                assert("memento"@.len() == 7);
                assert("welcomeMessage"@.len() == 14);
                assert(is_state_of(se, s1));
                assert(is_state_of(se, s2));
                assert(s1.ambers@ =~= s2.ambers@) by {
                    let ae = spec_child(se, "ambers"@)->Some_0;
                    let ents = crate::xml::spec_named_children(ae.children@, "entry"@);
                    assert forall|i: int|
                        0 <= i < s1.ambers@.len() implies #[trigger] s1.ambers@[i]
                        == s2.ambers@[i] by {
                        assert(crate::game::state::spec_amber_of(ents[i]) == Option::Some(
                            (s1.ambers@[i].0, s1.ambers@[i].1 as int),
                        ));
                        assert(crate::game::state::spec_amber_of(ents[i]) == Option::Some(
                            (s2.ambers@[i].0, s2.ambers@[i].1 as int),
                        ));
                    }
                }
            } else if c == "result"@ && r1 is Ok && r2 is Ok {
                let g1 = r1->Ok_0->GameResult_0;
                let g2 = r2->Ok_0->GameResult_0;
                assert("welcomeMessage"@.len() == 14);
                assert("memento"@.len() == 7);
                assert("moveRequest"@.len() == 11);
                assert("result"@.len() == 6);
                assert(is_result_of(e, g1));
                assert(is_result_of(e, g2));
                let se = spec_child(e, "scores"@)->Some_0;
                let ents = crate::xml::spec_named_children(se.children@, "entry"@);
                assert(g1.scores@.len() == ents.len());
                assert(g2.scores@.len() == ents.len());
                assert forall|i: int|
                    0 <= i < g1.scores@.len() implies player_equiv(
                    (#[trigger] g1.scores@[i]).0,
                    (#[trigger] g2.scores@[i]).0,
                ) && g1.scores@[i].1.parts@ == g2.scores@[i].1.parts@ by {
                    assert(score_entry_matches(ents[i], g1.scores@[i].0, g1.scores@[i].1));
                    assert(score_entry_matches(ents[i], g2.scores@[i].0, g2.scores@[i].1));
                }
            }
        },
    }
}

} // verus!
