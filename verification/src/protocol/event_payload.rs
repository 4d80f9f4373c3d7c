use vstd::prelude::*;
use crate::error::SCError;
use crate::game::state::{is_state_of, state_of_fails, State};
use crate::strutil::str_eq;
use crate::xml::{deep_like, spec_attr, spec_child, Element};
use super::game_result::{is_result_of, result_of_fails, GameResult};

verus! {

/// The data of a room-scoped message from the peer, selected by the
/// element's `class` attribute.
#[derive(Debug, Clone, PartialEq, Eq)]
pub enum EventPayload {
    /// A welcome message.
    Welcome,
    /// A snapshot of the game state.
    Memento(State),
    /// A request to reply with a move.
    MoveRequest,
    /// The final outcome of the match.
    GameResult(GameResult),
    /// A payload class this client does not recognize, kept whole so that
    /// the session can skip it and stay alive.
    Unrecognized(Element),
}

/// How a `data` element classifies: the relation between the element and
/// what reading it yields.  An unrecognized class is not an error but the
/// `Unrecognized` payload; a missing `class` attribute or a malformed known
/// payload is a decode error.
pub open spec fn payload_rel(e: Element, r: Result<EventPayload, SCError>) -> bool {
    match spec_attr(e.attributes@, "class"@) {
        Option::None => r matches Err(err) && (err matches SCError::MissingAttribute(a) && a@
            == "class"@),
        Option::Some(c) => {
            if c == "welcomeMessage"@ {
                r == Ok::<EventPayload, SCError>(EventPayload::Welcome)
            } else if c == "memento"@ {
                match spec_child(e, "state"@) {
                    Option::None => r matches Err(err) && (err matches SCError::MissingChild(n)
                        && n@ == "state"@),
                    Option::Some(se) => match r {
                        Ok(p) => p matches EventPayload::Memento(st) && is_state_of(se, st)
                            && !state_of_fails(se),
                        Err(err) => state_of_fails(se) && (err is MissingChild || err
                            is MissingAttribute || err is InvalidNumber || err
                            is UnknownVariant),
                    },
                }
            } else if c == "moveRequest"@ {
                r == Ok::<EventPayload, SCError>(EventPayload::MoveRequest)
            } else if c == "result"@ {
                match r {
                    Ok(p) => p matches EventPayload::GameResult(g) && is_result_of(e, g)
                        && !result_of_fails(e),
                    Err(err) => result_of_fails(e) && (err is MissingChild || err
                        is MissingAttribute || err is InvalidNumber || err is UnknownVariant),
                }
            } else {
                r matches Ok(p) && p matches EventPayload::Unrecognized(el) && deep_like(el, e)
            }
        },
    }
}

impl EventPayload {
    /// Classifies a `data` element by its `class` attribute and reads the
    /// payload it carries.
    pub fn from_element(elem: &Element) -> (r: Result<EventPayload, SCError>)
        ensures
            payload_rel(*elem, r),
    {
        let class = match elem.attribute("class") {
            Ok(c) => c,
            Err(e) => {
                return Err(e);
            },
        };
        if str_eq(class.as_str(), "welcomeMessage") {
            Ok(EventPayload::Welcome)
        } else if str_eq(class.as_str(), "memento") {
            let se = match elem.child_by_name("state") {
                Ok(c) => c,
                Err(e) => {
                    return Err(e);
                },
            };
            proof {
                assert(spec_child(*elem, "state"@) == Option::Some(*se));
            }
            match State::from_element(se) {
                Ok(st) => Ok(EventPayload::Memento(st)),
                Err(e) => Err(e),
            }
        } else if str_eq(class.as_str(), "moveRequest") {
            Ok(EventPayload::MoveRequest)
        } else if str_eq(class.as_str(), "result") {
            match GameResult::from_element(elem) {
                Ok(g) => Ok(EventPayload::GameResult(g)),
                Err(e) => Err(e),
            }
        } else {
            Ok(EventPayload::Unrecognized(elem.clone()))
        }
    }
}

} // verus!
