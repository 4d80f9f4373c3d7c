use vstd::prelude::*;
use crate::xml::{spec_attr, spec_attr_index, Element};

verus! {

/// The identifier of the game type this client plays, sent with an open
/// matchmaking request.
pub const GAME_TYPE: &'static str = "swc_2022_ostseeschach";

/// A request of the client to the peer: one of the three join variants.
/// Exactly one is chosen at session construction and sent exactly once.
#[derive(Debug, Clone, PartialEq, Eq)]
pub enum Request {
    /// Joins an arbitrary open game.
    Join,
    /// Joins the room with the given id.
    JoinRoom { room_id: String },
    /// Joins a reserved place in a planned match, named by a reservation
    /// code.
    JoinPrepared { reservation_code: String },
}

/// `e` is the canonical encoding of `req`: one element named after the
/// variant, carrying exactly the variant's datum as its one attribute, with
/// no children and no content.
pub open spec fn is_request_element(e: Element, req: Request) -> bool {
    &&& e.children@.len() == 0
    &&& e.content@.len() == 0
    &&& e.attributes@.len() == 1
    &&& match req {
        Request::Join => {
            &&& e.name@ == "join"@
            &&& e.attributes@[0].0@ == "gameType"@
            &&& e.attributes@[0].1@ == GAME_TYPE@
        },
        Request::JoinRoom { room_id } => {
            &&& e.name@ == "joinRoom"@
            &&& e.attributes@[0].0@ == "roomId"@
            &&& e.attributes@[0].1@ == room_id@
        },
        Request::JoinPrepared { reservation_code } => {
            &&& e.name@ == "joinPrepared"@
            &&& e.attributes@[0].0@ == "reservationCode"@
            &&& e.attributes@[0].1@ == reservation_code@
        },
    }
}

impl Request {
    /// Encodes this request as its canonical element.
    pub fn to_element(&self) -> (r: Element)
        ensures
            is_request_element(r, *self),
    {
        match self {
            Request::Join => Element::new("join").attribute("gameType", GAME_TYPE).build(),
            Request::JoinRoom { room_id } => Element::new("joinRoom").attribute(
                "roomId",
                room_id.as_str(),
            ).build(),
            Request::JoinPrepared { reservation_code } => Element::new("joinPrepared").attribute(
                "reservationCode",
                reservation_code.as_str(),
            ).build(),
        }
    }
}

/// Law: encoding a prepared join produces an element named `joinPrepared`
/// with no children, whose one attribute binds `reservationCode` to the
/// reservation code, so that reading that attribute back through the
/// accessor contract recovers the code.
pub proof fn lemma_join_prepared_round_trip(e: Element, req: Request)
    requires
        req is JoinPrepared,
        is_request_element(e, req),
    ensures
        e.name@ == "joinPrepared"@,
        e.children@.len() == 0,
        spec_attr(e.attributes@, "reservationCode"@) == Option::Some(
            req->JoinPrepared_reservation_code@,
        ),
{
    assert(spec_attr_index(e.attributes@, "reservationCode"@, 0) == Option::Some(0int));
}

} // verus!
