use vstd::prelude::*;
use crate::game::moves::{is_move_element, Move};
use crate::xml::Element;

verus! {

/// The data of a room-scoped message from the client to the peer.
#[derive(Debug, Clone, Copy, PartialEq, Eq, Structural)]
pub enum RequestPayload {
    /// A move to be performed.
    Move(Move),
}

impl RequestPayload {
    /// Encodes this payload as its canonical `data` element.
    pub fn to_element(&self) -> (r: Element)
        ensures
            match self {
                RequestPayload::Move(m) => is_move_element(r, *m),
            },
    {
        match self {
            RequestPayload::Move(m) => m.to_element(),
        }
    }
}

} // verus!
