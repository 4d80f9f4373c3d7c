use vstd::prelude::*;
use crate::xml::Element;

verus! {

/// The failure conditions of the protocol session, ordered roughly by the
/// layer that raises them: transport framing, element schema, decoding.
#[derive(Debug)]
pub enum SCError {
    /// The stream ended before the current protocol unit was complete, or
    /// while the session was still awaiting data.
    Eof,
    /// The token nesting was malformed (for example a mismatched end token)
    /// or the byte stream was not well-formed markup.
    MalformedMarkup,
    /// An element lacked an attribute that its schema requires.
    MissingAttribute(String),
    /// An element lacked a child that its schema requires.
    MissingChild(String),
    /// A textual literal did not name any known variant of its enum.
    UnknownVariant(String),
    /// A well-formed element whose tag or payload class this client does not
    /// recognize; kept distinct from decode errors so that the dispatcher can
    /// skip it and keep the session alive.
    UnknownElement(Element),
    /// A textual literal could not be read as a number in range.
    InvalidNumber(String),
}

/// Result alias used throughout the protocol layers.
pub type SCResult<T> = Result<T, SCError>;

} // verus!
