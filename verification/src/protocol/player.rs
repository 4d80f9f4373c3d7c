use vstd::prelude::*;
use crate::error::SCError;
use crate::game::team::{spec_team_of, Team};
use crate::xml::{spec_attr, Element};

verus! {

/// One of the two participants of a match, as the peer reports it.
#[derive(Debug, Clone, PartialEq, Eq)]
pub struct Player {
    pub name: String,
    pub team: Team,
}

/// `p` is the player an element's `name` / `team` attributes encode.
pub open spec fn is_player_of(elem: Element, p: Player) -> bool {
    &&& spec_attr(elem.attributes@, "name"@) == Option::Some(p.name@)
    &&& (spec_attr(elem.attributes@, "team"@) matches Option::Some(ts) && spec_team_of(ts)
        == Option::Some(p.team))
}

/// No player can be read off the element's attributes.
pub open spec fn player_of_fails(elem: Element) -> bool {
    ||| spec_attr(elem.attributes@, "name"@) is None
    ||| spec_attr(elem.attributes@, "team"@) is None
    ||| (spec_attr(elem.attributes@, "team"@) matches Option::Some(ts) && spec_team_of(ts)
        is None)
}

impl Player {
    /// A player with the given name and team.
    pub fn new(name: &str, team: Team) -> (r: Self)
        ensures
            r.name@ == name@,
            r.team == team,
    {
        Self { name: name.to_owned(), team }
    }

    /// The player's display name.
    pub fn name(&self) -> (r: &str)
        ensures
            r@ == self.name@,
    {
        self.name.as_str()
    }

    /// The player's team.
    pub fn team(&self) -> (r: Team)
        ensures
            r == self.team,
    {
        self.team
    }

    /// Reads a player from an element's `name` / `team` attributes.
    pub fn from_element(elem: &Element) -> (r: Result<Player, SCError>)
        ensures
            r matches Ok(p) ==> is_player_of(*elem, p),
            r is Err <==> player_of_fails(*elem),
            r matches Err(e) ==> (e is MissingAttribute || e is UnknownVariant),
    {
        let name = match elem.attribute("name") {
            Ok(s) => s,
            Err(e) => {
                return Err(e);
            },
        };
        let ts = match elem.attribute("team") {
            Ok(s) => s,
            Err(e) => {
                return Err(e);
            },
        };
        let team = match Team::from_str(ts.as_str()) {
            Ok(t) => t,
            Err(e) => {
                return Err(e);
            },
        };
        Ok(Player { name: name.clone(), team })
    }
}

} // verus!
