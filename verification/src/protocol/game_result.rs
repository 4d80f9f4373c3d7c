use vstd::prelude::*;
use crate::error::SCError;
use crate::numbers::{parse_i64, spec_parse_i64};
use crate::xml::{spec_child, spec_named_children, Element};
use super::player::{is_player_of, player_of_fails, Player};
use super::score_definition::{spec_definition_of, ScoreDefinition};

verus! {

/// One player's score: its numeric parts, one per fragment of the score
/// definition.
#[derive(Debug, Clone, PartialEq, Eq)]
pub struct Score {
    pub parts: Vec<i64>,
}

/// The numeric parts a list of `part` elements encodes, read from their
/// text content; `None` where any of them is malformed.
pub open spec fn spec_parts_of(entries: Seq<Element>) -> Option<Seq<i64>>
    decreases entries.len(),
{
    if entries.len() == 0 {
        Option::Some(Seq::empty())
    } else {
        match spec_parts_of(entries.drop_last()) {
            Option::Some(rest) => match spec_parse_i64(entries.last().content@) {
                Option::Some(v) => Option::Some(rest.push(v as i64)),
                Option::None => Option::None,
            },
            Option::None => Option::None,
        }
    }
}

/// A malformed part keeps every extension of the list from encoding a
/// score.
proof fn lemma_parts_bad_entry(entries: Seq<Element>, i: int)
    requires
        0 <= i < entries.len(),
        spec_parse_i64(entries[i].content@) is None,
    ensures
        spec_parts_of(entries) is None,
    decreases entries.len(),
{
    if entries.len() > 0 && i < entries.len() - 1 {
        assert(entries.drop_last()[i] == entries[i]);
        lemma_parts_bad_entry(entries.drop_last(), i);
    }
}

impl Score {
    /// The parts of the score, in order.
    pub fn parts(&self) -> (r: &Vec<i64>)
        ensures
            r == &self.parts,
    {
        &self.parts
    }

    /// Reads a score from an element's `part` children.
    pub fn from_element(elem: &Element) -> (r: Result<Score, SCError>)
        ensures
            match spec_parts_of(spec_named_children(elem.children@, "part"@)) {
                Option::Some(ps) => r matches Ok(s) && s.parts@ == ps,
                Option::None => r is Err,
            },
            r matches Err(e) ==> e is InvalidNumber,
    {
        let entries = elem.childs_by_name("part");
        let ghost ents = spec_named_children(elem.children@, "part"@);
        let mut parts: Vec<i64> = Vec::new();
        let n = entries.len();
        let mut i: usize = 0;
        while i < n
            invariant
                n == entries@.len(),
                i <= n,
                n == ents.len(),
                ents == spec_named_children(elem.children@, "part"@),
                forall|j: int| 0 <= j < n ==> *(#[trigger] entries@[j]) == ents[j],
                spec_parts_of(ents.take(i as int)) == Option::Some(parts@),
            decreases n - i,
        {
            let v = match parse_i64(entries[i].content().as_str()) {
                Ok(v) => v,
                Err(e) => {
                    proof {
                        assert(*entries@[i as int] == ents[i as int]);
                        lemma_parts_bad_entry(ents, i as int);
                    }
                    return Err(e);
                },
            };
            parts.push(v);
            proof {
                assert(ents.take(i as int + 1).drop_last() =~= ents.take(i as int));
                assert(ents.take(i as int + 1).last() == ents[i as int]);
            }
            i = i + 1;
        }
        proof {
            assert(ents.take(n as int) =~= ents);
        }
        Ok(Score { parts })
    }
}

/// One entry of a result's `scores` child pairs `p` with `s`.
pub open spec fn score_entry_matches(e: Element, p: Player, s: Score) -> bool {
    &&& (spec_child(e, "player"@) matches Option::Some(pe) && is_player_of(pe, p))
    &&& (spec_child(e, "score"@) matches Option::Some(sc) && spec_parts_of(
        spec_named_children(sc.children@, "part"@),
    ) == Option::Some(s.parts@))
}

/// One entry of a result's `scores` child cannot be read.
pub open spec fn score_entry_fails(e: Element) -> bool {
    ||| spec_child(e, "player"@) is None
    ||| (spec_child(e, "player"@) matches Option::Some(pe) && player_of_fails(pe))
    ||| spec_child(e, "score"@) is None
    ||| (spec_child(e, "score"@) matches Option::Some(sc) && spec_parts_of(
        spec_named_children(sc.children@, "part"@),
    ) is None)
}

/// Some entry under a `scores` element cannot be read.
pub open spec fn scores_entries_fail(se: Element) -> bool {
    exists|i: int|
        0 <= i < spec_named_children(se.children@, "entry"@).len() && score_entry_fails(
            #[trigger] spec_named_children(se.children@, "entry"@)[i],
        )
}

/// No result can be read off `elem`: its definition, a score entry or the
/// winner is missing or malformed.
pub open spec fn result_of_fails(elem: Element) -> bool {
    ||| spec_child(elem, "definition"@) is None
    ||| (spec_child(elem, "definition"@) matches Option::Some(de) && spec_definition_of(de)
        is None)
    ||| spec_child(elem, "scores"@) is None
    ||| (spec_child(elem, "scores"@) matches Option::Some(se) && scores_entries_fail(se))
    ||| spec_child(elem, "winner"@) is None
    ||| (spec_child(elem, "winner"@) matches Option::Some(we) && player_of_fails(we))
}

/// A bad entry under `scores` keeps the element from encoding a result.
proof fn lemma_result_fails_at(elem: Element, se: Element, i: int)
    requires
        spec_child(elem, "scores"@) == Option::Some(se),
        0 <= i < spec_named_children(se.children@, "entry"@).len(),
        score_entry_fails(spec_named_children(se.children@, "entry"@)[i]),
    ensures
        result_of_fails(elem),
{
    let ents = spec_named_children(se.children@, "entry"@);
    assert(0 <= i < ents.len() && score_entry_fails(ents[i]));
    assert(scores_entries_fail(se));
}

/// The final outcome of a match: what the scores mean, each player's score,
/// and the winner.
#[derive(Debug, Clone, PartialEq, Eq)]
pub struct GameResult {
    pub definition: ScoreDefinition,
    pub scores: Vec<(Player, Score)>,
    pub winner: Player,
}

/// `g` is the result an element's `definition` / `scores` / `winner`
/// children encode.
pub open spec fn is_result_of(elem: Element, g: GameResult) -> bool {
    &&& (spec_child(elem, "definition"@) matches Option::Some(de) && spec_definition_of(de)
        == Option::Some(g.definition.fragments@))
    &&& (spec_child(elem, "scores"@) matches Option::Some(se) && {
        let ents = spec_named_children(se.children@, "entry"@);
        &&& g.scores@.len() == ents.len()
        &&& forall|i: int|
            0 <= i < ents.len() ==> score_entry_matches(
                #[trigger] ents[i],
                g.scores@[i].0,
                g.scores@[i].1,
            )
    })
    &&& (spec_child(elem, "winner"@) matches Option::Some(we) && is_player_of(we, g.winner))
}

impl GameResult {
    /// A result with the given definition, scores and winner.
    pub fn new(definition: ScoreDefinition, scores: Vec<(Player, Score)>, winner: Player) -> (r:
        Self)
        ensures
            r.definition == definition,
            r.scores == scores,
            r.winner == winner,
    {
        Self { definition, scores, winner }
    }

    /// What the score entries mean.
    pub fn definition(&self) -> (r: &ScoreDefinition)
        ensures
            r == &self.definition,
    {
        &self.definition
    }

    /// The players' scores.
    pub fn scores(&self) -> (r: &Vec<(Player, Score)>)
        ensures
            r == &self.scores,
    {
        &self.scores
    }

    /// The winning player.
    pub fn winner(&self) -> (r: &Player)
        ensures
            r == &self.winner,
    {
        &self.winner
    }

    /// Reads a result from an element's `definition`, `scores` and `winner`
    /// children.
    pub fn from_element(elem: &Element) -> (r: Result<GameResult, SCError>)
        ensures
            r matches Ok(g) ==> is_result_of(*elem, g),
            r is Err <==> result_of_fails(*elem),
            r matches Err(e) ==> (e is MissingChild || e is MissingAttribute || e
                is InvalidNumber || e is UnknownVariant),
    {
        let de = match elem.child_by_name("definition") {
            Ok(c) => c,
            Err(e) => {
                return Err(e);
            },
        };
        proof {
            assert(spec_child(*elem, "definition"@) == Option::Some(*de));
        }
        let definition = match ScoreDefinition::from_element(de) {
            Ok(d) => d,
            Err(e) => {
                return Err(e);
            },
        };
        let se = match elem.child_by_name("scores") {
            Ok(c) => c,
            Err(e) => {
                return Err(e);
            },
        };
        proof {
            assert(spec_child(*elem, "scores"@) == Option::Some(*se));
        }
        let entries = se.childs_by_name("entry");
        let ghost ents = spec_named_children(se.children@, "entry"@);
        let mut scores: Vec<(Player, Score)> = Vec::new();
        let n = entries.len();
        let mut i: usize = 0;
        while i < n
            invariant
                spec_child(*elem, "scores"@) == Option::Some(*se),
                ents == spec_named_children(se.children@, "entry"@),
                n == entries@.len(),
                i <= n,
                n == ents.len(),
                forall|j: int| 0 <= j < n ==> *(#[trigger] entries@[j]) == ents[j],
                scores@.len() == i,
                forall|j: int|
                    0 <= j < i ==> score_entry_matches(
                        #[trigger] ents[j],
                        scores@[j].0,
                        scores@[j].1,
                    ),
            decreases n - i,
        {
            let entry = entries[i];
            proof {
                assert(*entry == ents[i as int]);
            }
            let pe = match entry.child_by_name("player") {
                Ok(c) => c,
                Err(e) => {
                    proof {
                        assert(score_entry_fails(
                            spec_named_children(se.children@, "entry"@)[i as int],
                        ));
                        lemma_result_fails_at(*elem, *se, i as int);
                    }
                    return Err(e);
                },
            };
            proof {
                assert(spec_child(*entry, "player"@) == Option::Some(*pe));
            }
            let p = match Player::from_element(pe) {
                Ok(p) => p,
                Err(e) => {
                    proof {
                        assert(score_entry_fails(
                            spec_named_children(se.children@, "entry"@)[i as int],
                        ));
                        lemma_result_fails_at(*elem, *se, i as int);
                    }
                    return Err(e);
                },
            };
            let sc = match entry.child_by_name("score") {
                Ok(c) => c,
                Err(e) => {
                    proof {
                        assert(score_entry_fails(
                            spec_named_children(se.children@, "entry"@)[i as int],
                        ));
                        lemma_result_fails_at(*elem, *se, i as int);
                    }
                    return Err(e);
                },
            };
            proof {
                assert(spec_child(*entry, "score"@) == Option::Some(*sc));
            }
            let s = match Score::from_element(sc) {
                Ok(s) => s,
                Err(e) => {
                    proof {
                        assert(score_entry_fails(
                            spec_named_children(se.children@, "entry"@)[i as int],
                        ));
                        lemma_result_fails_at(*elem, *se, i as int);
                    }
                    return Err(e);
                },
            };
            scores.push((p, s));
            i = i + 1;
        }
        let we = match elem.child_by_name("winner") {
            Ok(c) => c,
            Err(e) => {
                return Err(e);
            },
        };
        proof {
            assert(spec_child(*elem, "winner"@) == Option::Some(*we));
        }
        let winner = match Player::from_element(we) {
            Ok(p) => p,
            Err(e) => {
                return Err(e);
            },
        };
        proof {
            assert(spec_named_children(se.children@, "entry"@) == ents);
            assert forall|k: int| 0 <= k < ents.len() implies !score_entry_fails(
                #[trigger] ents[k],
            ) by {
                assert(score_entry_matches(ents[k], scores@[k].0, scores@[k].1));
            }
            assert(!scores_entries_fail(*se));
            assert(!result_of_fails(*elem));
        }
        Ok(GameResult { definition, scores, winner })
    }
}

} // verus!
