use vstd::prelude::*;
use crate::error::SCError;
use crate::xml::{spec_named_children, Element};
use super::score_definition_fragment::{spec_fragment_of, ScoreDefinitionFragment};

verus! {

/// What the entries of a score mean, fragment by fragment.
#[derive(Debug, Clone, PartialEq, Eq)]
pub struct ScoreDefinition {
    pub fragments: Vec<ScoreDefinitionFragment>,
}

/// The fragments a list of `fragment` elements encodes; `None` where any of
/// them is malformed.
pub open spec fn spec_fragments_of(entries: Seq<Element>) -> Option<Seq<ScoreDefinitionFragment>>
    decreases entries.len(),
{
    if entries.len() == 0 {
        Option::Some(Seq::empty())
    } else {
        match spec_fragments_of(entries.drop_last()) {
            Option::Some(rest) => match spec_fragment_of(entries.last()) {
                Option::Some(f) => Option::Some(rest.push(f)),
                Option::None => Option::None,
            },
            Option::None => Option::None,
        }
    }
}

/// The definition a `definition` element encodes: its `fragment` children
/// in order.
pub open spec fn spec_definition_of(elem: Element) -> Option<Seq<ScoreDefinitionFragment>> {
    spec_fragments_of(spec_named_children(elem.children@, "fragment"@))
}

/// A malformed fragment keeps every extension of the list from encoding a
/// definition.
proof fn lemma_fragments_bad_entry(entries: Seq<Element>, i: int)
    requires
        0 <= i < entries.len(),
        spec_fragment_of(entries[i]) is None,
    ensures
        spec_fragments_of(entries) is None,
    decreases entries.len(),
{
    if entries.len() > 0 && i < entries.len() - 1 {
        assert(entries.drop_last()[i] == entries[i]);
        lemma_fragments_bad_entry(entries.drop_last(), i);
    }
}

impl ScoreDefinition {
    /// The fragments of the definition, in order.
    pub fn fragments(&self) -> (r: &Vec<ScoreDefinitionFragment>)
        ensures
            r == &self.fragments,
    {
        &self.fragments
    }

    /// Reads a definition from an element's `fragment` children.
    pub fn from_element(elem: &Element) -> (r: Result<ScoreDefinition, SCError>)
        ensures
            match spec_definition_of(*elem) {
                Option::Some(fs) => r matches Ok(d) && d.fragments@ == fs,
                Option::None => r is Err,
            },
            r matches Err(e) ==> (e is MissingChild || e is UnknownVariant),
    {
        let entries = elem.childs_by_name("fragment");
        let ghost ents = spec_named_children(elem.children@, "fragment"@);
        let mut fragments: Vec<ScoreDefinitionFragment> = Vec::new();
        let n = entries.len();
        let mut i: usize = 0;
        while i < n
            invariant
                n == entries@.len(),
                i <= n,
                n == ents.len(),
                ents == spec_named_children(elem.children@, "fragment"@),
                forall|j: int| 0 <= j < n ==> *(#[trigger] entries@[j]) == ents[j],
                spec_fragments_of(ents.take(i as int)) == Option::Some(fragments@),
            decreases n - i,
        {
            let f = match ScoreDefinitionFragment::from_element(entries[i]) {
                Ok(f) => f,
                Err(e) => {
                    proof {
                        assert(*entries@[i as int] == ents[i as int]);
                        lemma_fragments_bad_entry(ents, i as int);
                    }
                    return Err(e);
                },
            };
            fragments.push(f);
            proof {
                assert(ents.take(i as int + 1).drop_last() =~= ents.take(i as int));
                assert(ents.take(i as int + 1).last() == ents[i as int]);
            }
            i = i + 1;
        }
        proof {
            assert(ents.take(n as int) =~= ents);
        }
        Ok(ScoreDefinition { fragments })
    }
}

} // verus!
