use vstd::prelude::*;
use vstd::slice::slice_to_vec;
use vstd::string::{StringExecFns, StringSliceAdditionalSpecFns};
use crate::error::SCError;
use crate::strutil::{is_ws_only, str_eq, ws_only};
use crate::wire::{attrs_view, key_ok, spec_key_ok, start_tag_bytes, end_tag_bytes, toks_of, token_seq, write_end_tag, TagWriter, Token, TokenModel, Tokenizer};

verus! {

/// One tree-shaped protocol unit: a named node with an ordered attribute
/// list (keys unique when built through [`ElementBuilder`]), ordered child
/// elements, and accumulated text content.  Elements are append-only while
/// the adapter consumes tokens and are not mutated once returned.
#[derive(Debug, PartialEq, Eq)]
pub struct Element {
    pub name: String,
    pub attributes: Vec<(String, String)>,
    pub children: Vec<Element>,
    pub content: String,
}

/// The index of the first pair at or after `from` whose key reads as `key`.
pub open spec fn spec_attr_index(attrs: Seq<(String, String)>, key: Seq<char>, from: int) -> Option<int>
    decreases attrs.len() - from,
{
    if from < 0 || from >= attrs.len() {
        Option::None
    } else if attrs[from].0@ == key {
        Option::Some(from)
    } else {
        spec_attr_index(attrs, key, from + 1)
    }
}

/// The value bound to `key` in an ordered attribute list: the value of the
/// first pair whose key matches, if any.
pub open spec fn spec_attr(attrs: Seq<(String, String)>, key: Seq<char>) -> Option<Seq<char>> {
    match spec_attr_index(attrs, key, 0) {
        Option::Some(i) => Option::Some(attrs[i].1@),
        Option::None => Option::None,
    }
}

/// The index of the first child at or after `from` named `name`, if any.
pub open spec fn spec_child_index(cs: Seq<Element>, name: Seq<char>, from: int) -> Option<int>
    decreases cs.len() - from,
{
    if from < 0 || from >= cs.len() {
        Option::None
    } else if cs[from].name@ == name {
        Option::Some(from)
    } else {
        spec_child_index(cs, name, from + 1)
    }
}

/// The first child of `e` named `name`, if any.
pub open spec fn spec_child(e: Element, name: Seq<char>) -> Option<Element> {
    match spec_child_index(e.children@, name, 0) {
        Option::Some(i) => Option::Some(e.children@[i]),
        Option::None => Option::None,
    }
}

/// The children of `cs` named `name`, in stored order.
pub open spec fn spec_named_children(cs: Seq<Element>, name: Seq<char>) -> Seq<Element>
    decreases cs.len(),
{
    if cs.len() == 0 {
        Seq::empty()
    } else {
        let rest = spec_named_children(cs.drop_last(), name);
        if cs.last().name@ == name {
            rest.push(cs.last())
        } else {
            rest
        }
    }
}

impl Element {
    /// The tag name of this element.
    pub fn name(&self) -> (r: &String)
        ensures
            r@ == self.name@,
    {
        &self.name
    }

    /// The accumulated text content; empty if the element held none.
    pub fn content(&self) -> (r: &String)
        ensures
            r@ == self.content@,
    {
        &self.content
    }

    /// The value of the attribute named `key`, or `MissingAttribute` if the
    /// element carries no such attribute.
    pub fn attribute<'a>(&'a self, key: &str) -> (r: Result<&'a String, SCError>)
        ensures
            match spec_attr(self.attributes@, key@) {
                Option::Some(v) => r matches Ok(s) && s@ == v,
                Option::None => r matches Err(e) && e matches SCError::MissingAttribute(k)
                    && k@ == key@,
            },
    {
        let n = self.attributes.len();
        let mut i: usize = 0;
        while i < n
            invariant
                n == self.attributes@.len(),
                i <= n,
                spec_attr_index(self.attributes@, key@, 0) == spec_attr_index(
                    self.attributes@,
                    key@,
                    i as int,
                ),
            decreases n - i,
        {
            if str_eq(self.attributes[i].0.as_str(), key) {
                return Ok(&self.attributes[i].1);
            }
            i = i + 1;
        }
        Err(SCError::MissingAttribute(key.to_owned()))
    }

    /// The first child element named `name`, or `MissingChild` if there is
    /// none.
    pub fn child_by_name<'a>(&'a self, name: &str) -> (r: Result<&'a Element, SCError>)
        ensures
            match spec_child_index(self.children@, name@, 0) {
                Option::Some(j) => r matches Ok(c) && *c == self.children@[j],
                Option::None => r matches Err(e) && e matches SCError::MissingChild(k)
                    && k@ == name@,
            },
    {
        let n = self.children.len();
        let mut i: usize = 0;
        while i < n
            invariant
                n == self.children@.len(),
                i <= n,
                spec_child_index(self.children@, name@, 0) == spec_child_index(
                    self.children@,
                    name@,
                    i as int,
                ),
            decreases n - i,
        {
            if str_eq(self.children[i].name.as_str(), name) {
                return Ok(&self.children[i]);
            }
            i = i + 1;
        }
        Err(SCError::MissingChild(name.to_owned()))
    }

    /// All children named `name`, in stored order; possibly empty.
    pub fn childs_by_name<'a>(&'a self, name: &str) -> (r: Vec<&'a Element>)
        ensures
            r@.len() == spec_named_children(self.children@, name@).len(),
            forall|j: int|
                0 <= j < r@.len() ==> *r@[j] == spec_named_children(self.children@, name@)[j],
    {
        let n = self.children.len();
        let mut out: Vec<&Element> = Vec::new();
        let mut i: usize = 0;
        while i < n
            invariant
                n == self.children@.len(),
                i <= n,
                out@.len() == spec_named_children(self.children@.take(i as int), name@).len(),
                forall|j: int|
                    0 <= j < out@.len() ==> *out@[j] == spec_named_children(
                        self.children@.take(i as int),
                        name@,
                    )[j],
            decreases n - i,
        {
            proof {
                assert(self.children@.take(i as int + 1).drop_last() =~= self.children@.take(
                    i as int,
                ));
                assert(self.children@.take(i as int + 1).last() == self.children@[i as int]);
            }
            if str_eq(self.children[i].name.as_str(), name) {
                out.push(&self.children[i]);
            }
            i = i + 1;
        }
        proof {
            assert(self.children@.take(n as int) =~= self.children@);
        }
        out
    }

    /// Starts a builder for an element named `name`.
    pub fn new(name: &str) -> (b: ElementBuilder)
        ensures
            b.spec_name() == name@,
            b.spec_attrs() == Seq::<(String, String)>::empty(),
            b.spec_children() == Seq::<Element>::empty(),
    {
        ElementBuilder { name: name.to_owned(), attributes: Vec::new(), children: Vec::new() }
    }
}

/// `a` carries the same tree as `b`: the same name, attribute list and
/// content at every node, and the same children, node for node.
pub open spec fn deep_like(a: Element, b: Element) -> bool
    decreases a,
{
    &&& a.name == b.name
    &&& a.attributes@ == b.attributes@
    &&& a.content == b.content
    &&& a.children@.len() == b.children@.len()
    &&& forall|i: int|
        0 <= i < a.children@.len() ==> deep_like(#[trigger] a.children@[i], b.children@[i])
}

/// A structural copy of `e`, carrying the same tree.
fn clone_element(e: &Element) -> (r: Element)
    ensures
        deep_like(r, *e),
    decreases *e,
{
    let mut attributes: Vec<(String, String)> = Vec::new();
    let n = e.attributes.len();
    let mut i: usize = 0;
    while i < n
        invariant
            n == e.attributes@.len(),
            i <= n,
            attributes@ =~= e.attributes@.take(i as int),
        decreases n - i,
    {
        attributes.push((e.attributes[i].0.clone(), e.attributes[i].1.clone()));
        proof {
            assert(attributes@ =~= e.attributes@.take(i as int + 1));
        }
        i = i + 1;
    }
    proof {
        assert(e.attributes@.take(n as int) =~= e.attributes@);
        assert(attributes@ == e.attributes@);
    }
    let mut children: Vec<Element> = Vec::new();
    let m = e.children.len();
    let mut j: usize = 0;
    while j < m
        invariant
            m == e.children@.len(),
            j <= m,
            children@.len() == j,
            forall|k: int|
                0 <= k < j ==> deep_like(#[trigger] children@[k], e.children@[k]),
        decreases m - j,
    {
        proof {
            assert(decreases_to!(*e => e.children@[j as int]));
        }
        children.push(clone_element(&e.children[j]));
        j = j + 1;
    }
    Element {
        name: e.name.clone(),
        attributes,
        children,
        content: e.content.clone(),
    }
}

impl Clone for Element {
    /// A structural copy, carrying the same tree.
    fn clone(&self) -> (r: Self)
        ensures
            deep_like(r, *self),
    {
        clone_element(self)
    }
}

/// An element under construction.  `Element::new` starts a builder; the
/// chaining methods accumulate attributes and children; `build` freezes the
/// result.
pub struct ElementBuilder {
    pub name: String,
    pub attributes: Vec<(String, String)>,
    pub children: Vec<Element>,
}

impl ElementBuilder {
    /// The name this builder was started with.
    pub open spec fn spec_name(&self) -> Seq<char> {
        self.name@
    }

    /// The attribute pairs accumulated so far.
    pub open spec fn spec_attrs(&self) -> Seq<(String, String)> {
        self.attributes@
    }

    /// The children accumulated so far.
    pub open spec fn spec_children(&self) -> Seq<Element> {
        self.children@
    }

    /// Records `value` under `key`; if `key` was already written, the last
    /// write wins and the attribute keeps its original position.
    pub fn attribute(self, key: &str, value: &str) -> (b: Self)
        ensures
            b.spec_name() == self.spec_name(),
            b.spec_children() == self.spec_children(),
            match spec_attr_index(self.spec_attrs(), key@, 0) {
                Option::Some(i) => {
                    &&& b.spec_attrs().len() == self.spec_attrs().len()
                    &&& forall|j: int|
                        0 <= j < b.spec_attrs().len() && j != i ==> b.spec_attrs()[j]
                            == self.spec_attrs()[j]
                    &&& b.spec_attrs()[i].0@ == key@
                    &&& b.spec_attrs()[i].1@ == value@
                },
                Option::None => {
                    &&& b.spec_attrs().len() == self.spec_attrs().len() + 1
                    &&& forall|j: int|
                        0 <= j < self.spec_attrs().len() ==> b.spec_attrs()[j]
                            == self.spec_attrs()[j]
                    &&& b.spec_attrs().last().0@ == key@
                    &&& b.spec_attrs().last().1@ == value@
                },
            },
    {
        let mut b = self;
        let n = b.attributes.len();
        let mut i: usize = 0;
        while i < n
            invariant
                n == b.attributes@.len(),
                i <= n,
                b == self,
                spec_attr_index(b.attributes@, key@, 0) == spec_attr_index(
                    b.attributes@,
                    key@,
                    i as int,
                ),
            decreases n - i,
        {
            if str_eq(b.attributes[i].0.as_str(), key) {
                let pair = (key.to_owned(), value.to_owned());
                b.attributes[i] = pair;
                return b;
            }
            i = i + 1;
        }
        b.attributes.push((key.to_owned(), value.to_owned()));
        b
    }

    /// Appends `child` after the children already recorded.
    pub fn child(self, child: Element) -> (b: Self)
        ensures
            b.spec_name() == self.spec_name(),
            b.spec_attrs() == self.spec_attrs(),
            b.spec_children() == self.spec_children().push(child),
    {
        let mut b = self;
        b.children.push(child);
        b
    }

    /// Freezes the builder into an element with empty content.
    pub fn build(self) -> (e: Element)
        ensures
            e.name == self.name,
            e.attributes == self.attributes,
            e.children == self.children,
            e.content@ == Seq::<char>::empty(),
    {
        Element {
            name: self.name,
            attributes: self.attributes,
            children: self.children,
            content: String::new(),
        }
    }
}


// ---------------------------------------------------------------------------
// Building trees out of tokens
// ---------------------------------------------------------------------------

/// A freshly opened node: named and attributed as its start token says,
/// with no children and no content yet.
pub open spec fn is_fresh_node(e: Element, name: Seq<char>, attrs: Seq<(Seq<char>, Seq<char>)>) -> bool {
    &&& e.name@ == name
    &&& attrs_view(e.attributes@) == attrs
    &&& e.children@ == Seq::<Element>::empty()
    &&& e.content@ == Seq::<char>::empty()
}

/// `e2` is `e1` with one more child appended and nothing else changed.
pub open spec fn is_child_appended(e2: Element, e1: Element, child: Element) -> bool {
    &&& e2.name == e1.name
    &&& e2.attributes == e1.attributes
    &&& e2.children@ == e1.children@.push(child)
    &&& e2.content == e1.content
}

/// `e2` is `e1` with `text` appended to its content and nothing else
/// changed.
pub open spec fn is_text_appended(e2: Element, e1: Element, text: Seq<char>) -> bool {
    &&& e2.name == e1.name
    &&& e2.attributes == e1.attributes
    &&& e2.children == e1.children
    &&& e2.content@ == e1.content@ + text
}

/// One step of the tree builder: consuming token `t` takes the stack of
/// in-progress nodes from `s0` to `s1` and emits `emitted`.  A start token
/// pushes a fresh node; text joins the content of the top node (pure
/// inter-element whitespace, and text outside any node, is dropped); a
/// matching end token pops the top node, attaching it as a child of the new
/// top or emitting it as the completed top-level unit.
pub open spec fn step_model(
    s0: Seq<Element>,
    t: TokenModel,
    s1: Seq<Element>,
    emitted: Option<Element>,
) -> bool {
    match t {
        TokenModel::Start { name, attrs, attrs_ok } => {
            &&& attrs_ok
            &&& s1.len() == s0.len() + 1
            &&& s1.take(s0.len() as int) == s0
            &&& is_fresh_node(s1.last(), name, attrs)
            &&& emitted is None
        },
        TokenModel::Text { text } => {
            &&& emitted is None
            &&& if is_ws_only(text) || s0.len() == 0 {
                s1 == s0
            } else {
                &&& s1.len() == s0.len()
                &&& s1.take(s0.len() - 1) == s0.take(s0.len() - 1)
                &&& is_text_appended(s1.last(), s0.last(), text)
            }
        },
        TokenModel::End { name } => {
            &&& s0.len() > 0
            &&& s0.last().name@ == name
            &&& if s0.len() == 1 {
                s1.len() == 0 && emitted == Option::Some(s0.last())
            } else {
                &&& s1.len() == s0.len() - 1
                &&& s1.take(s0.len() - 2) == s0.take(s0.len() - 2)
                &&& is_child_appended(s1.last(), s0[s0.len() - 2], s0.last())
                &&& emitted is None
            }
        },
        TokenModel::Other => s1 == s0 && emitted is None,
        TokenModel::Eof => false,
        TokenModel::Error => false,
    }
}

/// Starting from an empty stack and consuming `ts` without completing any
/// unit, the builder reaches stack `s`.
pub open spec fn reaches(ts: Seq<TokenModel>, s: Seq<Element>) -> bool
    decreases ts.len(),
{
    if ts.len() == 0 {
        s.len() == 0
    } else {
        exists|s0: Seq<Element>|
            reaches(ts.drop_last(), s0) && #[trigger] step_model(s0, ts.last(), s, Option::None)
    }
}

/// What makes the next input unconsumable on stack `s`: the stream is
/// exhausted (`None`) while a unit may still be open, or the next token is
/// malformed, an end-of-stream marker, or an end token that matches no open
/// node.
pub open spec fn fail_step(s: Seq<Element>, t: Option<TokenModel>) -> bool {
    match t {
        Option::None => true,
        Option::Some(tm) => match tm {
            TokenModel::Error => true,
            TokenModel::Start { attrs_ok, .. } => !attrs_ok,
            TokenModel::End { name } => s.len() == 0 || s.last().name@ != name,
            TokenModel::Eof => true,
            _ => false,
        },
    }
}

/// The input the builder would consume next, `None` once the stream is
/// exhausted.
pub open spec fn next_input(ts: Seq<TokenModel>, n: int) -> Option<TokenModel> {
    if 0 <= n < ts.len() {
        Option::Some(ts[n])
    } else {
        Option::None
    }
}

/// After consuming the first `n` tokens of `ts` without completing a unit,
/// the next input cannot be consumed.
pub open spec fn fails_at(ts: Seq<TokenModel>, n: int) -> bool {
    exists|s0: Seq<Element>|
        reaches(ts.take(n), s0) && #[trigger] fail_step(s0, next_input(ts, n))
}

/// Consuming exactly `ts` from an empty stack completes the unit `e` on the
/// last token.
pub open spec fn builds_to(ts: Seq<TokenModel>, e: Element) -> bool {
    ts.len() > 0 && exists|s0: Seq<Element>|
        reaches(ts.drop_last(), s0) && #[trigger] step_model(s0, ts.last(), Seq::empty(), Option::Some(e))
}

/// Consuming one more suitable token extends a reachable stack.
proof fn lemma_reaches_step(ts: Seq<TokenModel>, t: TokenModel, s0: Seq<Element>, s1: Seq<Element>)
    requires
        reaches(ts, s0),
        step_model(s0, t, s1, Option::None),
    ensures
        reaches(ts.push(t), s1),
{
    let ts2 = ts.push(t);
    assert(ts2.drop_last() =~= ts);
    assert(ts2.last() == t);
    assert(reaches(ts2.drop_last(), s0));
    assert(step_model(s0, ts2.last(), s1, Option::None));
    assert(reaches(ts2, s1));
}

/// Consuming one more end token that completes the unit builds it.
proof fn lemma_builds_step(ts: Seq<TokenModel>, t: TokenModel, s0: Seq<Element>, e: Element)
    requires
        reaches(ts, s0),
        step_model(s0, t, Seq::empty(), Option::Some(e)),
    ensures
        builds_to(ts.push(t), e),
{
    assert(ts.push(t).drop_last() =~= ts);
    assert(ts.push(t).last() == t);
}

/// The stack of in-progress nodes the adapter maintains while consuming
/// tokens.  One `TreeBuilder` lives for the whole session: between two
/// top-level units the stack is simply empty again.
pub struct TreeBuilder {
    pub stack: Vec<Element>,
}

impl TreeBuilder {
    /// A builder with an empty stack.
    pub fn new() -> (b: TreeBuilder)
        ensures
            b.stack@ == Seq::<Element>::empty(),
    {
        TreeBuilder { stack: Vec::new() }
    }

    /// Consumes one token.  `Ok(Some(..))` carries a completed top-level
    /// unit; `Err` reports a mismatched end token (`MalformedMarkup`) or the
    /// end of the stream (`Eof`), and leaves the stack as it was.
    pub fn push_token(&mut self, t: Token) -> (r: Result<Option<Element>, SCError>)
        ensures
            match r {
                Ok(out) => step_model(old(self).stack@, t@, final(self).stack@, out),
                Err(e) => {
                    &&& *final(self) == *old(self)
                    &&& match t@ {
                        TokenModel::Eof => e is Eof,
                        TokenModel::End { name } => (old(self).stack@.len() == 0 || old(
                            self,
                        ).stack@.last().name@ != name) && e is MalformedMarkup,
                        _ => false,
                    }
                },
            },
    {
        match t {
            Token::Start { name, attributes } => {
                let ghost s0 = self.stack@;
                let node = Element {
                    name,
                    attributes,
                    children: Vec::new(),
                    content: String::new(),
                };
                self.stack.push(node);
                proof {
                    assert(self.stack@.take(s0.len() as int) =~= s0);
                    assert(attrs_view(node.attributes@) =~= attrs_view(node.attributes@));
                }
                Ok(None)
            },
            Token::Text { text } => {
                if ws_only(text.as_str()) || self.stack.len() == 0 {
                    Ok(None)
                } else {
                    let ghost s0 = self.stack@;
                    let mut top = self.stack.pop().unwrap();
                    top.content.append(text.as_str());
                    self.stack.push(top);
                    proof {
                        assert(self.stack@.take(s0.len() - 1) =~= s0.take(s0.len() - 1));
                    }
                    Ok(None)
                }
            },
            Token::End { name } => {
                let depth = self.stack.len();
                if depth == 0 {
                    return Err(SCError::MalformedMarkup);
                }
                if !str_eq(self.stack[depth - 1].name.as_str(), name.as_str()) {
                    return Err(SCError::MalformedMarkup);
                }
                let ghost s0 = self.stack@;
                let top = self.stack.pop().unwrap();
                if depth == 1 {
                    proof {
                        assert(self.stack@ =~= Seq::<Element>::empty());
                    }
                    Ok(Some(top))
                } else {
                    let mut parent = self.stack.pop().unwrap();
                    parent.children.push(top);
                    self.stack.push(parent);
                    proof {
                        assert(self.stack@.take(s0.len() - 2) =~= s0.take(s0.len() - 2));
                    }
                    Ok(None)
                }
            },
            Token::Other => Ok(None),
            Token::Eof => Err(SCError::Eof),
        }
    }
}

/// Reads the tokens belonging to the next complete top-level unit from
/// `tok` - no more, no less - and returns it; fails with `Eof` when the
/// stream ends first and with `MalformedMarkup` on malformed tokens.
pub fn parse_next(tok: &mut Tokenizer) -> (r: Result<Element, SCError>)
    ensures
        r matches Ok(e) ==> exists|n: int|
            0 < n <= toks_of(*old(tok)).len() && builds_to(
                #[trigger] toks_of(*old(tok)).take(n),
                e,
            ) && toks_of(*final(tok)) == toks_of(*old(tok)).skip(n),
        r matches Err(e) ==> (e is Eof || e is MalformedMarkup) && exists|n: int|
            0 <= n <= toks_of(*old(tok)).len() && #[trigger] fails_at(toks_of(*old(tok)), n),
{
    let mut b = TreeBuilder::new();
    let ghost ts = toks_of(*tok);
    let ghost mut consumed: int = 0;
    loop
        invariant
            ts == toks_of(*old(tok)),
            0 <= consumed <= ts.len(),
            toks_of(*tok) == ts.skip(consumed),
            reaches(ts.take(consumed), b.stack@),
        decreases ts.len() - consumed,
    {
        let t = tok.next_token();
        let ghost prev = b.stack@;
        match t {
            Err(e) => {
                proof {
                    assert(fail_step(b.stack@, next_input(ts, consumed)));
                    assert(fails_at(ts, consumed));
                }
                return Err(e);
            },
            Ok(token) => {
                let ghost was_eof = toks_of(*old(tok)).len() == consumed;
                proof {
                    if !was_eof {
                        assert(ts.skip(consumed)[0] == ts[consumed]);
                        assert(ts.skip(consumed).drop_first() =~= ts.skip(consumed + 1));
                    }
                }
                let out = b.push_token(token);
                match out {
                    Err(e) => {
                        proof {
                            assert(fail_step(b.stack@, next_input(ts, consumed)));
                            assert(fails_at(ts, consumed));
                        }
                        return Err(e);
                    },
                    Ok(None) => {
                        proof {
                            consumed = consumed + 1;
                            assert(token@ == ts[consumed - 1]);
                            lemma_reaches_step(ts.take(consumed - 1), ts[consumed - 1], prev, b.stack@);
                            assert(ts.take(consumed - 1).push(ts[consumed - 1]) =~= ts.take(
                                consumed,
                            ));
                        }
                    },
                    Ok(Some(e)) => {
                        proof {
                            assert(token@ == ts[consumed]);
                            assert(b.stack@ =~= Seq::<Element>::empty());
                            lemma_builds_step(ts.take(consumed), ts[consumed], prev, e);
                            assert(ts.take(consumed).push(ts[consumed]) =~= ts.take(consumed + 1));
                        }
                        return Ok(e);
                    },
                }
            },
        }
    }
}

impl Element {
    /// Parses the first complete element of `s`; the input must begin with
    /// one well-formed element (inter-element whitespace aside).
    pub fn from_str(s: &str) -> (r: Result<Element, SCError>)
        ensures
            r matches Ok(e) ==> exists|n: int|
                0 < n <= token_seq(s.spec_bytes()).len() && builds_to(
                    #[trigger] token_seq(s.spec_bytes()).take(n),
                    e,
                ),
            r matches Err(e) ==> (e is Eof || e is MalformedMarkup) && exists|n: int|
                0 <= n <= token_seq(s.spec_bytes()).len() && #[trigger] fails_at(
                    token_seq(s.spec_bytes()),
                    n,
                ),
    {
        let bytes = slice_to_vec(s.as_bytes());
        let mut tok = Tokenizer::new(bytes);
        parse_next(&mut tok)
    }
}

// ---------------------------------------------------------------------------
// Serializing trees into bytes
// ---------------------------------------------------------------------------

/// The bytes of the serialized form of `e`: its start tag (name plus
/// attributes in stored order), its children in order, its end tag.
/// Content is not emitted: elements this client writes are built by the
/// encoder and carry none.
pub open spec fn ser_bytes(e: Element) -> Seq<u8>
    decreases e, 1int, 0int,
{
    start_tag_bytes(e.name@, attrs_view(e.attributes@)) + ser_children(
        e.children@,
        e.children@.len() as int,
    ) + end_tag_bytes(e.name@)
}

/// The bytes of the serialized forms of the first `i` elements of `cs`,
/// concatenated in order.
pub open spec fn ser_children(cs: Seq<Element>, i: int) -> Seq<u8>
    decreases cs, 0int, i,
{
    if 0 < i <= cs.len() {
        ser_children(cs, i - 1) + ser_bytes(cs[i - 1])
    } else {
        Seq::empty()
    }
}

/// Every pair's key may stand as an attribute key.
pub open spec fn keys_ok(attrs: Seq<(String, String)>) -> bool {
    forall|i: int| 0 <= i < attrs.len() ==> spec_key_ok((#[trigger] attrs[i]).0@)
}

/// Every attribute key of `e`, and of every node below it, may stand as an
/// attribute key; only such trees can be written out faithfully.
pub open spec fn wf_attr_keys(e: Element) -> bool
    decreases e,
{
    &&& keys_ok(e.attributes@)
    &&& forall|i: int|
        0 <= i < e.children@.len() ==> wf_attr_keys(#[trigger] e.children@[i])
}

/// Whether every key of `attrs` may stand as an attribute key.
fn attrs_keys_ok(attrs: &Vec<(String, String)>) -> (r: bool)
    ensures
        r == keys_ok(attrs@),
{
    let n = attrs.len();
    let mut i: usize = 0;
    while i < n
        invariant
            n == attrs@.len(),
            i <= n,
            forall|j: int| 0 <= j < i ==> spec_key_ok((#[trigger] attrs@[j]).0@),
        decreases n - i,
    {
        if !key_ok(attrs[i].0.as_str()) {
            proof {
                assert(!spec_key_ok(attrs@[i as int].0@));
            }
            return false;
        }
        i = i + 1;
    }
    true
}

/// Writes the start tag of `name` with `attributes` to `out`.
fn write_start_tag(out: &mut Vec<u8>, name: &String, attributes: &Vec<(String, String)>)
    requires
        keys_ok(attributes@),
    ensures
        final(out)@ == old(out)@ + start_tag_bytes(name@, attrs_view(attributes@)),
{
    let mut tag = TagWriter::new(name);
    proof {
        assert(attrs_view(attributes@).take(0) =~= Seq::<(Seq<char>, Seq<char>)>::empty());
    }
    let n = attributes.len();
    let mut i: usize = 0;
    while i < n
        invariant
            n == attributes@.len(),
            i <= n,
            keys_ok(attributes@),
            tag_model_is(tag, name@, attrs_view(attributes@).take(i as int)),
            out@ == old(out)@,
        decreases n - i,
    {
        proof {
            assert(spec_key_ok((attributes@[i as int]).0@));
        }
        tag.attribute(&attributes[i].0, &attributes[i].1);
        proof {
            assert(attrs_view(attributes@).take(i as int + 1) =~= attrs_view(
                attributes@,
            ).take(i as int).push((attributes@[i as int].0@, attributes@[i as int].1@)));
        }
        i = i + 1;
    }
    proof {
        assert(attrs_view(attributes@).take(n as int) =~= attrs_view(attributes@));
    }
    tag.write_start(out);
}

/// Appends the start tag of `name` with `attributes` to `out`, with no
/// matching end tag.  Used on its own exactly once per session, to open the
/// outer wrapper element that is never closed by this client.  Fails, and
/// writes nothing, exactly when some attribute key could not be written
/// faithfully.
pub fn write_open_only(out: &mut Vec<u8>, name: &String, attributes: &Vec<(String, String)>) -> (r:
    Result<(), SCError>)
    ensures
        r is Ok <==> keys_ok(attributes@),
        r is Ok ==> final(out)@ == old(out)@ + start_tag_bytes(name@, attrs_view(attributes@)),
        r matches Err(e) ==> e is MalformedMarkup && final(out)@ == old(out)@,
{
    if !attrs_keys_ok(attributes) {
        return Err(SCError::MalformedMarkup);
    }
    write_start_tag(out, name, attributes);
    Ok(())
}

/// The tag writer holds exactly this name and these attribute pairs.
pub open spec fn tag_model_is(t: TagWriter, name: Seq<char>, attrs: Seq<(Seq<char>, Seq<char>)>) -> bool {
    crate::wire::tag_model(t).0 == name && crate::wire::tag_model(t).1 == attrs
}

impl Element {
    /// Whether every attribute key in this tree may stand as an attribute
    /// key, so that the tree can be written out faithfully.
    pub fn has_wf_attr_keys(&self) -> (r: bool)
        ensures
            r == wf_attr_keys(*self),
        decreases *self,
    {
        if !attrs_keys_ok(&self.attributes) {
            return false;
        }
        let n = self.children.len();
        let mut i: usize = 0;
        while i < n
            invariant
                n == self.children@.len(),
                keys_ok(self.attributes@),
                i <= n,
                forall|j: int| 0 <= j < i ==> wf_attr_keys(#[trigger] self.children@[j]),
            decreases n - i,
        {
            proof {
                assert(decreases_to!(*self => self.children@[i as int]));
            }
            if !self.children[i].has_wf_attr_keys() {
                proof {
                    assert(!wf_attr_keys(self.children@[i as int]));
                }
                return false;
            }
            i = i + 1;
        }
        true
    }

    /// Appends the serialized form of this element to `out`.
    fn write_unchecked(&self, out: &mut Vec<u8>)
        requires
            wf_attr_keys(*self),
        ensures
            final(out)@ == old(out)@ + ser_bytes(*self),
        decreases *self, 1int, 0int,
    {
        write_start_tag(out, &self.name, &self.attributes);
        let ghost base = out@;
        let n = self.children.len();
        let mut i: usize = 0;
        while i < n
            invariant
                n == self.children@.len(),
                i <= n,
                wf_attr_keys(*self),
                out@ == base + ser_children(self.children@, i as int),
            decreases n - i,
        {
            proof {
                assert(decreases_to!(*self => self.children@[i as int]));
            }
            let ghost before = out@;
            self.children[i].write_unchecked(out);
            proof {
                assert(out@ =~= base + ser_children(self.children@, i as int + 1));
            }
            i = i + 1;
        }
        write_end_tag(out, &self.name);
        proof {
            assert(out@ =~= old(out)@ + (start_tag_bytes(self.name@, attrs_view(self.attributes@))
                + ser_children(self.children@, self.children@.len() as int) + end_tag_bytes(
                self.name@,
            )));
            assert(out@ == old(out)@ + ser_bytes(*self));
        }
    }

    /// Appends the serialized form of this element to `out`: its start tag,
    /// its children in order, its end tag.  Fails, and writes nothing,
    /// exactly when some attribute key in the tree could not be written
    /// faithfully.
    pub fn write_to(&self, out: &mut Vec<u8>) -> (r: Result<(), SCError>)
        ensures
            r is Ok <==> wf_attr_keys(*self),
            r is Ok ==> final(out)@ == old(out)@ + ser_bytes(*self),
            r matches Err(e) ==> e is MalformedMarkup && final(out)@ == old(out)@,
    {
        if !self.has_wf_attr_keys() {
            return Err(SCError::MalformedMarkup);
        }
        self.write_unchecked(out);
        Ok(())
    }
}

} // verus!
