use vstd::prelude::*;
use crate::error::SCError;
use crate::strutil::str_eq;
use vstd::string::StringExecFns;
use quick_xml::events::Event as XmlEvent;
use quick_xml::events::{BytesEnd, BytesStart};
use quick_xml::XmlVersion;
use crate::wire::RawEvent::{Broken, EndTag, Eof as RawEof, Other as RawOther, Reference, StartTag, Text as RawText};

verus! {

// ---------------------------------------------------------------------------
// Tokens
// ---------------------------------------------------------------------------

/// One event of the low-level streaming tokenizer.  The adapter builds one
/// tree-shaped protocol unit out of a run of these.
pub enum Token {
    /// An opening tag with its attributes in source order.  Self-closing
    /// tags are delivered as a start token followed by an end token.
    Start { name: String, attributes: Vec<(String, String)> },
    /// A closing tag.
    End { name: String },
    /// A run of character data between tags - a CDATA section included -
    /// with references resolved.
    Text { text: String },
    /// Markup that carries no protocol content (a comment, a declaration,
    /// a processing instruction).
    Other,
    /// The end of the byte stream.
    Eof,
}

/// The mathematical image of a token: names and values as character
/// sequences.  `Error` stands for a position where the tokenizer cannot
/// produce a token because the markup is malformed; `attrs_ok` is false
/// when a tag itself scans but its attribute list does not.
pub ghost enum TokenModel {
    Start { name: Seq<char>, attrs: Seq<(Seq<char>, Seq<char>)>, attrs_ok: bool },
    End { name: Seq<char> },
    Text { text: Seq<char> },
    Other,
    Eof,
    Error,
}

/// The attribute pairs of an element, read as character sequences.
pub open spec fn attrs_view(attrs: Seq<(String, String)>) -> Seq<(Seq<char>, Seq<char>)> {
    Seq::new(attrs.len(), |i: int| (attrs[i].0@, attrs[i].1@))
}

impl View for Token {
    type V = TokenModel;

    open spec fn view(&self) -> TokenModel {
        match self {
            Token::Start { name, attributes } => TokenModel::Start {
                name: name@,
                attrs: attrs_view(attributes@),
                attrs_ok: true,
            },
            Token::End { name } => TokenModel::End { name: name@ },
            Token::Text { text } => TokenModel::Text { text: text@ },
            Token::Other => TokenModel::Other,
            Token::Eof => TokenModel::Eof,
        }
    }
}

/// The replacement text of a predefined XML entity reference, by name.
/// This client resolves exactly the five entities the XML recommendation
/// predefines; anything else in a reference is treated as malformed.
pub open spec fn spec_resolve_entity(name: Seq<char>) -> Option<Seq<char>> {
    if name == "amp"@ {
        Option::Some("&"@)
    } else if name == "lt"@ {
        Option::Some("<"@)
    } else if name == "gt"@ {
        Option::Some(">"@)
    } else if name == "apos"@ {
        Option::Some("'"@)
    } else if name == "quot"@ {
        Option::Some("\""@)
    } else {
        Option::None
    }
}

/// Resolves a predefined entity reference by name.
fn resolve_entity(name: &str) -> (r: Option<String>)
    ensures
        match spec_resolve_entity(name@) {
            Option::Some(v) => r matches Some(s) && s@ == v,
            Option::None => r is None,
        },
{
    if str_eq(name, "amp") {
        Some(String::from_str("&"))
    } else if str_eq(name, "lt") {
        Some(String::from_str("<"))
    } else if str_eq(name, "gt") {
        Some(String::from_str(">"))
    } else if str_eq(name, "apos") {
        Some(String::from_str("'"))
    } else if str_eq(name, "quot") {
        Some(String::from_str("\""))
    } else {
        None
    }
}

// ---------------------------------------------------------------------------
// Outside types
// ---------------------------------------------------------------------------

#[verifier::external_type_specification]
#[verifier::external_body]
#[verifier::reject_recursive_types(R)]
pub struct ExReader<R>(quick_xml::Reader<R>);

#[verifier::external_type_specification]
#[verifier::external_body]
#[verifier::reject_recursive_types(T)]
pub struct ExCursor<T>(std::io::Cursor<T>);

#[verifier::external_type_specification]
#[verifier::external_body]
pub struct ExBytesStart<'a>(quick_xml::events::BytesStart<'a>);

// ---------------------------------------------------------------------------
// Reading
// ---------------------------------------------------------------------------

/// A tokenizer positioned inside a byte buffer.  `toks_of` names the tokens
/// it has still to deliver; when a start tag has just been delivered,
/// `pending_attrs` / `pending_attrs_ok` name that tag's attribute list,
/// which is handed out pair by pair.
pub struct Tokenizer {
    reader: quick_xml::Reader<std::io::Cursor<Vec<u8>>>,
    pending: Option<BytesStart<'static>>,
    attr_idx: usize,
}

/// The tokens that quick_xml yields for `bytes`, in order, each taken to
/// its mathematical image; the sequence stops before the end-of-stream
/// event, stands at `Error` where the markup is malformed, and models
/// character data - CDATA sections included - and resolvable entity
/// references as the text they stand for.
pub uninterp spec fn token_seq(bytes: Seq<u8>) -> Seq<TokenModel>;

/// The tokens a tokenizer has still to deliver.
pub uninterp spec fn toks_of(t: Tokenizer) -> Seq<TokenModel>;

/// The attribute pairs of the start tag a tokenizer delivered last, not yet
/// handed out.
pub uninterp spec fn pending_attrs(t: Tokenizer) -> Seq<(Seq<char>, Seq<char>)>;

/// Whether the attribute list of the start tag delivered last scans
/// completely.
pub uninterp spec fn pending_attrs_ok(t: Tokenizer) -> bool;

/// A raw tokenizer event, before the attributes of a start tag have been
/// collected and before entity references have been resolved.  `Broken`
/// stands where the reader cannot scan the markup.
pub(crate) enum RawEvent {
    StartTag(String),
    EndTag(String),
    Text(String),
    Reference(String),
    Other,
    Eof,
    Broken,
}

impl Tokenizer {
    /// Relies on quick_xml's `Reader::from_reader`: a fresh reader over
    /// `bytes` (with self-closing tags expanded into a start/end pair)
    /// delivers exactly the token sequence of those bytes.
    #[verifier::external_body]
    pub fn new(bytes: Vec<u8>) -> (t: Tokenizer)
        ensures
            toks_of(t) == token_seq(bytes@),
    {
        let mut reader = quick_xml::Reader::from_reader(std::io::Cursor::new(bytes));
        reader.config_mut().expand_empty_elements = true;
        Tokenizer { reader, pending: None, attr_idx: 0 }
    }

    /// Relies on quick_xml's `Reader::read_event_into` and its events'
    /// accessors, which convert one event to plain values: delivers the
    /// next event of the stream, or end-of-stream markers forever once the
    /// input is exhausted.  Character data and CDATA sections are text; for
    /// a start tag, the tag's attributes become pending; an entity
    /// reference is delivered by name, still unresolved.
    #[verifier::external_body]
    fn read_raw(&mut self) -> (r: RawEvent)
        ensures
            toks_of(*old(self)).len() == 0 ==> (r is Eof && toks_of(*final(self)) == toks_of(
                *old(self),
            )),
            toks_of(*old(self)).len() > 0 ==> {
                &&& toks_of(*final(self)) == toks_of(*old(self)).drop_first()
                &&& match toks_of(*old(self))[0] {
                    TokenModel::Start { name, attrs, attrs_ok } => r matches
                        RawEvent::StartTag(n) && n@ == name && pending_attrs(*final(self))
                        == attrs && pending_attrs_ok(*final(self)) == attrs_ok,
                    TokenModel::End { name } => r matches RawEvent::EndTag(n) && n@ == name,
                    TokenModel::Text { text } => (r matches RawEvent::Text(t) && t@ == text) || (
                    r matches RawEvent::Reference(n) && spec_resolve_entity(n@) == Option::Some(
                        text,
                    )),
                    TokenModel::Other => r is Other,
                    TokenModel::Eof => r is Eof,
                    TokenModel::Error => r is Broken || (r matches RawEvent::Reference(n)
                        && spec_resolve_entity(n@) is None),
                }
            },
    {
        let mut buf = Vec::new();
        match self.reader.read_event_into(&mut buf) {
            Ok(XmlEvent::Start(s)) => { let n = s.name().as_ref().to_string(); self.pending = Some(s.into_owned()); self.attr_idx = 0; StartTag(n) }
            Ok(XmlEvent::End(e)) => EndTag(e.name().as_ref().to_string()),
            Ok(XmlEvent::Text(t)) => RawText(t.xml10_content().into_owned()),
            Ok(XmlEvent::CData(t)) => RawText(t.into_inner().into_owned()),
            Ok(XmlEvent::GeneralRef(r)) => Reference(r.as_ref().to_string()),
            Ok(XmlEvent::Eof) => RawEof,
            Ok(_) => RawOther,
            Err(_) => Broken,
        }
    }

    /// Relies on quick_xml's `Attributes` iterator over the pending start
    /// tag: hands out that tag's attribute pairs one at a time, the key as
    /// written and the value normalized as the XML recommendation asks
    /// (references resolved, whitespace characters read as spaces).
    #[verifier::external_body]
    fn next_attribute(&mut self) -> (r: Result<Option<(String, String)>, SCError>)
        ensures
            toks_of(*final(self)) == toks_of(*old(self)),
            pending_attrs_ok(*final(self)) == pending_attrs_ok(*old(self)),
            pending_attrs(*old(self)).len() > 0 ==> (pending_attrs(*final(self)) == pending_attrs(
                *old(self),
            ).drop_first() && (r matches Ok(p) && p matches Some(pair) && pair.0@ == pending_attrs(
                *old(self),
            )[0].0 && pair.1@ == pending_attrs(*old(self))[0].1)),
            pending_attrs(*old(self)).len() == 0 && pending_attrs_ok(*old(self)) ==> (r matches
                Ok(p) && p is None && pending_attrs(*final(self)) == pending_attrs(*old(self))),
            pending_attrs(*old(self)).len() == 0 && !pending_attrs_ok(*old(self)) ==> (r matches
                Err(e) && e is MalformedMarkup),
    {
        let tag = match &self.pending {
            Some(t) => t,
            None => return Ok(None),
        };
        match tag.attributes().nth(self.attr_idx) {
            None => Ok(None),
            Some(Ok(a)) => match a.normalized_value(XmlVersion::Implicit1_0) {
                Ok(v) => {
                    self.attr_idx += 1;
                    Ok(Some((a.key.as_ref().to_string(), v.into_owned())))
                }
                Err(_) => Err(SCError::MalformedMarkup),
            },
            Some(Err(_)) => Err(SCError::MalformedMarkup),
        }
    }

    /// Delivers the next token of the stream: reads one raw event, collects
    /// the attribute pairs of a start tag in source order, and resolves
    /// entity references to the text they stand for.
    pub fn next_token(&mut self) -> (r: Result<Token, SCError>)
        ensures
            toks_of(*old(self)).len() == 0 ==> (r matches Ok(t) && t is Eof && toks_of(*final(self))
                == toks_of(*old(self))),
            toks_of(*old(self)).len() > 0 ==> {
                &&& toks_of(*final(self)) == toks_of(*old(self)).drop_first()
                &&& match toks_of(*old(self))[0] {
                    TokenModel::Start { name, attrs, attrs_ok } => {
                        if attrs_ok {
                            r matches Ok(t) && t@ == toks_of(*old(self))[0]
                        } else {
                            r matches Err(e) && e is MalformedMarkup
                        }
                    },
                    TokenModel::Error => r matches Err(e) && e is MalformedMarkup,
                    _ => r matches Ok(t) && t@ == toks_of(*old(self))[0],
                }
            },
    {
        let raw = self.read_raw();
        match raw {
            RawEvent::Broken => Err(SCError::MalformedMarkup),
            RawEvent::Eof => Ok(Token::Eof),
            RawEvent::EndTag(name) => Ok(Token::End { name }),
            RawEvent::Text(text) => Ok(Token::Text { text }),
            RawEvent::Other => Ok(Token::Other),
            RawEvent::Reference(name) => {
                match resolve_entity(name.as_str()) {
                    Some(text) => Ok(Token::Text { text }),
                    None => Err(SCError::MalformedMarkup),
                }
            },
            RawEvent::StartTag(name) => {
                let ghost snap = *self;
                let mut attributes: Vec<(String, String)> = Vec::new();
                loop
                    invariant
                        toks_of(*old(self)).len() > 0,
                        toks_of(*old(self))[0] matches TokenModel::Start {
                            name: mn,
                            attrs: ma,
                            attrs_ok: mok,
                        } && mn == name@ && ma == pending_attrs(snap) && mok == pending_attrs_ok(
                            snap,
                        ),
                        pending_attrs(*self).len() <= pending_attrs(snap).len(),
                        pending_attrs(*self) =~= pending_attrs(snap).skip(
                            pending_attrs(snap).len() - pending_attrs(*self).len(),
                        ),
                        attrs_view(attributes@) =~= pending_attrs(snap).take(
                            pending_attrs(snap).len() - pending_attrs(*self).len(),
                        ),
                        pending_attrs_ok(*self) == pending_attrs_ok(snap),
                        toks_of(*self) == toks_of(*old(self)).drop_first(),
                    ensures
                        pending_attrs_ok(snap),
                        attrs_view(attributes@) =~= pending_attrs(snap),
                        toks_of(*self) == toks_of(*old(self)).drop_first(),
                    decreases pending_attrs(*self).len(),
                {
                    let ghost rem0 = pending_attrs(*self);
                    let ghost k0 = pending_attrs(snap).len() - rem0.len();
                    let step = self.next_attribute();
                    match step {
                        Err(e) => {
                            return Err(e);
                        },
                        Ok(None) => {
                            proof {
                                assert(pending_attrs(snap).take(pending_attrs(snap).len() as int)
                                    =~= pending_attrs(snap));
                            }
                            break;
                        },
                        Ok(Some(pair)) => {
                            proof {
                                assert(rem0[0] == pending_attrs(snap).skip(k0)[0]);
                            }
                            let ghost a0 = attributes@;
                            attributes.push(pair);
                            proof {
                                assert(attrs_view(a0).len() == a0.len());
                                assert(a0.len() == k0);
                                assert(pending_attrs(*self) =~= pending_attrs(snap).skip(k0 + 1));
                                assert forall|i: int| 0 <= i < k0 + 1 implies attrs_view(
                                    attributes@,
                                )[i] == pending_attrs(snap).take(k0 + 1)[i] by {
                                    if i < k0 {
                                        assert(attributes@[i] == a0[i]);
                                        assert(attrs_view(a0)[i] == pending_attrs(snap).take(
                                            k0,
                                        )[i]);
                                    } else {
                                        assert(attributes@[i].0@ == pending_attrs(snap)[k0].0);
                                        assert(attributes@[i].1@ == pending_attrs(snap)[k0].1);
                                    }
                                }
                                assert(attrs_view(attributes@) =~= pending_attrs(snap).take(
                                    k0 + 1,
                                ));
                            }
                        },
                    }
                }
                proof {
                    assert(attrs_view(attributes@) == pending_attrs(snap));
                }
                Ok(Token::Start { name, attributes })
            },
        }
    }
}

// ---------------------------------------------------------------------------
// Writing
// ---------------------------------------------------------------------------

/// Whether `c` may stand in an attribute key.  quick_xml writes keys as
/// given, so a key holding whitespace, a quote, or tag punctuation would
/// change the shape of the written tag; such keys are refused before the
/// writer sees them.
pub open spec fn is_key_char(c: char) -> bool {
    !(c == ' ' || c == '\t' || c == '\n' || c == '\r' || c == '"' || c == '\'' || c == '<'
        || c == '>' || c == '&' || c == '=' || c == '/')
}

/// Whether `s` may stand as an attribute key: nonempty, with no character
/// that would change the shape of the written tag.
pub open spec fn spec_key_ok(s: Seq<char>) -> bool {
    s.len() > 0 && forall|i: int| 0 <= i < s.len() ==> is_key_char(#[trigger] s[i])
}

/// Whether `s` may stand as an attribute key.
pub fn key_ok(s: &str) -> (r: bool)
    ensures
        r == spec_key_ok(s@),
{
    let len = s.unicode_len();
    if len == 0 {
        return false;
    }
    let mut i: usize = 0;
    while i < len
        invariant
            len == s@.len(),
            i <= len,
            forall|j: int| 0 <= j < i ==> is_key_char(#[trigger] s@[j]),
        decreases len - i,
    {
        let c = s.get_char(i);
        if c == ' ' || c == '\t' || c == '\n' || c == '\r' || c == '"' || c == '\'' || c == '<'
            || c == '>' || c == '&' || c == '=' || c == '/' {
            assert(!is_key_char(s@[i as int]));
            return false;
        }
        i = i + 1;
    }
    true
}

/// The bytes quick_xml emits for a start tag with the given name and
/// attribute pairs.
pub uninterp spec fn start_tag_bytes(name: Seq<char>, attrs: Seq<(Seq<char>, Seq<char>)>) -> Seq<u8>;

/// The bytes quick_xml emits for an end tag with the given name.
pub uninterp spec fn end_tag_bytes(name: Seq<char>) -> Seq<u8>;

/// A start tag under construction.  `tag_model` names the tag name and the
/// attribute pairs recorded so far.
pub struct TagWriter {
    start: quick_xml::events::BytesStart<'static>,
}

/// The name and attribute pairs a tag writer holds.
pub uninterp spec fn tag_model(t: TagWriter) -> (Seq<char>, Seq<(Seq<char>, Seq<char>)>);

impl TagWriter {
    /// Relies on quick_xml's `BytesStart::new`: a fresh start tag with the
    /// given name and no attributes.
    #[verifier::external_body]
    pub fn new(name: &String) -> (t: TagWriter)
        ensures
            tag_model(t).0 == name@,
            tag_model(t).1 == Seq::<(Seq<char>, Seq<char>)>::empty(),
    {
        TagWriter { start: BytesStart::new(name.clone()) }
    }

    /// Relies on quick_xml's `BytesStart::push_attribute`: records one more
    /// key/value pair after those already recorded.  The value is escaped
    /// on writing and reads back as given; the key is written as given,
    /// which is why only well-shaped keys are admitted.
    #[verifier::external_body]
    pub fn attribute(&mut self, key: &String, value: &String)
        requires
            spec_key_ok(key@),
        ensures
            tag_model(*final(self)).0 == tag_model(*old(self)).0,
            tag_model(*final(self)).1 == tag_model(*old(self)).1.push((key@, value@)),
    {
        self.start.push_attribute((key.as_str(), value.as_str()));
    }

    /// Relies on quick_xml's `Writer::write_event` with a start tag:
    /// appends exactly that tag's bytes to `out`.  A `Vec<u8>` sink never
    /// fails to write.
    #[verifier::external_body]
    pub fn write_start(self, out: &mut Vec<u8>)
        ensures
            final(out)@ == old(out)@ + start_tag_bytes(tag_model(self).0, tag_model(self).1),
    {
        let mut w = quick_xml::Writer::new(out);
        w.write_event(XmlEvent::Start(self.start)).expect("a Vec sink cannot fail");
    }
}

/// Relies on quick_xml's `Writer::write_event` with an end tag: appends
/// exactly that tag's bytes to `out`.  A `Vec<u8>` sink never fails to
/// write.
#[verifier::external_body]
pub fn write_end_tag(out: &mut Vec<u8>, name: &String)
    ensures
        final(out)@ == old(out)@ + end_tag_bytes(name@),
{
    let mut w = quick_xml::Writer::new(out);
    w.write_event(XmlEvent::End(BytesEnd::new(name.clone()))).expect("a Vec sink cannot fail");
}

} // verus!
