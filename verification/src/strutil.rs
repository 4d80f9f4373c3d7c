use vstd::prelude::*;
use vstd::string::StrSliceExecFns;

verus! {

/// The four characters that count as whitespace between sibling elements.
pub open spec fn is_xml_ws_char(c: char) -> bool {
    c == ' ' || c == '\t' || c == '\n' || c == '\r'
}

/// Holds when a text fragment is pure inter-element whitespace, which is
/// never part of any node's content.
pub open spec fn is_ws_only(s: Seq<char>) -> bool {
    forall|i: int| 0 <= i < s.len() ==> is_xml_ws_char(s[i])
}

/// Character-for-character string comparison.
pub fn str_eq(a: &str, b: &str) -> (r: bool)
    ensures
        r == (a@ == b@),
{
    let alen = a.unicode_len();
    let blen = b.unicode_len();
    if alen != blen {
        return false;
    }
    let mut i: usize = 0;
    while i < alen
        invariant
            alen == a@.len(),
            blen == b@.len(),
            alen == blen,
            i <= alen,
            forall|j: int| 0 <= j < i ==> a@[j] == b@[j],
        decreases alen - i,
    {
        let ca = a.get_char(i);
        let cb = b.get_char(i);
        if ca != cb {
            return false;
        }
        i = i + 1;
    }
    proof {
        assert(a@ =~= b@);
    }
    true
}

/// Whether every character of `s` is inter-element whitespace.
pub fn ws_only(s: &str) -> (r: bool)
    ensures
        r == is_ws_only(s@),
{
    let len = s.unicode_len();
    let mut i: usize = 0;
    while i < len
        invariant
            len == s@.len(),
            i <= len,
            forall|j: int| 0 <= j < i ==> is_xml_ws_char(s@[j]),
        decreases len - i,
    {
        let c = s.get_char(i);
        if !(c == ' ' || c == '\t' || c == '\n' || c == '\r') {
            assert(!is_xml_ws_char(s@[i as int]));
            return false;
        }
        i = i + 1;
    }
    true
}

} // verus!
