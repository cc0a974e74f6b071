//! Qualified names: a `prefix:local` textual identifier, as written in schema
//! and service-definition documents. Prefixes are split textually; they are
//! never resolved to namespace URIs.

use vstd::prelude::*;

use crate::text::{find_char, lemma_find_characterization, spec_find, str_eq};

verus! {

/// An XML qualified name: `prefix:localName`, or a bare `localName`.
#[derive(Debug, Clone)]
pub struct QName(pub String);

impl View for QName {
    type V = Seq<char>;

    open spec fn view(&self) -> Seq<char> {
        self.0@
    }
}

impl DeepView for QName {
    type V = Seq<char>;

    open spec fn deep_view(&self) -> Seq<char> {
        self.0@
    }
}

/// The part of a qualified name before the first `:`, if a `:` occurs.
pub open spec fn spec_qname_prefix(s: Seq<char>) -> Option<Seq<char>> {
    match spec_find(s, ':') {
        Some(i) => Some(s.take(i)),
        None => None,
    }
}

/// The part of a qualified name after the first `:`, or the whole name when
/// no `:` occurs.
pub open spec fn spec_qname_local(s: Seq<char>) -> Seq<char> {
    match spec_find(s, ':') {
        Some(i) => s.skip(i + 1),
        None => s,
    }
}

impl QName {
    /// Create a new qualified name from its textual form.
    pub fn new(value: &str) -> (r: Self)
        ensures
            r@ == value@,
    {
        QName(String::from_str(value))
    }

    /// The namespace prefix: the part before the first `:`.
    pub fn prefix(&self) -> (r: Option<&str>)
        ensures
            match r {
                Some(p) => spec_qname_prefix(self@) == Some(p@),
                None => spec_qname_prefix(self@) == None::<Seq<char>>,
            },
    {
        match find_char(self.0.as_str(), ':') {
            Some(i) => {
                proof {
                    lemma_find_characterization(self.0@, ':');
                }
                Some(self.0.as_str().substring_char(0, i))
            },
            None => None,
        }
    }

    /// The local name: the part after the first `:`, or the whole text when
    /// no `:` occurs.
    pub fn local_name(&self) -> (r: &str)
        ensures
            r@ == spec_qname_local(self@),
    {
        let s = self.0.as_str();
        let n: usize = s.unicode_len();
        match find_char(s, ':') {
            Some(i) => {
                proof {
                    lemma_find_characterization(s@, ':');
                }
                s.substring_char(i + 1, n)
            },
            None => s,
        }
    }

    /// The full qualified name.
    pub fn as_str(&self) -> (r: &str)
        ensures
            r@ == self@,
    {
        self.0.as_str()
    }

    /// True when the qualified name holds no text at all.
    pub fn is_empty(&self) -> (r: bool)
        ensures
            r == (self@.len() == 0),
    {
        self.0.as_str().unicode_len() == 0
    }

    /// Split into the optional prefix and the local name.
    pub fn split(&self) -> (r: (Option<&str>, &str))
        ensures
            match r.0 {
                Some(p) => spec_qname_prefix(self@) == Some(p@),
                None => spec_qname_prefix(self@) == None::<Seq<char>>,
            },
            r.1@ == spec_qname_local(self@),
    {
        (self.prefix(), self.local_name())
    }

    /// Build a qualified name from a prefix and a local name.
    pub fn with_prefix(prefix: &str, local_name: &str) -> (r: Self)
        ensures
            r@ == prefix@ + seq![':'] + local_name@,
    {
        let mut s = String::from_str(prefix);
        s.append(":");
        s.append(local_name);
        proof {
            reveal_strlit(":");
            assert(prefix@ + ":"@ + local_name@ =~= prefix@ + seq![':'] + local_name@);
        }
        QName(s)
    }

    /// True when the two qualified names hold the same text.
    pub fn text_eq(&self, other: &QName) -> (r: bool)
        ensures
            r == (self@ == other@),
    {
        str_eq(self.0.as_str(), other.0.as_str())
    }
}

/// A qualified name built from a prefix free of `:` splits back into the
/// same prefix and local name.
pub proof fn lemma_qname_split_round_trip(prefix: Seq<char>, local: Seq<char>)
    requires
        spec_find(prefix, ':') == None::<int>,
    ensures
        spec_qname_prefix(prefix + seq![':'] + local) == Some(prefix),
        spec_qname_local(prefix + seq![':'] + local) == local,
{
    let s = prefix + seq![':'] + local;
    lemma_find_characterization(prefix, ':');
    assert(s[prefix.len() as int] == ':');
    assert(forall|j: int| 0 <= j < prefix.len() ==> s[j] == prefix[j]);
    lemma_find_characterization(s, ':');
    let i = spec_find(s, ':');
    assert(i is Some);
    assert(i->0 == prefix.len());
    assert(s.take(prefix.len() as int) =~= prefix);
    assert(s.skip(prefix.len() as int + 1) =~= local);
}

} // verus!
