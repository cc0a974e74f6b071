//! The schema object model: the in-memory representation of parsed
//! structural-schema constructs, together with the mathematical view of each
//! type.

use vstd::prelude::*;

use crate::qname::QName;
use crate::text::string_eq_str;

verus! {

/// Whether an attribute is required, optional, or prohibited.
#[derive(Debug, Clone, Copy, PartialEq, Eq, Structural)]
pub enum AttributeUse {
    Required,
    Optional,
    Prohibited,
}

impl Default for AttributeUse {
    /// An attribute without a `use` marker is optional.
    fn default() -> (r: Self)
        ensures
            r == AttributeUse::Optional,
    {
        AttributeUse::Optional
    }
}

/// An XML attribute definition.
#[derive(Debug, Clone)]
pub struct Attribute {
    pub name: String,
    pub type_: QName,
    pub use_: AttributeUse,
}

/// Mathematical view of an [`Attribute`].
pub struct AttributeV {
    pub name: Seq<char>,
    pub type_: Seq<char>,
    pub use_: AttributeUse,
}

impl View for Attribute {
    type V = AttributeV;

    open spec fn view(&self) -> AttributeV {
        AttributeV { name: self.name@, type_: self.type_@, use_: self.use_ }
    }
}

impl DeepView for Attribute {
    type V = AttributeV;

    open spec fn deep_view(&self) -> AttributeV {
        self.view()
    }
}

/// An element within an ordered group.
#[derive(Debug, Clone)]
pub struct SequenceElement {
    pub name: String,
    pub type_: QName,
    pub min_occurs: u32,
    /// `"unbounded"` or a literal count.
    pub max_occurs: Option<String>,
    pub nillable: bool,
}

/// Mathematical view of a [`SequenceElement`].
pub struct SequenceElementV {
    pub name: Seq<char>,
    pub type_: Seq<char>,
    pub min_occurs: u32,
    pub max_occurs: Option<Seq<char>>,
    pub nillable: bool,
}

impl View for SequenceElement {
    type V = SequenceElementV;

    open spec fn view(&self) -> SequenceElementV {
        SequenceElementV {
            name: self.name@,
            type_: self.type_@,
            min_occurs: self.min_occurs,
            max_occurs: self.max_occurs.deep_view(),
            nillable: self.nillable,
        }
    }
}

impl DeepView for SequenceElement {
    type V = SequenceElementV;

    open spec fn deep_view(&self) -> SequenceElementV {
        self.view()
    }
}

/// An ordered group of elements.
#[derive(Debug, Clone)]
pub struct Sequence {
    pub elements: Vec<SequenceElement>,
}

impl View for Sequence {
    type V = Seq<SequenceElementV>;

    open spec fn view(&self) -> Seq<SequenceElementV> {
        self.elements.deep_view()
    }
}

impl DeepView for Sequence {
    type V = Seq<SequenceElementV>;

    open spec fn deep_view(&self) -> Seq<SequenceElementV> {
        self.view()
    }
}

impl Default for Sequence {
    /// An empty ordered group.
    fn default() -> (r: Self)
        ensures
            r@ == Seq::<SequenceElementV>::empty(),
    {
        let r = Sequence { elements: Vec::new() };
        proof {
            assert(r@ =~= Seq::<SequenceElementV>::empty());
        }
        r
    }
}

/// A choice between elements (one of many).
#[derive(Debug, Clone)]
pub struct Choice {
    pub elements: Vec<SequenceElement>,
}

impl View for Choice {
    type V = Seq<SequenceElementV>;

    open spec fn view(&self) -> Seq<SequenceElementV> {
        self.elements.deep_view()
    }
}

impl DeepView for Choice {
    type V = Seq<SequenceElementV>;

    open spec fn deep_view(&self) -> Seq<SequenceElementV> {
        self.view()
    }
}

/// An unordered group: all elements must appear.
#[derive(Debug, Clone)]
pub struct All {
    pub elements: Vec<SequenceElement>,
}

impl View for All {
    type V = Seq<SequenceElementV>;

    open spec fn view(&self) -> Seq<SequenceElementV> {
        self.elements.deep_view()
    }
}

impl DeepView for All {
    type V = Seq<SequenceElementV>;

    open spec fn deep_view(&self) -> Seq<SequenceElementV> {
        self.view()
    }
}

/// A complex type definition with structure.
#[derive(Debug, Clone)]
pub struct ComplexType {
    pub name: String,
    pub sequence: Option<Sequence>,
    pub choice: Option<Choice>,
    pub all: Option<All>,
    /// Base type reference, for extensions and restrictions.
    pub base_type: Option<QName>,
    pub attributes: Vec<Attribute>,
}

/// Mathematical view of a [`ComplexType`].
pub struct ComplexTypeV {
    pub name: Seq<char>,
    pub sequence: Option<Seq<SequenceElementV>>,
    pub choice: Option<Seq<SequenceElementV>>,
    pub all: Option<Seq<SequenceElementV>>,
    pub base_type: Option<Seq<char>>,
    pub attributes: Seq<AttributeV>,
}

impl View for ComplexType {
    type V = ComplexTypeV;

    open spec fn view(&self) -> ComplexTypeV {
        ComplexTypeV {
            name: self.name@,
            sequence: self.sequence.deep_view(),
            choice: self.choice.deep_view(),
            all: self.all.deep_view(),
            base_type: self.base_type.deep_view(),
            attributes: self.attributes.deep_view(),
        }
    }
}

impl DeepView for ComplexType {
    type V = ComplexTypeV;

    open spec fn deep_view(&self) -> ComplexTypeV {
        self.view()
    }
}

/// The view of a complex type with no content at all.
pub open spec fn spec_complex_type_empty() -> ComplexTypeV {
    ComplexTypeV {
        name: Seq::<char>::empty(),
        sequence: None,
        choice: None,
        all: None,
        base_type: None,
        attributes: Seq::<AttributeV>::empty(),
    }
}

impl Default for ComplexType {
    /// A complex type with no name and no content.
    fn default() -> (r: Self)
        ensures
            r@ == spec_complex_type_empty(),
    {
        let r = ComplexType {
            name: String::new(),
            sequence: None,
            choice: None,
            all: None,
            base_type: None,
            attributes: Vec::new(),
        };
        proof {
            assert(r@.attributes =~= Seq::<AttributeV>::empty());
        }
        r
    }
}

/// Whitespace handling facet values.
#[derive(Debug, Clone, Copy, PartialEq, Eq, Structural)]
pub enum WhiteSpace {
    Preserve,
    Replace,
    Collapse,
}

/// A restriction facet of a simple type.
#[derive(Debug, Clone)]
pub enum Restriction {
    MinInclusive(String),
    MaxInclusive(String),
    MinExclusive(String),
    MaxExclusive(String),
    MinLength(u32),
    MaxLength(u32),
    Length(u32),
    Pattern(String),
    Enumeration(String),
    WhiteSpace(WhiteSpace),
    TotalDigits(u32),
    FractionDigits(u32),
}

/// Mathematical view of a [`Restriction`] facet.
pub enum RestrictionV {
    MinInclusive(Seq<char>),
    MaxInclusive(Seq<char>),
    MinExclusive(Seq<char>),
    MaxExclusive(Seq<char>),
    MinLength(u32),
    MaxLength(u32),
    Length(u32),
    Pattern(Seq<char>),
    Enumeration(Seq<char>),
    WhiteSpace(WhiteSpace),
    TotalDigits(u32),
    FractionDigits(u32),
}

impl View for Restriction {
    type V = RestrictionV;

    open spec fn view(&self) -> RestrictionV {
        match self {
            Restriction::MinInclusive(s) => RestrictionV::MinInclusive(s@),
            Restriction::MaxInclusive(s) => RestrictionV::MaxInclusive(s@),
            Restriction::MinExclusive(s) => RestrictionV::MinExclusive(s@),
            Restriction::MaxExclusive(s) => RestrictionV::MaxExclusive(s@),
            Restriction::MinLength(n) => RestrictionV::MinLength(*n),
            Restriction::MaxLength(n) => RestrictionV::MaxLength(*n),
            Restriction::Length(n) => RestrictionV::Length(*n),
            Restriction::Pattern(s) => RestrictionV::Pattern(s@),
            Restriction::Enumeration(s) => RestrictionV::Enumeration(s@),
            Restriction::WhiteSpace(w) => RestrictionV::WhiteSpace(*w),
            Restriction::TotalDigits(n) => RestrictionV::TotalDigits(*n),
            Restriction::FractionDigits(n) => RestrictionV::FractionDigits(*n),
        }
    }
}

impl DeepView for Restriction {
    type V = RestrictionV;

    open spec fn deep_view(&self) -> RestrictionV {
        self.view()
    }
}

/// A simple type definition: a restriction, a list, or a union.
#[derive(Debug, Clone)]
pub enum SimpleType {
    /// Restriction of another type.
    Restriction { base: QName, restrictions: Vec<Restriction> },
    /// List of another type (recognized, not emitted).
    List { item_type: QName },
    /// Union of several types (recognized, not emitted).
    Union { member_types: Vec<QName> },
}

/// Mathematical view of a [`SimpleType`].
pub enum SimpleTypeV {
    Restriction { base: Seq<char>, restrictions: Seq<RestrictionV> },
    List { item_type: Seq<char> },
    Union { member_types: Seq<Seq<char>> },
}

impl View for SimpleType {
    type V = SimpleTypeV;

    open spec fn view(&self) -> SimpleTypeV {
        match self {
            SimpleType::Restriction { base, restrictions } => SimpleTypeV::Restriction {
                base: base@,
                restrictions: restrictions.deep_view(),
            },
            SimpleType::List { item_type } => SimpleTypeV::List { item_type: item_type@ },
            SimpleType::Union { member_types } => SimpleTypeV::Union {
                member_types: member_types.deep_view(),
            },
        }
    }
}

impl DeepView for SimpleType {
    type V = SimpleTypeV;

    open spec fn deep_view(&self) -> SimpleTypeV {
        self.view()
    }
}

/// A top-level element definition.
#[derive(Debug, Clone)]
pub struct SchemaElement {
    pub name: String,
    pub type_: QName,
    pub nillable: bool,
    pub min_occurs: Option<u32>,
    pub max_occurs: Option<String>,
}

/// Mathematical view of a [`SchemaElement`].
pub struct SchemaElementV {
    pub name: Seq<char>,
    pub type_: Seq<char>,
    pub nillable: bool,
    pub min_occurs: Option<u32>,
    pub max_occurs: Option<Seq<char>>,
}

impl View for SchemaElement {
    type V = SchemaElementV;

    open spec fn view(&self) -> SchemaElementV {
        SchemaElementV {
            name: self.name@,
            type_: self.type_@,
            nillable: self.nillable,
            min_occurs: self.min_occurs,
            max_occurs: self.max_occurs.deep_view(),
        }
    }
}

impl DeepView for SchemaElement {
    type V = SchemaElementV;

    open spec fn deep_view(&self) -> SchemaElementV {
        self.view()
    }
}

/// A name-keyed registry kept as a sequence of pairs: the value under `k`,
/// if any (first match).
pub open spec fn spec_lookup<T>(m: Seq<(Seq<char>, T)>, k: Seq<char>) -> Option<T>
    decreases m.len(),
{
    if m.len() == 0 {
        None
    } else if m[0].0 == k {
        Some(m[0].1)
    } else {
        spec_lookup(m.drop_first(), k)
    }
}

/// The registry with the first entry under `k` removed, if one exists.
pub open spec fn spec_remove_key<T>(m: Seq<(Seq<char>, T)>, k: Seq<char>) -> Seq<(Seq<char>, T)>
    decreases m.len(),
{
    if m.len() == 0 {
        m
    } else if m[0].0 == k {
        m.drop_first()
    } else {
        seq![m[0]] + spec_remove_key(m.drop_first(), k)
    }
}

/// Registration: a later definition with the same name silently replaces an
/// earlier one.
pub open spec fn spec_insert<T>(m: Seq<(Seq<char>, T)>, k: Seq<char>, v: T) -> Seq<
    (Seq<char>, T),
> {
    spec_remove_key(m, k).push((k, v))
}

/// Every key occurs at most once in the registry.
pub open spec fn spec_unique_keys<T>(m: Seq<(Seq<char>, T)>) -> bool {
    forall|i: int, j: int| 0 <= i < j < m.len() ==> m[i].0 != m[j].0
}

/// When `k` first occurs at index `i`, removing `k` removes exactly that
/// entry.
pub proof fn lemma_remove_key_at<T>(m: Seq<(Seq<char>, T)>, k: Seq<char>, i: int)
    requires
        0 <= i < m.len(),
        m[i].0 == k,
        forall|j: int| 0 <= j < i ==> m[j].0 != k,
    ensures
        spec_remove_key(m, k) == m.remove(i),
    decreases m.len(),
{
    if i == 0 {
        assert(m.drop_first() =~= m.remove(0));
    } else {
        let t = m.drop_first();
        assert(t[i - 1].0 == k);
        assert forall|j: int| 0 <= j < i - 1 implies t[j].0 != k by {
            assert(t[j] == m[j + 1]);
        }
        lemma_remove_key_at(t, k, i - 1);
        assert(seq![m[0]] + t.remove(i - 1) =~= m.remove(i));
    }
}

/// When `k` occurs nowhere, removing it changes nothing.
pub proof fn lemma_remove_key_absent<T>(m: Seq<(Seq<char>, T)>, k: Seq<char>)
    requires
        forall|j: int| 0 <= j < m.len() ==> m[j].0 != k,
    ensures
        spec_remove_key(m, k) == m,
    decreases m.len(),
{
    if m.len() > 0 {
        let t = m.drop_first();
        assert forall|j: int| 0 <= j < t.len() implies t[j].0 != k by {
            assert(t[j] == m[j + 1]);
        }
        lemma_remove_key_absent(t, k);
        assert(seq![m[0]] + t =~= m);
    }
}

/// Registration keeps the keys unique.
pub proof fn lemma_insert_unique_keys<T>(m: Seq<(Seq<char>, T)>, k: Seq<char>, v: T)
    requires
        spec_unique_keys(m),
    ensures
        spec_unique_keys(spec_insert(m, k, v)),
    decreases m.len(),
{
    if m.len() == 0 {
    } else if m[0].0 == k {
        assert(spec_remove_key(m, k) == m.drop_first());
        assert forall|i: int, j: int|
            0 <= i < j < spec_insert(m, k, v).len() implies spec_insert(m, k, v)[i].0
            != spec_insert(m, k, v)[j].0 by {
            if j < spec_insert(m, k, v).len() - 1 {
                assert(spec_insert(m, k, v)[i] == m[i + 1]);
                assert(spec_insert(m, k, v)[j] == m[j + 1]);
            } else {
                assert(spec_insert(m, k, v)[i] == m[i + 1]);
                assert(spec_insert(m, k, v)[j].0 == k);
                assert(m[i + 1].0 != m[0].0);
            }
        }
    } else {
        let t = m.drop_first();
        assert forall|i: int, j: int| 0 <= i < j < t.len() implies t[i].0 != t[j].0 by {
            assert(t[i] == m[i + 1]);
            assert(t[j] == m[j + 1]);
        }
        lemma_insert_unique_keys(t, k, v);
        assert(spec_remove_key(m, k) == seq![m[0]] + spec_remove_key(t, k));
        let r = spec_insert(m, k, v);
        assert(r =~= seq![m[0]] + spec_insert(t, k, v));
        assert forall|i: int, j: int| 0 <= i < j < r.len() implies r[i].0 != r[j].0 by {
            if i == 0 {
                lemma_remove_key_membership(t, k, j - 1, v);
            } else {
                assert(r[i] == spec_insert(t, k, v)[i - 1]);
                assert(r[j] == spec_insert(t, k, v)[j - 1]);
            }
        }
    }
}

/// Every entry of the registry after an insertion either carries the new key
/// or was already present.
proof fn lemma_remove_key_membership<T>(m: Seq<(Seq<char>, T)>, k: Seq<char>, i: int, v: T)
    requires
        0 <= i < spec_insert(m, k, v).len(),
    ensures
        spec_insert(m, k, v)[i].0 == k || (exists|j: int|
            0 <= j < m.len() && m[j] == spec_insert(m, k, v)[i]),
    decreases m.len(),
{
    let r = spec_insert(m, k, v);
    if i == r.len() - 1 {
    } else {
        // r[i] is an entry of spec_remove_key(m, k), which holds entries of m only.
        lemma_remove_key_entries(m, k, i);
    }
}

/// Every entry of the registry with `k` removed was an entry of the
/// registry.
proof fn lemma_remove_key_entries<T>(m: Seq<(Seq<char>, T)>, k: Seq<char>, i: int)
    requires
        0 <= i < spec_remove_key(m, k).len(),
    ensures
        exists|j: int| 0 <= j < m.len() && m[j] == spec_remove_key(m, k)[i],
    decreases m.len(),
{
    if m.len() == 0 {
    } else if m[0].0 == k {
        assert(m[i + 1] == spec_remove_key(m, k)[i]);
    } else {
        if i == 0 {
            assert(m[0] == spec_remove_key(m, k)[0]);
        } else {
            lemma_remove_key_entries(m.drop_first(), k, i - 1);
            let j = choose|j: int|
                0 <= j < m.drop_first().len() && m.drop_first()[j] == spec_remove_key(
                    m.drop_first(),
                    k,
                )[i - 1];
            assert(m[j + 1] == spec_remove_key(m, k)[i]);
        }
    }
}

/// The parsed structural schema: registries of elements, complex types and
/// simple types, plus namespace bookkeeping. Entries are keyed by name;
/// a later definition with the same name replaces an earlier one.
#[derive(Debug)]
pub struct XmlSchema {
    pub target_namespace: Option<String>,
    pub element_form_default: Option<String>,
    pub attribute_form_default: Option<String>,
    pub version: Option<String>,
    pub namespaces: Vec<(String, String)>,
    pub elements: Vec<(String, SchemaElement)>,
    pub complex_types: Vec<(String, ComplexType)>,
    pub simple_types: Vec<(String, SimpleType)>,
}

/// Mathematical view of an [`XmlSchema`].
pub struct XmlSchemaV {
    pub target_namespace: Option<Seq<char>>,
    pub element_form_default: Option<Seq<char>>,
    pub attribute_form_default: Option<Seq<char>>,
    pub version: Option<Seq<char>>,
    pub namespaces: Seq<(Seq<char>, Seq<char>)>,
    pub elements: Seq<(Seq<char>, SchemaElementV)>,
    pub complex_types: Seq<(Seq<char>, ComplexTypeV)>,
    pub simple_types: Seq<(Seq<char>, SimpleTypeV)>,
}

impl View for XmlSchema {
    type V = XmlSchemaV;

    open spec fn view(&self) -> XmlSchemaV {
        XmlSchemaV {
            target_namespace: self.target_namespace.deep_view(),
            element_form_default: self.element_form_default.deep_view(),
            attribute_form_default: self.attribute_form_default.deep_view(),
            version: self.version.deep_view(),
            namespaces: self.namespaces.deep_view(),
            elements: self.elements.deep_view(),
            complex_types: self.complex_types.deep_view(),
            simple_types: self.simple_types.deep_view(),
        }
    }
}

impl DeepView for XmlSchema {
    type V = XmlSchemaV;

    open spec fn deep_view(&self) -> XmlSchemaV {
        self.view()
    }
}

/// The view of a schema with nothing registered.
pub open spec fn spec_schema_empty() -> XmlSchemaV {
    XmlSchemaV {
        target_namespace: None,
        element_form_default: None,
        attribute_form_default: None,
        version: None,
        namespaces: Seq::empty(),
        elements: Seq::empty(),
        complex_types: Seq::empty(),
        simple_types: Seq::empty(),
    }
}

impl Default for XmlSchema {
    /// A schema with nothing registered.
    fn default() -> (r: Self)
        ensures
            r@ == spec_schema_empty(),
    {
        let r = XmlSchema {
            target_namespace: None,
            element_form_default: None,
            attribute_form_default: None,
            version: None,
            namespaces: Vec::new(),
            elements: Vec::new(),
            complex_types: Vec::new(),
            simple_types: Vec::new(),
        };
        proof {
            assert(r@.namespaces =~= spec_schema_empty().namespaces);
            assert(r@.elements =~= spec_schema_empty().elements);
            assert(r@.complex_types =~= spec_schema_empty().complex_types);
            assert(r@.simple_types =~= spec_schema_empty().simple_types);
        }
        r
    }
}

impl XmlSchema {
    /// Register a complex type under its name; a later definition replaces
    /// an earlier one.
    pub fn register_complex_type(&mut self, ct: ComplexType)
        ensures
            final(self)@ == (XmlSchemaV {
                complex_types: spec_insert(old(self)@.complex_types, ct@.name, ct@),
                ..old(self)@
            }),
    {
        let name = clone_string_of(&ct.name);
        let i = find_key_complex(&self.complex_types, name.as_str());
        match i {
            Some(i) => {
                proof {
                    lemma_remove_key_at(old(self)@.complex_types, ct@.name, i as int);
                }
                let _old = self.complex_types.remove(i);
                self.complex_types.push((name, ct));
                proof {
                    assert(self@.complex_types =~= spec_insert(
                        old(self)@.complex_types,
                        ct@.name,
                        ct@,
                    ));
                }
            },
            None => {
                proof {
                    lemma_remove_key_absent(old(self)@.complex_types, ct@.name);
                }
                self.complex_types.push((name, ct));
                proof {
                    assert(self@.complex_types =~= spec_insert(
                        old(self)@.complex_types,
                        ct@.name,
                        ct@,
                    ));
                }
            },
        }
    }

    /// Register a simple type under a name.
    pub fn register_simple_type(&mut self, name: String, st: SimpleType)
        ensures
            final(self)@ == (XmlSchemaV {
                simple_types: spec_insert(old(self)@.simple_types, name@, st@),
                ..old(self)@
            }),
    {
        let i = find_key_simple(&self.simple_types, name.as_str());
        match i {
            Some(i) => {
                proof {
                    lemma_remove_key_at(old(self)@.simple_types, name@, i as int);
                }
                let _old = self.simple_types.remove(i);
                self.simple_types.push((name, st));
                proof {
                    assert(self@.simple_types =~= spec_insert(
                        old(self)@.simple_types,
                        name@,
                        st@,
                    ));
                }
            },
            None => {
                proof {
                    lemma_remove_key_absent(old(self)@.simple_types, name@);
                }
                self.simple_types.push((name, st));
                proof {
                    assert(self@.simple_types =~= spec_insert(
                        old(self)@.simple_types,
                        name@,
                        st@,
                    ));
                }
            },
        }
    }

    /// Register a top-level element under its name.
    pub fn register_element(&mut self, el: SchemaElement)
        ensures
            final(self)@ == (XmlSchemaV {
                elements: spec_insert(old(self)@.elements, el@.name, el@),
                ..old(self)@
            }),
    {
        let name = clone_string_of(&el.name);
        let i = find_key_element(&self.elements, name.as_str());
        match i {
            Some(i) => {
                proof {
                    lemma_remove_key_at(old(self)@.elements, el@.name, i as int);
                }
                let _old = self.elements.remove(i);
                self.elements.push((name, el));
                proof {
                    assert(self@.elements =~= spec_insert(old(self)@.elements, el@.name, el@));
                }
            },
            None => {
                proof {
                    lemma_remove_key_absent(old(self)@.elements, el@.name);
                }
                self.elements.push((name, el));
                proof {
                    assert(self@.elements =~= spec_insert(old(self)@.elements, el@.name, el@));
                }
            },
        }
    }
}

/// Clone of a string, related to its view.
pub fn clone_string_of(s: &String) -> (r: String)
    ensures
        r@ == s@,
{
    String::from_str(s.as_str())
}

fn find_key_complex(m: &Vec<(String, ComplexType)>, k: &str) -> (r: Option<usize>)
    ensures
        match r {
            Some(i) => 0 <= i < m.deep_view().len() && m.deep_view()[i as int].0 == k@ && (
            forall|j: int| 0 <= j < i ==> m.deep_view()[j].0 != k@),
            None => forall|j: int| 0 <= j < m.deep_view().len() ==> m.deep_view()[j].0 != k@,
        },
{
    let n = m.len();
    let mut i: usize = 0;
    while i < n
        invariant
            0 <= i <= n,
            n == m.deep_view().len(),
            n == m@.len(),
            forall|j: int| 0 <= j < i ==> m.deep_view()[j].0 != k@,
        decreases n - i,
    {
        if string_eq_str(&m[i].0, k) {
            return Some(i);
        }
        i += 1;
    }
    None
}

fn find_key_simple(m: &Vec<(String, SimpleType)>, k: &str) -> (r: Option<usize>)
    ensures
        match r {
            Some(i) => 0 <= i < m.deep_view().len() && m.deep_view()[i as int].0 == k@ && (
            forall|j: int| 0 <= j < i ==> m.deep_view()[j].0 != k@),
            None => forall|j: int| 0 <= j < m.deep_view().len() ==> m.deep_view()[j].0 != k@,
        },
{
    let n = m.len();
    let mut i: usize = 0;
    while i < n
        invariant
            0 <= i <= n,
            n == m.deep_view().len(),
            n == m@.len(),
            forall|j: int| 0 <= j < i ==> m.deep_view()[j].0 != k@,
        decreases n - i,
    {
        if string_eq_str(&m[i].0, k) {
            return Some(i);
        }
        i += 1;
    }
    None
}

fn find_key_element(m: &Vec<(String, SchemaElement)>, k: &str) -> (r: Option<usize>)
    ensures
        match r {
            Some(i) => 0 <= i < m.deep_view().len() && m.deep_view()[i as int].0 == k@ && (
            forall|j: int| 0 <= j < i ==> m.deep_view()[j].0 != k@),
            None => forall|j: int| 0 <= j < m.deep_view().len() ==> m.deep_view()[j].0 != k@,
        },
{
    let n = m.len();
    let mut i: usize = 0;
    while i < n
        invariant
            0 <= i <= n,
            n == m.deep_view().len(),
            n == m@.len(),
            forall|j: int| 0 <= j < i ==> m.deep_view()[j].0 != k@,
        decreases n - i,
    {
        if string_eq_str(&m[i].0, k) {
            return Some(i);
        }
        i += 1;
    }
    None
}

} // verus!
