//! The schema parser: consumes a sequence of structural events and
//! populates the schema object model. Unsupported nested content is skipped
//! by a depth-tracked subtree skip; truncated input closes every construct
//! implicitly, never failing.

use vstd::prelude::*;

use crate::model::{Attribute, AttributeUse, AttributeV, ComplexType, ComplexTypeV, Restriction,
    RestrictionV, SchemaElement, SchemaElementV, SequenceElement, SequenceElementV, SimpleType,
    SimpleTypeV, WhiteSpace, XmlSchema, XmlSchemaV, spec_complex_type_empty, spec_insert,
    spec_schema_empty};
use crate::names::is_ascii_digit;
use crate::qname::QName;
use crate::text::{spec_split_at, split_at_char, str_eq, string_eq_str};
use crate::xml::{spec_tokens, tokenize, StreamError, XmlAttr, XmlAttrV, XmlEvent, XmlEventV};

verus! {

/// The value of the first attribute with the given local name, if any.
pub open spec fn spec_get_attr(attrs: Seq<XmlAttrV>, name: Seq<char>) -> Option<Seq<char>>
    decreases attrs.len(),
{
    if attrs.len() == 0 {
        None
    } else if attrs[0].name == name {
        Some(attrs[0].value)
    } else {
        spec_get_attr(attrs.drop_first(), name)
    }
}

/// When the first attribute with the name stands at `i`, the lookup yields
/// its value.
proof fn lemma_get_attr_at(attrs: Seq<XmlAttrV>, name: Seq<char>, i: int)
    requires
        0 <= i < attrs.len(),
        attrs[i].name == name,
        forall|j: int| 0 <= j < i ==> attrs[j].name != name,
    ensures
        spec_get_attr(attrs, name) == Some(attrs[i].value),
    decreases attrs.len(),
{
    if i > 0 {
        let t = attrs.drop_first();
        assert(t[i - 1] == attrs[i]);
        assert forall|j: int| 0 <= j < i - 1 implies t[j].name != name by {
            assert(t[j] == attrs[j + 1]);
        }
        lemma_get_attr_at(t, name, i - 1);
    }
}

/// When no attribute carries the name, the lookup yields nothing.
proof fn lemma_get_attr_absent(attrs: Seq<XmlAttrV>, name: Seq<char>)
    requires
        forall|j: int| 0 <= j < attrs.len() ==> attrs[j].name != name,
    ensures
        spec_get_attr(attrs, name) == None::<Seq<char>>,
    decreases attrs.len(),
{
    if attrs.len() > 0 {
        let t = attrs.drop_first();
        assert forall|j: int| 0 <= j < t.len() implies t[j].name != name by {
            assert(t[j] == attrs[j + 1]);
        }
        lemma_get_attr_absent(t, name);
    }
}

/// The value of the first attribute with the given local name, if any.
pub fn get_attr(attrs: &Vec<XmlAttr>, name: &str) -> (r: Option<String>)
    ensures
        r.deep_view() == spec_get_attr(attrs.deep_view(), name@),
{
    let n = attrs.len();
    let mut i: usize = 0;
    while i < n
        invariant
            0 <= i <= n,
            n == attrs.len(),
            forall|j: int| 0 <= j < i ==> attrs.deep_view()[j].name != name@,
        decreases n - i,
    {
        if string_eq_str(&attrs[i].name, name) {
            proof {
                assert(attrs.deep_view()[i as int] == attrs[i as int]@);
                lemma_get_attr_at(attrs.deep_view(), name@, i as int);
            }
            return Some(crate::model::clone_string_of(&attrs[i].value));
        }
        i += 1;
    }
    proof {
        lemma_get_attr_absent(attrs.deep_view(), name@);
    }
    None
}

/// The numeric value of one digit character.
pub open spec fn spec_digit(c: char) -> int {
    if is_ascii_digit(c) {
        (c as int) - ('0' as int)
    } else {
        0
    }
}

/// The numeric value of a digit string.
pub open spec fn spec_digits_val(s: Seq<char>) -> nat
    decreases s.len(),
{
    if s.len() == 0 {
        0
    } else {
        (spec_digits_val(s.drop_last()) * 10 + spec_digit(s.last())) as nat
    }
}

/// The parsed occurrence count: every character a digit, the value within
/// the unsigned 32-bit range.
pub open spec fn spec_parse_u32(s: Seq<char>) -> Option<u32> {
    if s.len() > 0 && (forall|i: int| 0 <= i < s.len() ==> is_ascii_digit(s[i]))
        && spec_digits_val(s) <= u32::MAX {
        Some(spec_digits_val(s) as u32)
    } else {
        None
    }
}

/// Parse a decimal occurrence count.
pub fn parse_u32(s: &str) -> (r: Option<u32>)
    ensures
        r == spec_parse_u32(s@),
{
    let n: usize = s.unicode_len();
    if n == 0 {
        return None;
    }
    let mut acc: u32 = 0;
    let mut i: usize = 0;
    while i < n
        invariant
            0 <= i <= n,
            n == s@.len(),
            forall|j: int| 0 <= j < i ==> is_ascii_digit(s@[j]),
            acc == spec_digits_val(s@.take(i as int)),
        decreases n - i,
    {
        let c = s.get_char(i);
        if !(c >= '0' && c <= '9') {
            return None;
        }
        let d: u32 = (c as u32) - ('0' as u32);
        if acc > (u32::MAX - d) / 10 {
            proof {
                let t = s@.take(i + 1);
                assert(t.drop_last() =~= s@.take(i as int));
                assert(t.last() == s@[i as int]);
                assert(spec_digit(t.last()) == d);
                assert(spec_digits_val(t) > u32::MAX) by (nonlinear_arith)
                    requires
                        spec_digits_val(t) == (spec_digits_val(t.drop_last()) * 10 + spec_digit(
                            t.last(),
                        )) as nat,
                        spec_digit(t.last()) == d,
                        spec_digits_val(t.drop_last()) == acc as nat,
                        acc > (u32::MAX - d) / 10,
                        d <= 9,
                {
                }
                lemma_digits_val_prefix(s@, i + 1);
            }
            return None;
        }
        proof {
            let t = s@.take(i + 1);
            assert(t.drop_last() =~= s@.take(i as int));
            assert(t.last() == s@[i as int]);
            assert(acc * 10 + d <= u32::MAX) by (nonlinear_arith)
                requires
                    acc <= (u32::MAX - d) / 10,
                    d <= 9,
            {
            }
        }
        acc = acc * 10 + d;
        i += 1;
    }
    proof {
        assert(s@.take(n as int) =~= s@);
    }
    Some(acc)
}

/// A longer digit string never has a smaller value.
proof fn lemma_digits_val_prefix(s: Seq<char>, k: int)
    requires
        0 <= k <= s.len(),
    ensures
        spec_digits_val(s) >= spec_digits_val(s.take(k)),
    decreases s.len() - k,
{
    if k < s.len() {
        lemma_digits_val_prefix(s, k + 1);
        let t = s.take(k + 1);
        assert(t.drop_last() =~= s.take(k));
        assert(spec_digits_val(t) >= spec_digits_val(t.drop_last())) by (nonlinear_arith)
            requires
                spec_digits_val(t) == (spec_digits_val(t.drop_last()) * 10 + spec_digit(
                    t.last(),
                )) as nat,
                spec_digit(t.last()) >= 0,
        {
        }
    } else {
        assert(s.take(k) =~= s);
    }
}

/// The ordered-group element described by a tag's attributes: a missing
/// name or type drops the element; an absent or unreadable minimum counts
/// as one; nillable only when the attribute says `true`.
pub open spec fn spec_elem_from_attrs(attrs: Seq<XmlAttrV>) -> Option<SequenceElementV> {
    match (spec_get_attr(attrs, "name"@), spec_get_attr(attrs, "type"@)) {
        (Some(n), Some(t)) => Some(
            SequenceElementV {
                name: n,
                type_: t,
                min_occurs: match spec_get_attr(attrs, "minOccurs"@) {
                    Some(m) => match spec_parse_u32(m) {
                        Some(v) => v,
                        None => 1u32,
                    },
                    None => 1u32,
                },
                max_occurs: spec_get_attr(attrs, "maxOccurs"@),
                nillable: spec_get_attr(attrs, "nillable"@) == Some("true"@),
            },
        ),
        _ => None,
    }
}

/// Read an ordered-group element from a tag's attributes.
pub fn elem_from_attrs(attrs: &Vec<XmlAttr>) -> (r: Option<SequenceElement>)
    ensures
        r.deep_view() == spec_elem_from_attrs(attrs.deep_view()),
{
    let name = get_attr(attrs, "name");
    let type_ = get_attr(attrs, "type");
    match (name, type_) {
        (Some(n), Some(t)) => {
            let min_occurs: u32 = match get_attr(attrs, "minOccurs") {
                Some(m) => match parse_u32(m.as_str()) {
                    Some(v) => v,
                    None => 1,
                },
                None => 1,
            };
            let max_occurs = get_attr(attrs, "maxOccurs");
            let nillable = match get_attr(attrs, "nillable") {
                Some(v) => str_eq(v.as_str(), "true"),
                None => false,
            };
            Some(SequenceElement { name: n, type_: QName(t), min_occurs, max_occurs, nillable })
        },
        _ => None,
    }
}

/// The attribute definition described by a tag's attributes: a missing name
/// or type drops it; `use` absent or unrecognized defaults to optional.
pub open spec fn spec_attribute_from_attrs(attrs: Seq<XmlAttrV>) -> Option<AttributeV> {
    match (spec_get_attr(attrs, "name"@), spec_get_attr(attrs, "type"@)) {
        (Some(n), Some(t)) => Some(
            AttributeV {
                name: n,
                type_: t,
                use_: match spec_get_attr(attrs, "use"@) {
                    Some(u) => if u == "required"@ {
                        AttributeUse::Required
                    } else if u == "prohibited"@ {
                        AttributeUse::Prohibited
                    } else {
                        AttributeUse::Optional
                    },
                    None => AttributeUse::Optional,
                },
            },
        ),
        _ => None,
    }
}

/// Read an attribute definition from a tag's attributes.
pub fn parse_attribute(attrs: &Vec<XmlAttr>) -> (r: Option<Attribute>)
    ensures
        r.deep_view() == spec_attribute_from_attrs(attrs.deep_view()),
{
    let name = get_attr(attrs, "name");
    let type_ = get_attr(attrs, "type");
    match (name, type_) {
        (Some(n), Some(t)) => {
            let use_ = match get_attr(attrs, "use") {
                Some(u) => {
                    if str_eq(u.as_str(), "required") {
                        AttributeUse::Required
                    } else if str_eq(u.as_str(), "prohibited") {
                        AttributeUse::Prohibited
                    } else {
                        AttributeUse::Optional
                    }
                },
                None => AttributeUse::Optional,
            };
            Some(Attribute { name: n, type_: QName(t), use_ })
        },
        _ => None,
    }
}

/// The position after a depth-tracked subtree skip: the counter rises on
/// each nested start of the same local name, falls on each matching end,
/// and the skip stops when it returns to zero or the stream ends.
pub open spec fn spec_skip_subtree(
    events: Seq<XmlEventV>,
    pos: int,
    name: Seq<char>,
    depth: int,
) -> int
    decreases events.len() - pos,
{
    if pos < 0 || pos >= events.len() || depth <= 0 {
        pos
    } else {
        let d = match events[pos] {
            XmlEventV::Start { name: n, .. } => if n == name {
                depth + 1
            } else {
                depth
            },
            XmlEventV::End { name: n } => if n == name {
                depth - 1
            } else {
                depth
            },
            _ => depth,
        };
        spec_skip_subtree(events, pos + 1, name, d)
    }
}

/// The skip never moves backwards and never leaves the stream.
pub proof fn lemma_skip_subtree_bounds(
    events: Seq<XmlEventV>,
    pos: int,
    name: Seq<char>,
    depth: int,
)
    requires
        0 <= pos <= events.len(),
    ensures
        pos <= spec_skip_subtree(events, pos, name, depth) <= events.len(),
    decreases events.len() - pos,
{
    if pos < events.len() && depth > 0 {
        let d = match events[pos] {
            XmlEventV::Start { name: n, .. } => if n == name {
                depth + 1
            } else {
                depth
            },
            XmlEventV::End { name: n } => if n == name {
                depth - 1
            } else {
                depth
            },
            _ => depth,
        };
        lemma_skip_subtree_bounds(events, pos + 1, name, d);
    }
}

/// Skip the subtree of the construct whose start tag was just consumed.
pub fn skip_subtree(events: &Vec<XmlEvent>, pos: usize, name: &str) -> (r: usize)
    requires
        pos <= events.deep_view().len(),
    ensures
        r == spec_skip_subtree(events.deep_view(), pos as int, name@, 1),
        pos <= r <= events.deep_view().len(),
{
    let n = events.len();
    let mut i: usize = pos;
    let mut depth: u128 = 1;
    while i < n && depth > 0
        invariant
            pos <= i <= n,
            n == events.len(),
            depth <= 1 + (i - pos),
            spec_skip_subtree(events.deep_view(), pos as int, name@, 1) == spec_skip_subtree(
                events.deep_view(),
                i as int,
                name@,
                depth as int,
            ),
        decreases n - i,
    {
        proof {
            assert(events.deep_view()[i as int] == events[i as int]@);
        }
        match &events[i] {
            XmlEvent::Start { name: en, attrs: _ } => {
                if string_eq_str(en, name) {
                    depth += 1;
                }
            },
            XmlEvent::End { name: en } => {
                if string_eq_str(en, name) {
                    depth -= 1;
                }
            },
            _ => {},
        }
        i += 1;
    }
    i
}

/// What an optional parsed element contributes to the group.
pub open spec fn spec_opt_elem(o: Option<SequenceElementV>) -> Seq<SequenceElementV> {
    match o {
        Some(e) => seq![e],
        None => Seq::empty(),
    }
}

/// The ordered group read from the events: elements accumulate in document
/// order; a nested start of `element` is skipped as a subtree; the group
/// closes on its own end tag or at the end of the stream.
pub open spec fn spec_parse_group(
    events: Seq<XmlEventV>,
    pos: int,
    end_name: Seq<char>,
    acc: Seq<SequenceElementV>,
) -> (Seq<SequenceElementV>, int)
    decreases events.len() - pos,
    via spec_parse_group_dec
{
    if pos < 0 || pos >= events.len() {
        (acc, pos)
    } else {
        match events[pos] {
            XmlEventV::Empty { name, attrs } => if name == "element"@ {
                spec_parse_group(events, pos + 1, end_name, acc + spec_opt_elem(
                    spec_elem_from_attrs(attrs),
                ))
            } else {
                spec_parse_group(events, pos + 1, end_name, acc)
            },
            XmlEventV::Start { name, attrs } => if name == "element"@ {
                spec_parse_group(
                    events,
                    spec_skip_subtree(events, pos + 1, "element"@, 1),
                    end_name,
                    acc + spec_opt_elem(spec_elem_from_attrs(attrs)),
                )
            } else {
                spec_parse_group(events, pos + 1, end_name, acc)
            },
            XmlEventV::End { name } => if name == end_name {
                (acc, pos + 1)
            } else {
                spec_parse_group(events, pos + 1, end_name, acc)
            },
            _ => spec_parse_group(events, pos + 1, end_name, acc),
        }
    }
}

#[via_fn]
proof fn spec_parse_group_dec(
    events: Seq<XmlEventV>,
    pos: int,
    end_name: Seq<char>,
    acc: Seq<SequenceElementV>,
) {
    if 0 <= pos < events.len() {
        lemma_skip_subtree_bounds(events, pos + 1, "element"@, 1);
    }
}

/// The group parse never moves backwards and never leaves the stream.
pub proof fn lemma_parse_group_bounds(
    events: Seq<XmlEventV>,
    pos: int,
    end_name: Seq<char>,
    acc: Seq<SequenceElementV>,
)
    requires
        0 <= pos <= events.len(),
    ensures
        pos <= spec_parse_group(events, pos, end_name, acc).1 <= events.len(),
    decreases events.len() - pos,
{
    if 0 <= pos < events.len() {
        match events[pos] {
            XmlEventV::Start { name, attrs } => {
                if name == "element"@ {
                    lemma_skip_subtree_bounds(events, pos + 1, "element"@, 1);
                    lemma_parse_group_bounds(
                        events,
                        spec_skip_subtree(events, pos + 1, "element"@, 1),
                        end_name,
                        acc + spec_opt_elem(spec_elem_from_attrs(attrs)),
                    );
                } else {
                    lemma_parse_group_bounds(events, pos + 1, end_name, acc);
                }
            },
            XmlEventV::Empty { name, attrs } => {
                if name == "element"@ {
                    lemma_parse_group_bounds(
                        events,
                        pos + 1,
                        end_name,
                        acc + spec_opt_elem(spec_elem_from_attrs(attrs)),
                    );
                } else {
                    lemma_parse_group_bounds(events, pos + 1, end_name, acc);
                }
            },
            XmlEventV::End { name } => {
                if name != end_name {
                    lemma_parse_group_bounds(events, pos + 1, end_name, acc);
                }
            },
            _ => {
                lemma_parse_group_bounds(events, pos + 1, end_name, acc);
            },
        }
    }
}

/// Parse an ordered group (`sequence` or `all`, unified) whose start tag was
/// just consumed; `end_name` is that tag's local name.
pub fn parse_group(events: &Vec<XmlEvent>, pos: usize, end_name: &str) -> (r: (
    Vec<SequenceElement>,
    usize,
))
    requires
        pos <= events.deep_view().len(),
    ensures
        (r.0.deep_view(), r.1 as int) == spec_parse_group(
            events.deep_view(),
            pos as int,
            end_name@,
            Seq::<SequenceElementV>::empty(),
        ),
        pos <= r.1 <= events.deep_view().len(),
{
    let n = events.len();
    let mut elems: Vec<SequenceElement> = Vec::new();
    let mut i: usize = pos;
    proof {
        assert(elems.deep_view() =~= Seq::<SequenceElementV>::empty());
    }
    while i < n
        invariant
            pos <= i <= n,
            n == events.len(),
            spec_parse_group(
                events.deep_view(),
                pos as int,
                end_name@,
                Seq::<SequenceElementV>::empty(),
            ) == spec_parse_group(events.deep_view(), i as int, end_name@, elems.deep_view()),
        decreases n - i,
    {
        proof {
            assert(events.deep_view()[i as int] == events[i as int]@);
        }
        match &events[i] {
            XmlEvent::Empty { name, attrs } => {
                if string_eq_str(name, "element") {
                    let ghost prev = elems.deep_view();
                    match elem_from_attrs(attrs) {
                        Some(e) => {
                            elems.push(e);
                            proof {
                                assert(elems.deep_view() =~= prev + spec_opt_elem(
                                    spec_elem_from_attrs(attrs.deep_view()),
                                ));
                            }
                        },
                        None => {
                            proof {
                                assert(elems.deep_view() =~= prev + spec_opt_elem(
                                    spec_elem_from_attrs(attrs.deep_view()),
                                ));
                            }
                        },
                    }
                }
                i += 1;
            },
            XmlEvent::Start { name, attrs } => {
                if string_eq_str(name, "element") {
                    let ghost prev = elems.deep_view();
                    match elem_from_attrs(attrs) {
                        Some(e) => {
                            elems.push(e);
                            proof {
                                assert(elems.deep_view() =~= prev + spec_opt_elem(
                                    spec_elem_from_attrs(attrs.deep_view()),
                                ));
                            }
                        },
                        None => {
                            proof {
                                assert(elems.deep_view() =~= prev + spec_opt_elem(
                                    spec_elem_from_attrs(attrs.deep_view()),
                                ));
                            }
                        },
                    }
                    let next = skip_subtree(events, i + 1, "element");
                    i = next;
                } else {
                    i += 1;
                }
            },
            XmlEvent::End { name } => {
                if string_eq_str(name, end_name) {
                    return (elems, i + 1);
                }
                i += 1;
            },
            _ => {
                i += 1;
            },
        }
    }
    (elems, i)
}

/// The initial complex type for a start tag's attributes: the name, when
/// one is given; anonymous types keep the empty name and go unregistered.
pub open spec fn spec_ct_initial(attrs: Seq<XmlAttrV>) -> ComplexTypeV {
    ComplexTypeV {
        name: match spec_get_attr(attrs, "name"@) {
            Some(n) => n,
            None => Seq::empty(),
        },
        ..spec_complex_type_empty()
    }
}

/// What an optional parsed attribute contributes to the complex type.
pub open spec fn spec_push_attr(ct: ComplexTypeV, o: Option<AttributeV>) -> ComplexTypeV {
    match o {
        Some(a) => ComplexTypeV { attributes: ct.attributes.push(a), ..ct },
        None => ct,
    }
}

/// The complex type read from the events, starting after its start tag:
/// ordered and unordered groups are folded into the one ordered-group slot
/// (a later group overwrites an earlier one); attributes accumulate in
/// order; nested attribute content is skipped as a subtree; the construct
/// closes on its end tag or at the end of the stream.
pub open spec fn spec_parse_complex_type(events: Seq<XmlEventV>, pos: int, ct: ComplexTypeV) -> (
    ComplexTypeV,
    int,
)
    decreases events.len() - pos,
    via spec_parse_complex_type_dec
{
    if pos < 0 || pos >= events.len() {
        (ct, pos)
    } else {
        match events[pos] {
            XmlEventV::Start { name, attrs } => if name == "sequence"@ || name == "all"@ {
                let (elems, p2) = spec_parse_group(events, pos + 1, name, Seq::empty());
                spec_parse_complex_type(events, p2, ComplexTypeV { sequence: Some(elems), ..ct })
            } else if name == "attribute"@ {
                spec_parse_complex_type(
                    events,
                    spec_skip_subtree(events, pos + 1, "attribute"@, 1),
                    spec_push_attr(ct, spec_attribute_from_attrs(attrs)),
                )
            } else {
                spec_parse_complex_type(events, pos + 1, ct)
            },
            XmlEventV::Empty { name, attrs } => if name == "sequence"@ || name == "all"@ {
                spec_parse_complex_type(
                    events,
                    pos + 1,
                    ComplexTypeV { sequence: Some(Seq::empty()), ..ct },
                )
            } else if name == "attribute"@ {
                spec_parse_complex_type(
                    events,
                    pos + 1,
                    spec_push_attr(ct, spec_attribute_from_attrs(attrs)),
                )
            } else {
                spec_parse_complex_type(events, pos + 1, ct)
            },
            XmlEventV::End { name } => if name == "complexType"@ {
                (ct, pos + 1)
            } else {
                spec_parse_complex_type(events, pos + 1, ct)
            },
            _ => spec_parse_complex_type(events, pos + 1, ct),
        }
    }
}

#[via_fn]
proof fn spec_parse_complex_type_dec(events: Seq<XmlEventV>, pos: int, ct: ComplexTypeV) {
    if 0 <= pos < events.len() {
        match events[pos] {
            XmlEventV::Start { name, .. } => {
                if name == "sequence"@ || name == "all"@ {
                    lemma_parse_group_bounds(events, pos + 1, name, Seq::empty());
                } else if name == "attribute"@ {
                    lemma_skip_subtree_bounds(events, pos + 1, "attribute"@, 1);
                }
            },
            _ => {},
        }
    }
}

/// The complex-type parse never moves backwards and never leaves the
/// stream.
pub proof fn lemma_parse_complex_type_bounds(events: Seq<XmlEventV>, pos: int, ct: ComplexTypeV)
    requires
        0 <= pos <= events.len(),
    ensures
        pos <= spec_parse_complex_type(events, pos, ct).1 <= events.len(),
    decreases events.len() - pos,
{
    if 0 <= pos < events.len() {
        match events[pos] {
            XmlEventV::Start { name, attrs } => {
                if name == "sequence"@ || name == "all"@ {
                    lemma_parse_group_bounds(events, pos + 1, name, Seq::empty());
                    let (elems, p2) = spec_parse_group(events, pos + 1, name, Seq::empty());
                    lemma_parse_complex_type_bounds(
                        events,
                        p2,
                        ComplexTypeV { sequence: Some(elems), ..ct },
                    );
                } else if name == "attribute"@ {
                    lemma_skip_subtree_bounds(events, pos + 1, "attribute"@, 1);
                    lemma_parse_complex_type_bounds(
                        events,
                        spec_skip_subtree(events, pos + 1, "attribute"@, 1),
                        spec_push_attr(ct, spec_attribute_from_attrs(attrs)),
                    );
                } else {
                    lemma_parse_complex_type_bounds(events, pos + 1, ct);
                }
            },
            XmlEventV::Empty { name, attrs } => {
                if name == "sequence"@ || name == "all"@ {
                    lemma_parse_complex_type_bounds(
                        events,
                        pos + 1,
                        ComplexTypeV { sequence: Some(Seq::empty()), ..ct },
                    );
                } else if name == "attribute"@ {
                    lemma_parse_complex_type_bounds(
                        events,
                        pos + 1,
                        spec_push_attr(ct, spec_attribute_from_attrs(attrs)),
                    );
                } else {
                    lemma_parse_complex_type_bounds(events, pos + 1, ct);
                }
            },
            XmlEventV::End { name } => {
                if name != "complexType"@ {
                    lemma_parse_complex_type_bounds(events, pos + 1, ct);
                }
            },
            _ => {
                lemma_parse_complex_type_bounds(events, pos + 1, ct);
            },
        }
    }
}

/// Parse a complex type definition whose start tag, with the given
/// attributes, was just consumed.
pub fn parse_complex_type(events: &Vec<XmlEvent>, pos: usize, attrs: &Vec<XmlAttr>) -> (r: (
    ComplexType,
    usize,
))
    requires
        pos <= events.deep_view().len(),
    ensures
        (r.0@, r.1 as int) == spec_parse_complex_type(
            events.deep_view(),
            pos as int,
            spec_ct_initial(attrs.deep_view()),
        ),
        pos <= r.1 <= events.deep_view().len(),
{
    let n = events.len();
    let mut ct = ComplexType::default();
    match get_attr(attrs, "name") {
        Some(nm) => {
            ct.name = nm;
        },
        None => {},
    }
    proof {
        assert(ct@ == spec_ct_initial(attrs.deep_view()));
    }
    let mut i: usize = pos;
    while i < n
        invariant
            pos <= i <= n,
            n == events.len(),
            spec_parse_complex_type(
                events.deep_view(),
                pos as int,
                spec_ct_initial(attrs.deep_view()),
            ) == spec_parse_complex_type(events.deep_view(), i as int, ct@),
        decreases n - i,
    {
        proof {
            assert(events.deep_view()[i as int] == events[i as int]@);
        }
        match &events[i] {
            XmlEvent::Start { name, attrs: inner } => {
                if string_eq_str(name, "sequence") || string_eq_str(name, "all") {
                    let (elems, p2) = parse_group(events, i + 1, name.as_str());
                    ct.sequence = Some(crate::model::Sequence { elements: elems });
                    i = p2;
                } else if string_eq_str(name, "attribute") {
                    match parse_attribute(inner) {
                        Some(a) => {
                            let ghost prev = ct@;
                            ct.attributes.push(a);
                            proof {
                                assert(ct@.attributes =~= prev.attributes.push(
                                    spec_attribute_from_attrs(inner.deep_view())->0,
                                ));
                                assert(ct@ == spec_push_attr(
                                    prev,
                                    spec_attribute_from_attrs(inner.deep_view()),
                                ));
                            }
                        },
                        None => {},
                    }
                    let p2 = skip_subtree(events, i + 1, "attribute");
                    i = p2;
                } else {
                    i += 1;
                }
            },
            XmlEvent::Empty { name, attrs: inner } => {
                if string_eq_str(name, "sequence") || string_eq_str(name, "all") {
                    ct.sequence = Some(crate::model::Sequence::default());
                    i += 1;
                } else if string_eq_str(name, "attribute") {
                    match parse_attribute(inner) {
                        Some(a) => {
                            let ghost prev = ct@;
                            ct.attributes.push(a);
                            proof {
                                assert(ct@.attributes =~= prev.attributes.push(
                                    spec_attribute_from_attrs(inner.deep_view())->0,
                                ));
                                assert(ct@ == spec_push_attr(
                                    prev,
                                    spec_attribute_from_attrs(inner.deep_view()),
                                ));
                            }
                        },
                        None => {},
                    }
                    i += 1;
                } else {
                    i += 1;
                }
            },
            XmlEvent::End { name } => {
                if string_eq_str(name, "complexType") {
                    return (ct, i + 1);
                }
                i += 1;
            },
            _ => {
                i += 1;
            },
        }
    }
    (ct, i)
}

/// The attribute's value, or the empty text when it is absent.
pub open spec fn spec_attr_or_empty(attrs: Seq<XmlAttrV>, name: Seq<char>) -> Seq<char> {
    match spec_get_attr(attrs, name) {
        Some(v) => v,
        None => Seq::empty(),
    }
}

/// The attribute's value, or the empty text when it is absent.
pub fn attr_or_empty(attrs: &Vec<XmlAttr>, name: &str) -> (r: String)
    ensures
        r@ == spec_attr_or_empty(attrs.deep_view(), name@),
{
    match get_attr(attrs, name) {
        Some(v) => v,
        None => String::new(),
    }
}

/// The parts of a space-separated list, empty parts dropped.
pub open spec fn spec_nonempty_parts(parts: Seq<Seq<char>>) -> Seq<Seq<char>>
    decreases parts.len(),
{
    if parts.len() == 0 {
        Seq::empty()
    } else {
        spec_nonempty_parts(parts.drop_last()) + (if parts.last().len() > 0 {
            seq![parts.last()]
        } else {
            Seq::<Seq<char>>::empty()
        })
    }
}

/// The words of a space-separated list.
pub open spec fn spec_words(s: Seq<char>) -> Seq<Seq<char>> {
    spec_nonempty_parts(spec_split_at(s, ' '))
}

/// Split a space-separated list of qualified names.
pub fn split_words(s: &str) -> (r: Vec<QName>)
    ensures
        r.deep_view() == spec_words(s@),
{
    let parts = split_at_char(s, ' ');
    let n = parts.len();
    let mut out: Vec<QName> = Vec::new();
    let mut i: usize = 0;
    proof {
        assert(parts.deep_view().take(0) =~= Seq::<Seq<char>>::empty());
        assert(out.deep_view() =~= Seq::<Seq<char>>::empty());
    }
    while i < n
        invariant
            0 <= i <= n,
            n == parts.len(),
            out.deep_view() == spec_nonempty_parts(parts.deep_view().take(i as int)),
        decreases n - i,
    {
        let ghost prev = out.deep_view();
        if parts[i].as_str().unicode_len() > 0 {
            out.push(QName(crate::model::clone_string_of(&parts[i])));
            proof {
                assert(out.deep_view() =~= prev.push(parts.deep_view()[i as int]));
                assert(prev.push(parts.deep_view()[i as int]) =~= prev + seq![parts.deep_view()[
                i as int]]);
            }
        } else {
            proof {
                assert(out.deep_view() + Seq::<Seq<char>>::empty() =~= out.deep_view());
            }
        }
        proof {
            let ps = parts.deep_view();
            assert(ps.take(i + 1).drop_last() =~= ps.take(i as int));
            assert(ps.take(i + 1).last() == ps[i as int]);
            assert(parts.deep_view()[i as int] == parts[i as int]@);
            assert(out.deep_view() == spec_nonempty_parts(ps.take(i + 1)));
        }
        i += 1;
    }
    proof {
        assert(parts.deep_view().take(n as int) =~= parts.deep_view());
        assert(parts.deep_view() == spec_split_at(s@, ' '));
    }
    out
}

/// The restriction facet described by a facet tag, if the tag is a facet
/// the model knows and its value is readable.
pub open spec fn spec_facet_from(name: Seq<char>, attrs: Seq<XmlAttrV>) -> Option<RestrictionV> {
    match spec_get_attr(attrs, "value"@) {
        None => None,
        Some(v) => if name == "enumeration"@ {
            Some(RestrictionV::Enumeration(v))
        } else if name == "minInclusive"@ {
            Some(RestrictionV::MinInclusive(v))
        } else if name == "maxInclusive"@ {
            Some(RestrictionV::MaxInclusive(v))
        } else if name == "minExclusive"@ {
            Some(RestrictionV::MinExclusive(v))
        } else if name == "maxExclusive"@ {
            Some(RestrictionV::MaxExclusive(v))
        } else if name == "pattern"@ {
            Some(RestrictionV::Pattern(v))
        } else if name == "minLength"@ {
            match spec_parse_u32(v) {
                Some(k) => Some(RestrictionV::MinLength(k)),
                None => None,
            }
        } else if name == "maxLength"@ {
            match spec_parse_u32(v) {
                Some(k) => Some(RestrictionV::MaxLength(k)),
                None => None,
            }
        } else if name == "length"@ {
            match spec_parse_u32(v) {
                Some(k) => Some(RestrictionV::Length(k)),
                None => None,
            }
        } else if name == "totalDigits"@ {
            match spec_parse_u32(v) {
                Some(k) => Some(RestrictionV::TotalDigits(k)),
                None => None,
            }
        } else if name == "fractionDigits"@ {
            match spec_parse_u32(v) {
                Some(k) => Some(RestrictionV::FractionDigits(k)),
                None => None,
            }
        } else if name == "whiteSpace"@ {
            if v == "preserve"@ {
                Some(RestrictionV::WhiteSpace(WhiteSpace::Preserve))
            } else if v == "replace"@ {
                Some(RestrictionV::WhiteSpace(WhiteSpace::Replace))
            } else if v == "collapse"@ {
                Some(RestrictionV::WhiteSpace(WhiteSpace::Collapse))
            } else {
                None
            }
        } else {
            None
        },
    }
}

/// Read a restriction facet from a facet tag.
pub fn facet_from(name: &String, attrs: &Vec<XmlAttr>) -> (r: Option<Restriction>)
    ensures
        r.deep_view() == spec_facet_from(name@, attrs.deep_view()),
{
    match get_attr(attrs, "value") {
        None => None,
        Some(v) => {
            if string_eq_str(name, "enumeration") {
                Some(Restriction::Enumeration(v))
            } else if string_eq_str(name, "minInclusive") {
                Some(Restriction::MinInclusive(v))
            } else if string_eq_str(name, "maxInclusive") {
                Some(Restriction::MaxInclusive(v))
            } else if string_eq_str(name, "minExclusive") {
                Some(Restriction::MinExclusive(v))
            } else if string_eq_str(name, "maxExclusive") {
                Some(Restriction::MaxExclusive(v))
            } else if string_eq_str(name, "pattern") {
                Some(Restriction::Pattern(v))
            } else if string_eq_str(name, "minLength") {
                match parse_u32(v.as_str()) {
                    Some(k) => Some(Restriction::MinLength(k)),
                    None => None,
                }
            } else if string_eq_str(name, "maxLength") {
                match parse_u32(v.as_str()) {
                    Some(k) => Some(Restriction::MaxLength(k)),
                    None => None,
                }
            } else if string_eq_str(name, "length") {
                match parse_u32(v.as_str()) {
                    Some(k) => Some(Restriction::Length(k)),
                    None => None,
                }
            } else if string_eq_str(name, "totalDigits") {
                match parse_u32(v.as_str()) {
                    Some(k) => Some(Restriction::TotalDigits(k)),
                    None => None,
                }
            } else if string_eq_str(name, "fractionDigits") {
                match parse_u32(v.as_str()) {
                    Some(k) => Some(Restriction::FractionDigits(k)),
                    None => None,
                }
            } else if string_eq_str(name, "whiteSpace") {
                if str_eq(v.as_str(), "preserve") {
                    Some(Restriction::WhiteSpace(WhiteSpace::Preserve))
                } else if str_eq(v.as_str(), "replace") {
                    Some(Restriction::WhiteSpace(WhiteSpace::Replace))
                } else if str_eq(v.as_str(), "collapse") {
                    Some(Restriction::WhiteSpace(WhiteSpace::Collapse))
                } else {
                    None
                }
            } else {
                None
            }
        },
    }
}

/// What an optional parsed facet contributes to the facet list.
pub open spec fn spec_opt_facet(o: Option<RestrictionV>) -> Seq<RestrictionV> {
    match o {
        Some(f) => seq![f],
        None => Seq::empty(),
    }
}

/// The facet list read from the events, in document order, until the end of
/// the restriction or of the stream.
pub open spec fn spec_parse_restriction(
    events: Seq<XmlEventV>,
    pos: int,
    acc: Seq<RestrictionV>,
) -> (Seq<RestrictionV>, int)
    decreases events.len() - pos,
{
    if pos < 0 || pos >= events.len() {
        (acc, pos)
    } else {
        match events[pos] {
            XmlEventV::Empty { name, attrs } => spec_parse_restriction(
                events,
                pos + 1,
                acc + spec_opt_facet(spec_facet_from(name, attrs)),
            ),
            XmlEventV::Start { name, attrs } => spec_parse_restriction(
                events,
                pos + 1,
                acc + spec_opt_facet(spec_facet_from(name, attrs)),
            ),
            XmlEventV::End { name } => if name == "restriction"@ {
                (acc, pos + 1)
            } else {
                spec_parse_restriction(events, pos + 1, acc)
            },
            _ => spec_parse_restriction(events, pos + 1, acc),
        }
    }
}

/// The restriction parse never moves backwards and never leaves the stream.
pub proof fn lemma_parse_restriction_bounds(
    events: Seq<XmlEventV>,
    pos: int,
    acc: Seq<RestrictionV>,
)
    requires
        0 <= pos <= events.len(),
    ensures
        pos <= spec_parse_restriction(events, pos, acc).1 <= events.len(),
    decreases events.len() - pos,
{
    if 0 <= pos < events.len() {
        match events[pos] {
            XmlEventV::Empty { name, attrs } => {
                lemma_parse_restriction_bounds(
                    events,
                    pos + 1,
                    acc + spec_opt_facet(spec_facet_from(name, attrs)),
                );
            },
            XmlEventV::Start { name, attrs } => {
                lemma_parse_restriction_bounds(
                    events,
                    pos + 1,
                    acc + spec_opt_facet(spec_facet_from(name, attrs)),
                );
            },
            XmlEventV::End { name } => {
                if name != "restriction"@ {
                    lemma_parse_restriction_bounds(events, pos + 1, acc);
                }
            },
            _ => {
                lemma_parse_restriction_bounds(events, pos + 1, acc);
            },
        }
    }
}

/// Parse the facets of a restriction whose start tag was just consumed.
pub fn parse_restriction(events: &Vec<XmlEvent>, pos: usize) -> (r: (Vec<Restriction>, usize))
    requires
        pos <= events.deep_view().len(),
    ensures
        (r.0.deep_view(), r.1 as int) == spec_parse_restriction(
            events.deep_view(),
            pos as int,
            Seq::<RestrictionV>::empty(),
        ),
        pos <= r.1 <= events.deep_view().len(),
{
    let n = events.len();
    let mut facets: Vec<Restriction> = Vec::new();
    let mut i: usize = pos;
    proof {
        assert(facets.deep_view() =~= Seq::<RestrictionV>::empty());
    }
    while i < n
        invariant
            pos <= i <= n,
            n == events.len(),
            spec_parse_restriction(events.deep_view(), pos as int, Seq::<RestrictionV>::empty())
                == spec_parse_restriction(events.deep_view(), i as int, facets.deep_view()),
        decreases n - i,
    {
        proof {
            assert(events.deep_view()[i as int] == events[i as int]@);
        }
        match &events[i] {
            XmlEvent::Empty { name, attrs } => {
                let ghost prev = facets.deep_view();
                match facet_from(name, attrs) {
                    Some(f) => {
                        facets.push(f);
                        proof {
                            assert(facets.deep_view() =~= prev + spec_opt_facet(
                                spec_facet_from(name@, attrs.deep_view()),
                            ));
                        }
                    },
                    None => {
                        proof {
                            assert(facets.deep_view() =~= prev + spec_opt_facet(
                                spec_facet_from(name@, attrs.deep_view()),
                            ));
                        }
                    },
                }
                i += 1;
            },
            XmlEvent::Start { name, attrs } => {
                let ghost prev = facets.deep_view();
                match facet_from(name, attrs) {
                    Some(f) => {
                        facets.push(f);
                        proof {
                            assert(facets.deep_view() =~= prev + spec_opt_facet(
                                spec_facet_from(name@, attrs.deep_view()),
                            ));
                        }
                    },
                    None => {
                        proof {
                            assert(facets.deep_view() =~= prev + spec_opt_facet(
                                spec_facet_from(name@, attrs.deep_view()),
                            ));
                        }
                    },
                }
                i += 1;
            },
            XmlEvent::End { name } => {
                if string_eq_str(name, "restriction") {
                    return (facets, i + 1);
                }
                i += 1;
            },
            _ => {
                i += 1;
            },
        }
    }
    (facets, i)
}

/// The simple type read from the events, starting after its start tag: the
/// last of restriction, list or union wins; the construct closes on its end
/// tag or at the end of the stream.
pub open spec fn spec_parse_simple_type(
    events: Seq<XmlEventV>,
    pos: int,
    cur: Option<SimpleTypeV>,
) -> (Option<SimpleTypeV>, int)
    decreases events.len() - pos,
    via spec_parse_simple_type_dec
{
    if pos < 0 || pos >= events.len() {
        (cur, pos)
    } else {
        match events[pos] {
            XmlEventV::Start { name, attrs } => if name == "restriction"@ {
                let (facets, p2) = spec_parse_restriction(events, pos + 1, Seq::empty());
                spec_parse_simple_type(
                    events,
                    p2,
                    Some(
                        SimpleTypeV::Restriction {
                            base: spec_attr_or_empty(attrs, "base"@),
                            restrictions: facets,
                        },
                    ),
                )
            } else if name == "list"@ {
                spec_parse_simple_type(
                    events,
                    pos + 1,
                    Some(SimpleTypeV::List { item_type: spec_attr_or_empty(attrs, "itemType"@) }),
                )
            } else if name == "union"@ {
                spec_parse_simple_type(
                    events,
                    pos + 1,
                    Some(
                        SimpleTypeV::Union {
                            member_types: spec_words(spec_attr_or_empty(attrs, "memberTypes"@)),
                        },
                    ),
                )
            } else {
                spec_parse_simple_type(events, pos + 1, cur)
            },
            XmlEventV::Empty { name, attrs } => if name == "restriction"@ {
                spec_parse_simple_type(
                    events,
                    pos + 1,
                    Some(
                        SimpleTypeV::Restriction {
                            base: spec_attr_or_empty(attrs, "base"@),
                            restrictions: Seq::empty(),
                        },
                    ),
                )
            } else if name == "list"@ {
                spec_parse_simple_type(
                    events,
                    pos + 1,
                    Some(SimpleTypeV::List { item_type: spec_attr_or_empty(attrs, "itemType"@) }),
                )
            } else if name == "union"@ {
                spec_parse_simple_type(
                    events,
                    pos + 1,
                    Some(
                        SimpleTypeV::Union {
                            member_types: spec_words(spec_attr_or_empty(attrs, "memberTypes"@)),
                        },
                    ),
                )
            } else {
                spec_parse_simple_type(events, pos + 1, cur)
            },
            XmlEventV::End { name } => if name == "simpleType"@ {
                (cur, pos + 1)
            } else {
                spec_parse_simple_type(events, pos + 1, cur)
            },
            _ => spec_parse_simple_type(events, pos + 1, cur),
        }
    }
}

#[via_fn]
proof fn spec_parse_simple_type_dec(events: Seq<XmlEventV>, pos: int, cur: Option<SimpleTypeV>) {
    if 0 <= pos < events.len() {
        match events[pos] {
            XmlEventV::Start { name, .. } => {
                if name == "restriction"@ {
                    lemma_parse_restriction_bounds(events, pos + 1, Seq::empty());
                }
            },
            _ => {},
        }
    }
}

/// The simple-type parse never moves backwards and never leaves the stream.
pub proof fn lemma_parse_simple_type_bounds(
    events: Seq<XmlEventV>,
    pos: int,
    cur: Option<SimpleTypeV>,
)
    requires
        0 <= pos <= events.len(),
    ensures
        pos <= spec_parse_simple_type(events, pos, cur).1 <= events.len(),
    decreases events.len() - pos,
{
    if 0 <= pos < events.len() {
        let next = spec_parse_simple_type(events, pos, cur);
        match events[pos] {
            XmlEventV::Start { name, attrs } => {
                if name == "restriction"@ {
                    lemma_parse_restriction_bounds(events, pos + 1, Seq::empty());
                    let (facets, p2) = spec_parse_restriction(events, pos + 1, Seq::empty());
                    lemma_parse_simple_type_bounds(
                        events,
                        p2,
                        Some(
                            SimpleTypeV::Restriction {
                                base: spec_attr_or_empty(attrs, "base"@),
                                restrictions: facets,
                            },
                        ),
                    );
                } else if name == "list"@ {
                    lemma_parse_simple_type_bounds(
                        events,
                        pos + 1,
                        Some(
                            SimpleTypeV::List {
                                item_type: spec_attr_or_empty(attrs, "itemType"@),
                            },
                        ),
                    );
                } else if name == "union"@ {
                    lemma_parse_simple_type_bounds(
                        events,
                        pos + 1,
                        Some(
                            SimpleTypeV::Union {
                                member_types: spec_words(
                                    spec_attr_or_empty(attrs, "memberTypes"@),
                                ),
                            },
                        ),
                    );
                } else {
                    lemma_parse_simple_type_bounds(events, pos + 1, cur);
                }
            },
            XmlEventV::Empty { name, attrs } => {
                if name == "restriction"@ {
                    lemma_parse_simple_type_bounds(
                        events,
                        pos + 1,
                        Some(
                            SimpleTypeV::Restriction {
                                base: spec_attr_or_empty(attrs, "base"@),
                                restrictions: Seq::empty(),
                            },
                        ),
                    );
                } else if name == "list"@ {
                    lemma_parse_simple_type_bounds(
                        events,
                        pos + 1,
                        Some(
                            SimpleTypeV::List {
                                item_type: spec_attr_or_empty(attrs, "itemType"@),
                            },
                        ),
                    );
                } else if name == "union"@ {
                    lemma_parse_simple_type_bounds(
                        events,
                        pos + 1,
                        Some(
                            SimpleTypeV::Union {
                                member_types: spec_words(
                                    spec_attr_or_empty(attrs, "memberTypes"@),
                                ),
                            },
                        ),
                    );
                } else {
                    lemma_parse_simple_type_bounds(events, pos + 1, cur);
                }
            },
            XmlEventV::End { name } => {
                if name != "simpleType"@ {
                    lemma_parse_simple_type_bounds(events, pos + 1, cur);
                }
            },
            _ => {
                lemma_parse_simple_type_bounds(events, pos + 1, cur);
            },
        }
    }
}

/// Parse a simple type definition whose start tag was just consumed.
pub fn parse_simple_type(events: &Vec<XmlEvent>, pos: usize) -> (r: (Option<SimpleType>, usize))
    requires
        pos <= events.deep_view().len(),
    ensures
        (r.0.deep_view(), r.1 as int) == spec_parse_simple_type(
            events.deep_view(),
            pos as int,
            None::<SimpleTypeV>,
        ),
        pos <= r.1 <= events.deep_view().len(),
{
    let n = events.len();
    let mut cur: Option<SimpleType> = None;
    let mut i: usize = pos;
    while i < n
        invariant
            pos <= i <= n,
            n == events.len(),
            spec_parse_simple_type(events.deep_view(), pos as int, None::<SimpleTypeV>)
                == spec_parse_simple_type(events.deep_view(), i as int, cur.deep_view()),
        decreases n - i,
    {
        proof {
            assert(events.deep_view()[i as int] == events[i as int]@);
        }
        match &events[i] {
            XmlEvent::Start { name, attrs } => {
                if string_eq_str(name, "restriction") {
                    let base = attr_or_empty(attrs, "base");
                    let (facets, p2) = parse_restriction(events, i + 1);
                    cur = Some(
                        SimpleType::Restriction { base: QName(base), restrictions: facets },
                    );
                    i = p2;
                } else if string_eq_str(name, "list") {
                    cur = Some(SimpleType::List { item_type: QName(attr_or_empty(attrs, "itemType")) });
                    i += 1;
                } else if string_eq_str(name, "union") {
                    let members = split_words(attr_or_empty(attrs, "memberTypes").as_str());
                    cur = Some(SimpleType::Union { member_types: members });
                    i += 1;
                } else {
                    i += 1;
                }
            },
            XmlEvent::Empty { name, attrs } => {
                if string_eq_str(name, "restriction") {
                    let base = attr_or_empty(attrs, "base");
                    let facets: Vec<Restriction> = Vec::new();
                    proof {
                        assert(facets.deep_view() =~= Seq::<RestrictionV>::empty());
                    }
                    cur = Some(
                        SimpleType::Restriction { base: QName(base), restrictions: facets },
                    );
                    i += 1;
                } else if string_eq_str(name, "list") {
                    cur = Some(SimpleType::List { item_type: QName(attr_or_empty(attrs, "itemType")) });
                    i += 1;
                } else if string_eq_str(name, "union") {
                    let members = split_words(attr_or_empty(attrs, "memberTypes").as_str());
                    cur = Some(SimpleType::Union { member_types: members });
                    i += 1;
                } else {
                    i += 1;
                }
            },
            XmlEvent::End { name } => {
                if string_eq_str(name, "simpleType") {
                    return (cur, i + 1);
                }
                i += 1;
            },
            _ => {
                i += 1;
            },
        }
    }
    (cur, i)
}

/// The schema attributes applied to the model: each of the four markers is
/// taken when present and kept when absent.
pub open spec fn spec_apply_schema_attrs(sch: XmlSchemaV, attrs: Seq<XmlAttrV>) -> XmlSchemaV {
    XmlSchemaV {
        target_namespace: match spec_get_attr(attrs, "targetNamespace"@) {
            Some(v) => Some(v),
            None => sch.target_namespace,
        },
        element_form_default: match spec_get_attr(attrs, "elementFormDefault"@) {
            Some(v) => Some(v),
            None => sch.element_form_default,
        },
        attribute_form_default: match spec_get_attr(attrs, "attributeFormDefault"@) {
            Some(v) => Some(v),
            None => sch.attribute_form_default,
        },
        version: match spec_get_attr(attrs, "version"@) {
            Some(v) => Some(v),
            None => sch.version,
        },
        ..sch
    }
}

pub fn apply_schema_attrs(sch: &mut XmlSchema, attrs: &Vec<XmlAttr>)
    ensures
        final(sch)@ == spec_apply_schema_attrs(old(sch)@, attrs.deep_view()),
{
    match get_attr(attrs, "targetNamespace") {
        Some(v) => {
            sch.target_namespace = Some(v);
        },
        None => {},
    }
    match get_attr(attrs, "elementFormDefault") {
        Some(v) => {
            sch.element_form_default = Some(v);
        },
        None => {},
    }
    match get_attr(attrs, "attributeFormDefault") {
        Some(v) => {
            sch.attribute_form_default = Some(v);
        },
        None => {},
    }
    match get_attr(attrs, "version") {
        Some(v) => {
            sch.version = Some(v);
        },
        None => {},
    }
}

/// The top-level element described by a tag's attributes; a missing name
/// drops it.
pub open spec fn spec_schema_element_from_attrs(attrs: Seq<XmlAttrV>) -> Option<SchemaElementV> {
    match spec_get_attr(attrs, "name"@) {
        Some(n) => Some(
            SchemaElementV {
                name: n,
                type_: spec_attr_or_empty(attrs, "type"@),
                nillable: spec_get_attr(attrs, "nillable"@) == Some("true"@),
                min_occurs: match spec_get_attr(attrs, "minOccurs"@) {
                    Some(m) => spec_parse_u32(m),
                    None => None,
                },
                max_occurs: spec_get_attr(attrs, "maxOccurs"@),
            },
        ),
        None => None,
    }
}

/// Read a top-level element from a tag's attributes.
pub fn schema_element_from_attrs(attrs: &Vec<XmlAttr>) -> (r: Option<SchemaElement>)
    ensures
        r.deep_view() == spec_schema_element_from_attrs(attrs.deep_view()),
{
    match get_attr(attrs, "name") {
        Some(n) => {
            let type_ = attr_or_empty(attrs, "type");
            let nillable = match get_attr(attrs, "nillable") {
                Some(v) => str_eq(v.as_str(), "true"),
                None => false,
            };
            let min_occurs: Option<u32> = match get_attr(attrs, "minOccurs") {
                Some(m) => parse_u32(m.as_str()),
                None => None,
            };
            let max_occurs = get_attr(attrs, "maxOccurs");
            Some(
                SchemaElement {
                    name: n,
                    type_: QName(type_),
                    nillable,
                    min_occurs,
                    max_occurs,
                },
            )
        },
        None => None,
    }
}

/// Registration of a parsed complex type: anonymous types are dropped.
pub open spec fn spec_register_ct(sch: XmlSchemaV, ct: ComplexTypeV) -> XmlSchemaV {
    if ct.name.len() > 0 {
        XmlSchemaV { complex_types: spec_insert(sch.complex_types, ct.name, ct), ..sch }
    } else {
        sch
    }
}

/// Registration of a parsed simple type: nameless or empty results are
/// dropped.
pub open spec fn spec_register_st(
    sch: XmlSchemaV,
    name: Seq<char>,
    st: Option<SimpleTypeV>,
) -> XmlSchemaV {
    match st {
        Some(t) => if name.len() > 0 {
            XmlSchemaV { simple_types: spec_insert(sch.simple_types, name, t), ..sch }
        } else {
            sch
        },
        None => sch,
    }
}

/// Registration of a parsed top-level element.
pub open spec fn spec_register_el(sch: XmlSchemaV, el: Option<SchemaElementV>) -> XmlSchemaV {
    match el {
        Some(e) => XmlSchemaV { elements: spec_insert(sch.elements, e.name, e), ..sch },
        None => sch,
    }
}

/// The schema content read from the events: top-level elements, complex
/// types and simple types register under their names; the content closes on
/// the schema's end tag or at the end of the stream.
pub open spec fn spec_parse_schema_body(events: Seq<XmlEventV>, pos: int, sch: XmlSchemaV) -> (
    XmlSchemaV,
    int,
)
    decreases events.len() - pos,
    via spec_parse_schema_body_dec
{
    if pos < 0 || pos >= events.len() {
        (sch, pos)
    } else {
        match events[pos] {
            XmlEventV::Start { name, attrs } => if name == "complexType"@ {
                let (ct, p2) = spec_parse_complex_type(events, pos + 1, spec_ct_initial(attrs));
                spec_parse_schema_body(events, p2, spec_register_ct(sch, ct))
            } else if name == "simpleType"@ {
                let (st, p2) = spec_parse_simple_type(events, pos + 1, None);
                spec_parse_schema_body(
                    events,
                    p2,
                    spec_register_st(sch, spec_attr_or_empty(attrs, "name"@), st),
                )
            } else if name == "element"@ {
                spec_parse_schema_body(
                    events,
                    spec_skip_subtree(events, pos + 1, "element"@, 1),
                    spec_register_el(sch, spec_schema_element_from_attrs(attrs)),
                )
            } else {
                spec_parse_schema_body(events, pos + 1, sch)
            },
            XmlEventV::Empty { name, attrs } => if name == "complexType"@ {
                spec_parse_schema_body(
                    events,
                    pos + 1,
                    spec_register_ct(sch, spec_ct_initial(attrs)),
                )
            } else if name == "element"@ {
                spec_parse_schema_body(
                    events,
                    pos + 1,
                    spec_register_el(sch, spec_schema_element_from_attrs(attrs)),
                )
            } else {
                spec_parse_schema_body(events, pos + 1, sch)
            },
            XmlEventV::End { name } => if name == "schema"@ {
                (sch, pos + 1)
            } else {
                spec_parse_schema_body(events, pos + 1, sch)
            },
            _ => spec_parse_schema_body(events, pos + 1, sch),
        }
    }
}

#[via_fn]
proof fn spec_parse_schema_body_dec(events: Seq<XmlEventV>, pos: int, sch: XmlSchemaV) {
    if 0 <= pos < events.len() {
        match events[pos] {
            XmlEventV::Start { name, attrs } => {
                if name == "complexType"@ {
                    lemma_parse_complex_type_bounds(events, pos + 1, spec_ct_initial(attrs));
                } else if name == "simpleType"@ {
                    lemma_parse_simple_type_bounds(events, pos + 1, None);
                } else if name == "element"@ {
                    lemma_skip_subtree_bounds(events, pos + 1, "element"@, 1);
                }
            },
            _ => {},
        }
    }
}

/// The schema-content parse never moves backwards and never leaves the
/// stream.
pub proof fn lemma_parse_schema_body_bounds(events: Seq<XmlEventV>, pos: int, sch: XmlSchemaV)
    requires
        0 <= pos <= events.len(),
    ensures
        pos <= spec_parse_schema_body(events, pos, sch).1 <= events.len(),
    decreases events.len() - pos,
{
    if 0 <= pos < events.len() {
        match events[pos] {
            XmlEventV::Start { name, attrs } => {
                if name == "complexType"@ {
                    lemma_parse_complex_type_bounds(events, pos + 1, spec_ct_initial(attrs));
                    let (ct, p2) = spec_parse_complex_type(
                        events,
                        pos + 1,
                        spec_ct_initial(attrs),
                    );
                    lemma_parse_schema_body_bounds(events, p2, spec_register_ct(sch, ct));
                } else if name == "simpleType"@ {
                    lemma_parse_simple_type_bounds(events, pos + 1, None);
                    let (st, p2) = spec_parse_simple_type(events, pos + 1, None);
                    lemma_parse_schema_body_bounds(
                        events,
                        p2,
                        spec_register_st(sch, spec_attr_or_empty(attrs, "name"@), st),
                    );
                } else if name == "element"@ {
                    lemma_skip_subtree_bounds(events, pos + 1, "element"@, 1);
                    lemma_parse_schema_body_bounds(
                        events,
                        spec_skip_subtree(events, pos + 1, "element"@, 1),
                        spec_register_el(sch, spec_schema_element_from_attrs(attrs)),
                    );
                } else {
                    lemma_parse_schema_body_bounds(events, pos + 1, sch);
                }
            },
            XmlEventV::Empty { name, attrs } => {
                if name == "complexType"@ {
                    lemma_parse_schema_body_bounds(
                        events,
                        pos + 1,
                        spec_register_ct(sch, spec_ct_initial(attrs)),
                    );
                } else if name == "element"@ {
                    lemma_parse_schema_body_bounds(
                        events,
                        pos + 1,
                        spec_register_el(sch, spec_schema_element_from_attrs(attrs)),
                    );
                } else {
                    lemma_parse_schema_body_bounds(events, pos + 1, sch);
                }
            },
            XmlEventV::End { name } => {
                if name != "schema"@ {
                    lemma_parse_schema_body_bounds(events, pos + 1, sch);
                }
            },
            _ => {
                lemma_parse_schema_body_bounds(events, pos + 1, sch);
            },
        }
    }
}

/// Parse schema content, starting after the schema's start tag, into the
/// given model.
pub fn parse_schema_body(events: &Vec<XmlEvent>, pos: usize, schema: XmlSchema) -> (r: (
    XmlSchema,
    usize,
))
    requires
        pos <= events.deep_view().len(),
    ensures
        (r.0@, r.1 as int) == spec_parse_schema_body(events.deep_view(), pos as int, schema@),
        pos <= r.1 <= events.deep_view().len(),
{
    let n = events.len();
    let mut sch = schema;
    let mut i: usize = pos;
    while i < n
        invariant
            pos <= i <= n,
            n == events.len(),
            spec_parse_schema_body(events.deep_view(), pos as int, schema@)
                == spec_parse_schema_body(events.deep_view(), i as int, sch@),
        decreases n - i,
    {
        proof {
            assert(events.deep_view()[i as int] == events[i as int]@);
        }
        match &events[i] {
            XmlEvent::Start { name, attrs } => {
                if string_eq_str(name, "complexType") {
                    let (ct, p2) = parse_complex_type(events, i + 1, attrs);
                    let ghost prev = sch@;
                    let ghost ctv = ct@;
                    if ct.name.as_str().unicode_len() > 0 {
                        sch.register_complex_type(ct);
                        proof {
                            assert(sch@ == spec_register_ct(prev, ctv));
                        }
                    } else {
                        proof {
                            assert(sch@ == spec_register_ct(prev, ctv));
                        }
                    }
                    i = p2;
                } else if string_eq_str(name, "simpleType") {
                    let st_name = attr_or_empty(attrs, "name");
                    let (st, p2) = parse_simple_type(events, i + 1);
                    let ghost prev = sch@;
                    let ghost stv = st.deep_view();
                    let ghost nv = st_name@;
                    match st {
                        Some(t) => {
                            if st_name.as_str().unicode_len() > 0 {
                                sch.register_simple_type(st_name, t);
                                proof {
                                    assert(sch@ == spec_register_st(prev, nv, stv));
                                }
                            } else {
                                proof {
                                    assert(sch@ == spec_register_st(prev, nv, stv));
                                }
                            }
                        },
                        None => {
                            proof {
                                assert(sch@ == spec_register_st(prev, nv, stv));
                            }
                        },
                    }
                    i = p2;
                } else if string_eq_str(name, "element") {
                    let ghost prev = sch@;
                    match schema_element_from_attrs(attrs) {
                        Some(el) => {
                            let ghost elv = el@;
                            sch.register_element(el);
                            proof {
                                assert(sch@ == spec_register_el(prev, Some(elv)));
                            }
                        },
                        None => {},
                    }
                    let p2 = skip_subtree(events, i + 1, "element");
                    i = p2;
                } else {
                    i += 1;
                }
            },
            XmlEvent::Empty { name, attrs } => {
                if string_eq_str(name, "complexType") {
                    let mut ct = ComplexType::default();
                    match get_attr(attrs, "name") {
                        Some(nm) => {
                            ct.name = nm;
                        },
                        None => {},
                    }
                    proof {
                        assert(ct@ == spec_ct_initial(attrs.deep_view()));
                    }
                    let ghost prev = sch@;
                    let ghost ctv = ct@;
                    if ct.name.as_str().unicode_len() > 0 {
                        sch.register_complex_type(ct);
                        proof {
                            assert(sch@ == spec_register_ct(prev, ctv));
                        }
                    } else {
                        proof {
                            assert(sch@ == spec_register_ct(prev, ctv));
                        }
                    }
                    i += 1;
                } else if string_eq_str(name, "element") {
                    let ghost prev = sch@;
                    match schema_element_from_attrs(attrs) {
                        Some(el) => {
                            let ghost elv = el@;
                            sch.register_element(el);
                            proof {
                                assert(sch@ == spec_register_el(prev, Some(elv)));
                            }
                        },
                        None => {},
                    }
                    i += 1;
                } else {
                    i += 1;
                }
            },
            XmlEvent::End { name } => {
                if string_eq_str(name, "schema") {
                    return (sch, i + 1);
                }
                i += 1;
            },
            _ => {
                i += 1;
            },
        }
    }
    (sch, i)
}

/// The whole schema document read from the events: every schema construct
/// in the stream populates the one model.
pub open spec fn spec_parse_schema_doc(events: Seq<XmlEventV>, pos: int, sch: XmlSchemaV) -> (
    XmlSchemaV,
    int,
)
    decreases events.len() - pos,
    via spec_parse_schema_doc_dec
{
    if pos < 0 || pos >= events.len() {
        (sch, pos)
    } else {
        match events[pos] {
            XmlEventV::Start { name, attrs } => if name == "schema"@ {
                let (s2, p2) = spec_parse_schema_body(
                    events,
                    pos + 1,
                    spec_apply_schema_attrs(sch, attrs),
                );
                spec_parse_schema_doc(events, p2, s2)
            } else {
                spec_parse_schema_doc(events, pos + 1, sch)
            },
            XmlEventV::Empty { name, attrs } => if name == "schema"@ {
                spec_parse_schema_doc(events, pos + 1, spec_apply_schema_attrs(sch, attrs))
            } else {
                spec_parse_schema_doc(events, pos + 1, sch)
            },
            _ => spec_parse_schema_doc(events, pos + 1, sch),
        }
    }
}

#[via_fn]
proof fn spec_parse_schema_doc_dec(events: Seq<XmlEventV>, pos: int, sch: XmlSchemaV) {
    if 0 <= pos < events.len() {
        match events[pos] {
            XmlEventV::Start { name, attrs } => {
                if name == "schema"@ {
                    lemma_parse_schema_body_bounds(
                        events,
                        pos + 1,
                        spec_apply_schema_attrs(sch, attrs),
                    );
                }
            },
            _ => {},
        }
    }
}

/// The model read from a whole schema document.
pub open spec fn spec_parse_schema(events: Seq<XmlEventV>) -> XmlSchemaV {
    spec_parse_schema_doc(events, 0, spec_schema_empty()).0
}

/// Parse a whole schema document from its events.
pub fn parse_schema(events: &Vec<XmlEvent>) -> (r: XmlSchema)
    ensures
        r@ == spec_parse_schema(events.deep_view()),
{
    let n = events.len();
    let mut sch = XmlSchema::default();
    let mut i: usize = 0;
    while i < n
        invariant
            0 <= i <= n,
            n == events.len(),
            spec_parse_schema_doc(events.deep_view(), 0, spec_schema_empty())
                == spec_parse_schema_doc(events.deep_view(), i as int, sch@),
        decreases n - i,
    {
        proof {
            assert(events.deep_view()[i as int] == events[i as int]@);
        }
        match &events[i] {
            XmlEvent::Start { name, attrs } => {
                if string_eq_str(name, "schema") {
                    apply_schema_attrs(&mut sch, attrs);
                    let (s2, p2) = parse_schema_body(events, i + 1, sch);
                    sch = s2;
                    i = p2;
                } else {
                    i += 1;
                }
            },
            XmlEvent::Empty { name, attrs } => {
                if string_eq_str(name, "schema") {
                    apply_schema_attrs(&mut sch, attrs);
                }
                i += 1;
            },
            _ => {
                i += 1;
            },
        }
    }
    sch
}

/// Parse a whole schema document from its text. The tokenizer's events are
/// a function of the text; a malformed stream yields the error.
pub fn parse_schema_text(text: &str) -> (r: Result<XmlSchema, StreamError>)
    ensures
        r is Ok <==> spec_tokens(text@) is Some,
        r is Ok ==> r->Ok_0@ == spec_parse_schema(spec_tokens(text@)->0),
{
    match tokenize(text) {
        Ok(events) => Ok(parse_schema(&events)),
        Err(e) => Err(e),
    }
}

} // verus!
