//! The code generator: emits one Rust struct per complex type, one Rust
//! enum per enumeration-bearing simple type, and one client method per
//! operation. Every emitted text is pinned exactly by a specification
//! function over the model's view.

use vstd::prelude::*;

use crate::model::{AttributeUse, AttributeV, ComplexType, ComplexTypeV, RestrictionV,
    SequenceElementV, SimpleType, SimpleTypeV};
use crate::names::{sanitize_identifier, spec_pascal_case, spec_sanitize, spec_snake_case,
    to_pascal_case, to_snake_case};
use crate::qname::{spec_qname_local, QName};
use crate::type_mapper::{spec_map_attribute, spec_map_occurs, TypeMapper};
use crate::text::{split_lines, spec_split_lines, spec_trim, str_eq, trim_blank};
use crate::wsdl::{spec_find_action, spec_find_message, MessageV, PortTypeOperation,
    PortTypeOperationV, PortTypeV, ServiceV, WsdlModel, WsdlModelV};

verus! {

/// The capability line of an emitted type: an empty type is additionally
/// default-constructible; equality is always the partial form, never the
/// total one, since nested floating-point fields cannot be compared exactly.
pub open spec fn spec_derives_line(empty: bool) -> Seq<char> {
    if empty {
        "#[derive(Debug, Clone, Default, PartialEq, Serialize, Deserialize)]\n"@
    } else {
        "#[derive(Debug, Clone, PartialEq, Serialize, Deserialize)]\n"@
    }
}

/// A complex type with no ordered-group elements and no attributes.
pub open spec fn spec_type_is_empty(ct: ComplexTypeV) -> bool {
    (ct.sequence is None || ct.sequence->0.len() == 0) && ct.attributes.len() == 0
}

/// The emitted text of one attribute field: a rename annotation with the
/// `@` marker, then the field itself.
pub open spec fn spec_attr_field(a: AttributeV) -> Seq<char> {
    "    #[serde(rename = \"@"@ + (a.name + ("\")]\n"@ + ("    pub "@ + (spec_sanitize(
        spec_snake_case(a.name),
    ) + (": "@ + (spec_map_attribute(a.type_, a.use_) + ",\n"@))))))
}

/// The emitted text of all attribute fields, in declaration order.
pub open spec fn spec_attr_fields(attrs: Seq<AttributeV>) -> Seq<char>
    decreases attrs.len(),
{
    if attrs.len() == 0 {
        Seq::empty()
    } else {
        spec_attr_fields(attrs.drop_last()) + spec_attr_field(attrs.last())
    }
}

/// The emitted text of one ordered-group element field: a rename annotation
/// only when the sanitized identifier differs from the schema name.
pub open spec fn spec_elem_field(e: SequenceElementV) -> Seq<char> {
    let ident = spec_sanitize(spec_snake_case(e.name));
    let rename = if ident != e.name {
        "    #[serde(rename = \""@ + (e.name + "\")]\n"@)
    } else {
        Seq::<char>::empty()
    };
    rename + ("    pub "@ + (ident + (": "@ + (spec_map_occurs(
        e.type_,
        Some(e.min_occurs),
        e.max_occurs,
        e.nillable,
    ) + ",\n"@))))
}

/// The emitted text of all element fields, in document order.
pub open spec fn spec_elem_fields(elems: Seq<SequenceElementV>) -> Seq<char>
    decreases elems.len(),
{
    if elems.len() == 0 {
        Seq::empty()
    } else {
        spec_elem_fields(elems.drop_last()) + spec_elem_field(elems.last())
    }
}

/// The header of an emitted struct: doc line, capability line, optional
/// rename annotation, and the struct line.
pub open spec fn spec_ct_header(name: Seq<char>, ct: ComplexTypeV) -> Seq<char> {
    let sn = spec_pascal_case(name);
    let rename = if sn != name {
        "#[serde(rename = \""@ + (name + "\")]\n"@)
    } else {
        Seq::<char>::empty()
    };
    "/// Generated from XSD complexType: "@ + (name + ("\n"@ + (spec_derives_line(
        spec_type_is_empty(ct),
    ) + (rename + ("pub struct "@ + (sn + " {\n"@))))))
}

/// The full emitted text of one struct: header, attribute fields first,
/// then ordered-group element fields, then the closing brace.
pub open spec fn spec_generate_complex_type(name: Seq<char>, ct: ComplexTypeV) -> Seq<char> {
    spec_ct_header(name, ct) + (spec_attr_fields(ct.attributes) + ((match ct.sequence {
        Some(es) => spec_elem_fields(es),
        None => Seq::<char>::empty(),
    }) + "}\n"@))
}

/// Generate a Rust struct from a complex type definition.
#[verifier::rlimit(100)]
pub fn generate_complex_type(name: &str, complex_type: &ComplexType, type_mapper: &TypeMapper) -> (r:
    String)
    ensures
        r@ == spec_generate_complex_type(name@, complex_type@),
{
    let mut out = String::new();
    out.append("/// Generated from XSD complexType: ");
    out.append(name);
    out.append("\n");

    let is_empty = (match &complex_type.sequence {
        None => true,
        Some(s) => s.elements.len() == 0,
    }) && complex_type.attributes.len() == 0;
    proof {
        assert(is_empty == spec_type_is_empty(complex_type@));
    }
    if is_empty {
        out.append("#[derive(Debug, Clone, Default, PartialEq, Serialize, Deserialize)]\n");
    } else {
        out.append("#[derive(Debug, Clone, PartialEq, Serialize, Deserialize)]\n");
    }

    let struct_name = to_pascal_case(name);
    if !str_eq(struct_name.as_str(), name) {
        out.append("#[serde(rename = \"");
        out.append(name);
        out.append("\")]\n");
    }
    out.append("pub struct ");
    out.append(struct_name.as_str());
    out.append(" {\n");
    proof {
        assert(out@ =~= spec_ct_header(name@, complex_type@));
    }

    let ghost header = spec_ct_header(name@, complex_type@);
    let na = complex_type.attributes.len();
    let mut i: usize = 0;
    proof {
        assert(complex_type@.attributes.take(0) =~= Seq::<AttributeV>::empty());
        assert(out@ + Seq::<char>::empty() =~= out@);
    }
    while i < na
        invariant
            0 <= i <= na,
            na == complex_type.attributes.len(),
            header == spec_ct_header(name@, complex_type@),
            out@ == header + spec_attr_fields(complex_type@.attributes.take(i as int)),
        decreases na - i,
    {
        let attr = &complex_type.attributes[i];
        let ghost prev = out@;
        out.append("    #[serde(rename = \"@");
        out.append(attr.name.as_str());
        out.append("\")]\n");
        let field_name = to_snake_case(attr.name.as_str());
        let ident = sanitize_identifier(field_name.as_str());
        let rust_type = type_mapper.map_attribute_type(&attr.type_, attr.use_);
        out.append("    pub ");
        out.append(ident.as_str());
        out.append(": ");
        out.append(rust_type.as_str());
        out.append(",\n");
        proof {
            let attrs = complex_type@.attributes;
            assert(complex_type.attributes.deep_view()[i as int] == complex_type.attributes[
            i as int]@);
            assert(out@ =~= prev + spec_attr_field(attrs[i as int]));
            assert(attrs.take(i + 1).drop_last() =~= attrs.take(i as int));
            assert(attrs.take(i + 1).last() == attrs[i as int]);
            assert(out@ =~= header + spec_attr_fields(attrs.take(i + 1)));
        }
        i += 1;
    }
    proof {
        assert(complex_type@.attributes.take(na as int) =~= complex_type@.attributes);
    }

    let ghost mid = out@;
    match &complex_type.sequence {
        Some(seq_group) => {
            let ne = seq_group.elements.len();
            let mut k: usize = 0;
            proof {
                assert(seq_group@.take(0) =~= Seq::<SequenceElementV>::empty());
                assert(out@ + Seq::<char>::empty() =~= out@);
                assert(complex_type@.sequence == Some(seq_group@));
            }
            while k < ne
                invariant
                    0 <= k <= ne,
                    ne == seq_group.elements.len(),
                    out@ == mid + spec_elem_fields(seq_group@.take(k as int)),
                decreases ne - k,
            {
                let elem = &seq_group.elements[k];
                let ghost prev = out@;
                let field_name = to_snake_case(elem.name.as_str());
                let ident = sanitize_identifier(field_name.as_str());
                let rust_type = type_mapper.map_type_with_occurs(
                    &elem.type_,
                    Some(elem.min_occurs),
                    &elem.max_occurs,
                    elem.nillable,
                );
                if !str_eq(ident.as_str(), elem.name.as_str()) {
                    out.append("    #[serde(rename = \"");
                    out.append(elem.name.as_str());
                    out.append("\")]\n");
                }
                out.append("    pub ");
                out.append(ident.as_str());
                out.append(": ");
                out.append(rust_type.as_str());
                out.append(",\n");
                proof {
                    let elems = seq_group@;
                    assert(seq_group.elements.deep_view()[k as int] == seq_group.elements[
                    k as int]@);
                    assert(out@ =~= prev + spec_elem_field(elems[k as int]));
                    assert(elems.take(k + 1).drop_last() =~= elems.take(k as int));
                    assert(elems.take(k + 1).last() == elems[k as int]);
                    assert(out@ =~= mid + spec_elem_fields(elems.take(k + 1)));
                }
                k += 1;
            }
            proof {
                assert(seq_group@.take(ne as int) =~= seq_group@);
            }
        },
        None => {
            proof {
                assert(out@ + Seq::<char>::empty() =~= out@);
            }
        },
    }

    out.append("}\n");
    proof {
        assert(out@ =~= spec_generate_complex_type(name@, complex_type@));
    }
    out
}

/// The enumeration facet values of a restriction, in document order.
pub open spec fn spec_enum_values(rs: Seq<RestrictionV>) -> Seq<Seq<char>>
    decreases rs.len(),
{
    if rs.len() == 0 {
        Seq::empty()
    } else {
        spec_enum_values(rs.drop_last()) + (match rs.last() {
            RestrictionV::Enumeration(v) => seq![v],
            _ => Seq::<Seq<char>>::empty(),
        })
    }
}

/// The emitted text of one enum variant: a rename annotation to the literal
/// facet value, then the pascal-cased variant.
pub open spec fn spec_enum_variant(v: Seq<char>) -> Seq<char> {
    "    #[serde(rename = \""@ + (v + ("\")]\n    "@ + (spec_pascal_case(v) + ",\n"@)))
}

/// The emitted text of all enum variants, in facet order.
pub open spec fn spec_enum_variants(vs: Seq<Seq<char>>) -> Seq<char>
    decreases vs.len(),
{
    if vs.len() == 0 {
        Seq::empty()
    } else {
        spec_enum_variants(vs.drop_last()) + spec_enum_variant(vs.last())
    }
}

/// The full emitted text of one enum, or nothing: a restriction with no
/// enumeration facet, a list, or a union yields nothing to emit.
pub open spec fn spec_generate_simple_type_enum(name: Seq<char>, st: SimpleTypeV) -> Option<
    Seq<char>,
> {
    match st {
        SimpleTypeV::Restriction { base, restrictions } => {
            let vals = spec_enum_values(restrictions);
            if vals.len() == 0 {
                None
            } else {
                Some(
                    "/// Generated from XSD simpleType: "@ + (name + ("\n"@ + (
                    "#[derive(Debug, Clone, PartialEq, Serialize, Deserialize)]\n"@ + (
                    "pub enum "@ + (spec_pascal_case(name) + (" {\n"@ + (spec_enum_variants(vals)
                        + "}\n"@))))))),
                )
            }
        },
        _ => None,
    }
}

/// Generate a Rust enum from a simple type carrying enumeration facets;
/// a type with none yields nothing.
pub fn generate_simple_type_enum(name: &str, simple_type: &SimpleType) -> (r: Option<String>)
    ensures
        r.deep_view() == spec_generate_simple_type_enum(name@, simple_type@),
{
    match simple_type {
        SimpleType::Restriction { base: _, restrictions } => {
            let nr = restrictions.len();
            let mut vals: Vec<String> = Vec::new();
            let mut i: usize = 0;
            proof {
                assert(restrictions.deep_view().take(0) =~= Seq::<RestrictionV>::empty());
                assert(vals.deep_view() =~= Seq::<Seq<char>>::empty());
            }
            while i < nr
                invariant
                    0 <= i <= nr,
                    nr == restrictions.len(),
                    vals.deep_view() == spec_enum_values(restrictions.deep_view().take(i as int)),
                decreases nr - i,
            {
                let ghost prev = vals.deep_view();
                match &restrictions[i] {
                    crate::model::Restriction::Enumeration(v) => {
                        vals.push(crate::model::clone_string_of(v));
                    },
                    _ => {},
                }
                proof {
                    let rs = restrictions.deep_view();
                    assert(restrictions.deep_view()[i as int] == restrictions[i as int]@);
                    assert(rs.take(i + 1).drop_last() =~= rs.take(i as int));
                    assert(rs.take(i + 1).last() == rs[i as int]);
                    match rs[i as int] {
                        RestrictionV::Enumeration(v) => {
                            assert(vals.deep_view() =~= prev + seq![v]);
                        },
                        _ => {
                            assert(vals.deep_view() =~= prev + Seq::<Seq<char>>::empty());
                        },
                    }
                    assert(vals.deep_view() == spec_enum_values(rs.take(i + 1)));
                }
                i += 1;
            }
            proof {
                assert(restrictions.deep_view().take(nr as int) =~= restrictions.deep_view());
            }
            if vals.len() == 0 {
                return None;
            }
            let mut out = String::new();
            out.append("/// Generated from XSD simpleType: ");
            out.append(name);
            out.append("\n");
            out.append("#[derive(Debug, Clone, PartialEq, Serialize, Deserialize)]\n");
            out.append("pub enum ");
            let enum_name = to_pascal_case(name);
            out.append(enum_name.as_str());
            out.append(" {\n");
            let ghost header = out@;
            let nv = vals.len();
            let mut k: usize = 0;
            proof {
                assert(vals.deep_view().take(0) =~= Seq::<Seq<char>>::empty());
                assert(out@ + Seq::<char>::empty() =~= out@);
            }
            while k < nv
                invariant
                    0 <= k <= nv,
                    nv == vals.len(),
                    out@ == header + spec_enum_variants(vals.deep_view().take(k as int)),
                decreases nv - k,
            {
                let ghost prev = out@;
                let v = &vals[k];
                out.append("    #[serde(rename = \"");
                out.append(v.as_str());
                out.append("\")]\n    ");
                let variant = to_pascal_case(v.as_str());
                out.append(variant.as_str());
                out.append(",\n");
                proof {
                    let vs = vals.deep_view();
                    assert(vals.deep_view()[k as int] == vals[k as int]@);
                    assert(out@ =~= prev + spec_enum_variant(vs[k as int]));
                    assert(vs.take(k + 1).drop_last() =~= vs.take(k as int));
                    assert(vs.take(k + 1).last() == vs[k as int]);
                    assert(out@ =~= header + spec_enum_variants(vs.take(k + 1)));
                }
                k += 1;
            }
            proof {
                assert(vals.deep_view().take(nv as int) =~= vals.deep_view());
            }
            out.append("}\n");
            proof {
                assert(out@ =~= spec_generate_simple_type_enum(name@, simple_type@)->0);
            }
            Some(out)
        },
        _ => None,
    }
}

/// The payload type resolved from a message reference: operation, message
/// by local name, first part, referenced element's local name, pascal-cased.
/// Any failed hop degrades to the unit placeholder.
pub open spec fn spec_resolved_type(msgs: Seq<MessageV>, msg_ref: Option<Seq<char>>) -> Seq<
    char,
> {
    match msg_ref {
        None => "()"@,
        Some(q) => match spec_find_message(msgs, spec_qname_local(q)) {
            None => "()"@,
            Some(m) => if m.parts.len() == 0 {
                "()"@
            } else {
                match m.parts[0].element {
                    None => "()"@,
                    Some(e) => spec_pascal_case(spec_qname_local(e)),
                }
            },
        },
    }
}

/// One reproduced documentation line: trimmed, blank lines suppressed.
pub open spec fn spec_doc_line(l: Seq<char>) -> Seq<char> {
    let t = spec_trim(l);
    if t.len() == 0 {
        Seq::empty()
    } else {
        "    /// "@ + (t + "\n"@)
    }
}

/// All reproduced documentation lines, in order.
pub open spec fn spec_doc_lines(ls: Seq<Seq<char>>) -> Seq<char>
    decreases ls.len(),
{
    if ls.len() == 0 {
        Seq::empty()
    } else {
        spec_doc_lines(ls.drop_last()) + spec_doc_line(ls.last())
    }
}

/// The documentation block of a method: the operation's documentation text,
/// reproduced line by line.
pub open spec fn spec_doc_block(doc: Option<Seq<char>>) -> Seq<char> {
    match doc {
        None => Seq::empty(),
        Some(d) => "    ///\n"@ + spec_doc_lines(spec_split_lines(d)),
    }
}

/// The argument note of a method, present when the input type resolved.
pub open spec fn spec_args_block(input_type: Seq<char>) -> Seq<char> {
    if input_type != "()"@ {
        "    ///\n    /// # Arguments\n    /// * `request` - The "@ + (input_type + " request\n"@)
    } else {
        Seq::empty()
    }
}

/// The delegation line of a method body: the literal operation name, the
/// transport action if one was resolved, the target namespace, the
/// element-form marker, and the request.
pub open spec fn spec_method_body(op_name: Seq<char>, action: Option<Seq<char>>) -> Seq<char> {
    match action {
        Some(a) => "        self.client.call_with_soap_action(\""@ + (op_name + ("\", Some(\""@ + (
        a + "\"), Some(TARGET_NAMESPACE), ELEMENT_FORM_QUALIFIED, &request).await\n"@))),
        None => "        self.client.call_with_soap_action(\""@ + (op_name
            + "\", None, Some(TARGET_NAMESPACE), ELEMENT_FORM_QUALIFIED, &request).await\n"@),
    }
}

/// The signature and body of one client method.
pub open spec fn spec_method_tail(
    op_name: Seq<char>,
    action: Option<Seq<char>>,
    input_type: Seq<char>,
    output_type: Seq<char>,
) -> Seq<char> {
    "    pub async fn "@ + (spec_snake_case(op_name) + ("(&self, request: "@ + (input_type + (
    ") -> SoapResult<"@ + (output_type + ("> {\n"@ + (spec_method_body(op_name, action)
        + "    }\n"@)))))))
}

/// The full emitted text of one client method.
pub open spec fn spec_generate_operation_method(op: PortTypeOperationV, w: WsdlModelV) -> Seq<
    char,
> {
    let input_type = spec_resolved_type(w.messages, op.input);
    let output_type = spec_resolved_type(w.messages, op.output);
    "    /// Call the "@ + (op.name + (" operation\n"@ + (spec_doc_block(op.documentation) + (
    spec_args_block(input_type) + spec_method_tail(
        op.name,
        spec_find_action(w.bindings, op.name),
        input_type,
        output_type,
    )))))
}

/// Resolve the payload type of a message reference, degrading to the unit
/// placeholder on any failed hop.
fn resolve_part_type(wsdl: &WsdlModel, msg_ref: &Option<QName>) -> (r: String)
    ensures
        r@ == spec_resolved_type(wsdl@.messages, msg_ref.deep_view()),
{
    match msg_ref {
        None => String::from_str("()"),
        Some(q) => match wsdl.find_message(q) {
            None => String::from_str("()"),
            Some(m) => {
                if m.parts.len() == 0 {
                    proof {
                        assert(m@.parts.len() == 0);
                    }
                    String::from_str("()")
                } else {
                    proof {
                        assert(m.parts.deep_view()[0] == m.parts[0]@);
                    }
                    match &m.parts[0].element {
                        None => String::from_str("()"),
                        Some(e) => to_pascal_case(e.local_name()),
                    }
                }
            },
        },
    }
}

/// The documentation block of a method, built from the operation's
/// documentation text.
fn doc_block_text(doc: &Option<String>) -> (r: String)
    ensures
        r@ == spec_doc_block(doc.deep_view()),
{
    match doc {
        None => String::new(),
        Some(d) => {
            let mut out = String::from_str("    ///\n");
            let ghost base = out@;
            let lines = split_lines(d.as_str());
            let nl = lines.len();
            let mut i: usize = 0;
            proof {
                assert(lines.deep_view().take(0) =~= Seq::<Seq<char>>::empty());
                assert(out@ + Seq::<char>::empty() =~= out@);
            }
            while i < nl
                invariant
                    0 <= i <= nl,
                    nl == lines.len(),
                    out@ == base + spec_doc_lines(lines.deep_view().take(i as int)),
                decreases nl - i,
            {
                let ghost prev = out@;
                let t = trim_blank(lines[i].as_str());
                if t.unicode_len() > 0 {
                    out.append("    /// ");
                    out.append(t);
                    out.append("\n");
                }
                proof {
                    let ls = lines.deep_view();
                    assert(lines.deep_view()[i as int] == lines[i as int]@);
                    assert(out@ =~= prev + spec_doc_line(ls[i as int]));
                    assert(ls.take(i + 1).drop_last() =~= ls.take(i as int));
                    assert(ls.take(i + 1).last() == ls[i as int]);
                    assert(out@ =~= base + spec_doc_lines(ls.take(i + 1)));
                }
                i += 1;
            }
            proof {
                assert(lines.deep_view().take(nl as int) =~= lines.deep_view());
                assert(lines.deep_view() == spec_split_lines(d@));
            }
            out
        },
    }
}

/// The signature and the delegation body of a method.
fn method_tail_text(
    operation: &PortTypeOperation,
    wsdl: &WsdlModel,
    input_type: &str,
    output_type: &str,
) -> (r: String)
    ensures
        r@ == spec_method_tail(
            operation@.name,
            spec_find_action(wsdl@.bindings, operation@.name),
            input_type@,
            output_type@,
        ),
{
    let method_name = to_snake_case(operation.name.as_str());
    let mut out = String::from_str("    pub async fn ");
    out.append(method_name.as_str());
    out.append("(&self, request: ");
    out.append(input_type);
    out.append(") -> SoapResult<");
    out.append(output_type);
    out.append("> {\n");
    let ghost with_sig = out@;

    let soap_action = wsdl.find_soap_action(operation.name.as_str());
    match soap_action {
        Some(action) => {
            out.append("        self.client.call_with_soap_action(\"");
            out.append(operation.name.as_str());
            out.append("\", Some(\"");
            out.append(action.as_str());
            out.append("\"), Some(TARGET_NAMESPACE), ELEMENT_FORM_QUALIFIED, &request).await\n");
        },
        None => {
            out.append("        self.client.call_with_soap_action(\"");
            out.append(operation.name.as_str());
            out.append(
                "\", None, Some(TARGET_NAMESPACE), ELEMENT_FORM_QUALIFIED, &request).await\n",
            );
        },
    }
    proof {
        assert(out@ =~= with_sig + spec_method_body(
            operation@.name,
            spec_find_action(wsdl@.bindings, operation@.name),
        ));
    }
    out.append("    }\n");
    proof {
        assert(out@ =~= spec_method_tail(
            operation@.name,
            spec_find_action(wsdl@.bindings, operation@.name),
            input_type@,
            output_type@,
        ));
    }
    out
}

/// Generate a client method for an operation of the service definition.
#[verifier::rlimit(50)]
pub fn generate_operation_method(
    operation: &PortTypeOperation,
    wsdl: &WsdlModel,
    _type_mapper: &TypeMapper,
) -> (r: String)
    ensures
        r@ == spec_generate_operation_method(operation@, wsdl@),
{
    let mut out = String::new();
    out.append("    /// Call the ");
    out.append(operation.name.as_str());
    out.append(" operation\n");
    let ghost head = out@;

    let doc = doc_block_text(&operation.documentation);
    out.append(doc.as_str());
    let ghost with_doc = out@;
    proof {
        assert(operation.documentation.deep_view() == operation@.documentation);
    }

    let input_type = resolve_part_type(wsdl, &operation.input);
    let output_type = resolve_part_type(wsdl, &operation.output);

    if !str_eq(input_type.as_str(), "()") {
        out.append("    ///\n    /// # Arguments\n    /// * `request` - The ");
        out.append(input_type.as_str());
        out.append(" request\n");
    }
    proof {
        assert(out@ =~= with_doc + spec_args_block(input_type@));
    }

    let tail = method_tail_text(operation, wsdl, input_type.as_str(), output_type.as_str());
    out.append(tail.as_str());
    proof {
        assert(out@ =~= spec_generate_operation_method(operation@, wsdl@));
    }
    out
}

/// The needle occurs somewhere in the text.
pub open spec fn contains_text(hay: Seq<char>, needle: Seq<char>) -> bool {
    exists|k: int|
        0 <= k && k + needle.len() <= hay.len() && #[trigger] hay.subrange(k, k + needle.len())
            == needle
}

/// Law: a complex type with no attributes and an absent or empty ordered
/// group receives the default-constructible capability: its derive line is
/// the one carrying `Default`, and the emitted text carries it. A complex
/// type with at least one attribute never receives it, whatever its
/// elements; the two derive lines differ.
pub proof fn lemma_default_capability(name: Seq<char>, ct: ComplexTypeV)
    ensures
        spec_type_is_empty(ct) ==> spec_derives_line(spec_type_is_empty(ct))
            == "#[derive(Debug, Clone, Default, PartialEq, Serialize, Deserialize)]\n"@,
        spec_type_is_empty(ct) ==> contains_text(
            spec_generate_complex_type(name, ct),
            "Default"@,
        ),
        ct.attributes.len() > 0 ==> spec_derives_line(spec_type_is_empty(ct))
            == "#[derive(Debug, Clone, PartialEq, Serialize, Deserialize)]\n"@,
        "#[derive(Debug, Clone, Default, PartialEq, Serialize, Deserialize)]\n"@
            != "#[derive(Debug, Clone, PartialEq, Serialize, Deserialize)]\n"@,
{
    reveal_strlit("#[derive(Debug, Clone, Default, PartialEq, Serialize, Deserialize)]\n");
    reveal_strlit("#[derive(Debug, Clone, PartialEq, Serialize, Deserialize)]\n");
    assert("#[derive(Debug, Clone, Default, PartialEq, Serialize, Deserialize)]\n"@.len()
        != "#[derive(Debug, Clone, PartialEq, Serialize, Deserialize)]\n"@.len());
    if spec_type_is_empty(ct) {
        reveal_strlit("/// Generated from XSD complexType: ");
        reveal_strlit("\n");
        reveal_strlit("Default");
        let dl = "#[derive(Debug, Clone, Default, PartialEq, Serialize, Deserialize)]\n"@;
        assert(dl.subrange(23, 30) =~= "Default"@);
        let g = spec_generate_complex_type(name, ct);
        let doc_len: int = ("/// Generated from XSD complexType: "@.len() + name.len() + 1) as int;
        assert(g.subrange(doc_len + 23, doc_len + 30) =~= "Default"@);
        assert(contains_text(g, "Default"@)) by {
            assert(0 <= doc_len + 23 && doc_len + 23 + "Default"@.len() <= g.len()
                && g.subrange(doc_len + 23, doc_len + 23 + "Default"@.len()) == "Default"@);
        }
    }
}

/// Law: generation is deterministic. Two runs on value-identical inputs
/// produce value-identical output texts, for each generator.
pub proof fn lemma_generation_deterministic(
    n1: Seq<char>,
    c1: ComplexTypeV,
    s1: SimpleTypeV,
    o1: PortTypeOperationV,
    w1: WsdlModelV,
    n2: Seq<char>,
    c2: ComplexTypeV,
    s2: SimpleTypeV,
    o2: PortTypeOperationV,
    w2: WsdlModelV,
)
    requires
        n1 == n2,
        c1 == c2,
        s1 == s2,
        o1 == o2,
        w1 == w2,
    ensures
        spec_generate_complex_type(n1, c1) == spec_generate_complex_type(n2, c2),
        spec_generate_simple_type_enum(n1, s1) == spec_generate_simple_type_enum(n2, s2),
        spec_generate_operation_method(o1, w1) == spec_generate_operation_method(o2, w2),
        spec_generate_all(w1) == spec_generate_all(w2),
{
}

/// The head of the emitted source unit: the two imports it depends on — a
/// serialization-annotation mechanism and the runtime transport client —
/// and the two constants that every method body passes to the transport.
pub open spec fn spec_gen_header(w: WsdlModelV) -> Seq<char> {
    let tns = match w.target_namespace {
        Some(t) => t,
        None => Seq::<char>::empty(),
    };
    let efq = if w.schema.element_form_default == Some("qualified"@) {
        "true"@
    } else {
        "false"@
    };
    "use serde::{Deserialize, Serialize};\nuse soapus_runtime::{SoapClient, SoapResult};\n\npub const TARGET_NAMESPACE: &str = \""@
        + (tns + ("\";\npub const ELEMENT_FORM_QUALIFIED: bool = "@ + (efq + ";\n\n"@)))
}

/// The emitted structs: one per registered complex type, in registration
/// order.
pub open spec fn spec_gen_types(cts: Seq<(Seq<char>, ComplexTypeV)>) -> Seq<char>
    decreases cts.len(),
{
    if cts.len() == 0 {
        Seq::empty()
    } else {
        spec_gen_types(cts.drop_last()) + (spec_generate_complex_type(
            cts.last().0,
            cts.last().1,
        ) + "\n"@)
    }
}

/// The emitted enums: one per enumeration-bearing simple type, in
/// registration order.
pub open spec fn spec_gen_enums(sts: Seq<(Seq<char>, SimpleTypeV)>) -> Seq<char>
    decreases sts.len(),
{
    if sts.len() == 0 {
        Seq::empty()
    } else {
        spec_gen_enums(sts.drop_last()) + (match spec_generate_simple_type_enum(
            sts.last().0,
            sts.last().1,
        ) {
            Some(t) => t + "\n"@,
            None => Seq::<char>::empty(),
        })
    }
}

/// The emitted methods of one port type, in document order.
pub open spec fn spec_gen_ops(ops: Seq<PortTypeOperationV>, w: WsdlModelV) -> Seq<char>
    decreases ops.len(),
{
    if ops.len() == 0 {
        Seq::empty()
    } else {
        spec_gen_ops(ops.drop_last(), w) + (spec_generate_operation_method(ops.last(), w)
            + "\n"@)
    }
}

/// The emitted methods of all port types, in document order.
pub open spec fn spec_gen_port_types(pts: Seq<PortTypeV>, w: WsdlModelV) -> Seq<char>
    decreases pts.len(),
{
    if pts.len() == 0 {
        Seq::empty()
    } else {
        spec_gen_port_types(pts.drop_last(), w) + spec_gen_ops(pts.last().operations, w)
    }
}

/// The name of the emitted client type: the first service's name,
/// pascal-cased, or `Client` when the definition names no service.
pub open spec fn spec_client_name(services: Seq<ServiceV>) -> Seq<char> {
    if services.len() == 0 {
        "Client"@
    } else {
        spec_pascal_case(services[0].name)
    }
}

/// The full emitted source unit, in order: the header, one struct per
/// complex type, one enum per enumeration simple type, and the client type
/// whose methods correspond one to one with the operations.
pub open spec fn spec_generate_all(w: WsdlModelV) -> Seq<char> {
    let cn = spec_client_name(w.services);
    spec_gen_header(w) + (spec_gen_types(w.schema.complex_types) + (spec_gen_enums(
        w.schema.simple_types,
    ) + ("pub struct "@ + (cn + (" {\n    pub client: SoapClient,\n}\n\nimpl "@ + (cn + (
    " {\n"@ + (spec_gen_port_types(w.port_types, w) + "}\n"@))))))))
}

/// The emitted header of the source unit.
fn header_text(wsdl: &WsdlModel) -> (r: String)
    ensures
        r@ == spec_gen_header(wsdl@),
{
    let mut out = String::from_str(
        "use serde::{Deserialize, Serialize};\nuse soapus_runtime::{SoapClient, SoapResult};\n\npub const TARGET_NAMESPACE: &str = \"",
    );
    match &wsdl.target_namespace {
        Some(t) => {
            out.append(t.as_str());
        },
        None => {},
    }
    out.append("\";\npub const ELEMENT_FORM_QUALIFIED: bool = ");
    let qualified = match &wsdl.schema.element_form_default {
        Some(v) => str_eq(v.as_str(), "qualified"),
        None => false,
    };
    if qualified {
        out.append("true");
    } else {
        out.append("false");
    }
    out.append(";\n\n");
    proof {
        assert(out@ =~= spec_gen_header(wsdl@));
    }
    out
}

/// The emitted structs of all registered complex types.
fn types_text(wsdl: &WsdlModel, type_mapper: &TypeMapper) -> (r: String)
    ensures
        r@ == spec_gen_types(wsdl@.schema.complex_types),
{
    let mut out = String::new();
    let nt = wsdl.schema.complex_types.len();
    let mut i: usize = 0;
    proof {
        assert(wsdl@.schema.complex_types.take(0) =~= Seq::<(Seq<char>, ComplexTypeV)>::empty());
    }
    while i < nt
        invariant
            0 <= i <= nt,
            nt == wsdl.schema.complex_types.len(),
            out@ == spec_gen_types(wsdl@.schema.complex_types.take(i as int)),
        decreases nt - i,
    {
        let ghost prev = out@;
        let entry = &wsdl.schema.complex_types[i];
        let text = generate_complex_type(entry.0.as_str(), &entry.1, type_mapper);
        out.append(text.as_str());
        out.append("\n");
        proof {
            let cts = wsdl@.schema.complex_types;
            assert(wsdl.schema.complex_types.deep_view()[i as int] == (entry.0@, entry.1@));
            assert(cts.take(i + 1).drop_last() =~= cts.take(i as int));
            assert(cts.take(i + 1).last() == cts[i as int]);
            assert(out@ =~= prev + (spec_generate_complex_type(cts[i as int].0, cts[i as int].1)
                + "\n"@));
        }
        i += 1;
    }
    proof {
        assert(wsdl@.schema.complex_types.take(nt as int) =~= wsdl@.schema.complex_types);
    }
    out
}

/// The emitted enums of all enumeration-bearing simple types.
fn enums_text(wsdl: &WsdlModel) -> (r: String)
    ensures
        r@ == spec_gen_enums(wsdl@.schema.simple_types),
{
    let mut out = String::new();
    let ns = wsdl.schema.simple_types.len();
    let mut k: usize = 0;
    proof {
        assert(wsdl@.schema.simple_types.take(0) =~= Seq::<(Seq<char>, SimpleTypeV)>::empty());
    }
    while k < ns
        invariant
            0 <= k <= ns,
            ns == wsdl.schema.simple_types.len(),
            out@ == spec_gen_enums(wsdl@.schema.simple_types.take(k as int)),
        decreases ns - k,
    {
        let ghost prev = out@;
        let entry = &wsdl.schema.simple_types[k];
        match generate_simple_type_enum(entry.0.as_str(), &entry.1) {
            Some(text) => {
                out.append(text.as_str());
                out.append("\n");
            },
            None => {},
        }
        proof {
            let sts = wsdl@.schema.simple_types;
            assert(wsdl.schema.simple_types.deep_view()[k as int] == (entry.0@, entry.1@));
            assert(sts.take(k + 1).drop_last() =~= sts.take(k as int));
            assert(sts.take(k + 1).last() == sts[k as int]);
            match spec_generate_simple_type_enum(sts[k as int].0, sts[k as int].1) {
                Some(t) => {
                    assert(out@ =~= prev + (t + "\n"@));
                },
                None => {
                    assert(out@ =~= prev + Seq::<char>::empty());
                },
            }
            assert(out@ =~= spec_gen_enums(sts.take(k + 1)));
        }
        k += 1;
    }
    proof {
        assert(wsdl@.schema.simple_types.take(ns as int) =~= wsdl@.schema.simple_types);
    }
    out
}

/// The emitted methods of all port types.
#[verifier::rlimit(50)]
fn methods_text(wsdl: &WsdlModel, type_mapper: &TypeMapper) -> (r: String)
    ensures
        r@ == spec_gen_port_types(wsdl@.port_types, wsdl@),
{
    let mut out = String::new();
    let np = wsdl.port_types.len();
    let mut b: usize = 0;
    proof {
        assert(wsdl@.port_types.take(0) =~= Seq::<PortTypeV>::empty());
    }
    while b < np
        invariant
            0 <= b <= np,
            np == wsdl.port_types.len(),
            out@ == spec_gen_port_types(wsdl@.port_types.take(b as int), wsdl@),
        decreases np - b,
    {
        let ghost mid = out@;
        let ops = &wsdl.port_types[b].operations;
        let no = ops.len();
        let mut j: usize = 0;
        proof {
            assert(wsdl.port_types.deep_view()[b as int] == wsdl.port_types[b as int]@);
            assert(ops.deep_view().take(0) =~= Seq::<PortTypeOperationV>::empty());
            assert(out@ + Seq::<char>::empty() =~= out@);
        }
        while j < no
            invariant
                0 <= j <= no,
                0 <= b < np,
                np == wsdl.port_types.len(),
                no == ops.len(),
                ops == &wsdl.port_types[b as int].operations,
                out@ == mid + spec_gen_ops(ops.deep_view().take(j as int), wsdl@),
            decreases no - j,
        {
            let ghost prev = out@;
            let text = generate_operation_method(&ops[j], wsdl, type_mapper);
            out.append(text.as_str());
            out.append("\n");
            proof {
                let ovs = ops.deep_view();
                assert(ops.deep_view()[j as int] == ops[j as int]@);
                assert(ovs.take(j + 1).drop_last() =~= ovs.take(j as int));
                assert(ovs.take(j + 1).last() == ovs[j as int]);
                assert(out@ =~= mid + spec_gen_ops(ovs.take(j + 1), wsdl@));
            }
            j += 1;
        }
        proof {
            let pts = wsdl@.port_types;
            assert(ops.deep_view().take(no as int) =~= ops.deep_view());
            assert(wsdl.port_types.deep_view()[b as int] == wsdl.port_types[b as int]@);
            assert(pts[b as int].operations == ops.deep_view());
            assert(pts.take(b + 1).drop_last() =~= pts.take(b as int));
            assert(pts.take(b + 1).last() == pts[b as int]);
            assert(out@ =~= spec_gen_port_types(pts.take(b + 1), wsdl@));
        }
        b += 1;
    }
    proof {
        assert(wsdl@.port_types.take(np as int) =~= wsdl@.port_types);
    }
    out
}

/// Generate the whole source unit for a parsed service definition.
#[verifier::rlimit(100)]
pub fn generate_all(wsdl: &WsdlModel) -> (r: String)
    ensures
        r@ == spec_generate_all(wsdl@),
{
    let type_mapper = TypeMapper::new();
    let mut out = header_text(wsdl);
    let types = types_text(wsdl, &type_mapper);
    out.append(types.as_str());
    let enums = enums_text(wsdl);
    out.append(enums.as_str());

    let client_name = if wsdl.services.len() == 0 {
        String::from_str("Client")
    } else {
        proof {
            assert(wsdl.services.deep_view()[0] == wsdl.services[0]@);
        }
        to_pascal_case(wsdl.services[0].name.as_str())
    };
    out.append("pub struct ");
    out.append(client_name.as_str());
    out.append(" {\n    pub client: SoapClient,\n}\n\nimpl ");
    out.append(client_name.as_str());
    out.append(" {\n");
    let methods = methods_text(wsdl, &type_mapper);
    out.append(methods.as_str());
    out.append("}\n");
    proof {
        assert(out@ =~= spec_generate_all(wsdl@));
    }
    out
}

} // verus!
