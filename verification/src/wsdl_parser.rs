//! The service definition parser: populates messages, operations, bindings
//! and services from the event stream, and parses the embedded structural
//! schema with the schema parser.

use vstd::prelude::*;

use crate::model::XmlSchema;
use crate::qname::QName;
use crate::text::string_eq_str;
use crate::wsdl::{Binding, BindingOperation, BindingOperationV, BindingV, Fault, FaultV, Message,
    MessagePart, MessagePartV, MessageV, Port, PortType, PortTypeOperation, PortTypeOperationV,
    PortTypeV, PortV, Service, ServiceV, WsdlModel, WsdlModelV};
use crate::xml::{spec_tokens, tokenize, StreamError, XmlAttr, XmlAttrV, XmlEvent, XmlEventV};
use crate::xsd_parser::{attr_or_empty, get_attr, lemma_parse_schema_body_bounds,
    parse_schema_body, spec_apply_schema_attrs, spec_attr_or_empty, spec_get_attr,
    spec_parse_schema_body};

verus! {

/// The message read from the events, starting after its start tag: parts
/// accumulate in order until the message's end tag or the end of the stream.
pub open spec fn spec_parse_message(events: Seq<XmlEventV>, pos: int, m: MessageV) -> (
    MessageV,
    int,
)
    decreases events.len() - pos,
{
    if pos < 0 || pos >= events.len() {
        (m, pos)
    } else {
        match events[pos] {
            XmlEventV::Empty { name, attrs } => if name == "part"@ {
                spec_parse_message(events, pos + 1, spec_push_part(m, attrs))
            } else {
                spec_parse_message(events, pos + 1, m)
            },
            XmlEventV::Start { name, attrs } => if name == "part"@ {
                spec_parse_message(events, pos + 1, spec_push_part(m, attrs))
            } else {
                spec_parse_message(events, pos + 1, m)
            },
            XmlEventV::End { name } => if name == "message"@ {
                (m, pos + 1)
            } else {
                spec_parse_message(events, pos + 1, m)
            },
            _ => spec_parse_message(events, pos + 1, m),
        }
    }
}

/// The message with one more part, read from a part tag's attributes.
pub open spec fn spec_push_part(m: MessageV, attrs: Seq<XmlAttrV>) -> MessageV {
    MessageV {
        parts: m.parts.push(
            MessagePartV {
                name: spec_attr_or_empty(attrs, "name"@),
                element: spec_get_attr(attrs, "element"@),
            },
        ),
        ..m
    }
}

/// The message parse never moves backwards and never leaves the stream.
pub proof fn lemma_parse_message_bounds(events: Seq<XmlEventV>, pos: int, m: MessageV)
    requires
        0 <= pos <= events.len(),
    ensures
        pos <= spec_parse_message(events, pos, m).1 <= events.len(),
    decreases events.len() - pos,
{
    if 0 <= pos < events.len() {
        match events[pos] {
            XmlEventV::Empty { name, attrs } => {
                if name == "part"@ {
                    lemma_parse_message_bounds(events, pos + 1, spec_push_part(m, attrs));
                } else {
                    lemma_parse_message_bounds(events, pos + 1, m);
                }
            },
            XmlEventV::Start { name, attrs } => {
                if name == "part"@ {
                    lemma_parse_message_bounds(events, pos + 1, spec_push_part(m, attrs));
                } else {
                    lemma_parse_message_bounds(events, pos + 1, m);
                }
            },
            XmlEventV::End { name } => {
                if name != "message"@ {
                    lemma_parse_message_bounds(events, pos + 1, m);
                }
            },
            _ => {
                lemma_parse_message_bounds(events, pos + 1, m);
            },
        }
    }
}

/// Parse a message whose start tag was just consumed.
fn parse_message(events: &Vec<XmlEvent>, pos: usize, m: Message) -> (r: (Message, usize))
    requires
        pos <= events.deep_view().len(),
    ensures
        (r.0@, r.1 as int) == spec_parse_message(events.deep_view(), pos as int, m@),
        pos <= r.1 <= events.deep_view().len(),
{
    let n = events.len();
    let mut msg = m;
    let mut i: usize = pos;
    while i < n
        invariant
            pos <= i <= n,
            n == events.len(),
            spec_parse_message(events.deep_view(), pos as int, m@) == spec_parse_message(
                events.deep_view(),
                i as int,
                msg@,
            ),
        decreases n - i,
    {
        proof {
            assert(events.deep_view()[i as int] == events[i as int]@);
        }
        match &events[i] {
            XmlEvent::Empty { name, attrs } => {
                if string_eq_str(name, "part") {
                    let ghost prev = msg@;
                    let part_name = attr_or_empty(attrs, "name");
                    let element = match get_attr(attrs, "element") {
                        Some(e) => Some(QName(e)),
                        None => None,
                    };
                    msg.parts.push(MessagePart { name: part_name, element });
                    proof {
                        assert(msg@.parts =~= spec_push_part(prev, attrs.deep_view()).parts);
                        assert(msg@ == spec_push_part(prev, attrs.deep_view()));
                    }
                }
                i += 1;
            },
            XmlEvent::Start { name, attrs } => {
                if string_eq_str(name, "part") {
                    let ghost prev = msg@;
                    let part_name = attr_or_empty(attrs, "name");
                    let element = match get_attr(attrs, "element") {
                        Some(e) => Some(QName(e)),
                        None => None,
                    };
                    msg.parts.push(MessagePart { name: part_name, element });
                    proof {
                        assert(msg@.parts =~= spec_push_part(prev, attrs.deep_view()).parts);
                        assert(msg@ == spec_push_part(prev, attrs.deep_view()));
                    }
                }
                i += 1;
            },
            XmlEvent::End { name } => {
                if string_eq_str(name, "message") {
                    return (msg, i + 1);
                }
                i += 1;
            },
            _ => {
                i += 1;
            },
        }
    }
    (msg, i)
}

/// The operation read from the events, starting after its start tag: input,
/// output and fault references, and the documentation text.
pub open spec fn spec_parse_operation(
    events: Seq<XmlEventV>,
    pos: int,
    op: PortTypeOperationV,
) -> (PortTypeOperationV, int)
    decreases events.len() - pos,
{
    if pos < 0 || pos >= events.len() {
        (op, pos)
    } else {
        match events[pos] {
            XmlEventV::Empty { name, attrs } => spec_parse_operation(
                events,
                pos + 1,
                spec_op_child(op, name, attrs),
            ),
            XmlEventV::Start { name, attrs } => if name == "documentation"@ && pos + 1
                < events.len() && events[pos + 1] is Text {
                spec_parse_operation(
                    events,
                    pos + 2,
                    PortTypeOperationV { documentation: Some(events[pos + 1]->Text_text), ..op },
                )
            } else {
                spec_parse_operation(events, pos + 1, spec_op_child(op, name, attrs))
            },
            XmlEventV::End { name } => if name == "operation"@ {
                (op, pos + 1)
            } else {
                spec_parse_operation(events, pos + 1, op)
            },
            _ => spec_parse_operation(events, pos + 1, op),
        }
    }
}

/// One child tag of an operation applied to it: `input` and `output` take
/// their message reference, `fault` appends a fault reference, anything
/// else changes nothing.
pub open spec fn spec_op_child(
    op: PortTypeOperationV,
    name: Seq<char>,
    attrs: Seq<XmlAttrV>,
) -> PortTypeOperationV {
    if name == "input"@ {
        PortTypeOperationV {
            input: match spec_get_attr(attrs, "message"@) {
                Some(v) => Some(v),
                None => op.input,
            },
            ..op
        }
    } else if name == "output"@ {
        PortTypeOperationV {
            output: match spec_get_attr(attrs, "message"@) {
                Some(v) => Some(v),
                None => op.output,
            },
            ..op
        }
    } else if name == "fault"@ {
        PortTypeOperationV {
            faults: op.faults.push(
                FaultV {
                    name: spec_attr_or_empty(attrs, "name"@),
                    message: spec_get_attr(attrs, "message"@),
                },
            ),
            ..op
        }
    } else {
        op
    }
}

/// The operation parse never moves backwards and never leaves the stream.
pub proof fn lemma_parse_operation_bounds(
    events: Seq<XmlEventV>,
    pos: int,
    op: PortTypeOperationV,
)
    requires
        0 <= pos <= events.len(),
    ensures
        pos <= spec_parse_operation(events, pos, op).1 <= events.len(),
    decreases events.len() - pos,
{
    if 0 <= pos < events.len() {
        match events[pos] {
            XmlEventV::Empty { name, attrs } => {
                lemma_parse_operation_bounds(events, pos + 1, spec_op_child(op, name, attrs));
            },
            XmlEventV::Start { name, attrs } => {
                if name == "documentation"@ && pos + 1 < events.len() && events[pos
                    + 1] is Text {
                    lemma_parse_operation_bounds(
                        events,
                        pos + 2,
                        PortTypeOperationV {
                            documentation: Some(events[pos + 1]->Text_text),
                            ..op
                        },
                    );
                } else {
                    lemma_parse_operation_bounds(
                        events,
                        pos + 1,
                        spec_op_child(op, name, attrs),
                    );
                }
            },
            XmlEventV::End { name } => {
                if name != "operation"@ {
                    lemma_parse_operation_bounds(events, pos + 1, op);
                }
            },
            _ => {
                lemma_parse_operation_bounds(events, pos + 1, op);
            },
        }
    }
}

/// Apply one child tag of an operation.
fn op_child(op: &mut PortTypeOperation, name: &String, attrs: &Vec<XmlAttr>)
    ensures
        final(op)@ == spec_op_child(old(op)@, name@, attrs.deep_view()),
{
    if string_eq_str(name, "input") {
        match get_attr(attrs, "message") {
            Some(v) => {
                op.input = Some(QName(v));
            },
            None => {},
        }
    } else if string_eq_str(name, "output") {
        match get_attr(attrs, "message") {
            Some(v) => {
                op.output = Some(QName(v));
            },
            None => {},
        }
    } else if string_eq_str(name, "fault") {
        let ghost prev = op@;
        let fault_name = attr_or_empty(attrs, "name");
        let message = match get_attr(attrs, "message") {
            Some(m) => Some(QName(m)),
            None => None,
        };
        op.faults.push(Fault { name: fault_name, message });
        proof {
            assert(op@.faults =~= spec_op_child(prev, name@, attrs.deep_view()).faults);
            assert(op@ == spec_op_child(prev, name@, attrs.deep_view()));
        }
    }
}

/// Parse an operation whose start tag was just consumed.
fn parse_operation(events: &Vec<XmlEvent>, pos: usize, op: PortTypeOperation) -> (r: (
    PortTypeOperation,
    usize,
))
    requires
        pos <= events.deep_view().len(),
    ensures
        (r.0@, r.1 as int) == spec_parse_operation(events.deep_view(), pos as int, op@),
        pos <= r.1 <= events.deep_view().len(),
{
    let n = events.len();
    let mut cur = op;
    let mut i: usize = pos;
    while i < n
        invariant
            pos <= i <= n,
            n == events.len(),
            spec_parse_operation(events.deep_view(), pos as int, op@) == spec_parse_operation(
                events.deep_view(),
                i as int,
                cur@,
            ),
        decreases n - i,
    {
        proof {
            assert(events.deep_view()[i as int] == events[i as int]@);
        }
        match &events[i] {
            XmlEvent::Empty { name, attrs } => {
                op_child(&mut cur, name, attrs);
                i += 1;
            },
            XmlEvent::Start { name, attrs } => {
                let mut handled = false;
                if string_eq_str(name, "documentation") && i + 1 < n {
                    proof {
                        assert(events.deep_view()[i + 1] == events[i as int + 1]@);
                    }
                    match &events[i + 1] {
                        XmlEvent::Text { text } => {
                            cur.documentation = Some(crate::model::clone_string_of(text));
                            i += 2;
                            handled = true;
                        },
                        _ => {},
                    }
                }
                if !handled {
                    op_child(&mut cur, name, attrs);
                    i += 1;
                }
            },
            XmlEvent::End { name } => {
                if string_eq_str(name, "operation") {
                    return (cur, i + 1);
                }
                i += 1;
            },
            _ => {
                i += 1;
            },
        }
    }
    (cur, i)
}

/// The port type read from the events: operations accumulate in order.
pub open spec fn spec_parse_port_type(events: Seq<XmlEventV>, pos: int, pt: PortTypeV) -> (
    PortTypeV,
    int,
)
    decreases events.len() - pos,
    via spec_parse_port_type_dec
{
    if pos < 0 || pos >= events.len() {
        (pt, pos)
    } else {
        match events[pos] {
            XmlEventV::Start { name, attrs } => if name == "operation"@ {
                let (op, p2) = spec_parse_operation(events, pos + 1, spec_op_initial(attrs));
                spec_parse_port_type(
                    events,
                    p2,
                    PortTypeV { operations: pt.operations.push(op), ..pt },
                )
            } else {
                spec_parse_port_type(events, pos + 1, pt)
            },
            XmlEventV::Empty { name, attrs } => if name == "operation"@ {
                spec_parse_port_type(
                    events,
                    pos + 1,
                    PortTypeV { operations: pt.operations.push(spec_op_initial(attrs)), ..pt },
                )
            } else {
                spec_parse_port_type(events, pos + 1, pt)
            },
            XmlEventV::End { name } => if name == "portType"@ {
                (pt, pos + 1)
            } else {
                spec_parse_port_type(events, pos + 1, pt)
            },
            _ => spec_parse_port_type(events, pos + 1, pt),
        }
    }
}

/// A fresh operation named by its start tag.
pub open spec fn spec_op_initial(attrs: Seq<XmlAttrV>) -> PortTypeOperationV {
    PortTypeOperationV {
        name: spec_attr_or_empty(attrs, "name"@),
        input: None,
        output: None,
        faults: Seq::empty(),
        documentation: None,
    }
}

#[via_fn]
proof fn spec_parse_port_type_dec(events: Seq<XmlEventV>, pos: int, pt: PortTypeV) {
    if 0 <= pos < events.len() {
        match events[pos] {
            XmlEventV::Start { name, attrs } => {
                if name == "operation"@ {
                    lemma_parse_operation_bounds(events, pos + 1, spec_op_initial(attrs));
                }
            },
            _ => {},
        }
    }
}

/// The port-type parse never moves backwards and never leaves the stream.
pub proof fn lemma_parse_port_type_bounds(events: Seq<XmlEventV>, pos: int, pt: PortTypeV)
    requires
        0 <= pos <= events.len(),
    ensures
        pos <= spec_parse_port_type(events, pos, pt).1 <= events.len(),
    decreases events.len() - pos,
{
    if 0 <= pos < events.len() {
        match events[pos] {
            XmlEventV::Start { name, attrs } => {
                if name == "operation"@ {
                    lemma_parse_operation_bounds(events, pos + 1, spec_op_initial(attrs));
                    let (op, p2) = spec_parse_operation(events, pos + 1, spec_op_initial(attrs));
                    lemma_parse_port_type_bounds(
                        events,
                        p2,
                        PortTypeV { operations: pt.operations.push(op), ..pt },
                    );
                } else {
                    lemma_parse_port_type_bounds(events, pos + 1, pt);
                }
            },
            XmlEventV::Empty { name, attrs } => {
                if name == "operation"@ {
                    lemma_parse_port_type_bounds(
                        events,
                        pos + 1,
                        PortTypeV {
                            operations: pt.operations.push(spec_op_initial(attrs)),
                            ..pt
                        },
                    );
                } else {
                    lemma_parse_port_type_bounds(events, pos + 1, pt);
                }
            },
            XmlEventV::End { name } => {
                if name != "portType"@ {
                    lemma_parse_port_type_bounds(events, pos + 1, pt);
                }
            },
            _ => {
                lemma_parse_port_type_bounds(events, pos + 1, pt);
            },
        }
    }
}

/// A fresh operation named by its start tag.
fn op_initial(attrs: &Vec<XmlAttr>) -> (r: PortTypeOperation)
    ensures
        r@ == spec_op_initial(attrs.deep_view()),
{
    let r = PortTypeOperation {
        name: attr_or_empty(attrs, "name"),
        input: None,
        output: None,
        faults: Vec::new(),
        documentation: None,
    };
    proof {
        assert(r@.faults =~= Seq::<FaultV>::empty());
    }
    r
}

/// Parse a port type whose start tag was just consumed.
fn parse_port_type(events: &Vec<XmlEvent>, pos: usize, pt: PortType) -> (r: (PortType, usize))
    requires
        pos <= events.deep_view().len(),
    ensures
        (r.0@, r.1 as int) == spec_parse_port_type(events.deep_view(), pos as int, pt@),
        pos <= r.1 <= events.deep_view().len(),
{
    let n = events.len();
    let mut cur = pt;
    let mut i: usize = pos;
    while i < n
        invariant
            pos <= i <= n,
            n == events.len(),
            spec_parse_port_type(events.deep_view(), pos as int, pt@) == spec_parse_port_type(
                events.deep_view(),
                i as int,
                cur@,
            ),
        decreases n - i,
    {
        proof {
            assert(events.deep_view()[i as int] == events[i as int]@);
        }
        match &events[i] {
            XmlEvent::Start { name, attrs } => {
                if string_eq_str(name, "operation") {
                    let op0 = op_initial(attrs);
                    let (op, p2) = parse_operation(events, i + 1, op0);
                    let ghost prev = cur@;
                    cur.operations.push(op);
                    proof {
                        assert(cur@.operations =~= prev.operations.push(op@));
                    }
                    i = p2;
                } else {
                    i += 1;
                }
            },
            XmlEvent::Empty { name, attrs } => {
                if string_eq_str(name, "operation") {
                    let op0 = op_initial(attrs);
                    let ghost prev = cur@;
                    cur.operations.push(op0);
                    proof {
                        assert(cur@.operations =~= prev.operations.push(
                            spec_op_initial(attrs.deep_view()),
                        ));
                    }
                }
                i += 1;
            },
            XmlEvent::End { name } => {
                if string_eq_str(name, "portType") {
                    return (cur, i + 1);
                }
                i += 1;
            },
            _ => {
                i += 1;
            },
        }
    }
    (cur, i)
}

/// The binding operation read from the events: the transport action comes
/// from the nested transport tag, which shares the local name `operation`.
pub open spec fn spec_parse_binding_op(
    events: Seq<XmlEventV>,
    pos: int,
    bop: BindingOperationV,
) -> (BindingOperationV, int)
    decreases events.len() - pos,
{
    if pos < 0 || pos >= events.len() {
        (bop, pos)
    } else {
        match events[pos] {
            XmlEventV::Empty { name, attrs } => if name == "operation"@ {
                spec_parse_binding_op(
                    events,
                    pos + 1,
                    BindingOperationV {
                        soap_action: match spec_get_attr(attrs, "soapAction"@) {
                            Some(a) => Some(a),
                            None => bop.soap_action,
                        },
                        ..bop
                    },
                )
            } else {
                spec_parse_binding_op(events, pos + 1, bop)
            },
            XmlEventV::End { name } => if name == "operation"@ {
                (bop, pos + 1)
            } else {
                spec_parse_binding_op(events, pos + 1, bop)
            },
            _ => spec_parse_binding_op(events, pos + 1, bop),
        }
    }
}

/// The binding-operation parse never moves backwards and never leaves the
/// stream.
pub proof fn lemma_parse_binding_op_bounds(
    events: Seq<XmlEventV>,
    pos: int,
    bop: BindingOperationV,
)
    requires
        0 <= pos <= events.len(),
    ensures
        pos <= spec_parse_binding_op(events, pos, bop).1 <= events.len(),
    decreases events.len() - pos,
{
    if 0 <= pos < events.len() {
        match events[pos] {
            XmlEventV::Empty { name, attrs } => {
                if name == "operation"@ {
                    lemma_parse_binding_op_bounds(
                        events,
                        pos + 1,
                        BindingOperationV {
                            soap_action: match spec_get_attr(attrs, "soapAction"@) {
                                Some(a) => Some(a),
                                None => bop.soap_action,
                            },
                            ..bop
                        },
                    );
                } else {
                    lemma_parse_binding_op_bounds(events, pos + 1, bop);
                }
            },
            XmlEventV::End { name } => {
                if name != "operation"@ {
                    lemma_parse_binding_op_bounds(events, pos + 1, bop);
                }
            },
            _ => {
                lemma_parse_binding_op_bounds(events, pos + 1, bop);
            },
        }
    }
}

/// Parse a binding operation whose start tag was just consumed.
fn parse_binding_op(events: &Vec<XmlEvent>, pos: usize, bop: BindingOperation) -> (r: (
    BindingOperation,
    usize,
))
    requires
        pos <= events.deep_view().len(),
    ensures
        (r.0@, r.1 as int) == spec_parse_binding_op(events.deep_view(), pos as int, bop@),
        pos <= r.1 <= events.deep_view().len(),
{
    let n = events.len();
    let mut cur = bop;
    let mut i: usize = pos;
    while i < n
        invariant
            pos <= i <= n,
            n == events.len(),
            spec_parse_binding_op(events.deep_view(), pos as int, bop@) == spec_parse_binding_op(
                events.deep_view(),
                i as int,
                cur@,
            ),
        decreases n - i,
    {
        proof {
            assert(events.deep_view()[i as int] == events[i as int]@);
        }
        match &events[i] {
            XmlEvent::Empty { name, attrs } => {
                if string_eq_str(name, "operation") {
                    match get_attr(attrs, "soapAction") {
                        Some(a) => {
                            cur.soap_action = Some(a);
                        },
                        None => {},
                    }
                }
                i += 1;
            },
            XmlEvent::End { name } => {
                if string_eq_str(name, "operation") {
                    return (cur, i + 1);
                }
                i += 1;
            },
            _ => {
                i += 1;
            },
        }
    }
    (cur, i)
}

/// The binding read from the events: operations accumulate with their
/// transport action identifiers.
pub open spec fn spec_parse_binding(events: Seq<XmlEventV>, pos: int, b: BindingV) -> (
    BindingV,
    int,
)
    decreases events.len() - pos,
    via spec_parse_binding_dec
{
    if pos < 0 || pos >= events.len() {
        (b, pos)
    } else {
        match events[pos] {
            XmlEventV::Start { name, attrs } => if name == "operation"@ {
                let (bop, p2) = spec_parse_binding_op(events, pos + 1, spec_bop_initial(attrs));
                spec_parse_binding(events, p2, BindingV { operations: b.operations.push(bop), ..b })
            } else {
                spec_parse_binding(events, pos + 1, b)
            },
            XmlEventV::Empty { name, attrs } => if name == "operation"@ {
                spec_parse_binding(
                    events,
                    pos + 1,
                    BindingV {
                        operations: b.operations.push(
                            BindingOperationV {
                                name: spec_attr_or_empty(attrs, "name"@),
                                soap_action: spec_get_attr(attrs, "soapAction"@),
                            },
                        ),
                        ..b
                    },
                )
            } else {
                spec_parse_binding(events, pos + 1, b)
            },
            XmlEventV::End { name } => if name == "binding"@ {
                (b, pos + 1)
            } else {
                spec_parse_binding(events, pos + 1, b)
            },
            _ => spec_parse_binding(events, pos + 1, b),
        }
    }
}

/// A fresh binding operation named by its start tag.
pub open spec fn spec_bop_initial(attrs: Seq<XmlAttrV>) -> BindingOperationV {
    BindingOperationV { name: spec_attr_or_empty(attrs, "name"@), soap_action: None }
}

#[via_fn]
proof fn spec_parse_binding_dec(events: Seq<XmlEventV>, pos: int, b: BindingV) {
    if 0 <= pos < events.len() {
        match events[pos] {
            XmlEventV::Start { name, attrs } => {
                if name == "operation"@ {
                    lemma_parse_binding_op_bounds(events, pos + 1, spec_bop_initial(attrs));
                }
            },
            _ => {},
        }
    }
}

/// The binding parse never moves backwards and never leaves the stream.
pub proof fn lemma_parse_binding_bounds(events: Seq<XmlEventV>, pos: int, b: BindingV)
    requires
        0 <= pos <= events.len(),
    ensures
        pos <= spec_parse_binding(events, pos, b).1 <= events.len(),
    decreases events.len() - pos,
{
    if 0 <= pos < events.len() {
        match events[pos] {
            XmlEventV::Start { name, attrs } => {
                if name == "operation"@ {
                    lemma_parse_binding_op_bounds(events, pos + 1, spec_bop_initial(attrs));
                    let (bop, p2) = spec_parse_binding_op(
                        events,
                        pos + 1,
                        spec_bop_initial(attrs),
                    );
                    lemma_parse_binding_bounds(
                        events,
                        p2,
                        BindingV { operations: b.operations.push(bop), ..b },
                    );
                } else {
                    lemma_parse_binding_bounds(events, pos + 1, b);
                }
            },
            XmlEventV::Empty { name, attrs } => {
                if name == "operation"@ {
                    lemma_parse_binding_bounds(
                        events,
                        pos + 1,
                        BindingV {
                            operations: b.operations.push(
                                BindingOperationV {
                                    name: spec_attr_or_empty(attrs, "name"@),
                                    soap_action: spec_get_attr(attrs, "soapAction"@),
                                },
                            ),
                            ..b
                        },
                    );
                } else {
                    lemma_parse_binding_bounds(events, pos + 1, b);
                }
            },
            XmlEventV::End { name } => {
                if name != "binding"@ {
                    lemma_parse_binding_bounds(events, pos + 1, b);
                }
            },
            _ => {
                lemma_parse_binding_bounds(events, pos + 1, b);
            },
        }
    }
}

/// Parse a binding whose start tag was just consumed.
fn parse_binding(events: &Vec<XmlEvent>, pos: usize, b: Binding) -> (r: (Binding, usize))
    requires
        pos <= events.deep_view().len(),
    ensures
        (r.0@, r.1 as int) == spec_parse_binding(events.deep_view(), pos as int, b@),
        pos <= r.1 <= events.deep_view().len(),
{
    let n = events.len();
    let mut cur = b;
    let mut i: usize = pos;
    while i < n
        invariant
            pos <= i <= n,
            n == events.len(),
            spec_parse_binding(events.deep_view(), pos as int, b@) == spec_parse_binding(
                events.deep_view(),
                i as int,
                cur@,
            ),
        decreases n - i,
    {
        proof {
            assert(events.deep_view()[i as int] == events[i as int]@);
        }
        match &events[i] {
            XmlEvent::Start { name, attrs } => {
                if string_eq_str(name, "operation") {
                    let bop0 = BindingOperation { name: attr_or_empty(attrs, "name"), soap_action: None };
                    let (bop, p2) = parse_binding_op(events, i + 1, bop0);
                    let ghost prev = cur@;
                    cur.operations.push(bop);
                    proof {
                        assert(cur@.operations =~= prev.operations.push(bop@));
                    }
                    i = p2;
                } else {
                    i += 1;
                }
            },
            XmlEvent::Empty { name, attrs } => {
                if string_eq_str(name, "operation") {
                    let bop = BindingOperation {
                        name: attr_or_empty(attrs, "name"),
                        soap_action: get_attr(attrs, "soapAction"),
                    };
                    let ghost prev = cur@;
                    cur.operations.push(bop);
                    proof {
                        assert(cur@.operations =~= prev.operations.push(
                            BindingOperationV {
                                name: spec_attr_or_empty(attrs.deep_view(), "name"@),
                                soap_action: spec_get_attr(attrs.deep_view(), "soapAction"@),
                            },
                        ));
                    }
                }
                i += 1;
            },
            XmlEvent::End { name } => {
                if string_eq_str(name, "binding") {
                    return (cur, i + 1);
                }
                i += 1;
            },
            _ => {
                i += 1;
            },
        }
    }
    (cur, i)
}

/// The service read from the events: ports accumulate with their binding
/// references and transport addresses.
pub open spec fn spec_parse_service(events: Seq<XmlEventV>, pos: int, svc: ServiceV) -> (
    ServiceV,
    int,
)
    decreases events.len() - pos,
    via spec_parse_service_dec
{
    if pos < 0 || pos >= events.len() {
        (svc, pos)
    } else {
        match events[pos] {
            XmlEventV::Start { name, attrs } => if name == "port"@ {
                let (p, p2) = spec_parse_port(events, pos + 1, spec_port_initial(attrs));
                spec_parse_service(events, p2, ServiceV { ports: svc.ports.push(p), ..svc })
            } else {
                spec_parse_service(events, pos + 1, svc)
            },
            XmlEventV::Empty { name, attrs } => if name == "port"@ {
                spec_parse_service(
                    events,
                    pos + 1,
                    ServiceV { ports: svc.ports.push(spec_port_initial(attrs)), ..svc },
                )
            } else {
                spec_parse_service(events, pos + 1, svc)
            },
            XmlEventV::End { name } => if name == "service"@ {
                (svc, pos + 1)
            } else {
                spec_parse_service(events, pos + 1, svc)
            },
            _ => spec_parse_service(events, pos + 1, svc),
        }
    }
}

/// A fresh port named by its start tag, with its binding reference.
pub open spec fn spec_port_initial(attrs: Seq<XmlAttrV>) -> PortV {
    PortV {
        name: spec_attr_or_empty(attrs, "name"@),
        binding: spec_get_attr(attrs, "binding"@),
        location: None,
    }
}

/// The port read from the events: the transport address sets the location.
pub open spec fn spec_parse_port(events: Seq<XmlEventV>, pos: int, p: PortV) -> (PortV, int)
    decreases events.len() - pos,
{
    if pos < 0 || pos >= events.len() {
        (p, pos)
    } else {
        match events[pos] {
            XmlEventV::Empty { name, attrs } => if name == "address"@ {
                spec_parse_port(
                    events,
                    pos + 1,
                    PortV {
                        location: match spec_get_attr(attrs, "location"@) {
                            Some(l) => Some(l),
                            None => p.location,
                        },
                        ..p
                    },
                )
            } else {
                spec_parse_port(events, pos + 1, p)
            },
            XmlEventV::End { name } => if name == "port"@ {
                (p, pos + 1)
            } else {
                spec_parse_port(events, pos + 1, p)
            },
            _ => spec_parse_port(events, pos + 1, p),
        }
    }
}

/// The port parse never moves backwards and never leaves the stream.
pub proof fn lemma_parse_port_bounds(events: Seq<XmlEventV>, pos: int, p: PortV)
    requires
        0 <= pos <= events.len(),
    ensures
        pos <= spec_parse_port(events, pos, p).1 <= events.len(),
    decreases events.len() - pos,
{
    if 0 <= pos < events.len() {
        match events[pos] {
            XmlEventV::Empty { name, attrs } => {
                if name == "address"@ {
                    lemma_parse_port_bounds(
                        events,
                        pos + 1,
                        PortV {
                            location: match spec_get_attr(attrs, "location"@) {
                                Some(l) => Some(l),
                                None => p.location,
                            },
                            ..p
                        },
                    );
                } else {
                    lemma_parse_port_bounds(events, pos + 1, p);
                }
            },
            XmlEventV::End { name } => {
                if name != "port"@ {
                    lemma_parse_port_bounds(events, pos + 1, p);
                }
            },
            _ => {
                lemma_parse_port_bounds(events, pos + 1, p);
            },
        }
    }
}

#[via_fn]
proof fn spec_parse_service_dec(events: Seq<XmlEventV>, pos: int, svc: ServiceV) {
    if 0 <= pos < events.len() {
        match events[pos] {
            XmlEventV::Start { name, attrs } => {
                if name == "port"@ {
                    lemma_parse_port_bounds(events, pos + 1, spec_port_initial(attrs));
                }
            },
            _ => {},
        }
    }
}

/// The service parse never moves backwards and never leaves the stream.
pub proof fn lemma_parse_service_bounds(events: Seq<XmlEventV>, pos: int, svc: ServiceV)
    requires
        0 <= pos <= events.len(),
    ensures
        pos <= spec_parse_service(events, pos, svc).1 <= events.len(),
    decreases events.len() - pos,
{
    if 0 <= pos < events.len() {
        match events[pos] {
            XmlEventV::Start { name, attrs } => {
                if name == "port"@ {
                    lemma_parse_port_bounds(events, pos + 1, spec_port_initial(attrs));
                    let (p, p2) = spec_parse_port(events, pos + 1, spec_port_initial(attrs));
                    lemma_parse_service_bounds(
                        events,
                        p2,
                        ServiceV { ports: svc.ports.push(p), ..svc },
                    );
                } else {
                    lemma_parse_service_bounds(events, pos + 1, svc);
                }
            },
            XmlEventV::Empty { name, attrs } => {
                if name == "port"@ {
                    lemma_parse_service_bounds(
                        events,
                        pos + 1,
                        ServiceV { ports: svc.ports.push(spec_port_initial(attrs)), ..svc },
                    );
                } else {
                    lemma_parse_service_bounds(events, pos + 1, svc);
                }
            },
            XmlEventV::End { name } => {
                if name != "service"@ {
                    lemma_parse_service_bounds(events, pos + 1, svc);
                }
            },
            _ => {
                lemma_parse_service_bounds(events, pos + 1, svc);
            },
        }
    }
}

/// A fresh port named by its start tag.
fn port_initial(attrs: &Vec<XmlAttr>) -> (r: Port)
    ensures
        r@ == spec_port_initial(attrs.deep_view()),
{
    Port {
        name: attr_or_empty(attrs, "name"),
        binding: match get_attr(attrs, "binding") {
            Some(b) => Some(QName(b)),
            None => None,
        },
        location: None,
    }
}

/// Parse a port whose start tag was just consumed.
fn parse_port(events: &Vec<XmlEvent>, pos: usize, p: Port) -> (r: (Port, usize))
    requires
        pos <= events.deep_view().len(),
    ensures
        (r.0@, r.1 as int) == spec_parse_port(events.deep_view(), pos as int, p@),
        pos <= r.1 <= events.deep_view().len(),
{
    let n = events.len();
    let mut cur = p;
    let mut i: usize = pos;
    while i < n
        invariant
            pos <= i <= n,
            n == events.len(),
            spec_parse_port(events.deep_view(), pos as int, p@) == spec_parse_port(
                events.deep_view(),
                i as int,
                cur@,
            ),
        decreases n - i,
    {
        proof {
            assert(events.deep_view()[i as int] == events[i as int]@);
        }
        match &events[i] {
            XmlEvent::Empty { name, attrs } => {
                if string_eq_str(name, "address") {
                    match get_attr(attrs, "location") {
                        Some(l) => {
                            cur.location = Some(l);
                        },
                        None => {},
                    }
                }
                i += 1;
            },
            XmlEvent::End { name } => {
                if string_eq_str(name, "port") {
                    return (cur, i + 1);
                }
                i += 1;
            },
            _ => {
                i += 1;
            },
        }
    }
    (cur, i)
}

/// Parse a service whose start tag was just consumed.
fn parse_service(events: &Vec<XmlEvent>, pos: usize, svc: Service) -> (r: (Service, usize))
    requires
        pos <= events.deep_view().len(),
    ensures
        (r.0@, r.1 as int) == spec_parse_service(events.deep_view(), pos as int, svc@),
        pos <= r.1 <= events.deep_view().len(),
{
    let n = events.len();
    let mut cur = svc;
    let mut i: usize = pos;
    while i < n
        invariant
            pos <= i <= n,
            n == events.len(),
            spec_parse_service(events.deep_view(), pos as int, svc@) == spec_parse_service(
                events.deep_view(),
                i as int,
                cur@,
            ),
        decreases n - i,
    {
        proof {
            assert(events.deep_view()[i as int] == events[i as int]@);
        }
        match &events[i] {
            XmlEvent::Start { name, attrs } => {
                if string_eq_str(name, "port") {
                    let p0 = port_initial(attrs);
                    let (p, p2) = parse_port(events, i + 1, p0);
                    let ghost prev = cur@;
                    cur.ports.push(p);
                    proof {
                        assert(cur@.ports =~= prev.ports.push(p@));
                    }
                    i = p2;
                } else {
                    i += 1;
                }
            },
            XmlEvent::Empty { name, attrs } => {
                if string_eq_str(name, "port") {
                    let p0 = port_initial(attrs);
                    let ghost prev = cur@;
                    cur.ports.push(p0);
                    proof {
                        assert(cur@.ports =~= prev.ports.push(
                            spec_port_initial(attrs.deep_view()),
                        ));
                    }
                }
                i += 1;
            },
            XmlEvent::End { name } => {
                if string_eq_str(name, "service") {
                    return (cur, i + 1);
                }
                i += 1;
            },
            _ => {
                i += 1;
            },
        }
    }
    (cur, i)
}

/// The whole service definition read from the events: messages, port types,
/// bindings and services populate the model; an embedded schema populates
/// its schema.
pub open spec fn spec_parse_wsdl_doc(events: Seq<XmlEventV>, pos: int, w: WsdlModelV) -> (
    WsdlModelV,
    int,
)
    decreases events.len() - pos,
    via spec_parse_wsdl_doc_dec
{
    if pos < 0 || pos >= events.len() {
        (w, pos)
    } else {
        match events[pos] {
            XmlEventV::Start { name, attrs } => if name == "definitions"@ {
                spec_parse_wsdl_doc(
                    events,
                    pos + 1,
                    WsdlModelV {
                        target_namespace: match spec_get_attr(attrs, "targetNamespace"@) {
                            Some(v) => Some(v),
                            None => w.target_namespace,
                        },
                        ..w
                    },
                )
            } else if name == "message"@ {
                let (m, p2) = spec_parse_message(
                    events,
                    pos + 1,
                    MessageV { name: spec_attr_or_empty(attrs, "name"@), parts: Seq::empty() },
                );
                spec_parse_wsdl_doc(events, p2, WsdlModelV { messages: w.messages.push(m), ..w })
            } else if name == "portType"@ {
                let (pt, p2) = spec_parse_port_type(
                    events,
                    pos + 1,
                    PortTypeV {
                        name: spec_attr_or_empty(attrs, "name"@),
                        operations: Seq::empty(),
                    },
                );
                spec_parse_wsdl_doc(
                    events,
                    p2,
                    WsdlModelV { port_types: w.port_types.push(pt), ..w },
                )
            } else if name == "binding"@ {
                let (b, p2) = spec_parse_binding(
                    events,
                    pos + 1,
                    BindingV {
                        name: spec_attr_or_empty(attrs, "name"@),
                        type_: spec_get_attr(attrs, "type"@),
                        operations: Seq::empty(),
                    },
                );
                spec_parse_wsdl_doc(events, p2, WsdlModelV { bindings: w.bindings.push(b), ..w })
            } else if name == "service"@ {
                let (s, p2) = spec_parse_service(
                    events,
                    pos + 1,
                    ServiceV { name: spec_attr_or_empty(attrs, "name"@), ports: Seq::empty() },
                );
                spec_parse_wsdl_doc(events, p2, WsdlModelV { services: w.services.push(s), ..w })
            } else if name == "schema"@ {
                let (sch, p2) = spec_parse_schema_body(
                    events,
                    pos + 1,
                    spec_apply_schema_attrs(w.schema, attrs),
                );
                spec_parse_wsdl_doc(events, p2, WsdlModelV { schema: sch, ..w })
            } else {
                spec_parse_wsdl_doc(events, pos + 1, w)
            },
            _ => spec_parse_wsdl_doc(events, pos + 1, w),
        }
    }
}

#[via_fn]
proof fn spec_parse_wsdl_doc_dec(events: Seq<XmlEventV>, pos: int, w: WsdlModelV) {
    if 0 <= pos < events.len() {
        match events[pos] {
            XmlEventV::Start { name, attrs } => {
                if name == "message"@ {
                    lemma_parse_message_bounds(
                        events,
                        pos + 1,
                        MessageV {
                            name: spec_attr_or_empty(attrs, "name"@),
                            parts: Seq::empty(),
                        },
                    );
                } else if name == "portType"@ {
                    lemma_parse_port_type_bounds(
                        events,
                        pos + 1,
                        PortTypeV {
                            name: spec_attr_or_empty(attrs, "name"@),
                            operations: Seq::empty(),
                        },
                    );
                } else if name == "binding"@ {
                    lemma_parse_binding_bounds(
                        events,
                        pos + 1,
                        BindingV {
                            name: spec_attr_or_empty(attrs, "name"@),
                            type_: spec_get_attr(attrs, "type"@),
                            operations: Seq::empty(),
                        },
                    );
                } else if name == "service"@ {
                    lemma_parse_service_bounds(
                        events,
                        pos + 1,
                        ServiceV {
                            name: spec_attr_or_empty(attrs, "name"@),
                            ports: Seq::empty(),
                        },
                    );
                } else if name == "schema"@ {
                    lemma_parse_schema_body_bounds(
                        events,
                        pos + 1,
                        spec_apply_schema_attrs(w.schema, attrs),
                    );
                }
            },
            _ => {},
        }
    }
}

/// The model read from a whole service definition document.
pub open spec fn spec_parse_wsdl(events: Seq<XmlEventV>) -> WsdlModelV {
    spec_parse_wsdl_doc(events, 0, spec_wsdl_empty()).0
}

/// The view of a service definition with nothing registered.
pub open spec fn spec_wsdl_empty() -> WsdlModelV {
    WsdlModelV {
        target_namespace: None,
        messages: Seq::empty(),
        port_types: Seq::empty(),
        bindings: Seq::empty(),
        services: Seq::empty(),
        schema: crate::model::spec_schema_empty(),
    }
}

/// Parse a whole service definition document from its events.
pub fn parse_wsdl(events: &Vec<XmlEvent>) -> (r: WsdlModel)
    ensures
        r@ == spec_parse_wsdl(events.deep_view()),
{
    let n = events.len();
    let mut w = WsdlModel::default();
    let mut i: usize = 0;
    proof {
        assert(w@ == spec_wsdl_empty());
    }
    while i < n
        invariant
            0 <= i <= n,
            n == events.len(),
            spec_parse_wsdl_doc(events.deep_view(), 0, spec_wsdl_empty()) == spec_parse_wsdl_doc(
                events.deep_view(),
                i as int,
                w@,
            ),
        decreases n - i,
    {
        proof {
            assert(events.deep_view()[i as int] == events[i as int]@);
        }
        match &events[i] {
            XmlEvent::Start { name, attrs } => {
                if string_eq_str(name, "definitions") {
                    match get_attr(attrs, "targetNamespace") {
                        Some(v) => {
                            w.target_namespace = Some(v);
                        },
                        None => {},
                    }
                    i += 1;
                } else if string_eq_str(name, "message") {
                    let m0 = Message { name: attr_or_empty(attrs, "name"), parts: Vec::new() };
                    proof {
                        assert(m0@.parts =~= Seq::<MessagePartV>::empty());
                    }
                    let (m, p2) = parse_message(events, i + 1, m0);
                    let ghost prev = w@;
                    w.messages.push(m);
                    proof {
                        assert(w@.messages =~= prev.messages.push(m@));
                    }
                    i = p2;
                } else if string_eq_str(name, "portType") {
                    let pt0 = PortType { name: attr_or_empty(attrs, "name"), operations: Vec::new() };
                    proof {
                        assert(pt0@.operations =~= Seq::<PortTypeOperationV>::empty());
                    }
                    let (pt, p2) = parse_port_type(events, i + 1, pt0);
                    let ghost prev = w@;
                    w.port_types.push(pt);
                    proof {
                        assert(w@.port_types =~= prev.port_types.push(pt@));
                    }
                    i = p2;
                } else if string_eq_str(name, "binding") {
                    let b0 = Binding {
                        name: attr_or_empty(attrs, "name"),
                        type_: match get_attr(attrs, "type") {
                            Some(t) => Some(QName(t)),
                            None => None,
                        },
                        operations: Vec::new(),
                    };
                    proof {
                        assert(b0@.operations =~= Seq::<BindingOperationV>::empty());
                    }
                    let (b, p2) = parse_binding(events, i + 1, b0);
                    let ghost prev = w@;
                    w.bindings.push(b);
                    proof {
                        assert(w@.bindings =~= prev.bindings.push(b@));
                    }
                    i = p2;
                } else if string_eq_str(name, "service") {
                    let s0 = Service { name: attr_or_empty(attrs, "name"), ports: Vec::new() };
                    proof {
                        assert(s0@.ports =~= Seq::<PortV>::empty());
                    }
                    let (s, p2) = parse_service(events, i + 1, s0);
                    let ghost prev = w@;
                    w.services.push(s);
                    proof {
                        assert(w@.services =~= prev.services.push(s@));
                    }
                    i = p2;
                } else if string_eq_str(name, "schema") {
                    let mut sch = XmlSchema::default();
                    core::mem::swap(&mut sch, &mut w.schema);
                    crate::xsd_parser::apply_schema_attrs(&mut sch, attrs);
                    let (sch2, p2) = parse_schema_body(events, i + 1, sch);
                    w.schema = sch2;
                    i = p2;
                } else {
                    i += 1;
                }
            },
            _ => {
                i += 1;
            },
        }
    }
    w
}

/// Parse a whole service definition document from its text. The tokenizer's
/// events are a function of the text; a malformed stream yields the error.
pub fn parse_wsdl_text(text: &str) -> (r: Result<WsdlModel, StreamError>)
    ensures
        r is Ok <==> spec_tokens(text@) is Some,
        r is Ok ==> r->Ok_0@ == spec_parse_wsdl(spec_tokens(text@)->0),
{
    match tokenize(text) {
        Ok(events) => Ok(parse_wsdl(&events)),
        Err(e) => Err(e),
    }
}

} // verus!
