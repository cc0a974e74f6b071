//! The service definition model: messages, operations, bindings and
//! services, with name-keyed resolution of messages and transport action
//! identifiers.

use vstd::prelude::*;

use crate::model::{XmlSchema, XmlSchemaV};
use crate::qname::{spec_qname_local, QName};
use crate::text::{str_eq, string_eq_str};

verus! {

/// A part of a message, optionally referencing an element by qualified name.
#[derive(Debug, Clone)]
pub struct MessagePart {
    pub name: String,
    pub element: Option<QName>,
}

/// Mathematical view of a [`MessagePart`].
pub struct MessagePartV {
    pub name: Seq<char>,
    pub element: Option<Seq<char>>,
}

impl View for MessagePart {
    type V = MessagePartV;

    open spec fn view(&self) -> MessagePartV {
        MessagePartV { name: self.name@, element: self.element.deep_view() }
    }
}

impl DeepView for MessagePart {
    type V = MessagePartV;

    open spec fn deep_view(&self) -> MessagePartV {
        self.view()
    }
}

/// A named message: an ordered list of parts.
#[derive(Debug, Clone)]
pub struct Message {
    pub name: String,
    pub parts: Vec<MessagePart>,
}

/// Mathematical view of a [`Message`].
pub struct MessageV {
    pub name: Seq<char>,
    pub parts: Seq<MessagePartV>,
}

impl View for Message {
    type V = MessageV;

    open spec fn view(&self) -> MessageV {
        MessageV { name: self.name@, parts: self.parts.deep_view() }
    }
}

impl DeepView for Message {
    type V = MessageV;

    open spec fn deep_view(&self) -> MessageV {
        self.view()
    }
}

/// A fault reference of an operation.
#[derive(Debug, Clone)]
pub struct Fault {
    pub name: String,
    pub message: Option<QName>,
}

/// Mathematical view of a [`Fault`].
pub struct FaultV {
    pub name: Seq<char>,
    pub message: Option<Seq<char>>,
}

impl View for Fault {
    type V = FaultV;

    open spec fn view(&self) -> FaultV {
        FaultV { name: self.name@, message: self.message.deep_view() }
    }
}

impl DeepView for Fault {
    type V = FaultV;

    open spec fn deep_view(&self) -> FaultV {
        self.view()
    }
}

/// An operation of a port type: optional input and output message
/// references, fault references, optional documentation text.
#[derive(Debug, Clone)]
pub struct PortTypeOperation {
    pub name: String,
    pub input: Option<QName>,
    pub output: Option<QName>,
    pub faults: Vec<Fault>,
    pub documentation: Option<String>,
}

/// Mathematical view of a [`PortTypeOperation`].
pub struct PortTypeOperationV {
    pub name: Seq<char>,
    pub input: Option<Seq<char>>,
    pub output: Option<Seq<char>>,
    pub faults: Seq<FaultV>,
    pub documentation: Option<Seq<char>>,
}

impl View for PortTypeOperation {
    type V = PortTypeOperationV;

    open spec fn view(&self) -> PortTypeOperationV {
        PortTypeOperationV {
            name: self.name@,
            input: self.input.deep_view(),
            output: self.output.deep_view(),
            faults: self.faults.deep_view(),
            documentation: self.documentation.deep_view(),
        }
    }
}

impl DeepView for PortTypeOperation {
    type V = PortTypeOperationV;

    open spec fn deep_view(&self) -> PortTypeOperationV {
        self.view()
    }
}

/// A named set of operations.
#[derive(Debug, Clone)]
pub struct PortType {
    pub name: String,
    pub operations: Vec<PortTypeOperation>,
}

/// Mathematical view of a [`PortType`].
pub struct PortTypeV {
    pub name: Seq<char>,
    pub operations: Seq<PortTypeOperationV>,
}

impl View for PortType {
    type V = PortTypeV;

    open spec fn view(&self) -> PortTypeV {
        PortTypeV { name: self.name@, operations: self.operations.deep_view() }
    }
}

impl DeepView for PortType {
    type V = PortTypeV;

    open spec fn deep_view(&self) -> PortTypeV {
        self.view()
    }
}

/// A binding operation: carries the transport action identifier of an
/// operation, when one is given.
#[derive(Debug, Clone)]
pub struct BindingOperation {
    pub name: String,
    pub soap_action: Option<String>,
}

/// Mathematical view of a [`BindingOperation`].
pub struct BindingOperationV {
    pub name: Seq<char>,
    pub soap_action: Option<Seq<char>>,
}

impl View for BindingOperation {
    type V = BindingOperationV;

    open spec fn view(&self) -> BindingOperationV {
        BindingOperationV { name: self.name@, soap_action: self.soap_action.deep_view() }
    }
}

impl DeepView for BindingOperation {
    type V = BindingOperationV;

    open spec fn deep_view(&self) -> BindingOperationV {
        self.view()
    }
}

/// A binding: transport metadata per operation name.
#[derive(Debug, Clone)]
pub struct Binding {
    pub name: String,
    pub type_: Option<QName>,
    pub operations: Vec<BindingOperation>,
}

/// Mathematical view of a [`Binding`].
pub struct BindingV {
    pub name: Seq<char>,
    pub type_: Option<Seq<char>>,
    pub operations: Seq<BindingOperationV>,
}

impl View for Binding {
    type V = BindingV;

    open spec fn view(&self) -> BindingV {
        BindingV {
            name: self.name@,
            type_: self.type_.deep_view(),
            operations: self.operations.deep_view(),
        }
    }
}

impl DeepView for Binding {
    type V = BindingV;

    open spec fn deep_view(&self) -> BindingV {
        self.view()
    }
}

/// A port of a service.
#[derive(Debug, Clone)]
pub struct Port {
    pub name: String,
    pub binding: Option<QName>,
    pub location: Option<String>,
}

/// Mathematical view of a [`Port`].
pub struct PortV {
    pub name: Seq<char>,
    pub binding: Option<Seq<char>>,
    pub location: Option<Seq<char>>,
}

impl View for Port {
    type V = PortV;

    open spec fn view(&self) -> PortV {
        PortV {
            name: self.name@,
            binding: self.binding.deep_view(),
            location: self.location.deep_view(),
        }
    }
}

impl DeepView for Port {
    type V = PortV;

    open spec fn deep_view(&self) -> PortV {
        self.view()
    }
}

/// A named service: a list of ports.
#[derive(Debug, Clone)]
pub struct Service {
    pub name: String,
    pub ports: Vec<Port>,
}

/// Mathematical view of a [`Service`].
pub struct ServiceV {
    pub name: Seq<char>,
    pub ports: Seq<PortV>,
}

impl View for Service {
    type V = ServiceV;

    open spec fn view(&self) -> ServiceV {
        ServiceV { name: self.name@, ports: self.ports.deep_view() }
    }
}

impl DeepView for Service {
    type V = ServiceV;

    open spec fn deep_view(&self) -> ServiceV {
        self.view()
    }
}

/// The parsed service definition: messages, port types, bindings and
/// services, with the structural schema embedded.
#[derive(Debug)]
pub struct WsdlModel {
    pub target_namespace: Option<String>,
    pub messages: Vec<Message>,
    pub port_types: Vec<PortType>,
    pub bindings: Vec<Binding>,
    pub services: Vec<Service>,
    pub schema: XmlSchema,
}

/// Mathematical view of a [`WsdlModel`].
pub struct WsdlModelV {
    pub target_namespace: Option<Seq<char>>,
    pub messages: Seq<MessageV>,
    pub port_types: Seq<PortTypeV>,
    pub bindings: Seq<BindingV>,
    pub services: Seq<ServiceV>,
    pub schema: XmlSchemaV,
}

impl View for WsdlModel {
    type V = WsdlModelV;

    open spec fn view(&self) -> WsdlModelV {
        WsdlModelV {
            target_namespace: self.target_namespace.deep_view(),
            messages: self.messages.deep_view(),
            port_types: self.port_types.deep_view(),
            bindings: self.bindings.deep_view(),
            services: self.services.deep_view(),
            schema: self.schema@,
        }
    }
}

impl DeepView for WsdlModel {
    type V = WsdlModelV;

    open spec fn deep_view(&self) -> WsdlModelV {
        self.view()
    }
}

impl Default for WsdlModel {
    /// A service definition with nothing registered.
    fn default() -> (r: Self)
        ensures
            r@.target_namespace is None,
            r@.messages == Seq::<MessageV>::empty(),
            r@.port_types == Seq::<PortTypeV>::empty(),
            r@.bindings == Seq::<BindingV>::empty(),
            r@.services == Seq::<ServiceV>::empty(),
            r@.schema == crate::model::spec_schema_empty(),
    {
        let r = WsdlModel {
            target_namespace: None,
            messages: Vec::new(),
            port_types: Vec::new(),
            bindings: Vec::new(),
            services: Vec::new(),
            schema: XmlSchema::default(),
        };
        proof {
            assert(r@.messages =~= Seq::<MessageV>::empty());
            assert(r@.port_types =~= Seq::<PortTypeV>::empty());
            assert(r@.bindings =~= Seq::<BindingV>::empty());
            assert(r@.services =~= Seq::<ServiceV>::empty());
        }
        r
    }
}

/// The first message whose name equals `local`, if any.
pub open spec fn spec_find_message(msgs: Seq<MessageV>, local: Seq<char>) -> Option<MessageV>
    decreases msgs.len(),
{
    if msgs.len() == 0 {
        None
    } else if msgs[0].name == local {
        Some(msgs[0])
    } else {
        spec_find_message(msgs.drop_first(), local)
    }
}

/// `spec_find_message` returns the first match, or `None` when no name
/// matches.
pub proof fn lemma_find_message_characterization(msgs: Seq<MessageV>, local: Seq<char>)
    ensures
        match spec_find_message(msgs, local) {
            Some(m) => exists|i: int|
                0 <= i < msgs.len() && msgs[i] == m && msgs[i].name == local && (forall|j: int|
                    0 <= j < i ==> msgs[j].name != local),
            None => forall|j: int| 0 <= j < msgs.len() ==> msgs[j].name != local,
        },
    decreases msgs.len(),
{
    if msgs.len() > 0 && msgs[0].name != local {
        let t = msgs.drop_first();
        lemma_find_message_characterization(t, local);
        match spec_find_message(t, local) {
            Some(m) => {
                let i = choose|i: int|
                    0 <= i < t.len() && t[i] == m && t[i].name == local && (forall|j: int|
                        0 <= j < i ==> t[j].name != local);
                assert(msgs[i + 1] == m);
                assert forall|j: int| 0 <= j < i + 1 implies msgs[j].name != local by {
                    if j > 0 {
                        assert(msgs[j] == t[j - 1]);
                    }
                }
            },
            None => {
                assert forall|j: int| 0 <= j < msgs.len() implies msgs[j].name != local by {
                    if j > 0 {
                        assert(msgs[j] == t[j - 1]);
                    }
                }
            },
        }
    }
}

/// When the first match stands at index `i`, `spec_find_message` returns it.
pub proof fn lemma_find_message_at(msgs: Seq<MessageV>, local: Seq<char>, i: int)
    requires
        0 <= i < msgs.len(),
        msgs[i].name == local,
        forall|j: int| 0 <= j < i ==> msgs[j].name != local,
    ensures
        spec_find_message(msgs, local) == Some(msgs[i]),
    decreases msgs.len(),
{
    if i > 0 {
        let t = msgs.drop_first();
        assert(t[i - 1] == msgs[i]);
        assert forall|j: int| 0 <= j < i - 1 implies t[j].name != local by {
            assert(t[j] == msgs[j + 1]);
        }
        lemma_find_message_at(t, local, i - 1);
    }
}

/// The transport action of the first operation named `name` that carries
/// one, within one binding.
pub open spec fn spec_action_in_ops(ops: Seq<BindingOperationV>, name: Seq<char>) -> Option<
    Seq<char>,
>
    decreases ops.len(),
{
    if ops.len() == 0 {
        None
    } else if ops[0].name == name && ops[0].soap_action is Some {
        ops[0].soap_action
    } else {
        spec_action_in_ops(ops.drop_first(), name)
    }
}

/// The transport action of the operation named `name`, searched across the
/// bindings in order.
pub open spec fn spec_find_action(bs: Seq<BindingV>, name: Seq<char>) -> Option<Seq<char>>
    decreases bs.len(),
{
    if bs.len() == 0 {
        None
    } else {
        match spec_action_in_ops(bs[0].operations, name) {
            Some(a) => Some(a),
            None => spec_find_action(bs.drop_first(), name),
        }
    }
}

/// When the first carrying match stands at index `i`, `spec_action_in_ops`
/// returns its action.
proof fn lemma_action_in_ops_at(ops: Seq<BindingOperationV>, name: Seq<char>, i: int)
    requires
        0 <= i < ops.len(),
        ops[i].name == name,
        ops[i].soap_action is Some,
        forall|j: int| 0 <= j < i ==> !(ops[j].name == name && ops[j].soap_action is Some),
    ensures
        spec_action_in_ops(ops, name) == ops[i].soap_action,
    decreases ops.len(),
{
    if i > 0 {
        let t = ops.drop_first();
        assert(t[i - 1] == ops[i]);
        assert forall|j: int| 0 <= j < i - 1 implies !(t[j].name == name
            && t[j].soap_action is Some) by {
            assert(t[j] == ops[j + 1]);
        }
        lemma_action_in_ops_at(t, name, i - 1);
    }
}

/// When no operation named `name` carries an action, `spec_action_in_ops`
/// returns nothing.
proof fn lemma_action_in_ops_absent(ops: Seq<BindingOperationV>, name: Seq<char>)
    requires
        forall|j: int|
            0 <= j < ops.len() ==> !(ops[j].name == name && ops[j].soap_action is Some),
    ensures
        spec_action_in_ops(ops, name) == None::<Seq<char>>,
    decreases ops.len(),
{
    if ops.len() > 0 {
        let t = ops.drop_first();
        assert forall|j: int| 0 <= j < t.len() implies !(t[j].name == name
            && t[j].soap_action is Some) by {
            assert(t[j] == ops[j + 1]);
        }
        lemma_action_in_ops_absent(t, name);
    }
}

impl WsdlModel {
    /// The first message whose name equals the local name of the reference.
    pub fn find_message(&self, qname: &QName) -> (r: Option<&Message>)
        ensures
            match r {
                Some(m) => spec_find_message(self@.messages, spec_qname_local(qname@)) == Some(m@),
                None => spec_find_message(self@.messages, spec_qname_local(qname@)) == None::<
                    MessageV,
                >,
            },
    {
        let local = qname.local_name();
        let n = self.messages.len();
        let mut i: usize = 0;
        while i < n
            invariant
                0 <= i <= n,
                n == self.messages.len(),
                self@.messages == self.messages.deep_view(),
                local@ == spec_qname_local(qname@),
                forall|j: int| 0 <= j < i ==> self.messages.deep_view()[j].name != local@,
            decreases n - i,
        {
            if string_eq_str(&self.messages[i].name, local) {
                proof {
                    assert(self.messages.deep_view()[i as int] == self.messages[i as int]@);
                    lemma_find_message_at(self@.messages, local@, i as int);
                }
                return Some(&self.messages[i]);
            }
            i += 1;
        }
        proof {
            lemma_find_message_characterization(self@.messages, local@);
        }
        None
    }

    /// The transport action identifier associated with the operation name,
    /// looked up across the bindings: first match by name.
    pub fn find_soap_action(&self, operation_name: &str) -> (r: Option<String>)
        ensures
            r.deep_view() == spec_find_action(self@.bindings, operation_name@),
    {
        let nb = self.bindings.len();
        let mut b: usize = 0;
        proof {
            assert(self@.bindings.skip(0) =~= self@.bindings);
        }
        while b < nb
            invariant
                0 <= b <= nb,
                nb == self.bindings.len(),
                spec_find_action(self@.bindings, operation_name@) == spec_find_action(
                    self@.bindings.skip(b as int),
                    operation_name@,
                ),
            decreases nb - b,
        {
            let ops = &self.bindings[b].operations;
            let no = ops.len();
            let mut i: usize = 0;
            while i < no
                invariant
                    0 <= i <= no,
                    0 <= b < nb,
                    nb == self.bindings.len(),
                    no == ops.len(),
                    ops == &self.bindings[b as int].operations,
                    spec_find_action(self@.bindings, operation_name@) == spec_find_action(
                        self@.bindings.skip(b as int),
                        operation_name@,
                    ),
                    forall|j: int|
                        0 <= j < i ==> !(ops.deep_view()[j].name == operation_name@
                            && ops.deep_view()[j].soap_action is Some),
                decreases no - i,
            {
                if string_eq_str(&ops[i].name, operation_name) {
                    match &ops[i].soap_action {
                        Some(a) => {
                            proof {
                                assert(ops.deep_view()[i as int] == ops[i as int]@);
                                assert(ops[i as int]@.soap_action == Some(a@));
                                lemma_action_in_ops_at(
                                    ops.deep_view(),
                                    operation_name@,
                                    i as int,
                                );
                                assert(self.bindings.deep_view()[b as int] == self.bindings[
                                b as int]@);
                                assert(self@.bindings[b as int].operations == ops.deep_view());
                                assert(self@.bindings.skip(b as int)[0] == self@.bindings[
                                b as int]);
                                assert(spec_find_action(
                                    self@.bindings.skip(b as int),
                                    operation_name@,
                                ) == Some(a@));
                            }
                            return Some(crate::model::clone_string_of(a));
                        },
                        None => {},
                    }
                }
                i += 1;
            }
            proof {
                lemma_action_in_ops_absent(ops.deep_view(), operation_name@);
                assert(self.bindings.deep_view()[b as int] == self.bindings[b as int]@);
                assert(self@.bindings[b as int].operations == ops.deep_view());
                assert(self@.bindings.skip(b as int)[0] == self@.bindings[b as int]);
                assert(self@.bindings.skip(b as int).drop_first() =~= self@.bindings.skip(
                    b + 1,
                ));
            }
            b += 1;
        }
        None
    }
}

} // verus!
