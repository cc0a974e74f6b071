use soapus_codegen::codegen::generate_all;
use soapus_codegen::model::AttributeUse;
use soapus_codegen::names::{sanitize_identifier, to_pascal_case, to_snake_case};
use soapus_codegen::qname::QName;
use soapus_codegen::type_mapper::TypeMapper;
use soapus_codegen::wsdl_parser::parse_wsdl_text;
use soapus_codegen::xsd_parser::{parse_schema_text, parse_u32};

#[test]
fn test_snake_case_conversion() {
    assert_eq!(to_snake_case("userName"), "user_name");
    assert_eq!(to_snake_case("Code"), "code");
    assert_eq!(to_snake_case("getAllVersions"), "get_all_versions");
    assert_eq!(to_snake_case("key"), "key");
    assert_eq!(to_snake_case(""), "");
}

#[test]
fn test_pascal_case_conversion() {
    assert_eq!(to_pascal_case("getAllVersions"), "GetAllVersions");
    assert_eq!(to_pascal_case("user_name"), "UserName");
    assert_eq!(to_pascal_case("string"), "String");
    assert_eq!(to_pascal_case("US Dollar"), "USDollar");
}

#[test]
fn test_sanitize_identifier_keywords_and_digits() {
    assert_eq!(sanitize_identifier("type"), "type_");
    assert_eq!(sanitize_identifier("match"), "match_");
    assert_eq!(sanitize_identifier("3d"), "_3d");
    assert_eq!(sanitize_identifier("a-b"), "a_b");
    assert_eq!(sanitize_identifier(""), "field");
    assert_eq!(sanitize_identifier("plain"), "plain");
}

#[test]
fn test_type_mapper_builtins() {
    let m = TypeMapper::new();
    assert_eq!(m.map_type(&QName::new("xs:string")), "String");
    assert_eq!(m.map_type(&QName::new("xs:int")), "i32");
    assert_eq!(m.map_type(&QName::new("xs:long")), "i64");
    assert_eq!(m.map_type(&QName::new("xs:boolean")), "bool");
    assert_eq!(m.map_type(&QName::new("xs:double")), "f64");
    assert_eq!(m.map_type(&QName::new("xs:float")), "f32");
    assert_eq!(m.map_type(&QName::new("xs:dateTime")), "String");
    // Prefix-insensitive and case-insensitive.
    assert_eq!(m.map_type(&QName::new("xsd:String")), "String");
    assert_eq!(m.map_type(&QName::new("INT")), "i32");
    // Unknown names fall back to the pascal-cased local name.
    assert_eq!(m.map_type(&QName::new("tns:orderLine")), "OrderLine");
}

#[test]
fn test_type_mapper_occurrence_algebra() {
    let m = TypeMapper::new();
    let q = QName::new("xs:string");
    assert_eq!(m.map_type_with_occurs(&q, Some(1), &None, false), "String");
    assert_eq!(m.map_type_with_occurs(&q, Some(0), &None, false), "Option<String>");
    assert_eq!(
        m.map_type_with_occurs(&q, Some(1), &Some("unbounded".to_string()), false),
        "Vec<String>"
    );
    assert_eq!(
        m.map_type_with_occurs(&q, Some(0), &Some("unbounded".to_string()), false),
        "Option<Vec<String>>"
    );
    // A literal count above one is repeated; one is not.
    assert_eq!(m.map_type_with_occurs(&q, Some(1), &Some("5".to_string()), false), "Vec<String>");
    assert_eq!(m.map_type_with_occurs(&q, Some(1), &Some("1".to_string()), false), "String");
    assert_eq!(m.map_type_with_occurs(&q, Some(1), &Some("01".to_string()), false), "String");
    // Nillable wraps like a minimum of zero.
    assert_eq!(m.map_type_with_occurs(&q, Some(1), &None, true), "Option<String>");
}

#[test]
fn test_type_mapper_attribute_usage() {
    let m = TypeMapper::new();
    let q = QName::new("xs:string");
    assert_eq!(m.map_attribute_type(&q, AttributeUse::Required), "String");
    assert_eq!(m.map_attribute_type(&q, AttributeUse::Optional), "Option<String>");
    assert_eq!(m.map_attribute_type(&q, AttributeUse::Prohibited), "Option<String>");
}

#[test]
fn test_parse_u32_values() {
    assert_eq!(parse_u32("0"), Some(0));
    assert_eq!(parse_u32("42"), Some(42));
    assert_eq!(parse_u32("4294967295"), Some(u32::MAX));
    assert_eq!(parse_u32("4294967296"), None);
    assert_eq!(parse_u32(""), None);
    assert_eq!(parse_u32("12a"), None);
}

#[test]
fn test_parse_schema_text_registers_types() {
    let xsd = "<xs:schema xmlns:xs=\"http://www.w3.org/2001/XMLSchema\" \
               targetNamespace=\"urn:x\" elementFormDefault=\"qualified\">\
               <xs:element name=\"user\" type=\"tns:User\"/>\
               <xs:complexType name=\"User\">\
               <xs:sequence>\
               <xs:element name=\"userName\" type=\"xs:string\"/>\
               <xs:element name=\"age\" type=\"xs:int\" minOccurs=\"0\"/>\
               </xs:sequence>\
               <xs:attribute name=\"id\" type=\"xs:string\" use=\"required\"/>\
               </xs:complexType>\
               <xs:simpleType name=\"Color\">\
               <xs:restriction base=\"xs:string\">\
               <xs:enumeration value=\"red\"/>\
               <xs:enumeration value=\"green\"/>\
               </xs:restriction>\
               </xs:simpleType>\
               </xs:schema>";
    let schema = parse_schema_text(xsd).unwrap();
    assert_eq!(schema.target_namespace.as_deref(), Some("urn:x"));
    assert_eq!(schema.element_form_default.as_deref(), Some("qualified"));
    assert_eq!(schema.elements.len(), 1);
    assert_eq!(schema.elements[0].0, "user");
    assert_eq!(schema.complex_types.len(), 1);
    let (name, ct) = &schema.complex_types[0];
    assert_eq!(name, "User");
    let seq = ct.sequence.as_ref().unwrap();
    assert_eq!(seq.elements.len(), 2);
    assert_eq!(seq.elements[0].name, "userName");
    assert_eq!(seq.elements[0].min_occurs, 1);
    assert_eq!(seq.elements[1].name, "age");
    assert_eq!(seq.elements[1].min_occurs, 0);
    assert_eq!(ct.attributes.len(), 1);
    assert_eq!(ct.attributes[0].name, "id");
    assert_eq!(ct.attributes[0].use_, AttributeUse::Required);
    assert_eq!(schema.simple_types.len(), 1);
    assert_eq!(schema.simple_types[0].0, "Color");
}

#[test]
fn test_parse_schema_text_malformed_stream_is_fatal() {
    assert!(parse_schema_text("<a><b></a>").is_err());
}

#[test]
fn test_parse_schema_anonymous_complex_type_dropped() {
    let xsd = "<schema><complexType><sequence/></complexType></schema>";
    let schema = parse_schema_text(xsd).unwrap();
    assert_eq!(schema.complex_types.len(), 0);
}

#[test]
fn test_parse_schema_later_definition_replaces_earlier() {
    let xsd = "<schema>\
               <complexType name=\"T\"><sequence>\
               <element name=\"a\" type=\"xs:string\"/>\
               </sequence></complexType>\
               <complexType name=\"T\"><sequence/></complexType>\
               </schema>";
    let schema = parse_schema_text(xsd).unwrap();
    assert_eq!(schema.complex_types.len(), 1);
    let seq = schema.complex_types[0].1.sequence.as_ref().unwrap();
    assert_eq!(seq.elements.len(), 0);
}

#[test]
fn test_parse_schema_unsupported_nested_content_skipped() {
    let xsd = "<schema><complexType name=\"T\">\
               <attribute name=\"k\" type=\"xs:string\">\
               <annotation><attribute name=\"inner\" type=\"xs:int\"/></annotation>\
               </attribute>\
               <sequence><element name=\"x\" type=\"xs:string\"/></sequence>\
               </complexType></schema>";
    let schema = parse_schema_text(xsd).unwrap();
    let (_, ct) = &schema.complex_types[0];
    // The nested attribute subtree is skipped whole: only `k` registers.
    assert_eq!(ct.attributes.len(), 1);
    assert_eq!(ct.attributes[0].name, "k");
    assert_eq!(ct.sequence.as_ref().unwrap().elements.len(), 1);
}

#[test]
fn test_parse_wsdl_text_end_to_end() {
    let wsdl = "<definitions targetNamespace=\"urn:calc\">\
        <types><schema elementFormDefault=\"qualified\">\
        <complexType name=\"add\"><sequence>\
        <element name=\"a\" type=\"xs:int\"/>\
        <element name=\"b\" type=\"xs:int\"/>\
        </sequence></complexType>\
        <complexType name=\"addResponse\"><sequence>\
        <element name=\"result\" type=\"xs:int\"/>\
        </sequence></complexType>\
        </schema></types>\
        <message name=\"add\"><part name=\"parameters\" element=\"tns:add\"/></message>\
        <message name=\"addResponse\"><part name=\"parameters\" element=\"tns:addResponse\"/></message>\
        <portType name=\"CalculatorPort\">\
        <operation name=\"add\">\
        <documentation>Adds two numbers.</documentation>\
        <input message=\"tns:add\"/><output message=\"tns:addResponse\"/>\
        </operation>\
        </portType>\
        <binding name=\"CalculatorBinding\" type=\"tns:CalculatorPort\">\
        <operation name=\"add\"><operation soapAction=\"urn:calc#add\"/></operation>\
        </binding>\
        <service name=\"Calculator\">\
        <port name=\"CalculatorPort\" binding=\"tns:CalculatorBinding\">\
        <address location=\"http://example.test/calc\"/>\
        </port></service>\
        </definitions>";
    let model = parse_wsdl_text(wsdl).unwrap();
    assert_eq!(model.target_namespace.as_deref(), Some("urn:calc"));
    assert_eq!(model.messages.len(), 2);
    assert_eq!(model.port_types.len(), 1);
    let op = &model.port_types[0].operations[0];
    assert_eq!(op.name, "add");
    assert_eq!(op.documentation.as_deref(), Some("Adds two numbers."));
    assert_eq!(model.bindings.len(), 1);
    assert_eq!(
        model.bindings[0].operations[0].soap_action.as_deref(),
        Some("urn:calc#add")
    );
    assert_eq!(model.services[0].name, "Calculator");
    assert_eq!(
        model.services[0].ports[0].location.as_deref(),
        Some("http://example.test/calc")
    );
    assert_eq!(model.schema.complex_types.len(), 2);

    let found = model.find_message(&QName::new("tns:add"));
    assert!(found.is_some());
    assert_eq!(found.unwrap().parts[0].element.as_ref().unwrap().as_str(), "tns:add");
    assert_eq!(model.find_soap_action("add").as_deref(), Some("urn:calc#add"));
    assert!(model.find_soap_action("missing").is_none());

    let code = generate_all(&model);
    assert!(code.contains("pub const TARGET_NAMESPACE: &str = \"urn:calc\";"));
    assert!(code.contains("pub const ELEMENT_FORM_QUALIFIED: bool = true;"));
    assert!(code.contains("pub struct Add"));
    assert!(code.contains("pub struct AddResponse"));
    assert!(code.contains("pub struct Calculator"));
    assert!(code.contains("pub async fn add(&self, request: Add) -> SoapResult<AddResponse>"));
    assert!(code.contains("/// Adds two numbers."));
    assert!(code.contains("urn:calc#add"));
    assert!(code.contains("use serde::{Deserialize, Serialize};"));
    assert!(code.contains("use soapus_runtime::{SoapClient, SoapResult};"));

    // Generating twice from the same model yields identical text.
    let again = generate_all(&model);
    assert_eq!(code, again);
}

#[test]
fn test_unresolvable_operation_degrades_to_unit_types() {
    let wsdl = "<definitions><portType name=\"P\">\
        <operation name=\"getAllVersions\">\
        <input message=\"tns:missing\"/><output message=\"tns:alsoMissing\"/>\
        </operation></portType></definitions>";
    let model = parse_wsdl_text(wsdl).unwrap();
    let code = generate_all(&model);
    assert!(code.contains("pub async fn get_all_versions(&self, request: ()) -> SoapResult<()>"));
    assert!(code.contains("/// Call the getAllVersions operation"));
    // No service is named, so the client type gets the fallback name.
    assert!(code.contains("pub struct Client"));
}

#[test]
fn test_parse_schema_all_group_folds_into_sequence() {
    let xsd = "<schema><complexType name=\"T\">\
               <all><element name=\"x\" type=\"xs:string\"/></all>\
               </complexType></schema>";
    let schema = parse_schema_text(xsd).unwrap();
    let (_, ct) = &schema.complex_types[0];
    let seq = ct.sequence.as_ref().unwrap();
    assert_eq!(seq.elements.len(), 1);
    assert_eq!(seq.elements[0].name, "x");
}

#[test]
fn test_parse_schema_empty_sequence_tag() {
    let xsd = "<schema><complexType name=\"T\"><sequence/></complexType></schema>";
    let schema = parse_schema_text(xsd).unwrap();
    let (_, ct) = &schema.complex_types[0];
    assert!(ct.sequence.as_ref().unwrap().elements.is_empty());
}

#[test]
fn test_parse_schema_element_without_type_dropped() {
    let xsd = "<schema><complexType name=\"T\"><sequence>\
               <element name=\"x\"/>\
               <element name=\"y\" type=\"xs:int\"/>\
               </sequence></complexType></schema>";
    let schema = parse_schema_text(xsd).unwrap();
    let (_, ct) = &schema.complex_types[0];
    let seq = ct.sequence.as_ref().unwrap();
    assert_eq!(seq.elements.len(), 1);
    assert_eq!(seq.elements[0].name, "y");
}

#[test]
fn test_parse_attribute_use_defaults_to_optional() {
    let xsd = "<schema><complexType name=\"T\">\
               <attribute name=\"a\" type=\"xs:string\"/>\
               <attribute name=\"b\" type=\"xs:string\" use=\"prohibited\"/>\
               <attribute name=\"c\" type=\"xs:string\" use=\"unknown\"/>\
               </complexType></schema>";
    let schema = parse_schema_text(xsd).unwrap();
    let (_, ct) = &schema.complex_types[0];
    assert_eq!(ct.attributes[0].use_, AttributeUse::Optional);
    assert_eq!(ct.attributes[1].use_, AttributeUse::Prohibited);
    assert_eq!(ct.attributes[2].use_, AttributeUse::Optional);
}
