use soapus_codegen::codegen::{generate_complex_type, generate_operation_method,
    generate_simple_type_enum};
use soapus_codegen::model::{Attribute, AttributeUse, ComplexType, Restriction, Sequence,
    SequenceElement, SimpleType};
use soapus_codegen::qname::QName;
use soapus_codegen::type_mapper::TypeMapper;
use soapus_codegen::wsdl::{PortTypeOperation, WsdlModel};

#[test]
fn test_generate_simple_struct() {
    let complex_type = ComplexType {
        sequence: Some(Sequence {
            elements: vec![SequenceElement {
                name: "userName".to_string(),
                type_: QName::new("xs:string"),
                min_occurs: 1,
                max_occurs: None,
                nillable: false,
            }],
        }),
        ..Default::default()
    };

    let type_mapper = TypeMapper::new();
    let code = generate_complex_type("User", &complex_type, &type_mapper);

    assert!(code.contains("pub struct User"));
    assert!(code.contains("pub user_name: String"));
    assert!(code.contains("#[serde(rename = \"userName\")]"));
    assert!(code.contains("PartialEq"));
}

#[test]
fn test_generate_empty_struct() {
    let complex_type = ComplexType::default();
    let type_mapper = TypeMapper::new();
    let code = generate_complex_type("EmptyType", &complex_type, &type_mapper);

    assert!(code.contains("pub struct EmptyType"));
    assert!(code.contains("Default"));
    assert!(code.contains("PartialEq"));
}

#[test]
fn test_generate_struct_with_optional_field() {
    let complex_type = ComplexType {
        sequence: Some(Sequence {
            elements: vec![SequenceElement {
                name: "optionalField".to_string(),
                type_: QName::new("xs:string"),
                min_occurs: 0,
                max_occurs: None,
                nillable: false,
            }],
        }),
        ..Default::default()
    };

    let type_mapper = TypeMapper::new();
    let code = generate_complex_type("TestType", &complex_type, &type_mapper);

    assert!(code.contains("pub optional_field: Option<String>"));
}

#[test]
fn test_generate_struct_with_array_field() {
    let complex_type = ComplexType {
        sequence: Some(Sequence {
            elements: vec![SequenceElement {
                name: "items".to_string(),
                type_: QName::new("xs:string"),
                min_occurs: 0,
                max_occurs: Some("unbounded".to_string()),
                nillable: false,
            }],
        }),
        ..Default::default()
    };

    let type_mapper = TypeMapper::new();
    let code = generate_complex_type("TestType", &complex_type, &type_mapper);

    assert!(code.contains("pub items: Option<Vec<String>>"));
}

#[test]
fn test_generate_struct_with_float_no_eq() {
    let complex_type = ComplexType {
        sequence: Some(Sequence {
            elements: vec![SequenceElement {
                name: "price".to_string(),
                type_: QName::new("xs:double"),
                min_occurs: 1,
                max_occurs: None,
                nillable: false,
            }],
        }),
        ..Default::default()
    };

    let type_mapper = TypeMapper::new();
    let code = generate_complex_type("Product", &complex_type, &type_mapper);

    assert!(code.contains("pub price: f64"));
    assert!(code.contains("PartialEq"));
}

#[test]
fn test_generate_struct_with_multiple_fields() {
    let complex_type = ComplexType {
        sequence: Some(Sequence {
            elements: vec![
                SequenceElement {
                    name: "Code".to_string(),
                    type_: QName::new("xs:int"),
                    min_occurs: 1,
                    max_occurs: None,
                    nillable: false,
                },
                SequenceElement {
                    name: "Message".to_string(),
                    type_: QName::new("xs:string"),
                    min_occurs: 1,
                    max_occurs: None,
                    nillable: false,
                },
            ],
        }),
        ..Default::default()
    };

    let type_mapper = TypeMapper::new();
    let code = generate_complex_type("ServiceException", &complex_type, &type_mapper);

    assert!(code.contains("pub struct ServiceException"));
    assert!(code.contains("pub code: i32"));
    assert!(code.contains("pub message: String"));
    assert!(code.contains("#[serde(rename = \"Code\")]"));
    assert!(code.contains("#[serde(rename = \"Message\")]"));
}

#[test]
fn test_generate_struct_with_attributes() {
    let complex_type = ComplexType {
        sequence: Some(Sequence { elements: vec![] }),
        attributes: vec![
            Attribute {
                name: "key".to_string(),
                type_: QName::new("xs:string"),
                use_: AttributeUse::Optional,
            },
            Attribute {
                name: "value".to_string(),
                type_: QName::new("xs:string"),
                use_: AttributeUse::Optional,
            },
        ],
        ..Default::default()
    };

    let type_mapper = TypeMapper::new();
    let code = generate_complex_type("MapElements", &complex_type, &type_mapper);

    assert!(code.contains("pub struct MapElements"));
    assert!(code.contains("#[serde(rename = \"@key\")]"));
    assert!(code.contains("pub key: Option<String>"));
    assert!(code.contains("#[serde(rename = \"@value\")]"));
    assert!(code.contains("pub value: Option<String>"));
    assert!(!code.contains("Default"));
}

#[test]
fn test_generate_struct_with_required_attribute() {
    let complex_type = ComplexType {
        sequence: None,
        attributes: vec![Attribute {
            name: "id".to_string(),
            type_: QName::new("xs:string"),
            use_: AttributeUse::Required,
        }],
        ..Default::default()
    };

    let type_mapper = TypeMapper::new();
    let code = generate_complex_type("Entity", &complex_type, &type_mapper);

    assert!(code.contains("pub struct Entity"));
    assert!(code.contains("#[serde(rename = \"@id\")]"));
    assert!(code.contains("pub id: String"));
    assert!(!code.contains("pub id: Option<String>"));
}

#[test]
fn test_generate_operation_method() {
    let operation = PortTypeOperation {
        name: "getAllVersions".to_string(),
        input: Some(QName::new("tns:getAllVersions")),
        output: Some(QName::new("tns:getAllVersionsResponse")),
        faults: vec![],
        documentation: None,
    };

    let wsdl = WsdlModel::default();
    let type_mapper = TypeMapper::new();

    let code = generate_operation_method(&operation, &wsdl, &type_mapper);

    assert!(code.contains("pub async fn get_all_versions"));
    assert!(code.contains("GetAllVersions") || code.contains("()"));
    assert!(code.contains("GetAllVersionsResponse") || code.contains("()"));
    assert!(code.contains("SoapResult"));
    assert!(code.contains("/// Call the getAllVersions operation"));
}

#[test]
fn test_generate_enum_from_enumeration_facets() {
    let st = SimpleType::Restriction {
        base: QName::new("xs:string"),
        restrictions: vec![
            Restriction::Enumeration("Africa".to_string()),
            Restriction::Enumeration("Europe".to_string()),
        ],
    };
    let code = generate_simple_type_enum("TContinent", &st).unwrap();
    assert!(code.contains("pub enum TContinent"));
    assert!(code.contains("#[serde(rename = \"Africa\")]"));
    assert!(code.contains("Africa,"));
    assert!(code.contains("#[serde(rename = \"Europe\")]"));
    assert!(code.contains("Europe,"));
}

#[test]
fn test_generate_enum_without_enumerations_yields_nothing() {
    let st = SimpleType::Restriction {
        base: QName::new("xs:string"),
        restrictions: vec![Restriction::MaxLength(10)],
    };
    assert!(generate_simple_type_enum("Plain", &st).is_none());
}

#[test]
fn test_generate_enum_list_and_union_yield_nothing() {
    let list = SimpleType::List { item_type: QName::new("xs:int") };
    assert!(generate_simple_type_enum("Numbers", &list).is_none());
    let union = SimpleType::Union { member_types: vec![QName::new("xs:int")] };
    assert!(generate_simple_type_enum("Mixed", &union).is_none());
}

#[test]
fn test_operation_documentation_reproduced_line_by_line() {
    let operation = PortTypeOperation {
        name: "ping".to_string(),
        input: None,
        output: None,
        faults: vec![],
        documentation: Some("  First line \n\n  Second line\n".to_string()),
    };
    let wsdl = WsdlModel::default();
    let type_mapper = TypeMapper::new();
    let code = generate_operation_method(&operation, &wsdl, &type_mapper);
    assert!(code.contains("    /// First line\n"));
    assert!(code.contains("    /// Second line\n"));
    // The blank line between the two is suppressed.
    assert!(!code.contains("///  \n"));
}

#[test]
fn test_generation_is_idempotent() {
    let complex_type = ComplexType {
        sequence: Some(Sequence {
            elements: vec![SequenceElement {
                name: "userName".to_string(),
                type_: QName::new("xs:string"),
                min_occurs: 1,
                max_occurs: None,
                nillable: false,
            }],
        }),
        ..Default::default()
    };
    let type_mapper = TypeMapper::new();
    let first = generate_complex_type("User", &complex_type, &type_mapper);
    let second = generate_complex_type("User", &complex_type, &type_mapper);
    assert_eq!(first, second);
}

#[test]
fn test_required_enumeration_free_string_element_end_to_end() {
    let complex_type = ComplexType {
        sequence: Some(Sequence {
            elements: vec![SequenceElement {
                name: "userName".to_string(),
                type_: QName::new("xs:string"),
                min_occurs: 1,
                max_occurs: None,
                nillable: false,
            }],
        }),
        ..Default::default()
    };
    let type_mapper = TypeMapper::new();
    let code = generate_complex_type("Request", &complex_type, &type_mapper);
    assert!(code.contains("pub user_name: String,"));
    assert!(!code.contains("Option<String>"));
    assert!(code.contains("#[serde(rename = \"userName\")]"));
}

#[test]
fn test_prohibited_attribute_emitted_as_optional() {
    let complex_type = ComplexType {
        sequence: None,
        attributes: vec![Attribute {
            name: "hidden".to_string(),
            type_: QName::new("xs:string"),
            use_: AttributeUse::Prohibited,
        }],
        ..Default::default()
    };
    let type_mapper = TypeMapper::new();
    let code = generate_complex_type("T", &complex_type, &type_mapper);
    assert!(code.contains("pub hidden: Option<String>"));
}

#[test]
fn test_struct_name_rename_when_case_differs() {
    let complex_type = ComplexType::default();
    let type_mapper = TypeMapper::new();
    let code = generate_complex_type("userRecord", &complex_type, &type_mapper);
    assert!(code.contains("#[serde(rename = \"userRecord\")]"));
    assert!(code.contains("pub struct UserRecord"));
    // A name already in pascal case carries no struct-level rename.
    let other = generate_complex_type("User", &ComplexType::default(), &type_mapper);
    assert!(!other.contains("#[serde(rename = \"User\")]"));
}
