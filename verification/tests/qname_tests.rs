use soapus_codegen::QName;

#[test]
fn test_qname_with_prefix() {
    let qname = QName::new("xs:string");
    assert_eq!(qname.prefix(), Some("xs"));
    assert_eq!(qname.local_name(), "string");
}

#[test]
fn test_qname_without_prefix() {
    let qname = QName::new("string");
    assert_eq!(qname.prefix(), None);
    assert_eq!(qname.local_name(), "string");
}

#[test]
fn test_qname_split() {
    let qname = QName::new("tns:MyType");
    let (prefix, local) = qname.split();
    assert_eq!(prefix, Some("tns"));
    assert_eq!(local, "MyType");
}

#[test]
fn test_qname_with_prefix_constructor() {
    let qname = QName::with_prefix("soap", "Envelope");
    assert_eq!(qname.as_str(), "soap:Envelope");
    assert_eq!(qname.prefix(), Some("soap"));
    assert_eq!(qname.local_name(), "Envelope");
}

#[test]
fn test_qname_empty() {
    let qname = QName::new("");
    assert!(qname.is_empty());
    assert_eq!(qname.local_name(), "");
    assert_eq!(qname.prefix(), None);
}

#[test]
fn test_qname_colon_only_prefix() {
    let qname = QName::new(":local");
    assert_eq!(qname.prefix(), Some(""));
    assert_eq!(qname.local_name(), "local");
}

#[test]
fn test_qname_two_colons_split_at_first() {
    let qname = QName::new("a:b:c");
    assert_eq!(qname.prefix(), Some("a"));
    assert_eq!(qname.local_name(), "b:c");
}
