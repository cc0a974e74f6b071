//! Compiles a web-service description (WSDL with embedded XML Schema) into
//! Rust client code: one struct per complex type, one enum per enumeration
//! simple type, and one client method per operation.

pub mod codegen;
pub mod model;
pub mod names;
pub mod qname;
pub mod text;
pub mod type_mapper;
pub mod wsdl;
pub mod wsdl_parser;
pub mod xml;
pub mod xsd_parser;

pub use qname::QName;
