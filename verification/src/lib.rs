//! A parser and validator for REC, a typed, human-writable configuration
//! language: schema declarations (`@type`, `@enum`), one root object
//! literal, and semantically constrained scalars (URLs, IPv4 socket
//! addresses, Base58 public keys).
pub mod ast;
pub mod chars;
pub mod grammar;
pub mod lexer;
pub mod parser;
pub mod printer;
pub mod roundtrip;
pub mod validator;
pub mod value;

pub use ast::EnumDef;
pub use ast::EnumVariant;
pub use ast::EnumVariantData;
pub use ast::FieldDef;
pub use ast::FloatLit;
pub use ast::RecDocument;
pub use ast::RecError;
pub use ast::RecObject;
pub use ast::RecType;
pub use ast::RecValue;
pub use ast::TypeDef;
pub use parser::parse_rec;
pub use validator::validate;
pub use printer::to_rec_string;
pub use printer::object_to_rec_string;
pub use value::RecDeserialize;
