use rec::parse_rec;
use rec::validate;
use rec::EnumVariantData;
use rec::RecError;
use rec::RecValue;

fn get_field<'a>(fields: &'a Vec<(String, RecValue)>, key: &str) -> Option<&'a RecValue> {
    fields.iter().find(|p| p.0 == key).map(|p| &p.1)
}

#[test]
fn test_parse_simple_config() {
    let input = r#"{
            name: "test"
            port: 8080
            enabled: true
        }"#;

    let doc = parse_rec(input).unwrap();
    assert_eq!(doc.root.get("name").unwrap().as_string().unwrap(), "test");
    assert_eq!(doc.root.get("port").unwrap().as_int().unwrap(), 8080);
}

#[test]
fn test_parse_struct_enums() {
    let input = r#"
        @enum Database {
            Postgres { host: string, port: int, ssl: bool }
            Redis { host: string, port: int }
        }

        {
            db: Database.Postgres {
                host: "localhost"
                port: 5432
                ssl: true
            }
        }"#;

    let doc = parse_rec(input).unwrap();
    validate(&doc).unwrap();

    match doc.root.get("db").unwrap() {
        RecValue::EnumVariant {
            enum_name,
            variant,
            data,
        } => {
            assert_eq!(enum_name, "Database");
            assert_eq!(variant, "Postgres");
            match data {
                EnumVariantData::Struct(fields) => {
                    assert_eq!(
                        get_field(fields, "host").unwrap().as_string().unwrap(),
                        "localhost"
                    );
                    assert_eq!(get_field(fields, "port").unwrap().as_int().unwrap(), 5432);
                    assert_eq!(get_field(fields, "ssl").unwrap(), &RecValue::Bool(true));
                }
                _ => panic!("Expected struct variant"),
            }
        }
        _ => panic!("Expected enum variant"),
    }
}

#[test]
fn float_parses_before_integer() {
    let doc = parse_rec("{ n: 3.14 }").unwrap();
    match doc.root.get("n").unwrap() {
        RecValue::Float(f) => {
            assert!(!f.neg);
            assert_eq!(f.whole, "3");
            assert_eq!(f.frac, "14");
        }
        other => panic!("expected a float value, got {:?}", other),
    }
}

#[test]
fn negative_numbers() {
    let doc = parse_rec("{ a: -42, b: -0.5 }").unwrap();
    assert_eq!(doc.root.get("a").unwrap().as_int().unwrap(), -42);
    match doc.root.get("b").unwrap() {
        RecValue::Float(f) => {
            assert!(f.neg);
            assert_eq!(f.whole, "0");
            assert_eq!(f.frac, "5");
        }
        other => panic!("expected a float value, got {:?}", other),
    }
}

#[test]
fn trailing_commas_object_array_tuple() {
    let with = parse_rec("@enum E { V(int) } { a: 1, xs: [1, 2, ], t: E.V(1, ) }").unwrap();
    let without = parse_rec("@enum E { V(int) } { a: 1, xs: [1, 2], t: E.V(1) }").unwrap();
    assert_eq!(with.root, without.root);

    let obj_trailing = parse_rec("{ a: 1, }").unwrap();
    let obj_plain = parse_rec("{ a: 1 }").unwrap();
    assert_eq!(obj_trailing.root, obj_plain.root);
}

#[test]
fn integer_overflow_is_a_parse_error() {
    match parse_rec("{ a: 99999999999999999999 }") {
        Err(RecError::ParseError(_)) => {}
        other => panic!("expected a parse error, got {:?}", other),
    }
}

#[test]
fn malformed_documents_are_rejected() {
    assert!(matches!(parse_rec("{ a: }"), Err(RecError::ParseError(_))));
    assert!(matches!(parse_rec("{ a 1 }"), Err(RecError::ParseError(_))));
    assert!(matches!(parse_rec(""), Err(RecError::ParseError(_))));
    assert!(matches!(parse_rec("{ s: \"unterminated }"), Err(RecError::ParseError(_))));
}

#[test]
fn tagged_scalars_parse() {
    let doc = parse_rec(r#"{ u: url("https://x"), s: socket("1.2.3.4:80"), k: pubkey("abc") }"#)
        .unwrap();
    assert_eq!(
        doc.root.get("u").unwrap(),
        &RecValue::Url("https://x".to_string())
    );
    assert_eq!(
        doc.root.get("s").unwrap(),
        &RecValue::Socket("1.2.3.4:80".to_string())
    );
    assert_eq!(
        doc.root.get("k").unwrap(),
        &RecValue::Pubkey("abc".to_string())
    );
}

#[test]
fn unit_and_tuple_variants_parse() {
    let doc = parse_rec(r#"{ a: Color.Red, b: Pair.Of(1, "x") }"#).unwrap();
    match doc.root.get("a").unwrap() {
        RecValue::EnumVariant {
            enum_name,
            variant,
            data,
        } => {
            assert_eq!(enum_name, "Color");
            assert_eq!(variant, "Red");
            assert_eq!(data, &EnumVariantData::Unit);
        }
        other => panic!("expected an enum variant, got {:?}", other),
    }
    match doc.root.get("b").unwrap() {
        RecValue::EnumVariant { data, .. } => match data {
            EnumVariantData::Tuple(vals) => {
                assert_eq!(vals.len(), 2);
                assert_eq!(vals[0], RecValue::Int(1));
                assert_eq!(vals[1], RecValue::String("x".to_string()));
            }
            other => panic!("expected a tuple payload, got {:?}", other),
        },
        other => panic!("expected an enum variant, got {:?}", other),
    }
}

#[test]
fn typed_object_tag_is_discarded() {
    let tagged = parse_rec("{ cfg: ServerConfig { port: 1 } }").unwrap();
    let plain = parse_rec("{ cfg: { port: 1 } }").unwrap();
    assert_eq!(tagged.root, plain.root);
}

#[test]
fn duplicate_object_keys_keep_last_value_in_place() {
    let doc = parse_rec("{ a: 1, b: 2, a: 3 }").unwrap();
    assert_eq!(doc.root.fields.len(), 2);
    assert_eq!(doc.root.fields[0].0, "a");
    assert_eq!(doc.root.fields[0].1, RecValue::Int(3));
    assert_eq!(doc.root.fields[1].0, "b");
}

#[test]
fn inclusion_directives_are_recorded_in_order() {
    let input = format!(
        "{}{} \"first.rec\" {}{} \"second.rec\" {{ a: 1 }}",
        "#incl", "ude", "#incl", "ude"
    );
    let doc = parse_rec(&input).unwrap();
    assert_eq!(doc.inclusions, vec!["first.rec".to_string(), "second.rec".to_string()]);
}

#[test]
fn type_declarations_are_parsed() {
    let doc = parse_rec("@type Server { host: string, port?: int, tags: [string] } { a: 1 }")
        .unwrap();
    assert_eq!(doc.type_definitions.len(), 1);
    let td = &doc.type_definitions[0];
    assert_eq!(td.name, "Server");
    assert_eq!(td.fields.len(), 3);
    assert_eq!(td.fields[0].0, "host");
    assert!(!td.fields[0].1.optional);
    assert_eq!(td.fields[1].0, "port");
    assert!(td.fields[1].1.optional);
    assert_eq!(
        td.fields[2].1.ty,
        rec::RecType::Array(Box::new(rec::RecType::String))
    );
}

#[test]
fn trailing_text_after_root_is_ignored() {
    let doc = parse_rec("{ a: 1 } trailing garbage").unwrap();
    assert_eq!(doc.root.get("a").unwrap().as_int().unwrap(), 1);
}
