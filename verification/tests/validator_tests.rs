use rec::parse_rec;
use rec::validate;
use rec::RecError;

fn check(input: &str) -> Result<(), RecError> {
    let doc = parse_rec(input).unwrap();
    validate(&doc)
}

// --- URLs -------------------------------------------------------------
#[test]
fn https_url_is_valid() {
    assert!(check(r#"{ u: url("https://x") }"#).is_ok());
}

#[test]
fn http_url_is_valid() {
    assert!(check(r#"{ u: url("http://example.com/path?q=1") }"#).is_ok());
}

#[test]
fn ftp_url_is_invalid() {
    assert!(matches!(
        check(r#"{ u: url("ftp://x") }"#),
        Err(RecError::InvalidUrl(_))
    ));
}

#[test]
fn unparseable_url_is_invalid() {
    assert!(matches!(
        check(r#"{ u: url("not a url") }"#),
        Err(RecError::InvalidUrl(_))
    ));
}

// --- Sockets ----------------------------------------------------------
#[test]
fn ipv4_socket_is_valid() {
    assert!(check(r#"{ s: socket("127.0.0.1:8080") }"#).is_ok());
}

#[test]
fn ipv6_socket_is_invalid() {
    assert!(matches!(
        check(r#"{ s: socket("::1:8080") }"#),
        Err(RecError::InvalidSocket(_))
    ));
}

#[test]
fn hostname_socket_is_invalid() {
    assert!(matches!(
        check(r#"{ s: socket("localhost:80") }"#),
        Err(RecError::InvalidSocket(_))
    ));
}

#[test]
fn socket_without_port_is_invalid() {
    assert!(matches!(
        check(r#"{ s: socket("127.0.0.1") }"#),
        Err(RecError::InvalidSocket(_))
    ));
}

#[test]
fn socket_octet_over_255_is_invalid() {
    assert!(matches!(
        check(r#"{ s: socket("256.0.0.1:80") }"#),
        Err(RecError::InvalidSocket(_))
    ));
}

#[test]
fn socket_port_over_65535_is_invalid() {
    assert!(matches!(
        check(r#"{ s: socket("1.2.3.4:65536") }"#),
        Err(RecError::InvalidSocket(_))
    ));
}

#[test]
fn socket_with_leading_zero_octet_is_invalid() {
    assert!(matches!(
        check(r#"{ s: socket("127.00.0.1:80") }"#),
        Err(RecError::InvalidSocket(_))
    ));
}

// --- Public keys --------------------------------------------------------
// A run of n `1` characters decodes, in Base58, to n zero bytes.
#[test]
fn pubkey_of_32_bytes_is_valid() {
    let input = format!("{{ k: pubkey(\"{}\") }}", "1".repeat(32));
    assert!(check(&input).is_ok());
}

#[test]
fn pubkey_of_31_bytes_is_invalid() {
    let input = format!("{{ k: pubkey(\"{}\") }}", "1".repeat(31));
    assert!(matches!(check(&input), Err(RecError::InvalidPubkey(_))));
}

#[test]
fn pubkey_of_33_bytes_is_invalid() {
    let input = format!("{{ k: pubkey(\"{}\") }}", "1".repeat(33));
    assert!(matches!(check(&input), Err(RecError::InvalidPubkey(_))));
}

#[test]
fn pubkey_longer_than_the_decoder_bound_is_invalid() {
    // A long run of `1` characters must come back as an invalid key, not
    // bring the process down inside the decoder.
    let input = format!("{{ k: pubkey(\"{}\") }}", "1".repeat(200));
    assert!(matches!(check(&input), Err(RecError::InvalidPubkey(_))));
    let input = format!("{{ k: pubkey(\"{}\") }}", "1".repeat(133));
    assert!(matches!(check(&input), Err(RecError::InvalidPubkey(_))));
}

#[test]
fn pubkey_that_is_not_base58_is_invalid() {
    assert!(matches!(
        check(r#"{ k: pubkey("0OIl") }"#),
        Err(RecError::InvalidPubkey(_))
    ));
}

#[test]
fn pubkey_error_messages_distinguish_the_two_cases() {
    let bad_len = check(&format!("{{ k: pubkey(\"{}\") }}", "1".repeat(31)));
    let bad_enc = check(r#"{ k: pubkey("0OIl") }"#);
    match (bad_len, bad_enc) {
        (Err(RecError::InvalidPubkey(a)), Err(RecError::InvalidPubkey(b))) => {
            assert_ne!(a, b);
        }
        other => panic!("expected two pubkey failures, got {:?}", other),
    }
}

// --- Enum variants ------------------------------------------------------
const DB_DECL: &str = "@enum Database { Postgres { host: string, port: int, ssl: bool } }";

#[test]
fn struct_variant_with_all_fields_is_valid() {
    let input = format!(
        "{} {{ db: Database.Postgres {{ host: \"h\", port: 1, ssl: true }} }}",
        DB_DECL
    );
    assert!(check(&input).is_ok());
}

#[test]
fn struct_variant_missing_required_field_fails() {
    let input = format!(
        "{} {{ db: Database.Postgres {{ host: \"h\", port: 1 }} }}",
        DB_DECL
    );
    match check(&input) {
        Err(RecError::MissingField(path)) => assert_eq!(path, "Database.Postgres.ssl"),
        other => panic!("expected a missing field, got {:?}", other),
    }
}

#[test]
fn struct_variant_with_undeclared_field_fails() {
    let input = format!(
        "{} {{ db: Database.Postgres {{ host: \"h\", port: 1, ssl: true, extra: 1 }} }}",
        DB_DECL
    );
    assert!(matches!(check(&input), Err(RecError::ValidationError(_))));
}

#[test]
fn undeclared_variant_fails() {
    let input = format!("{} {{ db: Database.MySQL }}", DB_DECL);
    match check(&input) {
        Err(RecError::UnknownEnumVariant { enum_name, variant }) => {
            assert_eq!(enum_name, "Database");
            assert_eq!(variant, "MySQL");
        }
        other => panic!("expected an unknown variant, got {:?}", other),
    }
}

#[test]
fn undeclared_enum_fails_as_unknown_type() {
    let input = format!("{} {{ db: Cache.Redis }}", DB_DECL);
    match check(&input) {
        Err(RecError::UnknownType(name)) => assert_eq!(name, "Cache"),
        other => panic!("expected an unknown type, got {:?}", other),
    }
}

#[test]
fn optional_struct_fields_may_be_absent() {
    let decl = "@enum E { V { a: int, b?: string } }";
    assert!(check(&format!("{} {{ x: E.V {{ a: 1 }} }}", decl)).is_ok());
}

// --- Tuple arity --------------------------------------------------------
const PAIR_DECL: &str = "@enum E { Variant(int, string) }";

#[test]
fn tuple_variant_with_exact_arity_is_valid() {
    assert!(check(&format!("{} {{ x: E.Variant(1, \"a\") }}", PAIR_DECL)).is_ok());
}

#[test]
fn tuple_variant_with_too_few_values_fails() {
    assert!(matches!(
        check(&format!("{} {{ x: E.Variant(1) }}", PAIR_DECL)),
        Err(RecError::ValidationError(_))
    ));
}

#[test]
fn tuple_variant_with_too_many_values_fails() {
    assert!(matches!(
        check(&format!("{} {{ x: E.Variant(1, \"a\", true) }}", PAIR_DECL)),
        Err(RecError::ValidationError(_))
    ));
}

#[test]
fn unit_variant_with_tuple_payload_fails() {
    assert!(matches!(
        check("@enum E { V } { x: E.V(1) }"),
        Err(RecError::ValidationError(_))
    ));
}

// --- Structure ----------------------------------------------------------
#[test]
fn nested_values_are_validated() {
    assert!(matches!(
        check(r#"{ xs: [1, { deep: url("ftp://x") }] }"#),
        Err(RecError::InvalidUrl(_))
    ));
}

#[test]
fn later_enum_declaration_wins() {
    let input = "@enum E { V(int) } @enum E { V } { x: E.V }";
    assert!(check(input).is_ok());
}

#[test]
fn plain_scalars_always_validate() {
    assert!(check(r#"{ a: 1, b: "s", c: 2.5, d: true, e: null, f: [1], g: { h: 2 } }"#).is_ok());
}
