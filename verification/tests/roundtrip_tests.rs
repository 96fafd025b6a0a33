use rec::object_to_rec_string;
use rec::parse_rec;
use rec::to_rec_string;
use rec::RecValue;

fn roundtrips(input: &str) {
    let doc = parse_rec(input).unwrap();
    let printed = object_to_rec_string(&doc.root);
    let again = parse_rec(&printed).unwrap();
    assert_eq!(doc.root, again.root, "printed form: {}", printed);
}

#[test]
fn scalars_round_trip() {
    roundtrips(r#"{ a: 1, b: -7, c: "text", d: 3.14, e: -0.5, f: true, g: false, h: null }"#);
}

#[test]
fn tagged_scalars_round_trip() {
    roundtrips(r#"{ u: url("https://x"), s: socket("1.2.3.4:80"), k: pubkey("abc") }"#);
}

#[test]
fn nested_structures_round_trip() {
    roundtrips(r#"{ xs: [1, [2, 3], { a: "b" }], o: { p: { q: [] } } }"#);
}

#[test]
fn enum_variants_round_trip() {
    roundtrips(r#"{ a: Color.Red, b: Pair.Of(1, "x"), c: Db.Pg { host: "h", port: 1 } }"#);
}

#[test]
fn empty_object_rounds_trip() {
    roundtrips("{}");
}

#[test]
fn printed_int_is_canonical() {
    let doc = parse_rec("{ a: -42 }").unwrap();
    let v = doc.root.get("a").unwrap();
    assert_eq!(to_rec_string(v), "-42");
}

#[test]
fn printed_string_is_quoted() {
    assert_eq!(
        to_rec_string(&RecValue::String("hi".to_string())),
        "\"hi\""
    );
}

#[test]
fn printed_object_has_commas_and_spaces() {
    let doc = parse_rec("{ a: 1\n b: [true, null] }").unwrap();
    assert_eq!(object_to_rec_string(&doc.root), "{a: 1, b: [true, null]}");
}
