//! The validator: a pure, read-only pass over an assembled document that
//! checks enum-variant values against their declarations and the three
//! semantically constrained scalar kinds.
//!
//! What each scalar check means:
//! - a URL is valid when it parses as an absolute URL whose scheme is
//!   exactly `http` or `https` (the parser lowercases the scheme);
//! - a socket address is valid when it is a literal IPv4 `a.b.c.d:port`
//!   form: four decimal octets up to 255 with no leading zeros, and a
//!   decimal port up to 65535 (leading zeros tolerated);
//! - a public key is valid when it decodes as Base58 to exactly 32 bytes.
use vstd::prelude::*;
use vstd::string::StrSliceExecFns;
use crate::ast::DataS;
use crate::ast::EnumDef;
use crate::ast::EnumDefS;
use crate::ast::EnumVariant;
use crate::ast::EnumVariantData;
use crate::ast::FieldDefS;
use crate::ast::RecDocument;
use crate::ast::RecError;
use crate::ast::RecObject;
use crate::ast::RecValue;
use crate::ast::ValS;
use crate::ast::VariantS;
use crate::ast::find_variant;
use crate::ast::first_variant_index;
use crate::ast::lemma_view_enum_defs;
use crate::ast::lemma_view_field_defs;
use crate::ast::lemma_view_val_fields;
use crate::ast::lemma_view_vals;
use crate::ast::lookup_enum;
use crate::ast::variant_name;
use crate::ast::view_enum_defs;
use crate::ast::view_field_defs;
use crate::ast::view_val_fields;
use crate::ast::view_vals;
use crate::ast::view_variants;
use crate::ast::lemma_view_variants;
use crate::chars::str_eq;
use crate::chars::to_chars;
use crate::grammar::digits_end;
use crate::grammar::digits_val;
use crate::grammar::has_key;
use crate::grammar::is_digit;
use crate::grammar::sp_ch;
use crate::lexer::p_ch;
use crate::lexer::p_digits_end;
use crate::lexer::p_digits_val;
use crate::lexer::lemma_digits_run;

verus! {

// ---------------------------------------------------------------------------
// The three constrained scalar kinds.
// ---------------------------------------------------------------------------
/// What `url::Url::parse` returns for a given string: `None` when the
/// string is not an absolute URL, otherwise its (lowercased) scheme.
pub uninterp spec fn url_scheme_of(s: Seq<char>) -> Option<Seq<char>>;

/// Relies on `url::Url::parse` and `url::Url::scheme`: whether a string
/// parses as an absolute URL, and which scheme it carries, are functions of
/// the characters alone.
#[verifier::external_body]
fn parse_url_scheme(s: &str) -> (r: Option<String>)
    ensures
        match r {
            Some(sch) => url_scheme_of(s@) == Some(sch@),
            None => url_scheme_of(s@) is None,
        },
{
    match url::Url::parse(s) {
        Ok(u) => Some(u.scheme().to_string()),
        Err(_) => None,
    }
}

/// What `base58::FromBase58::from_base58` returns for a given string:
/// `None` when the string is not valid Base58, otherwise the decoded bytes.
pub uninterp spec fn base58_decode_of(s: Seq<char>) -> Option<Seq<u8>>;

/// Relies on `base58::FromBase58::from_base58` for `str`: the decoding is
/// a function of the characters alone.
///
/// The length bound keeps out the inputs on which the crate panics: its
/// final step subtracts the count of leading `1` characters from the count
/// of leading zero bytes in a fixed 132-byte buffer, which underflows once
/// the leading `1`s plus the decoded number bytes exceed 132.  A string
/// with a character outside ASCII returns an error before that point, so
/// any admitted string is all ASCII, and at most 128 characters means at
/// most 128 bytes of input and so at most 128 decoded bytes.
#[verifier::external_body]
fn base58_decode(s: &str) -> (r: Option<Vec<u8>>)
    requires
        s@.len() <= 128,
    ensures
        match r {
            Some(b) => base58_decode_of(s@) == Some(b@),
            None => base58_decode_of(s@) is None,
        },
{
    match base58::FromBase58::from_base58(s) {
        Ok(b) => Some(b),
        Err(_) => None,
    }
}

pub open spec fn scheme_http() -> Seq<char> {
    seq!['h', 't', 't', 'p']
}

pub open spec fn scheme_https() -> Seq<char> {
    seq!['h', 't', 't', 'p', 's']
}

/// A URL value is valid iff it parses and its scheme is exactly `http` or
/// `https`.
pub open spec fn url_ok(s: Seq<char>) -> bool {
    match url_scheme_of(s) {
        Some(sch) => sch == scheme_http() || sch == scheme_https(),
        None => false,
    }
}

/// A public key is valid iff it decodes as Base58 to exactly 32 bytes.
/// Strings over 128 characters are invalid outright: a 32-byte key is at
/// most 45 Base58 characters, and the bound keeps the decoder away from
/// the inputs on which it panics.
pub open spec fn pubkey_ok(s: Seq<char>) -> bool {
    s.len() <= 128 && match base58_decode_of(s) {
        Some(b) => b.len() == 32,
        None => false,
    }
}

/// One decimal octet: one to three digits, no leading zero, value at most
/// 255.  Returns the position after the octet.
pub open spec fn sp_octet(s: Seq<char>, i: int) -> Option<int> {
    if 0 <= i <= s.len() {
        let k = digits_end(s, i);
        if k > i && k - i <= 3 && (k - i == 1 || s[i] != '0') && digits_val(
            s.subrange(i, k),
        ) <= 255 {
            Some(k)
        } else {
            None
        }
    } else {
        None
    }
}

/// The port: at least one digit, reaching the end of the string, value at
/// most 65535.  Leading zeros are tolerated.
pub open spec fn sp_port(s: Seq<char>, i: int) -> bool {
    if 0 <= i <= s.len() {
        let k = digits_end(s, i);
        k > i && k == s.len() && digits_val(s.subrange(i, k)) <= 65535
    } else {
        false
    }
}

/// A socket value is valid iff it is a literal IPv4 `a.b.c.d:port` form.
pub open spec fn socket_ok(s: Seq<char>) -> bool {
    match sp_octet(s, 0) {
        None => false,
        Some(a) => if sp_ch(s, a, '.') {
            match sp_octet(s, a + 1) {
                None => false,
                Some(b) => if sp_ch(s, b, '.') {
                    match sp_octet(s, b + 1) {
                        None => false,
                        Some(c) => if sp_ch(s, c, '.') {
                            match sp_octet(s, c + 1) {
                                None => false,
                                Some(d) => sp_ch(s, d, ':') && sp_port(s, d + 1),
                            }
                        } else {
                            false
                        },
                    }
                } else {
                    false
                },
            }
        } else {
            false
        },
    }
}

/// Scan one octet of `s` starting at `i`.
fn p_octet(s: &Vec<char>, i: usize) -> (r: Option<usize>)
    requires
        i <= s@.len(),
    ensures
        match r {
            Some(k) => sp_octet(s@, i as int) == Some(k as int) && i < k <= s@.len(),
            None => sp_octet(s@, i as int) is None,
        },
{
    let k = p_digits_end(s, i);
    if k == i || k - i > 3 {
        return None;
    }
    if k - i > 1 && s[i] == '0' {
        return None;
    }
    proof {
        assert forall|m: int| i <= m < k implies is_digit(s@[m]) by {
            lemma_digits_run(s@, i as int, m);
        }
    }
    match p_digits_val(s, i, k) {
        None => {
            proof {
                assert(digits_val(s@.subrange(i as int, k as int)) > 255);
            }
            None
        },
        Some(v) => {
            if v <= 255 {
                Some(k)
            } else {
                None
            }
        },
    }
}

/// Scan the port part of `s` starting at `i`; it must reach the end.
fn p_port(s: &Vec<char>, i: usize) -> (r: bool)
    requires
        i <= s@.len(),
    ensures
        r == sp_port(s@, i as int),
{
    let n = s.len();
    let k = p_digits_end(s, i);
    if k == i || k != n {
        return false;
    }
    proof {
        assert forall|m: int| i <= m < k implies is_digit(s@[m]) by {
            lemma_digits_run(s@, i as int, m);
        }
    }
    match p_digits_val(s, i, k) {
        None => {
            proof {
                assert(digits_val(s@.subrange(i as int, k as int)) > 65535);
            }
            false
        },
        Some(v) => v <= 65535,
    }
}

/// Check a socket address string against the IPv4 `host:port` form.
pub fn socket_valid(addr: &str) -> (r: bool)
    ensures
        r == socket_ok(addr@),
{
    let cs = to_chars(addr);
    match p_octet(&cs, 0) {
        None => false,
        Some(a) => {
            if p_ch(&cs, a, '.') {
                match p_octet(&cs, a + 1) {
                    None => false,
                    Some(b) => {
                        if p_ch(&cs, b, '.') {
                            match p_octet(&cs, b + 1) {
                                None => false,
                                Some(c) => {
                                    if p_ch(&cs, c, '.') {
                                        match p_octet(&cs, c + 1) {
                                            None => false,
                                            Some(d) => p_ch(&cs, d, ':') && p_port(&cs, d + 1),
                                        }
                                    } else {
                                        false
                                    }
                                },
                            }
                        } else {
                            false
                        }
                    },
                }
            } else {
                false
            }
        },
    }
}

/// Check whether a scheme string is exactly `http` or `https`.
pub fn scheme_accepted(sch: &str) -> (r: bool)
    ensures
        r == (sch@ == scheme_http() || sch@ == scheme_https()),
{
    proof {
        reveal_strlit("http");
        reveal_strlit("https");
        assert("http"@ =~= scheme_http());
        assert("https"@ =~= scheme_https());
    }
    str_eq(sch, "http") || str_eq(sch, "https")
}

// ---------------------------------------------------------------------------
// The validation pass, stated mathematically.
// ---------------------------------------------------------------------------
/// The first failure a validation walk finds, if any.
pub ghost enum VErrS {
    UnknownTypeE(Seq<char>),
    UnknownVariantE(Seq<char>, Seq<char>),
    ShapeE(Seq<char>, Seq<char>),
    ArityE(Seq<char>, Seq<char>, int, int),
    UnknownFieldE(Seq<char>, Seq<char>, Seq<char>),
    MissingFieldE(Seq<char>, Seq<char>, Seq<char>),
    BadUrlE(Seq<char>),
    BadSocketE(Seq<char>),
    BadPubkeyLongE(Seq<char>),
    BadPubkeyDecodeE(Seq<char>),
    BadPubkeyLenE(Seq<char>, int),
}

/// The first declared field that is required but absent from the supplied
/// struct payload, scanning declarations from index `i` in order.
pub open spec fn first_missing(
    fdefs: Seq<(Seq<char>, FieldDefS)>,
    fields: Seq<(Seq<char>, ValS)>,
    i: int,
) -> Option<Seq<char>>
    decreases fdefs.len() - i,
{
    if 0 <= i < fdefs.len() {
        if !fdefs[i].1.optional && !has_key(fields, fdefs[i].0) {
            Some(fdefs[i].0)
        } else {
            first_missing(fdefs, fields, i + 1)
        }
    } else {
        None
    }
}

/// Validate one value against the declared enums; `None` means valid.
pub open spec fn sp_valid_value(v: ValS, enums: Seq<EnumDefS>) -> Option<VErrS>
    decreases v, 0int,
{
    match v {
        ValS::UrlV(u) => if url_ok(u) {
            None
        } else {
            Some(VErrS::BadUrlE(u))
        },
        ValS::SocketV(a) => if socket_ok(a) {
            None
        } else {
            Some(VErrS::BadSocketE(a))
        },
        ValS::PubkeyV(p) => if p.len() > 128 {
            Some(VErrS::BadPubkeyLongE(p))
        } else {
            match base58_decode_of(p) {
                None => Some(VErrS::BadPubkeyDecodeE(p)),
                Some(b) => if b.len() == 32 {
                    None
                } else {
                    Some(VErrS::BadPubkeyLenE(p, b.len() as int))
                },
            }
        },
        ValS::ArrV(vs) => sp_valid_seq(vs, enums, 0),
        ValS::ObjV(fs) => sp_valid_fields(fs, enums, 0),
        ValS::VariantV { enum_name, variant, data } => match lookup_enum(enums, enum_name) {
            None => Some(VErrS::UnknownTypeE(enum_name)),
            Some(def) => match find_variant(def.variants, variant) {
                None => Some(VErrS::UnknownVariantE(enum_name, variant)),
                Some(vd) => sp_valid_payload(enum_name, variant, vd, data, enums),
            },
        },
        _ => None,
    }
}

/// Validate a found variant declaration against the supplied payload.
pub open spec fn sp_valid_payload(
    e: Seq<char>,
    v: Seq<char>,
    vd: VariantS,
    data: DataS,
    enums: Seq<EnumDefS>,
) -> Option<VErrS>
    decreases data, 1int,
{
    match vd {
        VariantS::UnitV(_) => match data {
            DataS::UnitD => None,
            _ => Some(VErrS::ShapeE(e, v)),
        },
        VariantS::TupleV(_, ts) => match data {
            DataS::TupleD(vals) => if ts.len() != vals.len() {
                Some(VErrS::ArityE(e, v, ts.len() as int, vals.len() as int))
            } else {
                sp_valid_seq(vals, enums, 0)
            },
            _ => Some(VErrS::ShapeE(e, v)),
        },
        VariantS::StructV(_, fdefs) => match data {
            DataS::StructD(fields) => match first_missing(fdefs, fields, 0) {
                Some(f) => Some(VErrS::MissingFieldE(e, v, f)),
                None => sp_valid_struct_fields(e, v, fields, fdefs, enums, 0),
            },
            _ => Some(VErrS::ShapeE(e, v)),
        },
    }
}

/// Validate array or tuple elements in order; the first failure wins.
pub open spec fn sp_valid_seq(vs: Seq<ValS>, enums: Seq<EnumDefS>, i: int) -> Option<VErrS>
    decreases vs, vs.len() - i,
{
    if 0 <= i < vs.len() {
        match sp_valid_value(vs[i], enums) {
            Some(k) => Some(k),
            None => sp_valid_seq(vs, enums, i + 1),
        }
    } else {
        None
    }
}

/// Validate object fields in order; the first failure wins.
pub open spec fn sp_valid_fields(
    fs: Seq<(Seq<char>, ValS)>,
    enums: Seq<EnumDefS>,
    i: int,
) -> Option<VErrS>
    decreases fs, fs.len() - i,
{
    if 0 <= i < fs.len() {
        match sp_valid_value(fs[i].1, enums) {
            Some(k) => Some(k),
            None => sp_valid_fields(fs, enums, i + 1),
        }
    } else {
        None
    }
}

/// Validate supplied struct-payload fields in order: each must be declared,
/// and each value must itself be valid.
pub open spec fn sp_valid_struct_fields(
    e: Seq<char>,
    v: Seq<char>,
    fields: Seq<(Seq<char>, ValS)>,
    fdefs: Seq<(Seq<char>, FieldDefS)>,
    enums: Seq<EnumDefS>,
    i: int,
) -> Option<VErrS>
    decreases fields, fields.len() - i,
{
    if 0 <= i < fields.len() {
        if !has_key(fdefs, fields[i].0) {
            Some(VErrS::UnknownFieldE(e, v, fields[i].0))
        } else {
            match sp_valid_value(fields[i].1, enums) {
                Some(k) => Some(k),
                None => sp_valid_struct_fields(e, v, fields, fdefs, enums, i + 1),
            }
        }
    } else {
        None
    }
}

/// Validate a whole document: walk the root object.
pub open spec fn sp_validate(d: crate::ast::DocS) -> Option<VErrS> {
    sp_valid_fields(d.root, d.enums, 0)
}

/// The executable error that each mathematical failure kind maps to.
pub open spec fn err_matches(e: RecError, k: VErrS) -> bool {
    match k {
        VErrS::UnknownTypeE(n) => e matches RecError::UnknownType(m) && m@ == n,
        VErrS::UnknownVariantE(en, vn) => e matches RecError::UnknownEnumVariant {
            enum_name,
            variant,
        } && enum_name@ == en && variant@ == vn,
        VErrS::ShapeE(_, _) => e is ValidationError,
        VErrS::ArityE(_, _, _, _) => e is ValidationError,
        VErrS::UnknownFieldE(_, _, _) => e is ValidationError,
        VErrS::MissingFieldE(en, vn, f) => e matches RecError::MissingField(m) && m@ == en + seq![
            '.',
        ] + vn + seq!['.'] + f,
        VErrS::BadUrlE(u) => e matches RecError::InvalidUrl(m) && m@ == u,
        VErrS::BadSocketE(a) => e matches RecError::InvalidSocket(m) && m@ == a,
        VErrS::BadPubkeyLongE(p) => e matches RecError::InvalidPubkey(m) && m@ == seq![
            't',
            'o',
            'o',
            ' ',
            'l',
            'o',
            'n',
            'g',
            ':',
            ' ',
        ] + p,
        VErrS::BadPubkeyDecodeE(p) => e matches RecError::InvalidPubkey(m) && m@ == seq![
            'b',
            'a',
            'd',
            ' ',
            'b',
            'a',
            's',
            'e',
            '5',
            '8',
            ':',
            ' ',
        ] + p,
        VErrS::BadPubkeyLenE(p, _) => e matches RecError::InvalidPubkey(m) && m@ == seq![
            'b',
            'a',
            'd',
            ' ',
            'l',
            'e',
            'n',
            'g',
            't',
            'h',
            ':',
            ' ',
        ] + p,
    }
}


// ---------------------------------------------------------------------------
// Executable lookup helpers.
// ---------------------------------------------------------------------------
proof fn lemma_first_variant_index(vs: Seq<VariantS>, name: Seq<char>)
    ensures
        first_variant_index(vs, name) <= vs.len(),
        first_variant_index(vs, name) < vs.len() ==> variant_name(
            vs[first_variant_index(vs, name) as int],
        ) == name,
        forall|m: int|
            0 <= m < first_variant_index(vs, name) && m < vs.len() ==> variant_name(vs[m]) != name,
        first_variant_index(vs, name) == vs.len() ==> forall|m: int|
            0 <= m < vs.len() ==> variant_name(vs[m]) != name,
    decreases vs.len(),
{
    if vs.len() > 0 && variant_name(vs[0]) != name {
        lemma_first_variant_index(vs.drop_first(), name);
        assert(forall|m: int| 1 <= m < vs.len() ==> vs[m] == vs.drop_first()[m - 1]);
    }
}

/// The declaration a given enum name refers to: the last one wins.
fn find_enum<'a>(enums: &'a Vec<EnumDef>, name: &str) -> (r: Option<&'a EnumDef>)
    ensures
        match r {
            Some(d) => lookup_enum(view_enum_defs(enums@), name@) == Some(d@),
            None => lookup_enum(view_enum_defs(enums@), name@) is None,
        },
{
    proof {
        lemma_view_enum_defs(enums@);
    }
    let ghost gdefs = view_enum_defs(enums@);
    proof {
        assert(gdefs.subrange(0, gdefs.len() as int) =~= gdefs);
    }
    let mut i: usize = enums.len();
    while i > 0
        invariant
            gdefs == view_enum_defs(enums@),
            gdefs.len() == enums@.len(),
            forall|m: int| 0 <= m < enums@.len() ==> gdefs[m] == enums@[m]@,
            i <= enums@.len(),
            lookup_enum(gdefs, name@) == lookup_enum(gdefs.subrange(0, i as int), name@),
        decreases i,
    {
        let ghost pre = gdefs.subrange(0, i as int);
        proof {
            assert(pre.last() == gdefs[i - 1]);
            assert(pre.drop_last() =~= gdefs.subrange(0, i as int - 1));
        }
        if str_eq(enums[i - 1].name.as_str(), name) {
            return Some(&enums[i - 1]);
        }
        i = i - 1;
    }
    proof {
        assert(gdefs.subrange(0, 0) =~= Seq::<EnumDefS>::empty());
    }
    None
}

/// The name of a variant declaration.
fn ev_name<'a>(v: &'a EnumVariant) -> (r: &'a String)
    ensures
        r@ == variant_name(v@),
{
    match v {
        EnumVariant::Unit(n) => n,
        EnumVariant::Tuple(n, _) => n,
        EnumVariant::Struct(n, _) => n,
    }
}

/// The first declared variant with the given name.
fn find_variant_e<'a>(vs: &'a Vec<EnumVariant>, name: &str) -> (r: Option<&'a EnumVariant>)
    ensures
        match r {
            Some(vd) => find_variant(view_variants(vs@), name@) == Some(vd@),
            None => find_variant(view_variants(vs@), name@) is None,
        },
{
    proof {
        lemma_view_variants(vs@);
        lemma_first_variant_index(view_variants(vs@), name@);
    }
    let ghost gvs = view_variants(vs@);
    let mut i: usize = 0;
    while i < vs.len()
        invariant
            gvs == view_variants(vs@),
            gvs.len() == vs@.len(),
            forall|m: int| 0 <= m < vs@.len() ==> gvs[m] == vs@[m]@,
            i <= vs@.len(),
            forall|m: int| 0 <= m < i ==> variant_name(gvs[m]) != name@,
        decreases vs@.len() - i,
    {
        if str_eq(ev_name(&vs[i]).as_str(), name) {
            proof {
                assert(variant_name(gvs[i as int]) == name@);
                lemma_first_variant_index(gvs, name@);
                if first_variant_index(gvs, name@) < i as nat {
                    assert(variant_name(gvs[first_variant_index(gvs, name@) as int]) == name@);
                    assert(false);
                }
                if first_variant_index(gvs, name@) > i as nat {
                    assert(variant_name(gvs[i as int]) != name@);
                    assert(false);
                }
                assert(first_variant_index(gvs, name@) == i as nat);
            }
            return Some(&vs[i]);
        }
        i = i + 1;
    }
    proof {
        lemma_first_variant_index(gvs, name@);
    }
    None
}

/// Whether a supplied struct payload holds the given field name.
fn has_field_key(fields: &Vec<(String, RecValue)>, name: &str) -> (r: bool)
    ensures
        r == has_key(view_val_fields(fields@), name@),
{
    proof {
        lemma_view_val_fields(fields@);
        crate::grammar::lemma_first_key_index(view_val_fields(fields@), name@);
    }
    let ghost gfs = view_val_fields(fields@);
    let mut i: usize = 0;
    while i < fields.len()
        invariant
            gfs == view_val_fields(fields@),
            gfs.len() == fields@.len(),
            forall|m: int| 0 <= m < fields@.len() ==> gfs[m] == (fields@[m].0@, fields@[m].1@),
            i <= fields@.len(),
            forall|m: int| 0 <= m < i ==> gfs[m].0 != name@,
        decreases fields@.len() - i,
    {
        if str_eq(fields[i].0.as_str(), name) {
            proof {
                assert(gfs[i as int].0 == name@);
                crate::grammar::lemma_first_key_index(gfs, name@);
                if crate::grammar::first_key_index(gfs, name@) > i as nat {
                    assert(gfs[i as int].0 != name@);
                    assert(false);
                }
                assert(has_key(gfs, name@));
            }
            return true;
        }
        i = i + 1;
    }
    proof {
        crate::grammar::lemma_first_key_index(gfs, name@);
    }
    false
}

/// Whether a struct-variant declaration declares the given field name.
fn has_def_key(fdefs: &Vec<(String, crate::ast::FieldDef)>, name: &str) -> (r: bool)
    ensures
        r == has_key(view_field_defs(fdefs@), name@),
{
    proof {
        lemma_view_field_defs(fdefs@);
        crate::grammar::lemma_first_key_index(view_field_defs(fdefs@), name@);
    }
    let ghost gfs = view_field_defs(fdefs@);
    let mut i: usize = 0;
    while i < fdefs.len()
        invariant
            gfs == view_field_defs(fdefs@),
            gfs.len() == fdefs@.len(),
            forall|m: int| 0 <= m < fdefs@.len() ==> gfs[m] == (fdefs@[m].0@, fdefs@[m].1@),
            i <= fdefs@.len(),
            forall|m: int| 0 <= m < i ==> gfs[m].0 != name@,
        decreases fdefs@.len() - i,
    {
        if str_eq(fdefs[i].0.as_str(), name) {
            proof {
                assert(gfs[i as int].0 == name@);
                crate::grammar::lemma_first_key_index(gfs, name@);
                if crate::grammar::first_key_index(gfs, name@) > i as nat {
                    assert(gfs[i as int].0 != name@);
                    assert(false);
                }
                assert(has_key(gfs, name@));
            }
            return true;
        }
        i = i + 1;
    }
    proof {
        crate::grammar::lemma_first_key_index(gfs, name@);
    }
    false
}

// ---------------------------------------------------------------------------
// Error message building.
// ---------------------------------------------------------------------------
/// `enum.variant.field`, the path of a missing required field.
fn dotted3(e: &str, v: &str, f: &str) -> (r: String)
    ensures
        r@ == e@ + seq!['.'] + v@ + seq!['.'] + f@,
{
    proof {
        reveal_strlit(".");
        assert("."@ =~= seq!['.']);
    }
    let mut m = String::new();
    m.append(e);
    m.append(".");
    m.append(v);
    m.append(".");
    m.append(f);
    proof {
        assert(m@ =~= e@ + seq!['.'] + v@ + seq!['.'] + f@);
    }
    m
}

/// The message of a Base58 decoding failure.
fn bad58_msg(p: &str) -> (r: String)
    ensures
        r@ == seq!['b', 'a', 'd', ' ', 'b', 'a', 's', 'e', '5', '8', ':', ' '] + p@,
{
    proof {
        reveal_strlit("bad base58: ");
        assert("bad base58: "@ =~= seq![
            'b', 'a', 'd', ' ', 'b', 'a', 's', 'e', '5', '8', ':', ' ',
        ]);
    }
    let mut m = String::new();
    m.append("bad base58: ");
    m.append(p);
    m
}

/// The message of a decoded key with the wrong length.
fn badlen_msg(p: &str) -> (r: String)
    ensures
        r@ == seq!['b', 'a', 'd', ' ', 'l', 'e', 'n', 'g', 't', 'h', ':', ' '] + p@,
{
    proof {
        reveal_strlit("bad length: ");
        assert("bad length: "@ =~= seq![
            'b', 'a', 'd', ' ', 'l', 'e', 'n', 'g', 't', 'h', ':', ' ',
        ]);
    }
    let mut m = String::new();
    m.append("bad length: ");
    m.append(p);
    m
}

/// The message of a key too long to be a key at all.
fn toolong_msg(p: &str) -> (r: String)
    ensures
        r@ == seq!['t', 'o', 'o', ' ', 'l', 'o', 'n', 'g', ':', ' '] + p@,
{
    proof {
        reveal_strlit("too long: ");
        assert("too long: "@ =~= seq![
            't', 'o', 'o', ' ', 'l', 'o', 'n', 'g', ':', ' ',
        ]);
    }
    let mut m = String::new();
    m.append("too long: ");
    m.append(p);
    m
}

// ---------------------------------------------------------------------------
// The executable validator.
// ---------------------------------------------------------------------------
/// Check one URL value.
pub fn validate_url(u: &str) -> (r: Result<(), RecError>)
    ensures
        r is Ok <==> url_ok(u@),
        r matches Err(e) ==> (e matches RecError::InvalidUrl(m) && m@ == u@),
{
    match parse_url_scheme(u) {
        Some(sch) => {
            if scheme_accepted(sch.as_str()) {
                Ok(())
            } else {
                Err(RecError::InvalidUrl(u.to_owned()))
            }
        },
        None => Err(RecError::InvalidUrl(u.to_owned())),
    }
}

/// Check one socket value.
pub fn validate_socket(a: &str) -> (r: Result<(), RecError>)
    ensures
        r is Ok <==> socket_ok(a@),
        r matches Err(e) ==> (e matches RecError::InvalidSocket(m) && m@ == a@),
{
    if socket_valid(a) {
        Ok(())
    } else {
        Err(RecError::InvalidSocket(a.to_owned()))
    }
}

/// Check one public-key value.  Strings over 128 characters are rejected
/// before the decoder sees them.
pub fn validate_pubkey(p: &str) -> (r: Result<(), RecError>)
    ensures
        r is Ok <==> pubkey_ok(p@),
        r matches Err(e) ==> (e matches RecError::InvalidPubkey(m) && (
            if p@.len() > 128 {
                m@ == seq!['t', 'o', 'o', ' ', 'l', 'o', 'n', 'g', ':', ' '] + p@
            } else {
                match base58_decode_of(p@) {
                    None => m@ == seq![
                        'b', 'a', 'd', ' ', 'b', 'a', 's', 'e', '5', '8', ':', ' ',
                    ] + p@,
                    Some(b) => m@ == seq![
                        'b', 'a', 'd', ' ', 'l', 'e', 'n', 'g', 't', 'h', ':', ' ',
                    ] + p@,
                }
            }
        )),
{
    if p.unicode_len() > 128 {
        return Err(RecError::InvalidPubkey(toolong_msg(p)));
    }
    match base58_decode(p) {
        None => Err(RecError::InvalidPubkey(bad58_msg(p))),
        Some(b) => {
            if b.len() == 32 {
                Ok(())
            } else {
                Err(RecError::InvalidPubkey(badlen_msg(p)))
            }
        },
    }
}

/// Validate one value against the declared enums; first failure wins.
#[verifier::loop_isolation(false)]
fn validate_value(value: &RecValue, enums: &Vec<EnumDef>) -> (r: Result<(), RecError>)
    ensures
        match r {
            Ok(()) => sp_valid_value(value@, view_enum_defs(enums@)) is None,
            Err(e) => sp_valid_value(value@, view_enum_defs(enums@)) matches Some(k)
                && err_matches(e, k),
        },
    decreases value, 1int,
{
    let ghost genums = view_enum_defs(enums@);
    match value {
        RecValue::Url(u) => validate_url(u.as_str()),
        RecValue::Socket(a) => validate_socket(a.as_str()),
        RecValue::Pubkey(p) => validate_pubkey(p.as_str()),
        RecValue::Array(arr) => {
            let ghost gvs = view_vals(arr@);
            proof {
                lemma_view_vals(arr@);
            }
            let mut i: usize = 0;
            while i < arr.len()
                invariant
                    genums == view_enum_defs(enums@),
                    gvs == view_vals(arr@),
                    gvs.len() == arr@.len(),
                    forall|m: int| 0 <= m < arr@.len() ==> gvs[m] == arr@[m]@,
                    i <= arr@.len(),
                    sp_valid_seq(gvs, genums, 0) == sp_valid_seq(gvs, genums, i as int),
                decreases arr@.len() - i,
            {
                match validate_value(&arr[i], enums) {
                    Err(e) => {
                        return Err(e);
                    },
                    Ok(()) => {},
                }
                i = i + 1;
            }
            Ok(())
        },
        RecValue::Object(o) => validate_object(o, enums),
        RecValue::EnumVariant { enum_name, variant, data } => {
            match find_enum(enums, enum_name.as_str()) {
                None => Err(RecError::UnknownType(enum_name.clone())),
                Some(def) => {
                    match find_variant_e(&def.variants, variant.as_str()) {
                        None => Err(
                            RecError::UnknownEnumVariant {
                                enum_name: enum_name.clone(),
                                variant: variant.clone(),
                            },
                        ),
                        Some(vd) => validate_payload(enum_name, variant, vd, data, enums),
                    }
                },
            }
        },
        _ => Ok(()),
    }
}

/// Validate a found variant declaration against the supplied payload.
#[verifier::loop_isolation(false)]
fn validate_payload(
    e: &String,
    v: &String,
    vd: &EnumVariant,
    data: &EnumVariantData,
    enums: &Vec<EnumDef>,
) -> (r: Result<(), RecError>)
    ensures
        match r {
            Ok(()) => sp_valid_payload(e@, v@, vd@, data@, view_enum_defs(enums@)) is None,
            Err(err) => sp_valid_payload(e@, v@, vd@, data@, view_enum_defs(enums@)) matches Some(
                k,
            ) && err_matches(err, k),
        },
    decreases data, 0int,
{
    let ghost genums = view_enum_defs(enums@);
    match vd {
        EnumVariant::Unit(_) => match data {
            EnumVariantData::Unit => Ok(()),
            _ => Err(
                RecError::ValidationError(
                    "enum variant payload has the wrong shape".to_owned(),
                ),
            ),
        },
        EnumVariant::Tuple(_, ts) => match data {
            EnumVariantData::Tuple(vals) => {
                proof {
                    crate::ast::lemma_view_types(ts@);
                    lemma_view_vals(vals@);
                }
                if ts.len() != vals.len() {
                    return Err(
                        RecError::ValidationError(
                            "enum variant has the wrong number of values".to_owned(),
                        ),
                    );
                }
                let ghost gvs = view_vals(vals@);
                let mut i: usize = 0;
                while i < vals.len()
                    invariant
                        genums == view_enum_defs(enums@),
                        gvs == view_vals(vals@),
                        gvs.len() == vals@.len(),
                        forall|m: int| 0 <= m < vals@.len() ==> gvs[m] == vals@[m]@,
                        i <= vals@.len(),
                        sp_valid_seq(gvs, genums, 0) == sp_valid_seq(gvs, genums, i as int),
                    decreases vals@.len() - i,
                {
                    match validate_value(&vals[i], enums) {
                        Err(err) => {
                            return Err(err);
                        },
                        Ok(()) => {},
                    }
                    i = i + 1;
                }
                Ok(())
            },
            _ => Err(
                RecError::ValidationError(
                    "enum variant payload has the wrong shape".to_owned(),
                ),
            ),
        },
        EnumVariant::Struct(_, fdefs) => match data {
            EnumVariantData::Struct(fields) => {
                let ghost gdefs = view_field_defs(fdefs@);
                let ghost gfs = view_val_fields(fields@);
                proof {
                    lemma_view_field_defs(fdefs@);
                    lemma_view_val_fields(fields@);
                }
                let mut i: usize = 0;
                while i < fdefs.len()
                    invariant
                        gdefs == view_field_defs(fdefs@),
                        gdefs.len() == fdefs@.len(),
                        forall|m: int|
                            0 <= m < fdefs@.len() ==> gdefs[m] == (fdefs@[m].0@, fdefs@[m].1@),
                        gfs == view_val_fields(fields@),
                        i <= fdefs@.len(),
                        first_missing(gdefs, gfs, 0) == first_missing(gdefs, gfs, i as int),
                    decreases fdefs@.len() - i,
                {
                    if !fdefs[i].1.optional && !has_field_key(fields, fdefs[i].0.as_str()) {
                        return Err(
                            RecError::MissingField(
                                dotted3(e.as_str(), v.as_str(), fdefs[i].0.as_str()),
                            ),
                        );
                    }
                    i = i + 1;
                }
                let mut j: usize = 0;
                while j < fields.len()
                    invariant
                        genums == view_enum_defs(enums@),
                        gdefs == view_field_defs(fdefs@),
                        gfs == view_val_fields(fields@),
                        gfs.len() == fields@.len(),
                        forall|m: int|
                            0 <= m < fields@.len() ==> gfs[m] == (fields@[m].0@, fields@[m].1@),
                        j <= fields@.len(),
                        first_missing(gdefs, gfs, 0) is None,
                        sp_valid_struct_fields(e@, v@, gfs, gdefs, genums, 0)
                            == sp_valid_struct_fields(e@, v@, gfs, gdefs, genums, j as int),
                    decreases fields@.len() - j,
                {
                    if !has_def_key(fdefs, fields[j].0.as_str()) {
                        return Err(
                            RecError::ValidationError(
                                "a supplied field is not declared by the variant".to_owned(),
                            ),
                        );
                    }
                    match validate_value(&fields[j].1, enums) {
                        Err(err) => {
                            return Err(err);
                        },
                        Ok(()) => {},
                    }
                    j = j + 1;
                }
                Ok(())
            },
            _ => Err(
                RecError::ValidationError(
                    "enum variant payload has the wrong shape".to_owned(),
                ),
            ),
        },
    }
}

/// Validate every field value of an object, in order.
#[verifier::loop_isolation(false)]
fn validate_object(obj: &RecObject, enums: &Vec<EnumDef>) -> (r: Result<(), RecError>)
    ensures
        match r {
            Ok(()) => sp_valid_fields(obj@, view_enum_defs(enums@), 0) is None,
            Err(e) => sp_valid_fields(obj@, view_enum_defs(enums@), 0) matches Some(k)
                && err_matches(e, k),
        },
    decreases obj, 0int,
{
    let ghost genums = view_enum_defs(enums@);
    let ghost gfs = view_val_fields(obj.fields@);
    proof {
        lemma_view_val_fields(obj.fields@);
    }
    let mut i: usize = 0;
    while i < obj.fields.len()
        invariant
            genums == view_enum_defs(enums@),
            gfs == view_val_fields(obj.fields@),
            gfs.len() == obj.fields@.len(),
            forall|m: int|
                0 <= m < obj.fields@.len() ==> gfs[m] == (obj.fields@[m].0@, obj.fields@[m].1@),
            i <= obj.fields@.len(),
            sp_valid_fields(gfs, genums, 0) == sp_valid_fields(gfs, genums, i as int),
        decreases obj.fields@.len() - i,
    {
        match validate_value(&obj.fields[i].1, enums) {
            Err(e) => {
                return Err(e);
            },
            Ok(()) => {},
        }
        i = i + 1;
    }
    Ok(())
}

/// Validate a whole assembled document: a pure, read-only pass over the
/// root object.  `Ok` exactly when the mathematical validation finds no
/// failure; otherwise the returned error matches the first failure found.
pub fn validate(doc: &RecDocument) -> (r: Result<(), RecError>)
    ensures
        match r {
            Ok(()) => sp_validate(doc@) is None,
            Err(e) => sp_validate(doc@) matches Some(k) && err_matches(e, k),
        },
{
    validate_object(&doc.root, &doc.enum_definitions)
}

} // verus!
