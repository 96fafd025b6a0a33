//! The canonical re-print of a value tree: the textual form that parses
//! back to the same tree.  `print_value` is the mathematical definition;
//! `to_rec_string` computes it.
use vstd::prelude::*;
use crate::ast::DataS;
use crate::ast::EnumVariantData;
use crate::ast::RecObject;
use crate::ast::RecValue;
use crate::ast::ValS;
use crate::ast::lemma_view_val_fields;
use crate::ast::lemma_view_vals;
use crate::ast::view_val_fields;
use crate::ast::view_vals;
use crate::chars::chars_to_string;
use crate::grammar::is_digit;
use crate::grammar::is_ident_char;
use crate::grammar::is_ident_start;
use crate::grammar::kw_false;
use crate::grammar::kw_null;
use crate::grammar::kw_pubkey_open;
use crate::grammar::kw_socket_open;
use crate::grammar::kw_true;
use crate::grammar::kw_url_open;

verus! {

// ---------------------------------------------------------------------------
// Digits.
// ---------------------------------------------------------------------------
pub open spec fn dig_of(d: int) -> char {
    if d == 0 {
        '0'
    } else if d == 1 {
        '1'
    } else if d == 2 {
        '2'
    } else if d == 3 {
        '3'
    } else if d == 4 {
        '4'
    } else if d == 5 {
        '5'
    } else if d == 6 {
        '6'
    } else if d == 7 {
        '7'
    } else if d == 8 {
        '8'
    } else {
        '9'
    }
}

/// The decimal digits of a non-negative number, most significant first.
pub open spec fn dig_seq(n: int) -> Seq<char>
    decreases n,
{
    if n < 10 {
        seq![dig_of(n)]
    } else {
        dig_seq(n / 10).push(dig_of(n % 10))
    }
}

/// The canonical print of an integer.
pub open spec fn print_int(n: int) -> Seq<char> {
    if n < 0 {
        seq!['-'] + dig_seq(-n)
    } else {
        dig_seq(n)
    }
}

fn dig_char(d: u64) -> (r: char)
    requires
        d <= 9,
    ensures
        r == dig_of(d as int),
{
    if d == 0 {
        '0'
    } else if d == 1 {
        '1'
    } else if d == 2 {
        '2'
    } else if d == 3 {
        '3'
    } else if d == 4 {
        '4'
    } else if d == 5 {
        '5'
    } else if d == 6 {
        '6'
    } else if d == 7 {
        '7'
    } else if d == 8 {
        '8'
    } else {
        '9'
    }
}

fn u64_chars(n: u64) -> (r: Vec<char>)
    ensures
        r@ == dig_seq(n as int),
    decreases n,
{
    if n < 10 {
        let mut v: Vec<char> = Vec::new();
        v.push(dig_char(n));
        proof {
            assert(v@ =~= dig_seq(n as int));
        }
        v
    } else {
        let mut v = u64_chars(n / 10);
        v.push(dig_char(n % 10));
        v
    }
}

fn i64_chars(n: i64) -> (r: Vec<char>)
    ensures
        r@ == print_int(n as int),
{
    if n < 0 {
        let neg128: i128 = -(n as i128);
        let mag: u64 = neg128 as u64;
        proof {
            assert(mag as int == -(n as int));
        }
        let mut v: Vec<char> = Vec::new();
        v.push('-');
        let mut ds = u64_chars(mag);
        v.append(&mut ds);
        proof {
            assert(v@ =~= seq!['-'] + dig_seq(mag as int));
        }
        v
    } else {
        u64_chars(n as u64)
    }
}

// ---------------------------------------------------------------------------
// The canonical print, stated mathematically.
// ---------------------------------------------------------------------------
pub open spec fn print_quoted(s: Seq<char>) -> Seq<char> {
    seq!['"'] + s + seq!['"']
}

/// The canonical print of one value.
pub open spec fn print_value(v: ValS) -> Seq<char>
    decreases v, 1int,
{
    match v {
        ValS::StrV(s) => print_quoted(s),
        ValS::IntV(n) => print_int(n),
        ValS::FloatV { neg, whole, frac } => (
            if neg {
                seq!['-']
            } else {
                Seq::empty()
            }
        ) + whole + seq!['.'] + frac,
        ValS::BoolV(b) => if b {
            kw_true()
        } else {
            kw_false()
        },
        ValS::NullV => kw_null(),
        ValS::UrlV(s) => kw_url_open() + print_quoted(s) + seq![')'],
        ValS::SocketV(s) => kw_socket_open() + print_quoted(s) + seq![')'],
        ValS::PubkeyV(s) => kw_pubkey_open() + print_quoted(s) + seq![')'],
        ValS::ArrV(vs) => seq!['['] + print_vals(vs, 0) + seq![']'],
        ValS::ObjV(fs) => seq!['{'] + print_fields(fs, 0) + seq!['}'],
        ValS::VariantV { enum_name, variant, data } => enum_name + seq!['.'] + variant + match data {
            DataS::UnitD => Seq::<char>::empty(),
            DataS::TupleD(vs) => seq!['('] + print_vals(vs, 0) + seq![')'],
            DataS::StructD(fs) => seq![' ', '{'] + print_fields(fs, 0) + seq!['}'],
        },
    }
}

/// The elements from index `i` on, joined by a comma and a space.
pub open spec fn print_vals(vs: Seq<ValS>, i: int) -> Seq<char>
    decreases vs, 0int, vs.len() - i,
{
    if 0 <= i < vs.len() {
        print_value(vs[i]) + (
            if i + 1 < vs.len() {
                seq![',', ' '] + print_vals(vs, i + 1)
            } else {
                Seq::<char>::empty()
            }
        )
    } else {
        Seq::empty()
    }
}

/// The fields from index `i` on: `key: value`, joined by a comma and a
/// space.
pub open spec fn print_fields(fs: Seq<(Seq<char>, ValS)>, i: int) -> Seq<char>
    decreases fs, 0int, fs.len() - i,
{
    if 0 <= i < fs.len() {
        fs[i].0 + seq![':', ' '] + print_value(fs[i].1) + (
            if i + 1 < fs.len() {
                seq![',', ' '] + print_fields(fs, i + 1)
            } else {
                Seq::<char>::empty()
            }
        )
    } else {
        Seq::empty()
    }
}

// ---------------------------------------------------------------------------
// The executable printer.
// ---------------------------------------------------------------------------
fn push_quoted(kw: Vec<char>, s: &str) -> (r: Vec<char>)
    ensures
        r@ == kw@ + print_quoted(s@),
{
    let mut out = kw;
    let ghost pre = out@;
    out.push('"');
    let mut body = crate::chars::to_chars(s);
    out.append(&mut body);
    out.push('"');
    proof {
        assert(out@ =~= pre + print_quoted(s@));
    }
    out
}

fn print_value_v(v: &RecValue) -> (r: Vec<char>)
    ensures
        r@ == print_value(v@),
    decreases v, 1int,
{
    match v {
        RecValue::String(s) => {
            let out: Vec<char> = Vec::new();
            let r = push_quoted(out, s.as_str());
            proof {
                assert(r@ =~= print_quoted(s@));
            }
            r
        },
        RecValue::Int(n) => i64_chars(*n),
        RecValue::Float(f) => {
            let mut out: Vec<char> = Vec::new();
            if f.neg {
                out.push('-');
            }
            let mut w = crate::chars::to_chars(f.whole.as_str());
            out.append(&mut w);
            out.push('.');
            let mut fr = crate::chars::to_chars(f.frac.as_str());
            out.append(&mut fr);
            proof {
                assert(out@ =~= print_value(v@));
            }
            out
        },
        RecValue::Bool(b) => {
            let mut out: Vec<char> = Vec::new();
            if *b {
                out.push('t');
                out.push('r');
                out.push('u');
                out.push('e');
                proof {
                    assert(out@ =~= kw_true());
                }
            } else {
                out.push('f');
                out.push('a');
                out.push('l');
                out.push('s');
                out.push('e');
                proof {
                    assert(out@ =~= kw_false());
                }
            }
            out
        },
        RecValue::Null => {
            let mut out: Vec<char> = Vec::new();
            out.push('n');
            out.push('u');
            out.push('l');
            out.push('l');
            proof {
                assert(out@ =~= kw_null());
            }
            out
        },
        RecValue::Url(s) => {
            let mut kw: Vec<char> = Vec::new();
            kw.push('u');
            kw.push('r');
            kw.push('l');
            kw.push('(');
            proof {
                assert(kw@ =~= kw_url_open());
            }
            let mut out = push_quoted(kw, s.as_str());
            out.push(')');
            proof {
                assert(out@ =~= kw_url_open() + print_quoted(s@) + seq![')']);
            }
            out
        },
        RecValue::Socket(s) => {
            let mut kw: Vec<char> = Vec::new();
            kw.push('s');
            kw.push('o');
            kw.push('c');
            kw.push('k');
            kw.push('e');
            kw.push('t');
            kw.push('(');
            proof {
                assert(kw@ =~= kw_socket_open());
            }
            let mut out = push_quoted(kw, s.as_str());
            out.push(')');
            proof {
                assert(out@ =~= kw_socket_open() + print_quoted(s@) + seq![')']);
            }
            out
        },
        RecValue::Pubkey(s) => {
            let mut kw: Vec<char> = Vec::new();
            kw.push('p');
            kw.push('u');
            kw.push('b');
            kw.push('k');
            kw.push('e');
            kw.push('y');
            kw.push('(');
            proof {
                assert(kw@ =~= kw_pubkey_open());
            }
            let mut out = push_quoted(kw, s.as_str());
            out.push(')');
            proof {
                assert(out@ =~= kw_pubkey_open() + print_quoted(s@) + seq![')']);
            }
            out
        },
        RecValue::Array(vs) => {
            let mut out: Vec<char> = Vec::new();
            out.push('[');
            let mut body = print_vals_v(vs, 0);
            out.append(&mut body);
            out.push(']');
            proof {
                assert(out@ =~= seq!['['] + print_vals(view_vals(vs@), 0) + seq![']']);
            }
            out
        },
        RecValue::Object(o) => {
            let mut out: Vec<char> = Vec::new();
            out.push('{');
            let mut body = print_fields_v(&o.fields, 0);
            out.append(&mut body);
            out.push('}');
            proof {
                assert(out@ =~= seq!['{'] + print_fields(view_val_fields(o.fields@), 0) + seq![
                    '}',
                ]);
            }
            out
        },
        RecValue::EnumVariant { enum_name, variant, data } => {
            let mut out = crate::chars::to_chars(enum_name.as_str());
            out.push('.');
            let mut vn = crate::chars::to_chars(variant.as_str());
            out.append(&mut vn);
            let ghost head = enum_name@ + seq!['.'] + variant@;
            proof {
                assert(out@ =~= head);
            }
            match data {
                EnumVariantData::Unit => {
                    proof {
                        assert(out@ =~= print_value(v@));
                    }
                    out
                },
                EnumVariantData::Tuple(vs) => {
                    out.push('(');
                    let mut body = print_vals_v(vs, 0);
                    out.append(&mut body);
                    out.push(')');
                    proof {
                        assert(out@ =~= head + (seq!['('] + print_vals(view_vals(vs@), 0) + seq![
                            ')',
                        ]));
                    }
                    out
                },
                EnumVariantData::Struct(fs) => {
                    out.push(' ');
                    out.push('{');
                    let mut body = print_fields_v(fs, 0);
                    out.append(&mut body);
                    out.push('}');
                    proof {
                        assert(out@ =~= head + (seq![' ', '{'] + print_fields(
                            view_val_fields(fs@),
                            0,
                        ) + seq!['}']));
                    }
                    out
                },
            }
        },
    }
}

fn print_vals_v(vs: &Vec<RecValue>, i: usize) -> (r: Vec<char>)
    requires
        i <= vs@.len(),
    ensures
        r@ == print_vals(view_vals(vs@), i as int),
    decreases vs, 0int, vs@.len() - i,
{
    proof {
        lemma_view_vals(vs@);
    }
    if i < vs.len() {
        let mut out = print_value_v(&vs[i]);
        if i + 1 < vs.len() {
            out.push(',');
            out.push(' ');
            let mut rest = print_vals_v(vs, i + 1);
            let ghost mid = out@;
            out.append(&mut rest);
            proof {
                assert(out@ =~= print_value(view_vals(vs@)[i as int]) + (seq![',', ' ']
                    + print_vals(view_vals(vs@), i as int + 1)));
            }
        } else {
            proof {
                assert(out@ =~= print_value(view_vals(vs@)[i as int]) + Seq::<char>::empty());
            }
        }
        out
    } else {
        let out: Vec<char> = Vec::new();
        proof {
            assert(out@ =~= Seq::<char>::empty());
        }
        out
    }
}

fn print_fields_v(fs: &Vec<(String, RecValue)>, i: usize) -> (r: Vec<char>)
    requires
        i <= fs@.len(),
    ensures
        r@ == print_fields(view_val_fields(fs@), i as int),
    decreases fs, 0int, fs@.len() - i,
{
    proof {
        lemma_view_val_fields(fs@);
    }
    if i < fs.len() {
        let ghost gfs = view_val_fields(fs@);
        let mut out = crate::chars::to_chars(fs[i].0.as_str());
        out.push(':');
        out.push(' ');
        let mut val = print_value_v(&fs[i].1);
        out.append(&mut val);
        if i + 1 < fs.len() {
            out.push(',');
            out.push(' ');
            let mut rest = print_fields_v(fs, i + 1);
            out.append(&mut rest);
            proof {
                assert(out@ =~= gfs[i as int].0 + seq![':', ' '] + print_value(gfs[i as int].1) + (
                seq![',', ' '] + print_fields(gfs, i as int + 1)));
            }
        } else {
            proof {
                assert(out@ =~= gfs[i as int].0 + seq![':', ' '] + print_value(gfs[i as int].1)
                    + Seq::<char>::empty());
            }
        }
        out
    } else {
        let out: Vec<char> = Vec::new();
        proof {
            assert(out@ =~= Seq::<char>::empty());
        }
        out
    }
}

/// The canonical text of one value.
pub fn to_rec_string(v: &RecValue) -> (r: String)
    ensures
        r@ == print_value(v@),
{
    let cs = print_value_v(v);
    chars_to_string(&cs)
}

/// The canonical text of an object, as a document of its own: a parsed
/// root object printed this way parses back to the same object.
pub fn object_to_rec_string(o: &RecObject) -> (r: String)
    ensures
        r@ == print_value(ValS::ObjV(o@)),
{
    let v_fields = print_fields_v(&o.fields, 0);
    let mut out: Vec<char> = Vec::new();
    out.push('{');
    let mut body = v_fields;
    out.append(&mut body);
    out.push('}');
    proof {
        assert(out@ =~= seq!['{'] + print_fields(view_val_fields(o.fields@), 0) + seq!['}']);
    }
    chars_to_string(&out)
}

// ---------------------------------------------------------------------------
// Printable well-formedness: the values whose canonical print parses back.
// ---------------------------------------------------------------------------
pub open spec fn no_quote(s: Seq<char>) -> bool {
    forall|i: int| 0 <= i < s.len() ==> s[i] != '"'
}

pub open spec fn is_ident_s(s: Seq<char>) -> bool {
    s.len() > 0 && is_ident_start(s[0]) && forall|i: int|
        0 <= i < s.len() ==> is_ident_char(#[trigger] s[i])
}

pub open spec fn digits_only(s: Seq<char>) -> bool {
    s.len() > 0 && forall|i: int| 0 <= i < s.len() ==> is_digit(#[trigger] s[i])
}

/// The name starts with one of the literal keywords that the value grammar
/// tries before enum-variant literals.
pub open spec fn keyword_prefixed(s: Seq<char>) -> bool {
    (s.len() >= 4 && s.subrange(0, 4) == kw_true()) || (s.len() >= 5 && s.subrange(0, 5)
        == kw_false()) || (s.len() >= 4 && s.subrange(0, 4) == kw_null())
}

pub open spec fn distinct_keys<V>(fs: Seq<(Seq<char>, V)>) -> bool {
    forall|i: int, j: int| 0 <= i < j < fs.len() ==> fs[i].0 != fs[j].0
}

/// The values whose canonical print parses back to the same tree: strings
/// without a double quote, integers strictly above the smallest 64-bit
/// value, written-out decimal parts, identifier keys without duplicates,
/// and enum names that no keyword is a prefix of.
pub open spec fn wf_value(v: ValS) -> bool
    decreases v,
{
    match v {
        ValS::StrV(s) => no_quote(s),
        ValS::IntV(n) => i64::MIN < n <= i64::MAX,
        ValS::FloatV { neg, whole, frac } => digits_only(whole) && digits_only(frac),
        ValS::BoolV(_) => true,
        ValS::NullV => true,
        ValS::UrlV(s) => no_quote(s),
        ValS::SocketV(s) => no_quote(s),
        ValS::PubkeyV(s) => no_quote(s),
        ValS::ArrV(vs) => forall|i: int| 0 <= i < vs.len() ==> wf_value(#[trigger] vs[i]),
        ValS::ObjV(fs) => wf_fields(fs),
        ValS::VariantV { enum_name, variant, data } => is_ident_s(enum_name) && !keyword_prefixed(
            enum_name,
        ) && is_ident_s(variant) && match data {
            DataS::UnitD => true,
            DataS::TupleD(vs) => forall|i: int| 0 <= i < vs.len() ==> wf_value(#[trigger] vs[i]),
            DataS::StructD(fs) => wf_fields(fs),
        },
    }
}

/// Well-formed object fields: identifier keys, no duplicates, well-formed
/// values.
pub open spec fn wf_fields(fs: Seq<(Seq<char>, ValS)>) -> bool
    decreases fs,
{
    distinct_keys(fs) && forall|i: int|
        0 <= i < fs.len() ==> is_ident_s(#[trigger] fs[i].0) && wf_value(fs[i].1)
}

} // verus!
