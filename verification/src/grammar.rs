//! The grammar, stated mathematically: one specification function per
//! production, over a sequence of characters and a current position.
//! Every executable parsing function promises to return exactly what the
//! corresponding specification function says.
//!
//! Alternatives are ordered: the first one whose prefix matches wins, as
//! the language demands (a literal with a decimal point is tried as a
//! decimal before an integer, and the three tagged scalar forms commit
//! only after their full `keyword(` prefix matched).
use vstd::prelude::*;
use crate::ast::DataS;
use crate::ast::DocS;
use crate::ast::EnumDefS;
use crate::ast::FieldDefS;
use crate::ast::TypeDefS;
use crate::ast::TypeS;
use crate::ast::ValS;
use crate::ast::VariantS;

verus! {

// ---------------------------------------------------------------------------
// Character classes.
// ---------------------------------------------------------------------------
pub open spec fn is_digit(c: char) -> bool {
    '0' <= c && c <= '9'
}

pub open spec fn is_alpha(c: char) -> bool {
    ('a' <= c && c <= 'z') || ('A' <= c && c <= 'Z')
}

pub open spec fn is_ident_start(c: char) -> bool {
    is_alpha(c) || c == '_'
}

pub open spec fn is_ident_char(c: char) -> bool {
    is_alpha(c) || is_digit(c) || c == '_'
}

pub open spec fn is_space(c: char) -> bool {
    c == ' ' || c == '\t' || c == '\n' || c == '\r'
}

// ---------------------------------------------------------------------------
// Keywords, written as explicit character sequences.
// ---------------------------------------------------------------------------
pub open spec fn kw_true() -> Seq<char> {
    seq!['t', 'r', 'u', 'e']
}

pub open spec fn kw_false() -> Seq<char> {
    seq!['f', 'a', 'l', 's', 'e']
}

pub open spec fn kw_null() -> Seq<char> {
    seq!['n', 'u', 'l', 'l']
}

pub open spec fn kw_url_open() -> Seq<char> {
    seq!['u', 'r', 'l', '(']
}

pub open spec fn kw_socket_open() -> Seq<char> {
    seq!['s', 'o', 'c', 'k', 'e', 't', '(']
}

pub open spec fn kw_pubkey_open() -> Seq<char> {
    seq!['p', 'u', 'b', 'k', 'e', 'y', '(']
}

pub open spec fn kw_at_enum() -> Seq<char> {
    seq!['@', 'e', 'n', 'u', 'm']
}

pub open spec fn kw_at_type() -> Seq<char> {
    seq!['@', 't', 'y', 'p', 'e']
}

/// The directive that names a file to pull in: a `#` followed by the word.
pub open spec fn kw_inclusion() -> Seq<char> {
    seq!['#', 'i', 'n', 'c', 'l', 'u', 'd', 'e']
}

pub open spec fn kw_string() -> Seq<char> {
    seq!['s', 't', 'r', 'i', 'n', 'g']
}

pub open spec fn kw_int() -> Seq<char> {
    seq!['i', 'n', 't']
}

pub open spec fn kw_float() -> Seq<char> {
    seq!['f', 'l', 'o', 'a', 't']
}

pub open spec fn kw_bool() -> Seq<char> {
    seq!['b', 'o', 'o', 'l']
}

pub open spec fn kw_url() -> Seq<char> {
    seq!['u', 'r', 'l']
}

pub open spec fn kw_socket() -> Seq<char> {
    seq!['s', 'o', 'c', 'k', 'e', 't']
}

pub open spec fn kw_pubkey() -> Seq<char> {
    seq!['p', 'u', 'b', 'k', 'e', 'y']
}

// ---------------------------------------------------------------------------
// Primitive scanners.
// ---------------------------------------------------------------------------
/// The characters `t` at position `i` onwards match the whole of `t`.
pub open spec fn sp_tag(s: Seq<char>, i: int, t: Seq<char>) -> bool {
    0 <= i && i + t.len() <= s.len() && s.subrange(i, i + t.len()) == t
}

/// A single expected character.
pub open spec fn sp_ch(s: Seq<char>, i: int, c: char) -> bool {
    0 <= i && i < s.len() && s[i] == c
}

/// Position after the maximal run of whitespace starting at `i`.
pub open spec fn sp_ws(s: Seq<char>, i: int) -> int
    decreases s.len() - i,
{
    if 0 <= i && i < s.len() && is_space(s[i]) {
        sp_ws(s, i + 1)
    } else {
        i
    }
}

/// End of the maximal run of identifier characters starting at `i`.
pub open spec fn ident_end(s: Seq<char>, i: int) -> int
    decreases s.len() - i,
{
    if 0 <= i && i < s.len() && is_ident_char(s[i]) {
        ident_end(s, i + 1)
    } else {
        i
    }
}

/// End of the maximal run of decimal digits starting at `i`.
pub open spec fn digits_end(s: Seq<char>, i: int) -> int
    decreases s.len() - i,
{
    if 0 <= i && i < s.len() && is_digit(s[i]) {
        digits_end(s, i + 1)
    } else {
        i
    }
}

/// End of the maximal run of characters other than a double quote.
pub open spec fn nonquote_end(s: Seq<char>, i: int) -> int
    decreases s.len() - i,
{
    if 0 <= i && i < s.len() && s[i] != '"' {
        nonquote_end(s, i + 1)
    } else {
        i
    }
}

pub broadcast proof fn lemma_ws_bounds(s: Seq<char>, i: int)
    requires
        0 <= i <= s.len(),
    ensures
        i <= #[trigger] sp_ws(s, i) <= s.len(),
    decreases s.len() - i,
{
    if i < s.len() && is_space(s[i]) {
        lemma_ws_bounds(s, i + 1);
    }
}

pub broadcast proof fn lemma_ident_end_bounds(s: Seq<char>, i: int)
    requires
        0 <= i <= s.len(),
    ensures
        i <= #[trigger] ident_end(s, i) <= s.len(),
    decreases s.len() - i,
{
    if i < s.len() && is_ident_char(s[i]) {
        lemma_ident_end_bounds(s, i + 1);
    }
}

pub broadcast proof fn lemma_digits_end_bounds(s: Seq<char>, i: int)
    requires
        0 <= i <= s.len(),
    ensures
        i <= #[trigger] digits_end(s, i) <= s.len(),
    decreases s.len() - i,
{
    if i < s.len() && is_digit(s[i]) {
        lemma_digits_end_bounds(s, i + 1);
    }
}

pub broadcast proof fn lemma_nonquote_end_bounds(s: Seq<char>, i: int)
    requires
        0 <= i <= s.len(),
    ensures
        i <= #[trigger] nonquote_end(s, i) <= s.len(),
    decreases s.len() - i,
{
    if i < s.len() && s[i] != '"' {
        lemma_nonquote_end_bounds(s, i + 1);
    }
}

/// An identifier: a letter or underscore, then letters, digits, underscores.
pub open spec fn sp_ident(s: Seq<char>, i: int) -> Option<(Seq<char>, int)> {
    if 0 <= i && i < s.len() && is_ident_start(s[i]) {
        let j = ident_end(s, i + 1);
        Some((s.subrange(i, j), j))
    } else {
        None
    }
}

/// A string literal: a double quote, any run of other characters, a closing
/// double quote.  There are no escape sequences.
pub open spec fn sp_string(s: Seq<char>, i: int) -> Option<(Seq<char>, int)> {
    if sp_ch(s, i, '"') {
        let j = nonquote_end(s, i + 1);
        if j < s.len() {
            Some((s.subrange(i + 1, j), j + 1))
        } else {
            None
        }
    } else {
        None
    }
}

/// The numeric value of a run of decimal digits, most significant first.
pub open spec fn digits_val(ds: Seq<char>) -> int
    decreases ds,
{
    if ds.len() == 0 {
        0
    } else {
        digits_val(ds.drop_last()) * 10 + (ds.last() as int - '0' as int)
    }
}

/// An integer literal: an optional minus, then digits.  The literal fails
/// when the digits do not fit a 64-bit signed integer.
pub open spec fn sp_int(s: Seq<char>, i: int) -> Option<(int, int)> {
    let j = if sp_ch(s, i, '-') {
        i + 1
    } else {
        i
    };
    let k = digits_end(s, j);
    if 0 <= i && k > j {
        let v = digits_val(s.subrange(j, k));
        if v <= i64::MAX {
            Some((if sp_ch(s, i, '-') { -v } else { v }, k))
        } else {
            None
        }
    } else {
        None
    }
}

/// A decimal literal: an optional minus, digits, a point, digits.
/// The result keeps the written parts: sign, whole digits, fraction digits.
pub open spec fn sp_float(s: Seq<char>, i: int) -> Option<((bool, Seq<char>, Seq<char>), int)> {
    let neg = sp_ch(s, i, '-');
    let j = if neg {
        i + 1
    } else {
        i
    };
    let k = digits_end(s, j);
    if 0 <= i && k > j && sp_ch(s, k, '.') {
        let m = digits_end(s, k + 1);
        if m > k + 1 {
            Some(((neg, s.subrange(j, k), s.subrange(k + 1, m)), m))
        } else {
            None
        }
    } else {
        None
    }
}

/// Exactly the literals `true` and `false`.
pub open spec fn sp_bool(s: Seq<char>, i: int) -> Option<(bool, int)> {
    if sp_tag(s, i, kw_true()) {
        Some((true, i + 4))
    } else if sp_tag(s, i, kw_false()) {
        Some((false, i + 5))
    } else {
        None
    }
}

/// A tagged scalar: the keyword with its opening parenthesis, a string
/// literal, and a closing parenthesis.
pub open spec fn sp_tagged(s: Seq<char>, i: int, kw: Seq<char>) -> Option<(Seq<char>, int)> {
    if sp_tag(s, i, kw) {
        match sp_string(s, i + kw.len()) {
            Some((t, j)) => if sp_ch(s, j, ')') {
                Some((t, j + 1))
            } else {
                None
            },
            None => None,
        }
    } else {
        None
    }
}

// ---------------------------------------------------------------------------
// Ordered field maps: inserting a pair overwrites the value of an earlier
// pair with the same key, in place; otherwise it appends.
// ---------------------------------------------------------------------------
pub open spec fn first_key_index<V>(fs: Seq<(Seq<char>, V)>, k: Seq<char>) -> nat
    decreases fs.len(),
{
    if fs.len() == 0 {
        0
    } else if fs[0].0 == k {
        0
    } else {
        1 + first_key_index(fs.drop_first(), k)
    }
}

pub open spec fn has_key<V>(fs: Seq<(Seq<char>, V)>, k: Seq<char>) -> bool {
    first_key_index(fs, k) < fs.len()
}

/// Where the first pair with a given key stands: before it nothing matches,
/// and when nothing matches at all the index is the length.
pub proof fn lemma_first_key_index<V>(fs: Seq<(Seq<char>, V)>, k: Seq<char>)
    ensures
        first_key_index(fs, k) <= fs.len(),
        first_key_index(fs, k) < fs.len() ==> fs[first_key_index(fs, k) as int].0 == k,
        forall|m: int| 0 <= m < first_key_index(fs, k) && m < fs.len() ==> fs[m].0 != k,
        first_key_index(fs, k) == fs.len() ==> forall|m: int|
            0 <= m < fs.len() ==> fs[m].0 != k,
    decreases fs.len(),
{
    if fs.len() > 0 && fs[0].0 != k {
        lemma_first_key_index(fs.drop_first(), k);
        assert(forall|m: int| 1 <= m < fs.len() ==> fs[m] == fs.drop_first()[m - 1]);
    }
}

pub open spec fn lookup_key<V>(fs: Seq<(Seq<char>, V)>, k: Seq<char>) -> Option<V> {
    if has_key(fs, k) {
        Some(fs[first_key_index(fs, k) as int].1)
    } else {
        None
    }
}

pub open spec fn insert_pair<V>(fs: Seq<(Seq<char>, V)>, k: Seq<char>, v: V) -> Seq<
    (Seq<char>, V),
> {
    if has_key(fs, k) {
        fs.update(first_key_index(fs, k) as int, (fs[first_key_index(fs, k) as int].0, v))
    } else {
        fs.push((k, v))
    }
}

/// Fold a raw pair list, in order, into a map with unique keys.
pub open spec fn dedup_pairs<V>(pairs: Seq<(Seq<char>, V)>) -> Seq<(Seq<char>, V)>
    decreases pairs,
{
    if pairs.len() == 0 {
        Seq::empty()
    } else {
        insert_pair(dedup_pairs(pairs.drop_last()), pairs.last().0, pairs.last().1)
    }
}

// ---------------------------------------------------------------------------
// The value grammar.  The second `decreases` component orders the mutually
// recursive productions that inspect the same position.
// ---------------------------------------------------------------------------
/// Any value form, alternatives tried in the language's fixed order.
pub open spec fn sp_value(s: Seq<char>, i: int) -> Option<(ValS, int)>
    decreases s.len() - i, 10int,
{
    if 0 <= i <= s.len() {
        match sp_string(s, i) {
            Some((t, j)) => Some((ValS::StrV(t), j)),
            None => match sp_float(s, i) {
                Some(((neg, w, f), j)) => Some(
                    (ValS::FloatV { neg: neg, whole: w, frac: f }, j),
                ),
                None => match sp_int(s, i) {
                    Some((n, j)) => Some((ValS::IntV(n), j)),
                    None => match sp_bool(s, i) {
                        Some((b, j)) => Some((ValS::BoolV(b), j)),
                        None => if sp_tag(s, i, kw_null()) {
                            Some((ValS::NullV, i + 4))
                        } else {
                            match sp_tagged(s, i, kw_url_open()) {
                                Some((t, j)) => Some((ValS::UrlV(t), j)),
                                None => match sp_tagged(s, i, kw_socket_open()) {
                                    Some((t, j)) => Some((ValS::SocketV(t), j)),
                                    None => match sp_tagged(s, i, kw_pubkey_open()) {
                                        Some((t, j)) => Some((ValS::PubkeyV(t), j)),
                                        None => match sp_variant(s, i) {
                                            Some(r) => Some(r),
                                            None => match sp_array(s, i) {
                                                Some((vs, j)) => Some((ValS::ArrV(vs), j)),
                                                None => match sp_typed_object(s, i) {
                                                    Some(r) => Some(r),
                                                    None => match sp_object(s, i) {
                                                        Some((fs, j)) => Some((ValS::ObjV(fs), j)),
                                                        None => None,
                                                    },
                                                },
                                            },
                                        },
                                    },
                                },
                            }
                        },
                    },
                },
            },
        }
    } else {
        None
    }
}

/// An enum-variant literal: `Enum.Variant`, with an optional struct payload
/// (after whitespace) or an immediate tuple payload; neither gives a unit
/// variant.
pub open spec fn sp_variant(s: Seq<char>, i: int) -> Option<(ValS, int)>
    decreases s.len() - i, 8int,
{
    if 0 <= i <= s.len() {
        match sp_ident(s, i) {
            None => None,
            Some((e, j)) => if sp_ch(s, j, '.') {
                match sp_ident(s, j + 1) {
                    None => None,
                    Some((v, k)) => {
                        let k2 = sp_ws(s, k);
                        if sp_ch(s, k2, '{') && i < k2 + 1 <= s.len() {
                            match sp_obj_body(s, k2 + 1) {
                                Some((fs, m)) => Some(
                                    (
                                        ValS::VariantV {
                                            enum_name: e,
                                            variant: v,
                                            data: DataS::StructD(fs),
                                        },
                                        m,
                                    ),
                                ),
                                None => None,
                            }
                        } else if sp_ch(s, k, '(') && i < k + 1 {
                            let (vs, m) = sp_val_list(s, k + 1);
                            let m1 = if sp_ch(s, m, ',') {
                                m + 1
                            } else {
                                m
                            };
                            let m2 = sp_ws(s, m1);
                            if sp_ch(s, m2, ')') {
                                Some(
                                    (
                                        ValS::VariantV {
                                            enum_name: e,
                                            variant: v,
                                            data: DataS::TupleD(vs),
                                        },
                                        m2 + 1,
                                    ),
                                )
                            } else {
                                None
                            }
                        } else {
                            Some(
                                (
                                    ValS::VariantV {
                                        enum_name: e,
                                        variant: v,
                                        data: DataS::UnitD,
                                    },
                                    k,
                                ),
                            )
                        }
                    },
                }
            } else {
                None
            },
        }
    } else {
        None
    }
}

/// An array literal: `[` elements `]`, comma-separated, trailing comma
/// tolerated.
pub open spec fn sp_array(s: Seq<char>, i: int) -> Option<(Seq<ValS>, int)>
    decreases s.len() - i, 8int,
{
    if 0 <= i <= s.len() && sp_ch(s, i, '[') {
        let (vs, j) = sp_val_list(s, i + 1);
        let j1 = if sp_ch(s, j, ',') {
            j + 1
        } else {
            j
        };
        let j2 = sp_ws(s, j1);
        if sp_ch(s, j2, ']') {
            Some((vs, j2 + 1))
        } else {
            None
        }
    } else {
        None
    }
}

/// An identifier immediately (after whitespace) followed by an object
/// literal.  The identifier is consumed and discarded.
pub open spec fn sp_typed_object(s: Seq<char>, i: int) -> Option<(ValS, int)>
    decreases s.len() - i, 9int,
{
    if 0 <= i <= s.len() {
        match sp_ident(s, i) {
            None => None,
            Some((_n, j)) => if i < j <= s.len() {
                match sp_object(s, j) {
                    Some((fs, m)) => Some((ValS::ObjV(fs), m)),
                    None => None,
                }
            } else {
                None
            },
        }
    } else {
        None
    }
}

/// An object literal: optional whitespace, `{`, the field list, `}`.
pub open spec fn sp_object(s: Seq<char>, i: int) -> Option<(Seq<(Seq<char>, ValS)>, int)>
    decreases s.len() - i, 8int,
{
    if 0 <= i <= s.len() {
        let i1 = sp_ws(s, i);
        if sp_ch(s, i1, '{') && i <= i1 {
            sp_obj_body(s, i1 + 1)
        } else {
            None
        }
    } else {
        None
    }
}

/// Everything after an opening `{`: key/value pairs, an optional trailing
/// comma, whitespace, and the closing `}`.  Duplicate keys collapse: a later
/// pair overwrites the value of an earlier pair with the same key.
pub open spec fn sp_obj_body(s: Seq<char>, i: int) -> Option<(Seq<(Seq<char>, ValS)>, int)>
    decreases s.len() - i, 7int,
{
    if 0 <= i <= s.len() {
        let (raw, j) = sp_kv_list(s, i);
        let j1 = if sp_ch(s, j, ',') {
            j + 1
        } else {
            j
        };
        let j2 = sp_ws(s, j1);
        if sp_ch(s, j2, '}') {
            Some((dedup_pairs(raw), j2 + 1))
        } else {
            None
        }
    } else {
        None
    }
}

/// Key/value pairs, separated by a comma, by whitespace, or both.
/// The returned list is raw: duplicate keys are still present.
pub open spec fn sp_kv_list(s: Seq<char>, i: int) -> (Seq<(Seq<char>, ValS)>, int)
    decreases s.len() - i, 6int,
{
    if 0 <= i <= s.len() {
        match sp_kv_pair(s, i) {
            None => (Seq::empty(), i),
            Some(((k, v), j)) => {
                let j2 = if sp_ch(s, j, ',') {
                    j + 1
                } else {
                    j
                };
                if i < j2 <= s.len() && sp_kv_pair(s, j2) is Some {
                    let (rest, m) = sp_kv_list(s, j2);
                    (seq![(k, v)] + rest, m)
                } else {
                    (seq![(k, v)], j)
                }
            },
        }
    } else {
        (Seq::empty(), i)
    }
}

/// One `identifier : value` pair, whitespace allowed around every token,
/// trailing whitespace consumed.
pub open spec fn sp_kv_pair(s: Seq<char>, i: int) -> Option<((Seq<char>, ValS), int)>
    decreases s.len() - i, 5int,
{
    if 0 <= i <= s.len() {
        let i1 = sp_ws(s, i);
        match sp_ident(s, i1) {
            None => None,
            Some((k, j)) => {
                let j1 = sp_ws(s, j);
                if sp_ch(s, j1, ':') {
                    let j2 = sp_ws(s, j1 + 1);
                    if i < j2 <= s.len() {
                        match sp_value(s, j2) {
                            None => None,
                            Some((v, m)) => Some(((k, v), sp_ws(s, m))),
                        }
                    } else {
                        None
                    }
                } else {
                    None
                }
            },
        }
    } else {
        None
    }
}

/// One array or tuple element: whitespace, a value, whitespace.
pub open spec fn sp_val_elem(s: Seq<char>, i: int) -> Option<(ValS, int)>
    decreases s.len() - i, 11int,
{
    if 0 <= i <= s.len() {
        let i1 = sp_ws(s, i);
        if i <= i1 <= s.len() {
            match sp_value(s, i1) {
                None => None,
                Some((v, j)) => Some((v, sp_ws(s, j))),
            }
        } else {
            None
        }
    } else {
        None
    }
}

/// Comma-separated values; the comma is required between elements, and a
/// comma not followed by an element is left unconsumed.
pub open spec fn sp_val_list(s: Seq<char>, i: int) -> (Seq<ValS>, int)
    decreases s.len() - i, 12int,
{
    if 0 <= i <= s.len() {
        match sp_val_elem(s, i) {
            None => (Seq::empty(), i),
            Some((v, j)) => if sp_ch(s, j, ',') && i < j + 1 && sp_val_elem(s, j + 1) is Some {
                let (rest, m) = sp_val_list(s, j + 1);
                (seq![v] + rest, m)
            } else {
                (seq![v], j)
            },
        }
    } else {
        (Seq::empty(), i)
    }
}

// ---------------------------------------------------------------------------
// The schema grammar.
// ---------------------------------------------------------------------------
/// A type expression: a primitive keyword, `[Inner]`, or a bare identifier
/// naming a declared type (not checked to exist at parse time).
pub open spec fn sp_type_expr(s: Seq<char>, i: int) -> Option<(TypeS, int)>
    decreases s.len() - i, 1int,
{
    if 0 <= i <= s.len() {
        if sp_tag(s, i, kw_string()) {
            Some((TypeS::StrT, i + 6))
        } else if sp_tag(s, i, kw_int()) {
            Some((TypeS::IntT, i + 3))
        } else if sp_tag(s, i, kw_float()) {
            Some((TypeS::FloatT, i + 5))
        } else if sp_tag(s, i, kw_bool()) {
            Some((TypeS::BoolT, i + 4))
        } else if sp_tag(s, i, kw_url()) {
            Some((TypeS::UrlT, i + 3))
        } else if sp_tag(s, i, kw_socket()) {
            Some((TypeS::SocketT, i + 6))
        } else if sp_tag(s, i, kw_pubkey()) {
            Some((TypeS::PubkeyT, i + 6))
        } else if sp_ch(s, i, '[') {
            match sp_type_expr(s, i + 1) {
                Some((t, j)) => if sp_ch(s, j, ']') {
                    Some((TypeS::ArrT(Box::new(t)), j + 1))
                } else {
                    None
                },
                None => None,
            }
        } else {
            match sp_ident(s, i) {
                Some((n, j)) => Some((TypeS::ObjT(n), j)),
                None => None,
            }
        }
    } else {
        None
    }
}

/// One field declaration: `name`, an optional `?`, `:`, a type expression,
/// trailing whitespace consumed.
pub open spec fn sp_field_def(s: Seq<char>, i: int) -> Option<((Seq<char>, FieldDefS), int)>
    decreases s.len() - i, 2int,
{
    if 0 <= i <= s.len() {
        let i1 = sp_ws(s, i);
        match sp_ident(s, i1) {
            None => None,
            Some((k, j)) => {
                let opt = sp_ch(s, j, '?');
                let j1 = if opt {
                    j + 1
                } else {
                    j
                };
                let j2 = sp_ws(s, j1);
                if sp_ch(s, j2, ':') {
                    let j3 = sp_ws(s, j2 + 1);
                    if i <= j3 <= s.len() {
                        match sp_type_expr(s, j3) {
                            None => None,
                            Some((t, m)) => Some(
                                ((k, FieldDefS { ty: t, optional: opt }), sp_ws(s, m)),
                            ),
                        }
                    } else {
                        None
                    }
                } else {
                    None
                }
            },
        }
    } else {
        None
    }
}

/// Field declarations, separated by a comma, by whitespace, or both.
pub open spec fn sp_field_list(s: Seq<char>, i: int) -> (Seq<(Seq<char>, FieldDefS)>, int)
    decreases s.len() - i, 3int,
{
    if 0 <= i <= s.len() {
        match sp_field_def(s, i) {
            None => (Seq::empty(), i),
            Some(((k, f), j)) => {
                let j2 = if sp_ch(s, j, ',') {
                    j + 1
                } else {
                    j
                };
                if i < j2 <= s.len() && sp_field_def(s, j2) is Some {
                    let (rest, m) = sp_field_list(s, j2);
                    (seq![(k, f)] + rest, m)
                } else {
                    (seq![(k, f)], j)
                }
            },
        }
    } else {
        (Seq::empty(), i)
    }
}

/// Declared tuple-variant types: comma-separated type expressions.
pub open spec fn sp_type_list(s: Seq<char>, i: int) -> (Seq<TypeS>, int)
    decreases s.len() - i, 4int,
{
    if 0 <= i <= s.len() {
        match sp_type_expr(s, i) {
            None => (Seq::empty(), i),
            Some((t, j)) => {
                let j1 = sp_ws(s, j);
                if sp_ch(s, j1, ',') && i < j1 + 1 {
                    let j2 = sp_ws(s, j1 + 1);
                    if i < j2 <= s.len() && sp_type_expr(s, j2) is Some {
                        let (rest, m) = sp_type_list(s, j2);
                        (seq![t] + rest, m)
                    } else {
                        (seq![t], j)
                    }
                } else {
                    (seq![t], j)
                }
            },
        }
    } else {
        (Seq::empty(), i)
    }
}

/// One variant declaration: a name, then an immediate `{` struct shape, an
/// immediate `(` tuple shape, or nothing (unit).  Duplicate struct-field
/// names collapse as in objects.
pub open spec fn sp_variant_def(s: Seq<char>, i: int) -> Option<(VariantS, int)>
    decreases s.len() - i, 5int,
{
    if 0 <= i <= s.len() {
        let i1 = sp_ws(s, i);
        match sp_ident(s, i1) {
            None => None,
            Some((name, j)) => if sp_ch(s, sp_ws(s, j), '{') && i < sp_ws(s, j) + 1 <= s.len() {
                let j0 = sp_ws(s, j);
                let (fs, m) = sp_field_list(s, j0 + 1);
                let m1 = if sp_ch(s, m, ',') {
                    m + 1
                } else {
                    m
                };
                let m2 = sp_ws(s, m1);
                if sp_ch(s, m2, '}') {
                    Some((VariantS::StructV(name, dedup_pairs(fs)), m2 + 1))
                } else {
                    None
                }
            } else if sp_ch(s, j, '(') && i < j + 1 <= s.len() {
                let (ts, m) = sp_type_list(s, j + 1);
                let m1 = if sp_ch(s, m, ',') {
                    m + 1
                } else {
                    m
                };
                let m2 = sp_ws(s, m1);
                if sp_ch(s, m2, ')') {
                    Some((VariantS::TupleV(name, ts), m2 + 1))
                } else {
                    None
                }
            } else {
                Some((VariantS::UnitV(name), j))
            },
        }
    } else {
        None
    }
}

/// Variant declarations, separated by a comma, by whitespace, or both.
pub open spec fn sp_variant_list(s: Seq<char>, i: int) -> (Seq<VariantS>, int)
    decreases s.len() - i, 6int,
{
    if 0 <= i <= s.len() {
        match sp_variant_def(s, i) {
            None => (Seq::empty(), i),
            Some((v, j)) => {
                let j1 = sp_ws(s, j);
                let j2 = if sp_ch(s, j1, ',') && i <= j1 {
                    j1 + 1
                } else {
                    j
                };
                if i < j2 <= s.len() && sp_variant_def(s, j2) is Some {
                    let (rest, m) = sp_variant_list(s, j2);
                    (seq![v] + rest, m)
                } else {
                    (seq![v], j)
                }
            },
        }
    } else {
        (Seq::empty(), i)
    }
}

/// An `@enum Name { variants }` declaration.
pub open spec fn sp_enum_def(s: Seq<char>, i: int) -> Option<(EnumDefS, int)>
    decreases s.len() - i, 7int,
{
    if 0 <= i <= s.len() {
        let i1 = sp_ws(s, i);
        if sp_tag(s, i1, kw_at_enum()) && i <= i1 {
            let i2 = sp_ws(s, i1 + 5);
            match sp_ident(s, i2) {
                None => None,
                Some((name, j)) => {
                    let j1 = sp_ws(s, j);
                    if sp_ch(s, j1, '{') && i < j1 + 1 <= s.len() {
                        let (vs, m) = sp_variant_list(s, j1 + 1);
                        let m1 = if sp_ch(s, m, ',') {
                            m + 1
                        } else {
                            m
                        };
                        let m2 = sp_ws(s, m1);
                        if sp_ch(s, m2, '}') {
                            Some((EnumDefS { name: name, variants: vs }, m2 + 1))
                        } else {
                            None
                        }
                    } else {
                        None
                    }
                },
            }
        } else {
            None
        }
    } else {
        None
    }
}

/// A `@type Name { fields }` declaration.  Duplicate field names collapse.
pub open spec fn sp_type_def(s: Seq<char>, i: int) -> Option<(TypeDefS, int)>
    decreases s.len() - i, 7int,
{
    if 0 <= i <= s.len() {
        let i1 = sp_ws(s, i);
        if sp_tag(s, i1, kw_at_type()) && i <= i1 {
            let i2 = sp_ws(s, i1 + 5);
            match sp_ident(s, i2) {
                None => None,
                Some((name, j)) => {
                    let j1 = sp_ws(s, j);
                    if sp_ch(s, j1, '{') && i < j1 + 1 <= s.len() {
                        let (fs, m) = sp_field_list(s, j1 + 1);
                        let m1 = sp_ws(s, m);
                        if sp_ch(s, m1, '}') {
                            Some((TypeDefS { name: name, fields: dedup_pairs(fs) }, m1 + 1))
                        } else {
                            None
                        }
                    } else {
                        None
                    }
                },
            }
        } else {
            None
        }
    } else {
        None
    }
}

// ---------------------------------------------------------------------------
// The document grammar.
// ---------------------------------------------------------------------------
/// One file-inclusion directive: the `#` keyword, a string literal path.
pub open spec fn sp_inclusion(s: Seq<char>, i: int) -> Option<(Seq<char>, int)> {
    if 0 <= i <= s.len() {
        let i1 = sp_ws(s, i);
        if sp_tag(s, i1, kw_inclusion()) && i <= i1 {
            let i2 = sp_ws(s, i1 + 8);
            match sp_string(s, i2) {
                None => None,
                Some((p, j)) => Some((p, sp_ws(s, j))),
            }
        } else {
            None
        }
    } else {
        None
    }
}

pub open spec fn sp_inclusion_list(s: Seq<char>, i: int) -> (Seq<Seq<char>>, int)
    decreases s.len() - i,
{
    if 0 <= i <= s.len() {
        match sp_inclusion(s, i) {
            None => (Seq::empty(), i),
            Some((p, j)) => if i < j <= s.len() {
                let (rest, m) = sp_inclusion_list(s, j);
                (seq![p] + rest, m)
            } else {
                (seq![p], j)
            },
        }
    } else {
        (Seq::empty(), i)
    }
}

pub open spec fn sp_enum_list(s: Seq<char>, i: int) -> (Seq<EnumDefS>, int)
    decreases s.len() - i,
{
    if 0 <= i <= s.len() {
        match sp_enum_def(s, i) {
            None => (Seq::empty(), i),
            Some((e, j)) => {
                let j1 = sp_ws(s, j);
                if i < j1 <= s.len() {
                    let (rest, m) = sp_enum_list(s, j1);
                    (seq![e] + rest, m)
                } else {
                    (seq![e], j1)
                }
            },
        }
    } else {
        (Seq::empty(), i)
    }
}

pub open spec fn sp_type_def_list(s: Seq<char>, i: int) -> (Seq<TypeDefS>, int)
    decreases s.len() - i,
{
    if 0 <= i <= s.len() {
        match sp_type_def(s, i) {
            None => (Seq::empty(), i),
            Some((t, j)) => {
                let j1 = sp_ws(s, j);
                if i < j1 <= s.len() {
                    let (rest, m) = sp_type_def_list(s, j1);
                    (seq![t] + rest, m)
                } else {
                    (seq![t], j1)
                }
            },
        }
    } else {
        (Seq::empty(), i)
    }
}

/// A whole document: inclusion directives, enum declarations, type
/// declarations (the two kinds cannot interleave), then the root object.
/// Anything after the root object is ignored.
pub open spec fn sp_document(s: Seq<char>) -> Option<DocS> {
    let (incs, a) = sp_inclusion_list(s, 0);
    let b = sp_ws(s, a);
    let (enums, c) = sp_enum_list(s, b);
    let d = sp_ws(s, c);
    let (types, e) = sp_type_def_list(s, d);
    let f = sp_ws(s, e);
    if 0 <= f <= s.len() {
        match sp_object(s, f) {
            None => None,
            Some((root, _end)) => Some(
                DocS { inclusions: incs, types: types, enums: enums, root: root },
            ),
        }
    } else {
        None
    }
}

} // verus!
