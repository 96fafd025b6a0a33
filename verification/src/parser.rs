//! The executable recursive-descent parser.  Every function returns exactly
//! what the corresponding specification function in `grammar` says, so the
//! grammar module is the contract and this module is its implementation.
use vstd::prelude::*;
use crate::ast::EnumDef;
use crate::ast::EnumVariant;
use crate::ast::EnumVariantData;
use crate::ast::FieldDef;
use crate::ast::FloatLit;
use crate::ast::RecDocument;
use crate::ast::RecError;
use crate::ast::RecObject;
use crate::ast::RecType;
use crate::ast::RecValue;
use crate::ast::TypeDef;
use crate::ast::lemma_view_field_defs;
use crate::ast::lemma_view_val_fields;
use crate::ast::lemma_view_vals;
use crate::ast::view_enum_defs;
use crate::ast::view_field_defs;
use crate::ast::view_type;
use crate::ast::view_type_defs;
use crate::ast::view_types;
use crate::ast::view_val_fields;
use crate::ast::view_vals;
use crate::ast::view_variants;
use crate::chars::to_chars;
use crate::grammar::dedup_pairs;
use crate::grammar::first_key_index;
use crate::grammar::lemma_first_key_index;
use crate::grammar::has_key;
use crate::grammar::kw_at_enum;
use crate::grammar::kw_at_type;
use crate::grammar::kw_bool;
use crate::grammar::kw_false;
use crate::grammar::kw_float;
use crate::grammar::kw_inclusion;
use crate::grammar::kw_int;
use crate::grammar::kw_null;
use crate::grammar::kw_pubkey;
use crate::grammar::kw_pubkey_open;
use crate::grammar::kw_socket;
use crate::grammar::kw_socket_open;
use crate::grammar::kw_string;
use crate::grammar::kw_true;
use crate::grammar::kw_url;
use crate::grammar::kw_url_open;
use crate::grammar::sp_array;
use crate::grammar::sp_bool;
use crate::grammar::sp_document;
use crate::grammar::sp_enum_def;
use crate::grammar::sp_enum_list;
use crate::grammar::sp_field_def;
use crate::grammar::sp_field_list;
use crate::grammar::sp_float;
use crate::grammar::sp_inclusion;
use crate::grammar::sp_inclusion_list;
use crate::grammar::sp_kv_list;
use crate::grammar::sp_kv_pair;
use crate::grammar::sp_obj_body;
use crate::grammar::sp_object;
use crate::grammar::sp_tagged;
use crate::grammar::sp_type_def;
use crate::grammar::sp_type_def_list;
use crate::grammar::sp_type_expr;
use crate::grammar::sp_type_list;
use crate::grammar::sp_typed_object;
use crate::grammar::sp_val_elem;
use crate::grammar::sp_val_list;
use crate::grammar::sp_value;
use crate::grammar::sp_variant;
use crate::grammar::sp_variant_def;
use crate::grammar::sp_variant_list;
use crate::grammar::insert_pair;
use crate::lexer::p_ch;
use crate::lexer::p_ident;
use crate::lexer::p_int;
use crate::lexer::p_string;
use crate::lexer::p_tag;
use crate::lexer::p_ws;
use crate::lexer::p_digits_end;
use crate::lexer::p_digits_val;
use crate::lexer::lemma_digits_run;
use crate::lexer::sub_string;
use crate::chars::str_eq;
use crate::ast::ValS;
use crate::ast::FieldDefS;
use crate::ast::lemma_view_types;
use crate::ast::lemma_view_variants;
use crate::ast::lemma_view_enum_defs;
use crate::ast::lemma_view_type_defs;

verus! {

// ---------------------------------------------------------------------------
// Keyword vectors.
// ---------------------------------------------------------------------------
fn kw_true_v() -> (r: Vec<char>)
    ensures
        r@ == kw_true(),
{
    let mut v: Vec<char> = Vec::new();
    v.push('t');
    v.push('r');
    v.push('u');
    v.push('e');
    proof {
        assert(v@ =~= kw_true());
    }
    v
}

fn kw_false_v() -> (r: Vec<char>)
    ensures
        r@ == kw_false(),
{
    let mut v: Vec<char> = Vec::new();
    v.push('f');
    v.push('a');
    v.push('l');
    v.push('s');
    v.push('e');
    proof {
        assert(v@ =~= kw_false());
    }
    v
}

fn kw_null_v() -> (r: Vec<char>)
    ensures
        r@ == kw_null(),
{
    let mut v: Vec<char> = Vec::new();
    v.push('n');
    v.push('u');
    v.push('l');
    v.push('l');
    proof {
        assert(v@ =~= kw_null());
    }
    v
}

fn kw_url_open_v() -> (r: Vec<char>)
    ensures
        r@ == kw_url_open(),
{
    let mut v: Vec<char> = Vec::new();
    v.push('u');
    v.push('r');
    v.push('l');
    v.push('(');
    proof {
        assert(v@ =~= kw_url_open());
    }
    v
}

fn kw_socket_open_v() -> (r: Vec<char>)
    ensures
        r@ == kw_socket_open(),
{
    let mut v: Vec<char> = Vec::new();
    v.push('s');
    v.push('o');
    v.push('c');
    v.push('k');
    v.push('e');
    v.push('t');
    v.push('(');
    proof {
        assert(v@ =~= kw_socket_open());
    }
    v
}

fn kw_pubkey_open_v() -> (r: Vec<char>)
    ensures
        r@ == kw_pubkey_open(),
{
    let mut v: Vec<char> = Vec::new();
    v.push('p');
    v.push('u');
    v.push('b');
    v.push('k');
    v.push('e');
    v.push('y');
    v.push('(');
    proof {
        assert(v@ =~= kw_pubkey_open());
    }
    v
}

fn kw_at_enum_v() -> (r: Vec<char>)
    ensures
        r@ == kw_at_enum(),
{
    let mut v: Vec<char> = Vec::new();
    v.push('@');
    v.push('e');
    v.push('n');
    v.push('u');
    v.push('m');
    proof {
        assert(v@ =~= kw_at_enum());
    }
    v
}

fn kw_at_type_v() -> (r: Vec<char>)
    ensures
        r@ == kw_at_type(),
{
    let mut v: Vec<char> = Vec::new();
    v.push('@');
    v.push('t');
    v.push('y');
    v.push('p');
    v.push('e');
    proof {
        assert(v@ =~= kw_at_type());
    }
    v
}

fn kw_inclusion_v() -> (r: Vec<char>)
    ensures
        r@ == kw_inclusion(),
{
    let mut v: Vec<char> = Vec::new();
    v.push('#');
    v.push('i');
    v.push('n');
    v.push('c');
    v.push('l');
    v.push('u');
    v.push('d');
    v.push('e');
    proof {
        assert(v@ =~= kw_inclusion());
    }
    v
}

fn kw_string_v() -> (r: Vec<char>)
    ensures
        r@ == kw_string(),
{
    let mut v: Vec<char> = Vec::new();
    v.push('s');
    v.push('t');
    v.push('r');
    v.push('i');
    v.push('n');
    v.push('g');
    proof {
        assert(v@ =~= kw_string());
    }
    v
}

fn kw_int_v() -> (r: Vec<char>)
    ensures
        r@ == kw_int(),
{
    let mut v: Vec<char> = Vec::new();
    v.push('i');
    v.push('n');
    v.push('t');
    proof {
        assert(v@ =~= kw_int());
    }
    v
}

fn kw_float_v() -> (r: Vec<char>)
    ensures
        r@ == kw_float(),
{
    let mut v: Vec<char> = Vec::new();
    v.push('f');
    v.push('l');
    v.push('o');
    v.push('a');
    v.push('t');
    proof {
        assert(v@ =~= kw_float());
    }
    v
}

fn kw_bool_v() -> (r: Vec<char>)
    ensures
        r@ == kw_bool(),
{
    let mut v: Vec<char> = Vec::new();
    v.push('b');
    v.push('o');
    v.push('o');
    v.push('l');
    proof {
        assert(v@ =~= kw_bool());
    }
    v
}

fn kw_url_v() -> (r: Vec<char>)
    ensures
        r@ == kw_url(),
{
    let mut v: Vec<char> = Vec::new();
    v.push('u');
    v.push('r');
    v.push('l');
    proof {
        assert(v@ =~= kw_url());
    }
    v
}

fn kw_socket_v() -> (r: Vec<char>)
    ensures
        r@ == kw_socket(),
{
    let mut v: Vec<char> = Vec::new();
    v.push('s');
    v.push('o');
    v.push('c');
    v.push('k');
    v.push('e');
    v.push('t');
    proof {
        assert(v@ =~= kw_socket());
    }
    v
}

fn kw_pubkey_v() -> (r: Vec<char>)
    ensures
        r@ == kw_pubkey(),
{
    let mut v: Vec<char> = Vec::new();
    v.push('p');
    v.push('u');
    v.push('b');
    v.push('k');
    v.push('e');
    v.push('y');
    proof {
        assert(v@ =~= kw_pubkey());
    }
    v
}

// ---------------------------------------------------------------------------
// Small composite scanners.
// ---------------------------------------------------------------------------
/// A decimal literal, kept as its parts.
fn p_float(s: &Vec<char>, i: usize) -> (r: Option<(FloatLit, usize)>)
    requires
        i <= s@.len(),
    ensures
        match r {
            Some((f, j)) => sp_float(s@, i as int) == Some(((f.neg, f.whole@, f.frac@), j as int))
                && i < j <= s@.len(),
            None => sp_float(s@, i as int) is None,
        },
{
    let n = s.len();
    let neg = p_ch(s, i, '-');
    let j = if neg {
        i + 1
    } else {
        i
    };
    let k = p_digits_end(s, j);
    if k == j {
        return None;
    }
    if p_ch(s, k, '.') {
        let m = p_digits_end(s, k + 1);
        if m > k + 1 {
            let whole = sub_string(s, j, k);
            let frac = sub_string(s, k + 1, m);
            Some((FloatLit { neg: neg, whole: whole, frac: frac }, m))
        } else {
            None
        }
    } else {
        None
    }
}

/// The literals `true` and `false`.
fn p_bool(s: &Vec<char>, i: usize) -> (r: Option<(bool, usize)>)
    requires
        i <= s@.len(),
    ensures
        match r {
            Some((b, j)) => sp_bool(s@, i as int) == Some((b, j as int)) && i < j <= s@.len(),
            None => sp_bool(s@, i as int) is None,
        },
{
    let n = s.len();
    let t = kw_true_v();
    if p_tag(s, i, &t) {
        return Some((true, i + 4));
    }
    let f = kw_false_v();
    if p_tag(s, i, &f) {
        return Some((false, i + 5));
    }
    None
}

/// A tagged scalar: `keyword(` string `)`.
fn p_tagged(s: &Vec<char>, i: usize, kw: &Vec<char>) -> (r: Option<(String, usize)>)
    requires
        i <= s@.len(),
    ensures
        match r {
            Some((t, j)) => sp_tagged(s@, i as int, kw@) == Some((t@, j as int)) && i < j
                <= s@.len(),
            None => sp_tagged(s@, i as int, kw@) is None,
        },
{
    let n = s.len();
    if p_tag(s, i, kw) {
        match p_string(s, i + kw.len()) {
            Some((t, j)) => {
                if p_ch(s, j, ')') {
                    Some((t, j + 1))
                } else {
                    None
                }
            },
            None => None,
        }
    } else {
        None
    }
}

// ---------------------------------------------------------------------------
// Ordered-map building: a later pair with a known key overwrites the value
// of the earlier pair, in place.
// ---------------------------------------------------------------------------
/// Insert one key/value pair into an ordered value map.
fn insert_val_pair(out: Vec<(String, RecValue)>, k: String, v: RecValue) -> (r: Vec<
    (String, RecValue),
>)
    ensures
        view_val_fields(r@) == insert_pair(view_val_fields(out@), k@, v@),
{
    let mut acc = out;
    let ghost gfs = view_val_fields(acc@);
    proof {
        assert(gfs == view_val_fields(out@));
    }
    proof {
        lemma_view_val_fields(acc@);
        lemma_first_key_index(view_val_fields(acc@), k@);
    }
    let mut idx: usize = 0;
    while idx < acc.len()
        invariant
            gfs == view_val_fields(acc@),
            gfs == view_val_fields(out@),
            gfs.len() == acc@.len(),
            forall|m: int| 0 <= m < acc@.len() ==> gfs[m] == (acc@[m].0@, acc@[m].1@),
            idx <= acc@.len(),
            forall|m: int| 0 <= m < idx ==> gfs[m].0 != k@,
        decreases acc@.len() - idx,
    {
        if str_eq(acc[idx].0.as_str(), k.as_str()) {
            proof {
                assert(gfs[idx as int].0 == k@);
                assert(first_key_index(gfs, k@) == idx as nat) by {
                    lemma_first_key_index(gfs, k@);
                    if first_key_index(gfs, k@) < idx as nat {
                        assert(gfs[first_key_index(gfs, k@) as int].0 != k@);
                    }
                };
            }
            let ghost pre_vec = acc@;
            let old_pair = acc.remove(idx);
            acc.insert(idx, (old_pair.0, v));
            proof {
                assert(acc@ =~= pre_vec.update(idx as int, (pre_vec[idx as int].0, v)));
                lemma_view_val_fields(acc@);
                assert(view_val_fields(acc@) =~= insert_pair(gfs, k@, v@));
                assert(view_val_fields(acc@) == insert_pair(view_val_fields(out@), k@, v@));
            }
            return acc;
        }
        idx = idx + 1;
    }
    proof {
        lemma_first_key_index(gfs, k@);
        assert(first_key_index(gfs, k@) == gfs.len());
        assert(!has_key(gfs, k@));
    }
    acc.push((k, v));
    proof {
        lemma_view_val_fields(acc@);
        assert(view_val_fields(acc@) =~= insert_pair(gfs, k@, v@));
    }
    acc
}

/// Fold a raw pair list into an ordered map with unique keys.
fn dedup_val_pairs(pairs: Vec<(String, RecValue)>) -> (r: Vec<(String, RecValue)>)
    ensures
        view_val_fields(r@) == dedup_pairs(view_val_fields(pairs@)),
{
    let ghost orig = pairs@;
    let mut rest = pairs;
    let total = rest.len();
    let mut out: Vec<(String, RecValue)> = Vec::new();
    proof {
        assert(orig.subrange(0, 0) =~= Seq::<(String, RecValue)>::empty());
    }
    let mut done: usize = 0;
    while rest.len() > 0
        invariant
            total == orig.len(),
            done + rest@.len() == orig.len(),
            rest@ == orig.subrange(done as int, orig.len() as int),
            view_val_fields(out@) == dedup_pairs(view_val_fields(orig.subrange(0, done as int))),
        decreases rest@.len(),
    {
        let (k, v) = rest.remove(0);
        let ghost pre = orig.subrange(0, done as int);
        let ghost cur = orig.subrange(0, done as int + 1);
        proof {
            assert(orig[done as int] == (k, v));
            assert(cur.drop_last() =~= pre);
            lemma_view_val_fields(cur);
            lemma_view_val_fields(pre);
            assert(view_val_fields(cur).drop_last() =~= view_val_fields(pre));
            assert(view_val_fields(cur).last() == (k@, v@));
        }
        out = insert_val_pair(out, k, v);
        done = done + 1;
        proof {
            assert(rest@ =~= orig.subrange(done as int, orig.len() as int));
        }
    }
    proof {
        assert(orig.subrange(0, done as int) =~= orig);
    }
    out
}

/// Insert one field declaration into an ordered declaration map.
fn insert_def_pair(out: Vec<(String, FieldDef)>, k: String, v: FieldDef) -> (r: Vec<
    (String, FieldDef),
>)
    ensures
        view_field_defs(r@) == insert_pair(view_field_defs(out@), k@, v@),
{
    let mut acc = out;
    let ghost gfs = view_field_defs(acc@);
    proof {
        assert(gfs == view_field_defs(out@));
    }
    proof {
        lemma_view_field_defs(acc@);
        lemma_first_key_index(view_field_defs(acc@), k@);
    }
    let mut idx: usize = 0;
    while idx < acc.len()
        invariant
            gfs == view_field_defs(acc@),
            gfs == view_field_defs(out@),
            gfs.len() == acc@.len(),
            forall|m: int| 0 <= m < acc@.len() ==> gfs[m] == (acc@[m].0@, acc@[m].1@),
            idx <= acc@.len(),
            forall|m: int| 0 <= m < idx ==> gfs[m].0 != k@,
        decreases acc@.len() - idx,
    {
        if str_eq(acc[idx].0.as_str(), k.as_str()) {
            proof {
                assert(gfs[idx as int].0 == k@);
                assert(first_key_index(gfs, k@) == idx as nat) by {
                    lemma_first_key_index(gfs, k@);
                    if first_key_index(gfs, k@) < idx as nat {
                        assert(gfs[first_key_index(gfs, k@) as int].0 != k@);
                    }
                };
            }
            let ghost pre_vec = acc@;
            let old_pair = acc.remove(idx);
            acc.insert(idx, (old_pair.0, v));
            proof {
                assert(acc@ =~= pre_vec.update(idx as int, (pre_vec[idx as int].0, v)));
                lemma_view_field_defs(acc@);
                assert(view_field_defs(acc@) =~= insert_pair(gfs, k@, v@));
                assert(view_field_defs(acc@) == insert_pair(view_field_defs(out@), k@, v@));
            }
            return acc;
        }
        idx = idx + 1;
    }
    proof {
        lemma_first_key_index(gfs, k@);
        assert(!has_key(gfs, k@));
    }
    acc.push((k, v));
    proof {
        lemma_view_field_defs(acc@);
        assert(view_field_defs(acc@) =~= insert_pair(gfs, k@, v@));
    }
    acc
}

/// Fold raw field declarations into an ordered map with unique names.
fn dedup_def_pairs(pairs: Vec<(String, FieldDef)>) -> (r: Vec<(String, FieldDef)>)
    ensures
        view_field_defs(r@) == dedup_pairs(view_field_defs(pairs@)),
{
    let ghost orig = pairs@;
    let mut rest = pairs;
    let total = rest.len();
    let mut out: Vec<(String, FieldDef)> = Vec::new();
    proof {
        assert(orig.subrange(0, 0) =~= Seq::<(String, FieldDef)>::empty());
    }
    let mut done: usize = 0;
    while rest.len() > 0
        invariant
            total == orig.len(),
            done + rest@.len() == orig.len(),
            rest@ == orig.subrange(done as int, orig.len() as int),
            view_field_defs(out@) == dedup_pairs(view_field_defs(orig.subrange(0, done as int))),
        decreases rest@.len(),
    {
        let (k, v) = rest.remove(0);
        let ghost pre = orig.subrange(0, done as int);
        let ghost cur = orig.subrange(0, done as int + 1);
        proof {
            assert(orig[done as int] == (k, v));
            assert(cur.drop_last() =~= pre);
            lemma_view_field_defs(cur);
            lemma_view_field_defs(pre);
            assert(view_field_defs(cur).drop_last() =~= view_field_defs(pre));
            assert(view_field_defs(cur).last() == (k@, v@));
        }
        out = insert_def_pair(out, k, v);
        done = done + 1;
        proof {
            assert(rest@ =~= orig.subrange(done as int, orig.len() as int));
        }
    }
    proof {
        assert(orig.subrange(0, done as int) =~= orig);
    }
    out
}


// ---------------------------------------------------------------------------
// The mutually recursive value parsers.
// ---------------------------------------------------------------------------
/// One `identifier : value` pair.
fn p_kv_pair(s: &Vec<char>, i: usize) -> (r: Option<((String, RecValue), usize)>)
    requires
        i <= s@.len(),
    ensures
        match r {
            Some((kv, j)) => sp_kv_pair(s@, i as int) == Some(((kv.0@, kv.1@), j as int)) && i < j
                <= s@.len(),
            None => sp_kv_pair(s@, i as int) is None,
        },
    decreases s@.len() - i, 5int,
{
    let n = s.len();
    let i1 = p_ws(s, i);
    match p_ident(s, i1) {
        None => None,
        Some((k, j)) => {
            let j1 = p_ws(s, j);
            if p_ch(s, j1, ':') {
                let j2 = p_ws(s, j1 + 1);
                match p_value(s, j2) {
                    None => None,
                    Some((v, m)) => {
                        let e = p_ws(s, m);
                        Some(((k, v), e))
                    },
                }
            } else {
                None
            }
        },
    }
}

/// Key/value pairs separated by a comma, whitespace, or both; raw list.
fn p_kv_list(s: &Vec<char>, i: usize) -> (r: (Vec<(String, RecValue)>, usize))
    requires
        i <= s@.len(),
    ensures
        sp_kv_list(s@, i as int) == (view_val_fields(r.0@), r.1 as int),
        i <= r.1 <= s@.len(),
    decreases s@.len() - i, 6int,
{
    let n = s.len();
    match p_kv_pair(s, i) {
        None => {
            let empty: Vec<(String, RecValue)> = Vec::new();
            proof {
                assert(view_val_fields(empty@) =~= Seq::<(Seq<char>, ValS)>::empty());
            }
            (empty, i)
        },
        Some((kv, j)) => {
            let j2 = if p_ch(s, j, ',') {
                j + 1
            } else {
                j
            };
            match p_kv_pair(s, j2) {
                Some(_) => {
                    let (rest, m) = p_kv_list(s, j2);
                    let ghost grest = rest@;
                    let ghost gkv = (kv.0@, kv.1@);
                    let mut list = rest;
                    list.insert(0, kv);
                    proof {
                        lemma_view_val_fields(list@);
                        lemma_view_val_fields(grest);
                        assert(view_val_fields(list@) =~= seq![gkv] + view_val_fields(grest));
                    }
                    (list, m)
                },
                None => {
                    let ghost gkv = (kv.0@, kv.1@);
                    let mut single: Vec<(String, RecValue)> = Vec::new();
                    single.push(kv);
                    proof {
                        lemma_view_val_fields(single@);
                        assert(view_val_fields(single@) =~= seq![gkv]);
                    }
                    (single, j)
                },
            }
        },
    }
}

/// Everything after an opening `{` of an object or struct payload.
fn p_obj_body(s: &Vec<char>, i: usize) -> (r: Option<(Vec<(String, RecValue)>, usize)>)
    requires
        i <= s@.len(),
    ensures
        match r {
            Some((fs, j)) => sp_obj_body(s@, i as int) == Some(
                (view_val_fields(fs@), j as int),
            ) && i <= j <= s@.len(),
            None => sp_obj_body(s@, i as int) is None,
        },
    decreases s@.len() - i, 7int,
{
    let n = s.len();
    let (raw, j) = p_kv_list(s, i);
    let j1 = if p_ch(s, j, ',') {
        j + 1
    } else {
        j
    };
    let j2 = p_ws(s, j1);
    if p_ch(s, j2, '}') {
        let fields = dedup_val_pairs(raw);
        Some((fields, j2 + 1))
    } else {
        None
    }
}

/// An object literal.
fn p_object(s: &Vec<char>, i: usize) -> (r: Option<(Vec<(String, RecValue)>, usize)>)
    requires
        i <= s@.len(),
    ensures
        match r {
            Some((fs, j)) => sp_object(s@, i as int) == Some(
                (view_val_fields(fs@), j as int),
            ) && i < j <= s@.len(),
            None => sp_object(s@, i as int) is None,
        },
    decreases s@.len() - i, 8int,
{
    let n = s.len();
    let i1 = p_ws(s, i);
    if p_ch(s, i1, '{') {
        p_obj_body(s, i1 + 1)
    } else {
        None
    }
}

/// An identifier immediately followed by an object literal.
fn p_typed_object(s: &Vec<char>, i: usize) -> (r: Option<(RecValue, usize)>)
    requires
        i <= s@.len(),
    ensures
        match r {
            Some((v, j)) => sp_typed_object(s@, i as int) == Some((v@, j as int)) && i < j
                <= s@.len(),
            None => sp_typed_object(s@, i as int) is None,
        },
    decreases s@.len() - i, 9int,
{
    match p_ident(s, i) {
        None => None,
        Some((_name, j)) => match p_object(s, j) {
            Some((fs, m)) => Some((RecValue::Object(RecObject { fields: fs }), m)),
            None => None,
        },
    }
}

/// An array literal.
fn p_array(s: &Vec<char>, i: usize) -> (r: Option<(Vec<RecValue>, usize)>)
    requires
        i <= s@.len(),
    ensures
        match r {
            Some((vs, j)) => sp_array(s@, i as int) == Some((view_vals(vs@), j as int)) && i < j
                <= s@.len(),
            None => sp_array(s@, i as int) is None,
        },
    decreases s@.len() - i, 8int,
{
    let n = s.len();
    if p_ch(s, i, '[') {
        let (vs, j) = p_val_list(s, i + 1);
        let j1 = if p_ch(s, j, ',') {
            j + 1
        } else {
            j
        };
        let j2 = p_ws(s, j1);
        if p_ch(s, j2, ']') {
            Some((vs, j2 + 1))
        } else {
            None
        }
    } else {
        None
    }
}

/// One array or tuple element.
fn p_val_elem(s: &Vec<char>, i: usize) -> (r: Option<(RecValue, usize)>)
    requires
        i <= s@.len(),
    ensures
        match r {
            Some((v, j)) => sp_val_elem(s@, i as int) == Some((v@, j as int)) && i < j <= s@.len(),
            None => sp_val_elem(s@, i as int) is None,
        },
    decreases s@.len() - i, 11int,
{
    let i1 = p_ws(s, i);
    match p_value(s, i1) {
        None => None,
        Some((v, j)) => {
            let e = p_ws(s, j);
            Some((v, e))
        },
    }
}

/// Comma-separated values.
fn p_val_list(s: &Vec<char>, i: usize) -> (r: (Vec<RecValue>, usize))
    requires
        i <= s@.len(),
    ensures
        sp_val_list(s@, i as int) == (view_vals(r.0@), r.1 as int),
        i <= r.1 <= s@.len(),
    decreases s@.len() - i, 12int,
{
    let n = s.len();
    match p_val_elem(s, i) {
        None => {
            let empty: Vec<RecValue> = Vec::new();
            proof {
                assert(view_vals(empty@) =~= Seq::<ValS>::empty());
            }
            (empty, i)
        },
        Some((v, j)) => {
            if p_ch(s, j, ',') {
                match p_val_elem(s, j + 1) {
                    Some(_) => {
                        let (rest, m) = p_val_list(s, j + 1);
                        let ghost grest = rest@;
                        let ghost gv = v@;
                        let mut list = rest;
                        list.insert(0, v);
                        proof {
                            lemma_view_vals(list@);
                            lemma_view_vals(grest);
                            assert(view_vals(list@) =~= seq![gv] + view_vals(grest));
                        }
                        (list, m)
                    },
                    None => {
                        let ghost gv = v@;
                        let mut single: Vec<RecValue> = Vec::new();
                        single.push(v);
                        proof {
                            lemma_view_vals(single@);
                            assert(view_vals(single@) =~= seq![gv]);
                        }
                        (single, j)
                    },
                }
            } else {
                let ghost gv = v@;
                let mut single: Vec<RecValue> = Vec::new();
                single.push(v);
                proof {
                    lemma_view_vals(single@);
                    assert(view_vals(single@) =~= seq![gv]);
                }
                (single, j)
            }
        },
    }
}

/// An enum-variant literal.
fn p_variant(s: &Vec<char>, i: usize) -> (r: Option<(RecValue, usize)>)
    requires
        i <= s@.len(),
    ensures
        match r {
            Some((v, j)) => sp_variant(s@, i as int) == Some((v@, j as int)) && i < j <= s@.len(),
            None => sp_variant(s@, i as int) is None,
        },
    decreases s@.len() - i, 8int,
{
    let n = s.len();
    match p_ident(s, i) {
        None => None,
        Some((e, j)) => {
            if p_ch(s, j, '.') {
                match p_ident(s, j + 1) {
                    None => None,
                    Some((v, k)) => {
                        let k2 = p_ws(s, k);
                        if p_ch(s, k2, '{') {
                            match p_obj_body(s, k2 + 1) {
                                Some((fs, m)) => Some(
                                    (
                                        RecValue::EnumVariant {
                                            enum_name: e,
                                            variant: v,
                                            data: EnumVariantData::Struct(fs),
                                        },
                                        m,
                                    ),
                                ),
                                None => None,
                            }
                        } else if p_ch(s, k, '(') {
                            let (vs, m) = p_val_list(s, k + 1);
                            let m1 = if p_ch(s, m, ',') {
                                m + 1
                            } else {
                                m
                            };
                            let m2 = p_ws(s, m1);
                            if p_ch(s, m2, ')') {
                                Some(
                                    (
                                        RecValue::EnumVariant {
                                            enum_name: e,
                                            variant: v,
                                            data: EnumVariantData::Tuple(vs),
                                        },
                                        m2 + 1,
                                    ),
                                )
                            } else {
                                None
                            }
                        } else {
                            Some(
                                (
                                    RecValue::EnumVariant {
                                        enum_name: e,
                                        variant: v,
                                        data: EnumVariantData::Unit,
                                    },
                                    k,
                                ),
                            )
                        }
                    },
                }
            } else {
                None
            }
        },
    }
}

/// Any value form, in the language's fixed order of alternatives.
fn p_value(s: &Vec<char>, i: usize) -> (r: Option<(RecValue, usize)>)
    requires
        i <= s@.len(),
    ensures
        match r {
            Some((v, j)) => sp_value(s@, i as int) == Some((v@, j as int)) && i < j <= s@.len(),
            None => sp_value(s@, i as int) is None,
        },
    decreases s@.len() - i, 10int,
{
    let n = s.len();
    match p_string(s, i) {
        Some((t, j)) => {
            return Some((RecValue::String(t), j));
        },
        None => {},
    }
    match p_float(s, i) {
        Some((f, j)) => {
            return Some((RecValue::Float(f), j));
        },
        None => {},
    }
    match p_int(s, i) {
        Some((v, j)) => {
            return Some((RecValue::Int(v), j));
        },
        None => {},
    }
    match p_bool(s, i) {
        Some((b, j)) => {
            return Some((RecValue::Bool(b), j));
        },
        None => {},
    }
    let knull = kw_null_v();
    if p_tag(s, i, &knull) {
        return Some((RecValue::Null, i + 4));
    }
    let kurl = kw_url_open_v();
    match p_tagged(s, i, &kurl) {
        Some((t, j)) => {
            return Some((RecValue::Url(t), j));
        },
        None => {},
    }
    let ksocket = kw_socket_open_v();
    match p_tagged(s, i, &ksocket) {
        Some((t, j)) => {
            return Some((RecValue::Socket(t), j));
        },
        None => {},
    }
    let kpubkey = kw_pubkey_open_v();
    match p_tagged(s, i, &kpubkey) {
        Some((t, j)) => {
            return Some((RecValue::Pubkey(t), j));
        },
        None => {},
    }
    match p_variant(s, i) {
        Some((v, j)) => {
            return Some((v, j));
        },
        None => {},
    }
    match p_array(s, i) {
        Some((vs, j)) => {
            return Some((RecValue::Array(vs), j));
        },
        None => {},
    }
    match p_typed_object(s, i) {
        Some((v, j)) => {
            return Some((v, j));
        },
        None => {},
    }
    match p_object(s, i) {
        Some((fs, j)) => {
            return Some((RecValue::Object(RecObject { fields: fs }), j));
        },
        None => {},
    }
    None
}


// ---------------------------------------------------------------------------
// Schema declarations.
// ---------------------------------------------------------------------------
/// A type expression.
fn p_type_expr(s: &Vec<char>, i: usize) -> (r: Option<(RecType, usize)>)
    requires
        i <= s@.len(),
    ensures
        match r {
            Some((t, j)) => sp_type_expr(s@, i as int) == Some((view_type(t), j as int)) && i < j
                <= s@.len(),
            None => sp_type_expr(s@, i as int) is None,
        },
    decreases s@.len() - i, 1int,
{
    let n = s.len();
    let k1 = kw_string_v();
    if p_tag(s, i, &k1) {
        return Some((RecType::String, i + 6));
    }
    let k2 = kw_int_v();
    if p_tag(s, i, &k2) {
        return Some((RecType::Int, i + 3));
    }
    let k3 = kw_float_v();
    if p_tag(s, i, &k3) {
        return Some((RecType::Float, i + 5));
    }
    let k4 = kw_bool_v();
    if p_tag(s, i, &k4) {
        return Some((RecType::Bool, i + 4));
    }
    let k5 = kw_url_v();
    if p_tag(s, i, &k5) {
        return Some((RecType::Url, i + 3));
    }
    let k6 = kw_socket_v();
    if p_tag(s, i, &k6) {
        return Some((RecType::Socket, i + 6));
    }
    let k7 = kw_pubkey_v();
    if p_tag(s, i, &k7) {
        return Some((RecType::Pubkey, i + 6));
    }
    if p_ch(s, i, '[') {
        match p_type_expr(s, i + 1) {
            Some((t, j)) => {
                if p_ch(s, j, ']') {
                    Some((RecType::Array(Box::new(t)), j + 1))
                } else {
                    None
                }
            },
            None => None,
        }
    } else {
        match p_ident(s, i) {
            Some((name, j)) => Some((RecType::Object(name), j)),
            None => None,
        }
    }
}

/// One field declaration: `name`, optional `?`, `:`, a type expression.
fn p_field_def(s: &Vec<char>, i: usize) -> (r: Option<((String, FieldDef), usize)>)
    requires
        i <= s@.len(),
    ensures
        match r {
            Some((kf, j)) => sp_field_def(s@, i as int) == Some(((kf.0@, kf.1@), j as int)) && i
                < j <= s@.len(),
            None => sp_field_def(s@, i as int) is None,
        },
    decreases s@.len() - i, 2int,
{
    let n = s.len();
    let i1 = p_ws(s, i);
    match p_ident(s, i1) {
        None => None,
        Some((k, j)) => {
            let opt = p_ch(s, j, '?');
            let j1 = if opt {
                j + 1
            } else {
                j
            };
            let j2 = p_ws(s, j1);
            if p_ch(s, j2, ':') {
                let j3 = p_ws(s, j2 + 1);
                match p_type_expr(s, j3) {
                    None => None,
                    Some((t, m)) => {
                        let e = p_ws(s, m);
                        Some(((k, FieldDef { ty: t, optional: opt }), e))
                    },
                }
            } else {
                None
            }
        },
    }
}

/// Field declarations separated by a comma, whitespace, or both; raw list.
fn p_field_list(s: &Vec<char>, i: usize) -> (r: (Vec<(String, FieldDef)>, usize))
    requires
        i <= s@.len(),
    ensures
        sp_field_list(s@, i as int) == (view_field_defs(r.0@), r.1 as int),
        i <= r.1 <= s@.len(),
    decreases s@.len() - i, 3int,
{
    let n = s.len();
    match p_field_def(s, i) {
        None => {
            let empty: Vec<(String, FieldDef)> = Vec::new();
            proof {
                assert(view_field_defs(empty@) =~= Seq::<(Seq<char>, FieldDefS)>::empty());
            }
            (empty, i)
        },
        Some((kf, j)) => {
            let j2 = if p_ch(s, j, ',') {
                j + 1
            } else {
                j
            };
            match p_field_def(s, j2) {
                Some(_) => {
                    let (rest, m) = p_field_list(s, j2);
                    let ghost grest = rest@;
                    let ghost gkf = (kf.0@, kf.1@);
                    let mut list = rest;
                    list.insert(0, kf);
                    proof {
                        lemma_view_field_defs(list@);
                        lemma_view_field_defs(grest);
                        assert(view_field_defs(list@) =~= seq![gkf] + view_field_defs(grest));
                    }
                    (list, m)
                },
                None => {
                    let ghost gkf = (kf.0@, kf.1@);
                    let mut single: Vec<(String, FieldDef)> = Vec::new();
                    single.push(kf);
                    proof {
                        lemma_view_field_defs(single@);
                        assert(view_field_defs(single@) =~= seq![gkf]);
                    }
                    (single, j)
                },
            }
        },
    }
}

/// Comma-separated declared types of a tuple variant.
fn p_type_list(s: &Vec<char>, i: usize) -> (r: (Vec<RecType>, usize))
    requires
        i <= s@.len(),
    ensures
        sp_type_list(s@, i as int) == (view_types(r.0@), r.1 as int),
        i <= r.1 <= s@.len(),
    decreases s@.len() - i, 4int,
{
    let n = s.len();
    match p_type_expr(s, i) {
        None => {
            let empty: Vec<RecType> = Vec::new();
            proof {
                assert(view_types(empty@) =~= Seq::<crate::ast::TypeS>::empty());
            }
            (empty, i)
        },
        Some((t, j)) => {
            let j1 = p_ws(s, j);
            if p_ch(s, j1, ',') {
                let j2 = p_ws(s, j1 + 1);
                match p_type_expr(s, j2) {
                    Some(_) => {
                        let (rest, m) = p_type_list(s, j2);
                        let ghost grest = rest@;
                        let ghost gt = view_type(t);
                        let mut list = rest;
                        list.insert(0, t);
                        proof {
                            lemma_view_types(list@);
                            lemma_view_types(grest);
                            assert(view_types(list@) =~= seq![gt] + view_types(grest));
                        }
                        (list, m)
                    },
                    None => {
                        let ghost gt = view_type(t);
                        let mut single: Vec<RecType> = Vec::new();
                        single.push(t);
                        proof {
                            lemma_view_types(single@);
                            assert(view_types(single@) =~= seq![gt]);
                        }
                        (single, j)
                    },
                }
            } else {
                let ghost gt = view_type(t);
                let mut single: Vec<RecType> = Vec::new();
                single.push(t);
                proof {
                    lemma_view_types(single@);
                    assert(view_types(single@) =~= seq![gt]);
                }
                (single, j)
            }
        },
    }
}

/// One variant declaration: unit, tuple, or struct shaped.
fn p_variant_def(s: &Vec<char>, i: usize) -> (r: Option<(EnumVariant, usize)>)
    requires
        i <= s@.len(),
    ensures
        match r {
            Some((v, j)) => sp_variant_def(s@, i as int) == Some((v@, j as int)) && i < j
                <= s@.len(),
            None => sp_variant_def(s@, i as int) is None,
        },
    decreases s@.len() - i, 5int,
{
    let n = s.len();
    let i1 = p_ws(s, i);
    match p_ident(s, i1) {
        None => None,
        Some((name, j)) => {
            let j0 = p_ws(s, j);
            if p_ch(s, j0, '{') {
                let (fs, m) = p_field_list(s, j0 + 1);
                let m1 = if p_ch(s, m, ',') {
                    m + 1
                } else {
                    m
                };
                let m2 = p_ws(s, m1);
                if p_ch(s, m2, '}') {
                    let fields = dedup_def_pairs(fs);
                    Some((EnumVariant::Struct(name, fields), m2 + 1))
                } else {
                    None
                }
            } else if p_ch(s, j, '(') {
                let (ts, m) = p_type_list(s, j + 1);
                let m1 = if p_ch(s, m, ',') {
                    m + 1
                } else {
                    m
                };
                let m2 = p_ws(s, m1);
                if p_ch(s, m2, ')') {
                    Some((EnumVariant::Tuple(name, ts), m2 + 1))
                } else {
                    None
                }
            } else {
                Some((EnumVariant::Unit(name), j))
            }
        },
    }
}

/// Variant declarations separated by a comma, whitespace, or both.
fn p_variant_list(s: &Vec<char>, i: usize) -> (r: (Vec<EnumVariant>, usize))
    requires
        i <= s@.len(),
    ensures
        sp_variant_list(s@, i as int) == (view_variants(r.0@), r.1 as int),
        i <= r.1 <= s@.len(),
    decreases s@.len() - i, 6int,
{
    let n = s.len();
    match p_variant_def(s, i) {
        None => {
            let empty: Vec<EnumVariant> = Vec::new();
            proof {
                assert(view_variants(empty@) =~= Seq::<crate::ast::VariantS>::empty());
            }
            (empty, i)
        },
        Some((v, j)) => {
            let j1 = p_ws(s, j);
            let j2 = if p_ch(s, j1, ',') {
                j1 + 1
            } else {
                j
            };
            match p_variant_def(s, j2) {
                Some(_) => {
                    let (rest, m) = p_variant_list(s, j2);
                    let ghost grest = rest@;
                    let ghost gv = v@;
                    let mut list = rest;
                    list.insert(0, v);
                    proof {
                        lemma_view_variants(list@);
                        lemma_view_variants(grest);
                        assert(view_variants(list@) =~= seq![gv] + view_variants(grest));
                    }
                    (list, m)
                },
                None => {
                    let ghost gv = v@;
                    let mut single: Vec<EnumVariant> = Vec::new();
                    single.push(v);
                    proof {
                        lemma_view_variants(single@);
                        assert(view_variants(single@) =~= seq![gv]);
                    }
                    (single, j)
                },
            }
        },
    }
}

/// An `@enum Name { ... }` declaration.
fn p_enum_def(s: &Vec<char>, i: usize) -> (r: Option<(EnumDef, usize)>)
    requires
        i <= s@.len(),
    ensures
        match r {
            Some((e, j)) => sp_enum_def(s@, i as int) == Some((e@, j as int)) && i < j <= s@.len(),
            None => sp_enum_def(s@, i as int) is None,
        },
    decreases s@.len() - i, 7int,
{
    let n = s.len();
    let i1 = p_ws(s, i);
    let kw = kw_at_enum_v();
    if p_tag(s, i1, &kw) {
        let i2 = p_ws(s, i1 + 5);
        match p_ident(s, i2) {
            None => None,
            Some((name, j)) => {
                let j1 = p_ws(s, j);
                if p_ch(s, j1, '{') {
                    let (vs, m) = p_variant_list(s, j1 + 1);
                    let m1 = if p_ch(s, m, ',') {
                        m + 1
                    } else {
                        m
                    };
                    let m2 = p_ws(s, m1);
                    if p_ch(s, m2, '}') {
                        Some((EnumDef { name: name, variants: vs }, m2 + 1))
                    } else {
                        None
                    }
                } else {
                    None
                }
            },
        }
    } else {
        None
    }
}

/// A `@type Name { ... }` declaration.
fn p_type_def(s: &Vec<char>, i: usize) -> (r: Option<(TypeDef, usize)>)
    requires
        i <= s@.len(),
    ensures
        match r {
            Some((t, j)) => sp_type_def(s@, i as int) == Some((t@, j as int)) && i < j <= s@.len(),
            None => sp_type_def(s@, i as int) is None,
        },
    decreases s@.len() - i, 7int,
{
    let n = s.len();
    let i1 = p_ws(s, i);
    let kw = kw_at_type_v();
    if p_tag(s, i1, &kw) {
        let i2 = p_ws(s, i1 + 5);
        match p_ident(s, i2) {
            None => None,
            Some((name, j)) => {
                let j1 = p_ws(s, j);
                if p_ch(s, j1, '{') {
                    let (fs, m) = p_field_list(s, j1 + 1);
                    let m1 = p_ws(s, m);
                    if p_ch(s, m1, '}') {
                        let fields = dedup_def_pairs(fs);
                        Some((TypeDef { name: name, fields: fields }, m1 + 1))
                    } else {
                        None
                    }
                } else {
                    None
                }
            },
        }
    } else {
        None
    }
}

// ---------------------------------------------------------------------------
// The document level.
// ---------------------------------------------------------------------------
/// One file-inclusion directive.
fn p_inclusion(s: &Vec<char>, i: usize) -> (r: Option<(String, usize)>)
    requires
        i <= s@.len(),
    ensures
        match r {
            Some((t, j)) => sp_inclusion(s@, i as int) == Some((t@, j as int)) && i < j
                <= s@.len(),
            None => sp_inclusion(s@, i as int) is None,
        },
{
    let n = s.len();
    let i1 = p_ws(s, i);
    let kw = kw_inclusion_v();
    if p_tag(s, i1, &kw) {
        let i2 = p_ws(s, i1 + 8);
        match p_string(s, i2) {
            None => None,
            Some((t, j)) => {
                let e = p_ws(s, j);
                Some((t, e))
            },
        }
    } else {
        None
    }
}

fn p_inclusion_list(s: &Vec<char>, i: usize) -> (r: (Vec<String>, usize))
    requires
        i <= s@.len(),
    ensures
        sp_inclusion_list(s@, i as int) == (
            r.0@.map_values(|x: String| x@),
            r.1 as int,
        ),
        i <= r.1 <= s@.len(),
    decreases s@.len() - i,
{
    match p_inclusion(s, i) {
        None => {
            let empty: Vec<String> = Vec::new();
            proof {
                assert(empty@.map_values(|x: String| x@) =~= Seq::<Seq<char>>::empty());
            }
            (empty, i)
        },
        Some((t, j)) => {
            let (rest, m) = p_inclusion_list(s, j);
            let ghost grest = rest@;
            let ghost gt = t@;
            let mut list = rest;
            list.insert(0, t);
            proof {
                assert(list@.map_values(|x: String| x@) =~= seq![gt] + grest.map_values(
                    |x: String| x@,
                ));
            }
            (list, m)
        },
    }
}

fn p_enum_def_list(s: &Vec<char>, i: usize) -> (r: (Vec<EnumDef>, usize))
    requires
        i <= s@.len(),
    ensures
        sp_enum_list(s@, i as int) == (view_enum_defs(r.0@), r.1 as int),
        i <= r.1 <= s@.len(),
    decreases s@.len() - i,
{
    match p_enum_def(s, i) {
        None => {
            let empty: Vec<EnumDef> = Vec::new();
            proof {
                assert(view_enum_defs(empty@) =~= Seq::<crate::ast::EnumDefS>::empty());
            }
            (empty, i)
        },
        Some((e, j)) => {
            let j1 = p_ws(s, j);
            let (rest, m) = p_enum_def_list(s, j1);
            let ghost grest = rest@;
            let ghost ge = e@;
            let mut list = rest;
            list.insert(0, e);
            proof {
                lemma_view_enum_defs(list@);
                lemma_view_enum_defs(grest);
                assert(view_enum_defs(list@) =~= seq![ge] + view_enum_defs(grest));
            }
            (list, m)
        },
    }
}

fn p_type_def_list(s: &Vec<char>, i: usize) -> (r: (Vec<TypeDef>, usize))
    requires
        i <= s@.len(),
    ensures
        sp_type_def_list(s@, i as int) == (view_type_defs(r.0@), r.1 as int),
        i <= r.1 <= s@.len(),
    decreases s@.len() - i,
{
    match p_type_def(s, i) {
        None => {
            let empty: Vec<TypeDef> = Vec::new();
            proof {
                assert(view_type_defs(empty@) =~= Seq::<crate::ast::TypeDefS>::empty());
            }
            (empty, i)
        },
        Some((t, j)) => {
            let j1 = p_ws(s, j);
            let (rest, m) = p_type_def_list(s, j1);
            let ghost grest = rest@;
            let ghost gt = t@;
            let mut list = rest;
            list.insert(0, t);
            proof {
                lemma_view_type_defs(list@);
                lemma_view_type_defs(grest);
                assert(view_type_defs(list@) =~= seq![gt] + view_type_defs(grest));
            }
            (list, m)
        },
    }
}

/// Parse a whole document: inclusion directives, `@enum` declarations,
/// `@type` declarations, then the root object.  Anything after the root
/// object is ignored.  On failure the error is always a `ParseError`.
pub fn parse_rec(input: &str) -> (r: Result<RecDocument, RecError>)
    ensures
        match r {
            Ok(doc) => sp_document(input@) == Some(doc@),
            Err(e) => sp_document(input@) is None && e is ParseError,
        },
{
    let cs = to_chars(input);
    let (incs, a) = p_inclusion_list(&cs, 0);
    let b = p_ws(&cs, a);
    let (enums, c) = p_enum_def_list(&cs, b);
    let d = p_ws(&cs, c);
    let (types, e) = p_type_def_list(&cs, d);
    let f = p_ws(&cs, e);
    match p_object(&cs, f) {
        Some((fields, _end)) => {
            let doc = RecDocument {
                inclusions: incs,
                type_definitions: types,
                enum_definitions: enums,
                root: RecObject { fields: fields },
            };
            Ok(doc)
        },
        None => {
            let msg = "syntax error: the input does not match the document grammar".to_owned();
            Err(RecError::ParseError(msg))
        },
    }
}

} // verus!
