//! The round-trip law: for every well-formed value tree, parsing the
//! canonical re-print gives back the same tree.  `lemma_document_round_trip`
//! at the bottom states it for a root object, against the same
//! specification functions that `parse_rec` and `object_to_rec_string`
//! promise to compute.
use vstd::prelude::*;
use crate::ast::DataS;
use crate::ast::ValS;
use crate::grammar::digits_end;
use crate::grammar::digits_val;
use crate::grammar::ident_end;
use crate::grammar::is_digit;
use crate::grammar::is_ident_char;
use crate::grammar::is_ident_start;
use crate::grammar::is_space;
use crate::grammar::kw_false;
use crate::grammar::kw_null;
use crate::grammar::kw_pubkey_open;
use crate::grammar::kw_socket_open;
use crate::grammar::kw_true;
use crate::grammar::kw_url_open;
use crate::grammar::nonquote_end;
use crate::grammar::sp_ch;
use crate::grammar::sp_ident;
use crate::grammar::sp_int;
use crate::grammar::sp_float;
use crate::grammar::sp_bool;
use crate::grammar::sp_string;
use crate::grammar::sp_tag;
use crate::grammar::sp_tagged;
use crate::grammar::sp_value;
use crate::grammar::sp_variant;
use crate::grammar::sp_array;
use crate::grammar::sp_object;
use crate::grammar::sp_obj_body;
use crate::grammar::sp_typed_object;
use crate::grammar::sp_kv_list;
use crate::grammar::sp_kv_pair;
use crate::grammar::sp_val_elem;
use crate::grammar::sp_val_list;
use crate::grammar::sp_ws;
use crate::grammar::sp_document;
use crate::grammar::dedup_pairs;
use crate::grammar::first_key_index;
use crate::grammar::has_key;
use crate::printer::dig_of;
use crate::printer::dig_seq;
use crate::printer::digits_only;
use crate::printer::distinct_keys;
use crate::printer::is_ident_s;
use crate::printer::keyword_prefixed;
use crate::printer::no_quote;
use crate::printer::print_fields;
use crate::printer::print_int;
use crate::printer::print_quoted;
use crate::printer::print_vals;
use crate::printer::print_value;
use crate::printer::wf_fields;
use crate::printer::wf_value;

verus! {

// ---------------------------------------------------------------------------
// The characters that can follow a printed value.
// ---------------------------------------------------------------------------
/// A closing or separating character of the grammar.
pub open spec fn is_delim(c: char) -> bool {
    c == ',' || c == ']' || c == ')' || c == '}'
}

/// Position `j` ends the input or holds a delimiter.
pub open spec fn delim_at(s: Seq<char>, j: int) -> bool {
    0 <= j <= s.len() && (j == s.len() || is_delim(s[j]))
}

/// The print of `p` stands at position `i` of `s`.
pub open spec fn prints_at(s: Seq<char>, i: int, p: Seq<char>) -> bool {
    0 <= i && i + p.len() <= s.len() && s.subrange(i, i + p.len()) == p
}

// ---------------------------------------------------------------------------
// Exact ends of maximal runs.
// ---------------------------------------------------------------------------
proof fn lemma_ws_exact(s: Seq<char>, a: int, b: int)
    requires
        0 <= a <= b <= s.len(),
        forall|m: int| a <= m < b ==> is_space(s[m]),
        b == s.len() || !is_space(s[b]),
    ensures
        sp_ws(s, a) == b,
    decreases b - a,
{
    if a < b {
        lemma_ws_exact(s, a + 1, b);
    }
}

proof fn lemma_digits_exact(s: Seq<char>, a: int, b: int)
    requires
        0 <= a <= b <= s.len(),
        forall|m: int| a <= m < b ==> is_digit(s[m]),
        b == s.len() || !is_digit(s[b]),
    ensures
        digits_end(s, a) == b,
    decreases b - a,
{
    if a < b {
        lemma_digits_exact(s, a + 1, b);
    }
}

proof fn lemma_ident_exact(s: Seq<char>, a: int, b: int)
    requires
        0 <= a <= b <= s.len(),
        forall|m: int| a <= m < b ==> is_ident_char(s[m]),
        b == s.len() || !is_ident_char(s[b]),
    ensures
        ident_end(s, a) == b,
    decreases b - a,
{
    if a < b {
        lemma_ident_exact(s, a + 1, b);
    }
}

proof fn lemma_nonquote_exact(s: Seq<char>, a: int, b: int)
    requires
        0 <= a <= b < s.len(),
        forall|m: int| a <= m < b ==> s[m] != '"',
        s[b] == '"',
    ensures
        nonquote_end(s, a) == b,
    decreases b - a,
{
    if a < b {
        lemma_nonquote_exact(s, a + 1, b);
    }
}

/// A tag cannot match when its first character differs.
proof fn lemma_tag_fails(s: Seq<char>, i: int, t: Seq<char>)
    requires
        0 <= i,
        t.len() > 0,
        i >= s.len() || s[i] != t[0],
    ensures
        !sp_tag(s, i, t),
{
    if i + t.len() <= s.len() {
        assert(s.subrange(i, i + t.len())[0] == s[i]);
    }
}

/// A parsed identifier stands exactly at `i`, ending where its characters
/// stop.
proof fn lemma_ident_at(s: Seq<char>, i: int, name: Seq<char>)
    requires
        is_ident_s(name),
        prints_at(s, i, name),
        i + name.len() == s.len() || !is_ident_char(s[i + name.len()]),
    ensures
        sp_ident(s, i) == Some((name, i + name.len())),
{
    assert(s[i] == name[0]);
    assert forall|m: int| i + 1 <= m < i + name.len() implies is_ident_char(s[m]) by {
        assert(s[m] == name[m - i]);
    }
    lemma_ident_exact(s, i + 1, i + name.len());
    assert(s.subrange(i, i + name.len()) =~= name);
}

/// A quoted string literal parses exactly.
proof fn lemma_string_at(s: Seq<char>, i: int, body: Seq<char>)
    requires
        no_quote(body),
        prints_at(s, i, print_quoted(body)),
    ensures
        sp_string(s, i) == Some((body, i + body.len() + 2)),
{
    let p = print_quoted(body);
    assert(s[i] == p[0]);
    assert(s[i + body.len() + 1] == p[body.len() as int + 1]);
    assert forall|m: int| i + 1 <= m < i + 1 + body.len() implies s[m] != '"' by {
        assert(s[m] == p[m - i]);
        assert(p[m - i] == body[m - i - 1]);
    }
    lemma_nonquote_exact(s, i + 1, i + 1 + body.len());
    assert forall|m: int| 0 <= m < body.len() implies s.subrange(
        i + 1,
        i + 1 + body.len(),
    )[m] == body[m] by {
        assert(s[i + 1 + m] == p[m + 1]);
        assert(p[m + 1] == body[m]);
    }
    assert(s.subrange(i + 1, i + 1 + body.len()) =~= body);
}

// ---------------------------------------------------------------------------
// Digits of a printed integer.
// ---------------------------------------------------------------------------
proof fn lemma_dig_seq(n: int)
    requires
        n >= 0,
    ensures
        dig_seq(n).len() > 0,
        digits_only(dig_seq(n)),
        digits_val(dig_seq(n)) == n,
        n <= 9 ==> dig_seq(n).len() == 1,
    decreases n,
{
    if n < 10 {
        assert(dig_seq(n) =~= seq![dig_of(n)]);
        assert(is_digit(dig_of(n)));
        assert(digits_val(seq![dig_of(n)]) == digits_val(
            seq![dig_of(n)].drop_last(),
        ) * 10 + (dig_of(n) as int - '0' as int));
        assert(seq![dig_of(n)].drop_last() =~= Seq::<char>::empty());
        assert(dig_of(n) as int - '0' as int == n);
    } else {
        lemma_dig_seq(n / 10);
        let p = dig_seq(n / 10);
        let d = n % 10;
        assert(dig_seq(n) == p.push(dig_of(d)));
        assert(is_digit(dig_of(d)));
        assert forall|m: int| 0 <= m < p.push(dig_of(d)).len() implies is_digit(
            #[trigger] p.push(dig_of(d))[m],
        ) by {
            if m < p.len() {
                assert(p.push(dig_of(d))[m] == p[m]);
            }
        }
        assert(p.push(dig_of(d)).drop_last() =~= p);
        assert(dig_of(d) as int - '0' as int == d);
        assert(digits_val(p.push(dig_of(d))) == n / 10 * 10 + d);
    }
}

/// Duplicated-key folding does nothing when the keys are distinct.
proof fn lemma_dedup_noop<V>(fs: Seq<(Seq<char>, V)>)
    requires
        distinct_keys(fs),
    ensures
        dedup_pairs(fs) == fs,
    decreases fs,
{
    if fs.len() > 0 {
        let pre = fs.drop_last();
        assert(distinct_keys(pre)) by {
            assert(forall|i: int, j: int|
                0 <= i < j < pre.len() ==> pre[i] == fs[i] && pre[j] == fs[j]);
        }
        lemma_dedup_noop(pre);
        lemma_no_key(pre, fs.last().0);
        assert(!has_key(pre, fs.last().0));
        assert(dedup_pairs(fs) == pre.push(fs.last()));
        assert(pre.push(fs.last()) =~= fs);
    }
}

/// A key that no pair holds is not found.
proof fn lemma_no_key<V>(fs: Seq<(Seq<char>, V)>, k: Seq<char>)
    requires
        forall|m: int| 0 <= m < fs.len() ==> fs[m].0 != k,
    ensures
        first_key_index(fs, k) == fs.len(),
        !has_key(fs, k),
    decreases fs.len(),
{
    if fs.len() > 0 {
        lemma_no_key(fs.drop_first(), k);
        assert(forall|m: int| 1 <= m < fs.len() ==> fs[m] == fs.drop_first()[m - 1]);
    }
}


// ---------------------------------------------------------------------------
// First characters of printed values, and failure of earlier alternatives.
// ---------------------------------------------------------------------------
/// Split a match of a concatenation into matches of its parts.
proof fn lemma_prints_split(s: Seq<char>, i: int, a: Seq<char>, b: Seq<char>)
    requires
        prints_at(s, i, a + b),
    ensures
        prints_at(s, i, a),
        prints_at(s, i + a.len(), b),
{
    assert forall|m: int| 0 <= m < a.len() implies s.subrange(i, i + a.len())[m] == a[m] by {
        assert(s[i + m] == (a + b)[m]);
    }
    assert(s.subrange(i, i + a.len()) =~= a);
    assert forall|m: int| 0 <= m < b.len() implies s.subrange(
        i + a.len(),
        i + a.len() + b.len(),
    )[m] == b[m] by {
        assert(s[i + a.len() + m] == (a + b)[a.len() + m]);
    }
    assert(s.subrange(i + a.len(), i + a.len() + b.len()) =~= b);
}

/// A well-formed value's print is non-empty and starts with neither
/// whitespace nor a delimiter.
proof fn lemma_print_first(v: ValS)
    requires
        wf_value(v),
    ensures
        print_value(v).len() > 0,
        !is_space(print_value(v)[0]),
        !is_delim(print_value(v)[0]),
    decreases v,
{
    match v {
        ValS::IntV(n) => {
            if n < 0 {
                lemma_dig_seq(-n);
                assert(print_value(v)[0] == '-');
            } else {
                lemma_dig_seq(n);
                assert(print_value(v)[0] == dig_seq(n)[0]);
                assert(is_digit(dig_seq(n)[0]));
            }
        },
        ValS::FloatV { neg, whole, frac } => {
            if neg {
                assert(print_value(v)[0] == (seq!['-'] + whole + seq!['.'] + frac)[0]);
            } else {
                assert(print_value(v)[0] == whole[0]);
                assert(is_digit(whole[0]));
            }
        },
        ValS::VariantV { enum_name, variant, data } => {
            assert(print_value(v)[0] == enum_name[0]);
            assert(is_ident_start(enum_name[0]));
        },
        _ => {},
    }
}

/// No value form, and no key/value pair, starts at a delimiter or at the
/// end of the input.
#[verifier::rlimit(80)]
proof fn lemma_none_at_delim(s: Seq<char>, j: int)
    requires
        delim_at(s, j),
    ensures
        sp_value(s, j) is None,
        sp_kv_pair(s, j) is None,
        sp_ws(s, j) == j,
    decreases s.len() - j, 20int,
{
    lemma_tag_fails(s, j, kw_true());
    lemma_tag_fails(s, j, kw_false());
    lemma_tag_fails(s, j, kw_null());
    lemma_tag_fails(s, j, kw_url_open());
    lemma_tag_fails(s, j, kw_socket_open());
    lemma_tag_fails(s, j, kw_pubkey_open());
    assert(sp_ws(s, j) == j);
    assert(sp_ident(s, j) is None);
    assert(sp_string(s, j) is None);
    assert(digits_end(s, j) == j);
    assert(sp_int(s, j) is None);
    assert(sp_float(s, j) is None);
    assert(sp_bool(s, j) is None);
    assert(sp_variant(s, j) is None);
    assert(sp_array(s, j) is None);
    assert(sp_typed_object(s, j) is None);
    assert(sp_object(s, j) is None);
    assert(sp_value(s, j) is None);
    assert(sp_kv_pair(s, j) is None);
}

/// The keywords hold no dot and no delimiter characters.
proof fn lemma_kw_chars()
    ensures
        forall|m: int| 0 <= m < kw_true().len() ==> #[trigger] kw_true()[m] != '.',
        forall|m: int| 0 <= m < kw_false().len() ==> #[trigger] kw_false()[m] != '.',
        forall|m: int| 0 <= m < kw_null().len() ==> #[trigger] kw_null()[m] != '.',
        forall|m: int| 0 <= m < kw_url_open().len() ==> #[trigger] kw_url_open()[m] != '.',
        forall|m: int| 0 <= m < kw_socket_open().len() ==> #[trigger] kw_socket_open()[m] != '.',
        forall|m: int| 0 <= m < kw_pubkey_open().len() ==> #[trigger] kw_pubkey_open()[m] != '.',
        !is_ident_char('('),
{
}

/// At the head of a printed enum-variant literal, none of the literal
/// keyword alternatives can match.
proof fn lemma_variant_head_tags_fail(s: Seq<char>, i: int, e: Seq<char>)
    requires
        is_ident_s(e),
        !keyword_prefixed(e),
        prints_at(s, i, e),
        i + e.len() < s.len(),
        s[i + e.len()] == '.',
    ensures
        !sp_tag(s, i, kw_true()),
        !sp_tag(s, i, kw_false()),
        !sp_tag(s, i, kw_null()),
        !sp_tag(s, i, kw_url_open()),
        !sp_tag(s, i, kw_socket_open()),
        !sp_tag(s, i, kw_pubkey_open()),
{
    lemma_kw_chars();
    lemma_head_tag_fail(s, i, e, kw_true());
    lemma_head_tag_fail(s, i, e, kw_false());
    lemma_head_tag_fail(s, i, e, kw_null());
    lemma_head_tag_fail(s, i, e, kw_url_open());
    lemma_head_tag_fail(s, i, e, kw_socket_open());
    lemma_head_tag_fail(s, i, e, kw_pubkey_open());
}

/// One keyword against the `identifier.`-shaped head: either the keyword
/// would have to be a prefix of the identifier (excluded for the three
/// value keywords by well-formedness, impossible for the tagged-scalar
/// keywords because they end in a parenthesis), or it would have to hold
/// the dot (no keyword does).
proof fn lemma_head_tag_fail(s: Seq<char>, i: int, e: Seq<char>, kw: Seq<char>)
    requires
        is_ident_s(e),
        prints_at(s, i, e),
        i + e.len() < s.len(),
        s[i + e.len()] == '.',
        kw.len() > 0,
        forall|m: int| 0 <= m < kw.len() ==> #[trigger] kw[m] != '.',
        e.len() >= kw.len() ==> e.subrange(0, kw.len() as int) != kw,
    ensures
        !sp_tag(s, i, kw),
{
    if sp_tag(s, i, kw) {
        let w = s.subrange(i, i + kw.len());
        if e.len() >= kw.len() {
            assert forall|m: int| 0 <= m < kw.len() implies e.subrange(
                0,
                kw.len() as int,
            )[m] == kw[m] by {
                assert(w[m] == kw[m]);
                assert(w[m] == s[i + m]);
                assert(s[i + m] == e[m]);
            }
            assert(e.subrange(0, kw.len() as int) =~= kw);
        } else {
            let m = e.len() as int;
            assert(w[m] == kw[m]);
            assert(w[m] == s[i + m]);
            assert(s[i + m] == '.');
            assert(kw[m] != '.');
        }
    }
}


// ---------------------------------------------------------------------------
// The induction: a printed form parses back to the value it came from.
// ---------------------------------------------------------------------------
/// One character of a matched print.
proof fn pidx(s: Seq<char>, i: int, p: Seq<char>, m: int)
    requires
        prints_at(s, i, p),
        0 <= m < p.len(),
    ensures
        s[i + m] == p[m],
{
    assert(s.subrange(i, i + p.len())[m] == p[m]);
}

/// A printed value, standing before a delimiter, parses to itself.
#[verifier::rlimit(100)]
proof fn lemma_value_rt(v: ValS, s: Seq<char>, i: int)
    requires
        wf_value(v),
        prints_at(s, i, print_value(v)),
        delim_at(s, i + print_value(v).len()),
    ensures
        sp_value(s, i) == Some((v, i + print_value(v).len())),
    decreases v, 3int, 2int,
{
    if v is UrlV || v is SocketV || v is PubkeyV {
        lemma_value_rt_tagged(v, s, i);
    } else if v is ArrV {
        lemma_value_rt_arr(v, s, i);
    } else if v is VariantV {
        lemma_value_rt_variant(v, s, i);
    } else if v is ObjV {
        lemma_value_rt_obj(v, s, i);
    } else {
        lemma_value_rt_scalar(v, s, i);
    }
}

#[verifier::rlimit(100)]
proof fn lemma_value_rt_obj(v: ValS, s: Seq<char>, i: int)
    requires
        wf_value(v),
        prints_at(s, i, print_value(v)),
        delim_at(s, i + print_value(v).len()),
        v is ObjV,
    ensures
        sp_value(s, i) == Some((v, i + print_value(v).len())),
    decreases v, 3int, 1int,
{
    let p = print_value(v);
    let end = i + p.len();
    lemma_print_first(v);
    pidx(s, i, p, 0);
    match v {
        ValS::ObjV(fs) => {
            assert(s[i] == '{');
            assert(digits_end(s, i) == i);
            lemma_tag_fails(s, i, kw_true());
            lemma_tag_fails(s, i, kw_false());
            lemma_tag_fails(s, i, kw_null());
            lemma_tag_fails(s, i, kw_url_open());
            lemma_tag_fails(s, i, kw_socket_open());
            lemma_tag_fails(s, i, kw_pubkey_open());
            assert(sp_ident(s, i) is None);
            assert(sp_variant(s, i) is None);
            assert(sp_array(s, i) is None);
            assert(sp_typed_object(s, i) is None);
            lemma_object_rt(fs, s, i);
        },
        _ => {},
    }
}

#[verifier::rlimit(100)]
proof fn lemma_value_rt_scalar(v: ValS, s: Seq<char>, i: int)
    requires
        wf_value(v),
        prints_at(s, i, print_value(v)),
        delim_at(s, i + print_value(v).len()),
        !(v is UrlV || v is SocketV || v is PubkeyV || v is ArrV || v is VariantV || v is ObjV),
    ensures
        sp_value(s, i) == Some((v, i + print_value(v).len())),
    decreases v, 3int, 0int,
{
    let p = print_value(v);
    let end = i + p.len();
    lemma_print_first(v);
    pidx(s, i, p, 0);
    match v {
        ValS::StrV(t) => {
            lemma_string_at(s, i, t);
        },
        ValS::IntV(n) => {
            let mag = if n < 0 { -n } else { n };
            lemma_dig_seq(mag);
            let j = if n < 0 { i + 1 } else { i };
            if n < 0 {
                assert(p == seq!['-'] + dig_seq(mag));
                lemma_prints_split(s, i, seq!['-'], dig_seq(mag));
                assert(s[i] == '-');
            } else {
                assert(!is_digit('-'));
                assert(s[i] == dig_seq(mag)[0]);
            }
            assert(prints_at(s, j, dig_seq(mag)));
            assert forall|m: int| j <= m < end implies is_digit(s[m]) by {
                pidx(s, j, dig_seq(mag), m - j);
            }
            lemma_digits_exact(s, j, end);
            assert(s.subrange(j, end) =~= dig_seq(mag));
            assert(sp_string(s, i) is None);
            assert(sp_float(s, i) is None);
            assert(sp_int(s, i) == Some((n, end)));
        },
        ValS::FloatV { neg, whole, frac } => {
            let sign: Seq<char> = if neg { seq!['-'] } else { Seq::empty() };
            let j = i + sign.len();
            assert(p == sign + whole + seq!['.'] + frac);
            assert((sign + whole + seq!['.'] + frac) =~= sign + (whole + (seq!['.'] + frac)));
            lemma_prints_split(s, i, sign, whole + (seq!['.'] + frac));
            lemma_prints_split(s, j, whole, seq!['.'] + frac);
            lemma_prints_split(s, j + whole.len(), seq!['.'], frac);
            if neg {
                pidx(s, i, sign, 0);
                assert(s[i] == '-');
            } else {
                pidx(s, j, whole, 0);
                assert(is_digit(s[i]));
            }
            assert forall|m: int| j <= m < j + whole.len() implies is_digit(s[m]) by {
                pidx(s, j, whole, m - j);
            }
            let dot = j + whole.len();
            pidx(s, dot, seq!['.'], 0);
            assert(s[dot] == '.');
            assert(!is_digit('.'));
            lemma_digits_exact(s, j, dot);
            assert forall|m: int| dot + 1 <= m < end implies is_digit(s[m]) by {
                pidx(s, dot + 1, frac, m - (dot + 1));
            }
            lemma_digits_exact(s, dot + 1, end);
            assert(s.subrange(j, dot) =~= whole);
            assert(s.subrange(dot + 1, end) =~= frac);
            assert(sp_string(s, i) is None);
            assert(sp_float(s, i) == Some(((neg, whole, frac), end)));
        },
        ValS::BoolV(b) => {
            if b {
                assert(s[i] == 't');
                assert(digits_end(s, i) == i);
                assert(sp_tag(s, i, kw_true()));
            } else {
                assert(s[i] == 'f');
                assert(digits_end(s, i) == i);
                lemma_tag_fails(s, i, kw_true());
                assert(sp_tag(s, i, kw_false()));
            }
        },
        ValS::NullV => {
            assert(s[i] == 'n');
            assert(digits_end(s, i) == i);
            lemma_tag_fails(s, i, kw_true());
            lemma_tag_fails(s, i, kw_false());
            assert(sp_tag(s, i, kw_null()));
        },
        _ => {},
    }
}

#[verifier::rlimit(100)]
proof fn lemma_value_rt_tagged(v: ValS, s: Seq<char>, i: int)
    requires
        wf_value(v),
        prints_at(s, i, print_value(v)),
        delim_at(s, i + print_value(v).len()),
        v is UrlV || v is SocketV || v is PubkeyV,
    ensures
        sp_value(s, i) == Some((v, i + print_value(v).len())),
    decreases v, 3int, 0int,
{
    let p = print_value(v);
    let end = i + p.len();
    lemma_print_first(v);
    pidx(s, i, p, 0);
    match v {
        ValS::UrlV(t) => {
            assert(p =~= kw_url_open() + (print_quoted(t) + seq![')']));
            lemma_prints_split(s, i, kw_url_open(), print_quoted(t) + seq![')']);
            lemma_prints_split(s, i + 4, print_quoted(t), seq![')']);
            assert(s[i] == 'u');
            assert(digits_end(s, i) == i);
            lemma_tag_fails(s, i, kw_true());
            lemma_tag_fails(s, i, kw_false());
            lemma_tag_fails(s, i, kw_null());
            assert(sp_tag(s, i, kw_url_open()));
            lemma_string_at(s, i + 4, t);
            pidx(s, i + 4 + t.len() + 2, seq![')'], 0);
            assert(sp_tagged(s, i, kw_url_open()) == Some((t, end)));
        },
        ValS::SocketV(t) => {
            assert(p =~= kw_socket_open() + (print_quoted(t) + seq![')']));
            lemma_prints_split(s, i, kw_socket_open(), print_quoted(t) + seq![')']);
            lemma_prints_split(s, i + 7, print_quoted(t), seq![')']);
            assert(s[i] == 's');
            assert(digits_end(s, i) == i);
            lemma_tag_fails(s, i, kw_true());
            lemma_tag_fails(s, i, kw_false());
            lemma_tag_fails(s, i, kw_null());
            lemma_tag_fails(s, i, kw_url_open());
            assert(sp_tag(s, i, kw_socket_open()));
            lemma_string_at(s, i + 7, t);
            pidx(s, i + 7 + t.len() + 2, seq![')'], 0);
            assert(sp_tagged(s, i, kw_socket_open()) == Some((t, end)));
        },
        ValS::PubkeyV(t) => {
            assert(p =~= kw_pubkey_open() + (print_quoted(t) + seq![')']));
            lemma_prints_split(s, i, kw_pubkey_open(), print_quoted(t) + seq![')']);
            lemma_prints_split(s, i + 7, print_quoted(t), seq![')']);
            assert(s[i] == 'p');
            assert(digits_end(s, i) == i);
            lemma_tag_fails(s, i, kw_true());
            lemma_tag_fails(s, i, kw_false());
            lemma_tag_fails(s, i, kw_null());
            lemma_tag_fails(s, i, kw_url_open());
            lemma_tag_fails(s, i, kw_socket_open());
            assert(sp_tag(s, i, kw_pubkey_open()));
            lemma_string_at(s, i + 7, t);
            pidx(s, i + 7 + t.len() + 2, seq![')'], 0);
            assert(sp_tagged(s, i, kw_pubkey_open()) == Some((t, end)));
        },
        _ => {},
    }
}

#[verifier::rlimit(100)]
proof fn lemma_value_rt_arr(v: ValS, s: Seq<char>, i: int)
    requires
        wf_value(v),
        prints_at(s, i, print_value(v)),
        delim_at(s, i + print_value(v).len()),
        v is ArrV,
    ensures
        sp_value(s, i) == Some((v, i + print_value(v).len())),
    decreases v, 3int, 0int,
{
    let p = print_value(v);
    let end = i + p.len();
    lemma_print_first(v);
    pidx(s, i, p, 0);
    match v {
        ValS::ArrV(vs) => {
            assert(p =~= seq!['['] + (print_vals(vs, 0) + seq![']']));
            lemma_prints_split(s, i, seq!['['], print_vals(vs, 0) + seq![']']);
            lemma_prints_split(s, i + 1, print_vals(vs, 0), seq![']']);
            assert(s[i] == '[');
            assert(digits_end(s, i) == i);
            lemma_tag_fails(s, i, kw_true());
            lemma_tag_fails(s, i, kw_false());
            lemma_tag_fails(s, i, kw_null());
            lemma_tag_fails(s, i, kw_url_open());
            lemma_tag_fails(s, i, kw_socket_open());
            lemma_tag_fails(s, i, kw_pubkey_open());
            assert(sp_ident(s, i) is None);
            assert(sp_variant(s, i) is None);
            let close = i + 1 + print_vals(vs, 0).len();
            pidx(s, close, seq![']'], 0);
            assert(s[close] == ']');
            if vs.len() > 0 {
                lemma_print_first(vs[0]);
                assert(print_vals(vs, 0)[0] == print_value(vs[0])[0]);
                pidx(s, i + 1, print_vals(vs, 0), 0);
                assert(!is_space(s[i + 1]));
                assert(sp_ws(s, i + 1) == i + 1);
            } else {
                assert(sp_ws(s, i + 1) == i + 1);
            }
            lemma_vals_rt(vs, 0, s, i + 1);
            assert(vs.subrange(0, vs.len() as int) =~= vs);
            let pos = if vs.len() == 0 { i + 1 } else { i + 1 + print_vals(vs, 0).len() };
            assert(pos == close);
            assert(sp_val_list(s, i + 1) == (vs, close));
            assert(!sp_ch(s, close, ','));
            assert(sp_ws(s, close) == close);
            assert(sp_array(s, i) == Some((vs, end)));
        },
        _ => {},
    }
}

#[verifier::rlimit(100)]
proof fn lemma_variant_parses_unit(v: ValS, s: Seq<char>, i: int)
    requires
        wf_value(v),
        prints_at(s, i, print_value(v)),
        delim_at(s, i + print_value(v).len()),
        v matches ValS::VariantV { enum_name, variant, data } && data is UnitD,
    ensures
        sp_variant(s, i) == Some((v, i + print_value(v).len())),
    decreases v, 2int, 0int,
{
    let p = print_value(v);
    let end = i + p.len();
    lemma_print_first(v);
    pidx(s, i, p, 0);
    match v {
        ValS::VariantV { enum_name, variant, data } => {
            let e = enum_name;
            let vn = variant;
            let tail: Seq<char> = match data {
                DataS::UnitD => Seq::empty(),
                DataS::TupleD(vs) => seq!['('] + print_vals(vs, 0) + seq![')'],
                DataS::StructD(f2) => seq![' ', '{'] + print_fields(f2, 0) + seq!['}'],
            };
            assert(p == e + seq!['.'] + vn + tail);
            assert(p =~= e + (seq!['.'] + (vn + tail)));
            lemma_prints_split(s, i, e, seq!['.'] + (vn + tail));
            lemma_prints_split(s, i + e.len(), seq!['.'], vn + tail);
            lemma_prints_split(s, i + e.len() + 1, vn, tail);
            let dot = i + e.len();
            pidx(s, dot, seq!['.'], 0);
            assert(s[dot] == '.');
            assert(is_ident_start(s[i]));
            assert(s[i] != '"' && !is_digit(s[i]) && s[i] != '-');
            assert(digits_end(s, i) == i);
            lemma_variant_head_tags_fail(s, i, e);
            assert(sp_string(s, i) is None);
            assert(sp_float(s, i) is None);
            assert(sp_int(s, i) is None);
            assert(sp_bool(s, i) is None);
            assert(sp_tagged(s, i, kw_url_open()) is None);
            assert(sp_tagged(s, i, kw_socket_open()) is None);
            assert(sp_tagged(s, i, kw_pubkey_open()) is None);
            assert(!is_ident_char('.'));
            lemma_ident_at(s, i, e);
            let vstart = dot + 1;
            let k = vstart + vn.len();
            match data {
                DataS::UnitD => {
                    assert(k == end);
                    lemma_ident_at(s, vstart, vn);
                    lemma_none_at_delim(s, k);
                    assert(sp_ws(s, k) == k);
                    assert(!sp_ch(s, k, '{'));
                    assert(!sp_ch(s, k, '('));
                    assert(sp_variant(s, i) == Some((v, k)));
                },
                _ => {},
            }
        },
        _ => {},
    }
}

#[verifier::rlimit(100)]
proof fn lemma_variant_parses_tuple(v: ValS, s: Seq<char>, i: int)
    requires
        wf_value(v),
        prints_at(s, i, print_value(v)),
        delim_at(s, i + print_value(v).len()),
        v matches ValS::VariantV { enum_name, variant, data } && data is TupleD,
    ensures
        sp_variant(s, i) == Some((v, i + print_value(v).len())),
    decreases v, 2int, 0int,
{
    let p = print_value(v);
    let end = i + p.len();
    lemma_print_first(v);
    pidx(s, i, p, 0);
    match v {
        ValS::VariantV { enum_name, variant, data } => {
            let e = enum_name;
            let vn = variant;
            let tail: Seq<char> = match data {
                DataS::UnitD => Seq::empty(),
                DataS::TupleD(vs) => seq!['('] + print_vals(vs, 0) + seq![')'],
                DataS::StructD(f2) => seq![' ', '{'] + print_fields(f2, 0) + seq!['}'],
            };
            assert(p == e + seq!['.'] + vn + tail);
            assert(p =~= e + (seq!['.'] + (vn + tail)));
            lemma_prints_split(s, i, e, seq!['.'] + (vn + tail));
            lemma_prints_split(s, i + e.len(), seq!['.'], vn + tail);
            lemma_prints_split(s, i + e.len() + 1, vn, tail);
            let dot = i + e.len();
            pidx(s, dot, seq!['.'], 0);
            assert(s[dot] == '.');
            assert(is_ident_start(s[i]));
            assert(s[i] != '"' && !is_digit(s[i]) && s[i] != '-');
            assert(digits_end(s, i) == i);
            lemma_variant_head_tags_fail(s, i, e);
            assert(sp_string(s, i) is None);
            assert(sp_float(s, i) is None);
            assert(sp_int(s, i) is None);
            assert(sp_bool(s, i) is None);
            assert(sp_tagged(s, i, kw_url_open()) is None);
            assert(sp_tagged(s, i, kw_socket_open()) is None);
            assert(sp_tagged(s, i, kw_pubkey_open()) is None);
            assert(!is_ident_char('.'));
            lemma_ident_at(s, i, e);
            let vstart = dot + 1;
            let k = vstart + vn.len();
            match data {
                DataS::TupleD(vs) => {
                    assert(tail =~= seq!['('] + (print_vals(vs, 0) + seq![')']));
                    lemma_prints_split(s, k, seq!['('], print_vals(vs, 0) + seq![')']);
                    lemma_prints_split(s, k + 1, print_vals(vs, 0), seq![')']);
                    pidx(s, k, seq!['('], 0);
                    assert(s[k] == '(');
                    assert(!is_ident_char('('));
                    lemma_ident_at(s, vstart, vn);
                    assert(sp_ws(s, k) == k);
                    assert(!sp_ch(s, k, '{'));
                    let close = k + 1 + print_vals(vs, 0).len();
                    pidx(s, close, seq![')'], 0);
                    assert(s[close] == ')');
                    if vs.len() > 0 {
                        lemma_print_first(vs[0]);
                        assert(print_vals(vs, 0)[0] == print_value(vs[0])[0]);
                        pidx(s, k + 1, print_vals(vs, 0), 0);
                        assert(sp_ws(s, k + 1) == k + 1);
                    } else {
                        assert(sp_ws(s, k + 1) == k + 1);
                    }
                    lemma_vals_rt(vs, 0, s, k + 1);
                    assert(vs.subrange(0, vs.len() as int) =~= vs);
                    assert(sp_val_list(s, k + 1) == (vs, close));
                    assert(!sp_ch(s, close, ','));
                    assert(sp_ws(s, close) == close);
                    assert(sp_variant(s, i) == Some((v, end)));
                },
                _ => {},
            }
        },
        _ => {},
    }
}

#[verifier::rlimit(100)]
proof fn lemma_variant_parses_struct(v: ValS, s: Seq<char>, i: int)
    requires
        wf_value(v),
        prints_at(s, i, print_value(v)),
        delim_at(s, i + print_value(v).len()),
        v matches ValS::VariantV { enum_name, variant, data } && data is StructD,
    ensures
        sp_variant(s, i) == Some((v, i + print_value(v).len())),
    decreases v, 2int, 0int,
{
    let p = print_value(v);
    let end = i + p.len();
    lemma_print_first(v);
    pidx(s, i, p, 0);
    match v {
        ValS::VariantV { enum_name, variant, data } => {
            let e = enum_name;
            let vn = variant;
            let tail: Seq<char> = match data {
                DataS::UnitD => Seq::empty(),
                DataS::TupleD(vs) => seq!['('] + print_vals(vs, 0) + seq![')'],
                DataS::StructD(f2) => seq![' ', '{'] + print_fields(f2, 0) + seq!['}'],
            };
            assert(p == e + seq!['.'] + vn + tail);
            assert(p =~= e + (seq!['.'] + (vn + tail)));
            lemma_prints_split(s, i, e, seq!['.'] + (vn + tail));
            lemma_prints_split(s, i + e.len(), seq!['.'], vn + tail);
            lemma_prints_split(s, i + e.len() + 1, vn, tail);
            let dot = i + e.len();
            pidx(s, dot, seq!['.'], 0);
            assert(s[dot] == '.');
            assert(is_ident_start(s[i]));
            assert(s[i] != '"' && !is_digit(s[i]) && s[i] != '-');
            assert(digits_end(s, i) == i);
            lemma_variant_head_tags_fail(s, i, e);
            assert(sp_string(s, i) is None);
            assert(sp_float(s, i) is None);
            assert(sp_int(s, i) is None);
            assert(sp_bool(s, i) is None);
            assert(sp_tagged(s, i, kw_url_open()) is None);
            assert(sp_tagged(s, i, kw_socket_open()) is None);
            assert(sp_tagged(s, i, kw_pubkey_open()) is None);
            assert(!is_ident_char('.'));
            lemma_ident_at(s, i, e);
            let vstart = dot + 1;
            let k = vstart + vn.len();
            match data {
                DataS::StructD(f2) => {
                    assert(tail =~= seq![' ', '{'] + (print_fields(f2, 0) + seq!['}']));
                    lemma_prints_split(s, k, seq![' ', '{'], print_fields(f2, 0) + seq!['}']);
                    pidx(s, k, seq![' ', '{'], 0);
                    pidx(s, k, seq![' ', '{'], 1);
                    assert(s[k] == ' ');
                    assert(s[k + 1] == '{');
                    assert(!is_ident_char(' '));
                    lemma_ident_at(s, vstart, vn);
                    lemma_ws_exact(s, k, k + 1);
                    assert(sp_ws(s, k) == k + 1);
                    assert(sp_ch(s, k + 1, '{'));
                    lemma_body_rt(f2, s, k + 2);
                    assert(sp_obj_body(s, k + 2) == Some(
                        (f2, k + 2 + print_fields(f2, 0).len() + 1),
                    ));
                    assert(k + 2 + print_fields(f2, 0).len() + 1 == end);
                    assert(sp_variant(s, i) == Some((v, end)));
                },
                _ => {},
            }
        },
        _ => {},
    }
}

#[verifier::rlimit(100)]
proof fn lemma_value_rt_variant(v: ValS, s: Seq<char>, i: int)
    requires
        wf_value(v),
        prints_at(s, i, print_value(v)),
        delim_at(s, i + print_value(v).len()),
        v is VariantV,
    ensures
        sp_value(s, i) == Some((v, i + print_value(v).len())),
    decreases v, 3int, 0int,
{
    let p = print_value(v);
    let end = i + p.len();
    lemma_print_first(v);
    pidx(s, i, p, 0);
    match v {
        ValS::VariantV { enum_name, variant, data } => {
            let e = enum_name;
            let vn = variant;
            let tail: Seq<char> = match data {
                DataS::UnitD => Seq::empty(),
                DataS::TupleD(vs) => seq!['('] + print_vals(vs, 0) + seq![')'],
                DataS::StructD(f2) => seq![' ', '{'] + print_fields(f2, 0) + seq!['}'],
            };
            assert(p == e + seq!['.'] + vn + tail);
            assert(p =~= e + (seq!['.'] + (vn + tail)));
            lemma_prints_split(s, i, e, seq!['.'] + (vn + tail));
            lemma_prints_split(s, i + e.len(), seq!['.'], vn + tail);
            lemma_prints_split(s, i + e.len() + 1, vn, tail);
            let dot = i + e.len();
            pidx(s, dot, seq!['.'], 0);
            assert(s[dot] == '.');
            assert(is_ident_start(s[i]));
            assert(s[i] != '"' && !is_digit(s[i]) && s[i] != '-');
            assert(digits_end(s, i) == i);
            lemma_variant_head_tags_fail(s, i, e);
            assert(sp_string(s, i) is None);
            assert(sp_float(s, i) is None);
            assert(sp_int(s, i) is None);
            assert(sp_bool(s, i) is None);
            assert(sp_tagged(s, i, kw_url_open()) is None);
            assert(sp_tagged(s, i, kw_socket_open()) is None);
            assert(sp_tagged(s, i, kw_pubkey_open()) is None);
            assert(!is_ident_char('.'));
            lemma_ident_at(s, i, e);
            let vstart = dot + 1;
            let k = vstart + vn.len();
            match data {
                DataS::UnitD => {
                    lemma_variant_parses_unit(v, s, i);
                },
                DataS::TupleD(vs) => {
                    lemma_variant_parses_tuple(v, s, i);
                },
                DataS::StructD(f2) => {
                    lemma_variant_parses_struct(v, s, i);
                },
            }
        },
        _ => {},
    }
}


/// One list element: leading whitespace, the value, trailing whitespace
/// that stops at the delimiter after it.
proof fn lemma_elem_rt(v: ValS, s: Seq<char>, i: int)
    requires
        wf_value(v),
        0 <= i <= s.len(),
        prints_at(s, sp_ws(s, i), print_value(v)),
        delim_at(s, sp_ws(s, i) + print_value(v).len()),
    ensures
        sp_val_elem(s, i) == Some((v, sp_ws(s, i) + print_value(v).len())),
    decreases v, 4int, 0int,
{
    let st = sp_ws(s, i);
    crate::grammar::lemma_ws_bounds(s, i);
    lemma_value_rt(v, s, st);
    lemma_none_at_delim(s, st + print_value(v).len());
}

/// One `key: value` pair: leading whitespace, the pair, trailing
/// whitespace that stops at the delimiter after it.
proof fn lemma_pair_rt(key: Seq<char>, v: ValS, s: Seq<char>, i: int)
    requires
        is_ident_s(key),
        wf_value(v),
        0 <= i <= s.len(),
        prints_at(s, sp_ws(s, i), key + seq![':', ' '] + print_value(v)),
        delim_at(s, sp_ws(s, i) + key.len() + 2 + print_value(v).len()),
    ensures
        sp_kv_pair(s, i) == Some(
            ((key, v), sp_ws(s, i) + key.len() + 2 + print_value(v).len()),
        ),
    decreases v, 4int, 0int,
{
    let st = sp_ws(s, i);
    crate::grammar::lemma_ws_bounds(s, i);
    let whole = key + seq![':', ' '] + print_value(v);
    assert(whole =~= key + (seq![':', ' '] + print_value(v)));
    lemma_prints_split(s, st, key, seq![':', ' '] + print_value(v));
    lemma_prints_split(s, st + key.len(), seq![':', ' '], print_value(v));
    pidx(s, st + key.len(), seq![':', ' '], 0);
    pidx(s, st + key.len(), seq![':', ' '], 1);
    assert(s[st + key.len()] == ':');
    assert(s[st + key.len() + 1] == ' ');
    assert(!is_ident_char(':'));
    lemma_ident_at(s, st, key);
    assert(sp_ws(s, st) == st) by {
        assert(is_ident_start(s[st]));
    }
    assert(sp_ws(s, st + key.len()) == st + key.len());
    lemma_print_first(v);
    let vstart = st + key.len() + 2;
    pidx(s, vstart, print_value(v), 0);
    lemma_ws_exact(s, st + key.len() + 1, vstart);
    lemma_value_rt(v, s, vstart);
    lemma_none_at_delim(s, vstart + print_value(v).len());
}

/// The printed element list, followed by its closing bracket, parses to
/// exactly the elements from `k` on.
proof fn lemma_vals_rt(vs: Seq<ValS>, k: int, s: Seq<char>, i: int)
    requires
        0 <= k <= vs.len(),
        forall|m: int| k <= m < vs.len() ==> wf_value(#[trigger] vs[m]),
        0 <= i <= s.len(),
        prints_at(s, sp_ws(s, i), print_vals(vs, k)),
        sp_ws(s, i) + print_vals(vs, k).len() < s.len(),
        s[sp_ws(s, i) + print_vals(vs, k).len()] == ']' || s[sp_ws(s, i) + print_vals(
            vs,
            k,
        ).len()] == ')',
        k == vs.len() ==> sp_ws(s, i) == i,
    ensures
        sp_val_list(s, i) == (
            vs.subrange(k, vs.len() as int),
            if k == vs.len() {
                i
            } else {
                sp_ws(s, i) + print_vals(vs, k).len()
            },
        ),
    decreases vs, 5int, vs.len() - k,
{
    let st = sp_ws(s, i);
    crate::grammar::lemma_ws_bounds(s, i);
    if k == vs.len() {
        lemma_none_at_delim(s, i);
        assert(sp_val_elem(s, i) is None);
        assert(vs.subrange(k, vs.len() as int) =~= Seq::<ValS>::empty());
    } else {
        let pv = print_value(vs[k]);
        let rest: Seq<char> = if k + 1 < vs.len() {
            seq![',', ' '] + print_vals(vs, k + 1)
        } else {
            Seq::empty()
        };
        assert(print_vals(vs, k) == pv + rest);
        lemma_prints_split(s, st, pv, rest);
        let j = st + pv.len();
        assert(delim_at(s, j)) by {
            if k + 1 < vs.len() {
                pidx(s, j, rest, 0);
            } else {
                assert(j == st + print_vals(vs, k).len());
            }
        }
        lemma_elem_rt(vs[k], s, i);
        assert(sp_val_elem(s, i) == Some((vs[k], j)));
        if k + 1 < vs.len() {
            pidx(s, j, rest, 0);
            pidx(s, j, rest, 1);
            assert(s[j] == ',');
            assert(s[j + 1] == ' ');
            assert(sp_ch(s, j, ','));
            lemma_prints_split(s, j, seq![',', ' '], print_vals(vs, k + 1));
            lemma_print_first(vs[k + 1]);
            assert(print_vals(vs, k + 1)[0] == print_value(vs[k + 1])[0]);
            pidx(s, j + 2, print_vals(vs, k + 1), 0);
            lemma_ws_exact(s, j + 1, j + 2);
            assert(sp_ws(s, j + 1) == j + 2);
            let pv1 = print_value(vs[k + 1]);
            let rest1: Seq<char> = if k + 2 < vs.len() {
                seq![',', ' '] + print_vals(vs, k + 2)
            } else {
                Seq::empty()
            };
            assert(print_vals(vs, k + 1) == pv1 + rest1);
            lemma_prints_split(s, j + 2, pv1, rest1);
            assert(delim_at(s, j + 2 + pv1.len())) by {
                if k + 2 < vs.len() {
                    pidx(s, j + 2 + pv1.len(), rest1, 0);
                } else {
                    assert(j + 2 + pv1.len() == st + print_vals(vs, k).len());
                }
            }
            lemma_elem_rt(vs[k + 1], s, j + 1);
            lemma_vals_rt(vs, k + 1, s, j + 1);
            assert(seq![vs[k]] + vs.subrange(k + 1, vs.len() as int) =~= vs.subrange(
                k,
                vs.len() as int,
            ));
            assert(j + 2 + print_vals(vs, k + 1).len() == st + print_vals(vs, k).len());
        } else {
            assert(j == st + print_vals(vs, k).len());
            assert(s[j] == ']' || s[j] == ')');
            assert(!sp_ch(s, j, ','));
            assert(seq![vs[k]] =~= vs.subrange(k, vs.len() as int));
        }
    }
}

/// The printed field list, followed by its closing brace, parses to
/// exactly the fields from `k` on.
proof fn lemma_fields_rt(fs: Seq<(Seq<char>, ValS)>, k: int, s: Seq<char>, i: int)
    requires
        0 <= k <= fs.len(),
        forall|m: int|
            k <= m < fs.len() ==> is_ident_s(#[trigger] fs[m].0) && wf_value(fs[m].1),
        0 <= i <= s.len(),
        prints_at(s, sp_ws(s, i), print_fields(fs, k)),
        sp_ws(s, i) + print_fields(fs, k).len() < s.len(),
        s[sp_ws(s, i) + print_fields(fs, k).len()] == '}',
        k == fs.len() ==> sp_ws(s, i) == i,
    ensures
        sp_kv_list(s, i) == (
            fs.subrange(k, fs.len() as int),
            if k == fs.len() {
                i
            } else {
                sp_ws(s, i) + print_fields(fs, k).len()
            },
        ),
    decreases fs, 5int, fs.len() - k,
{
    let st = sp_ws(s, i);
    crate::grammar::lemma_ws_bounds(s, i);
    if k == fs.len() {
        lemma_none_at_delim(s, i);
        assert(sp_kv_pair(s, i) is None);
        assert(fs.subrange(k, fs.len() as int) =~= Seq::<(Seq<char>, ValS)>::empty());
    } else {
        let pp = fs[k].0 + seq![':', ' '] + print_value(fs[k].1);
        let rest: Seq<char> = if k + 1 < fs.len() {
            seq![',', ' '] + print_fields(fs, k + 1)
        } else {
            Seq::empty()
        };
        assert(print_fields(fs, k) == pp + rest);
        lemma_prints_split(s, st, pp, rest);
        let j = st + pp.len();
        assert(delim_at(s, j)) by {
            if k + 1 < fs.len() {
                pidx(s, j, rest, 0);
            } else {
                assert(j == st + print_fields(fs, k).len());
            }
        }
        lemma_pair_rt(fs[k].0, fs[k].1, s, i);
        assert(sp_kv_pair(s, i) == Some(((fs[k].0, fs[k].1), j)));
        if k + 1 < fs.len() {
            pidx(s, j, rest, 0);
            pidx(s, j, rest, 1);
            assert(s[j] == ',');
            assert(s[j + 1] == ' ');
            assert(sp_ch(s, j, ','));
            lemma_prints_split(s, j, seq![',', ' '], print_fields(fs, k + 1));
            let pp1 = fs[k + 1].0 + seq![':', ' '] + print_value(fs[k + 1].1);
            let rest1: Seq<char> = if k + 2 < fs.len() {
                seq![',', ' '] + print_fields(fs, k + 2)
            } else {
                Seq::empty()
            };
            assert(print_fields(fs, k + 1) == pp1 + rest1);
            assert(print_fields(fs, k + 1)[0] == fs[k + 1].0[0]);
            pidx(s, j + 2, print_fields(fs, k + 1), 0);
            assert(is_ident_start(s[j + 2]));
            lemma_ws_exact(s, j + 1, j + 2);
            assert(sp_ws(s, j + 1) == j + 2);
            lemma_prints_split(s, j + 2, pp1, rest1);
            assert(delim_at(s, j + 2 + pp1.len())) by {
                if k + 2 < fs.len() {
                    pidx(s, j + 2 + pp1.len(), rest1, 0);
                } else {
                    assert(j + 2 + pp1.len() == st + print_fields(fs, k).len());
                }
            }
            lemma_pair_rt(fs[k + 1].0, fs[k + 1].1, s, j + 1);
            lemma_fields_rt(fs, k + 1, s, j + 1);
            assert(seq![(fs[k].0, fs[k].1)] + fs.subrange(k + 1, fs.len() as int)
                =~= fs.subrange(k, fs.len() as int));
            assert(j + 2 + print_fields(fs, k + 1).len() == st + print_fields(fs, k).len());
        } else {
            assert(j == st + print_fields(fs, k).len());
            assert(s[j] == '}');
            assert(!sp_ch(s, j, ','));
            lemma_none_at_delim(s, j);
            assert(sp_kv_pair(s, j) is None);
            assert(seq![(fs[k].0, fs[k].1)] =~= fs.subrange(k, fs.len() as int));
        }
    }
}

/// Everything after an opening brace of a printed object parses back to
/// the same fields.
proof fn lemma_body_rt(fs: Seq<(Seq<char>, ValS)>, s: Seq<char>, i: int)
    requires
        wf_fields(fs),
        prints_at(s, i, print_fields(fs, 0) + seq!['}']),
    ensures
        sp_obj_body(s, i) == Some((fs, i + print_fields(fs, 0).len() + 1)),
    decreases fs, 6int, 0int,
{
    lemma_prints_split(s, i, print_fields(fs, 0), seq!['}']);
    let close = i + print_fields(fs, 0).len();
    pidx(s, close, seq!['}'], 0);
    assert(s[close] == '}');
    if fs.len() > 0 {
        assert(print_fields(fs, 0)[0] == fs[0].0[0]);
        pidx(s, i, print_fields(fs, 0), 0);
        assert(is_ident_start(s[i]));
        assert(sp_ws(s, i) == i);
    } else {
        assert(sp_ws(s, i) == i);
    }
    lemma_fields_rt(fs, 0, s, i);
    assert(fs.subrange(0, fs.len() as int) =~= fs);
    let pos = if fs.len() == 0 { i } else { close };
    assert(pos == close);
    assert(sp_kv_list(s, i) == (fs, close));
    assert(!sp_ch(s, close, ','));
    assert(sp_ws(s, close) == close);
    lemma_dedup_noop(fs);
}

/// A printed object parses back to the same fields.
proof fn lemma_object_rt(fs: Seq<(Seq<char>, ValS)>, s: Seq<char>, i: int)
    requires
        wf_fields(fs),
        prints_at(s, i, print_value(ValS::ObjV(fs))),
    ensures
        sp_object(s, i) == Some((fs, i + print_value(ValS::ObjV(fs)).len())),
    decreases fs, 7int, 0int,
{
    let p = print_value(ValS::ObjV(fs));
    assert(p =~= seq!['{'] + (print_fields(fs, 0) + seq!['}']));
    lemma_prints_split(s, i, seq!['{'], print_fields(fs, 0) + seq!['}']);
    pidx(s, i, p, 0);
    assert(s[i] == '{');
    assert(sp_ws(s, i) == i);
    lemma_body_rt(fs, s, i + 1);
}

// ---------------------------------------------------------------------------
// ROUND-TRIP LAW.
// ---------------------------------------------------------------------------
/// For every well-formed root object, parsing the canonical re-print gives
/// a document whose root is the same object and which declares nothing
/// else.  `parse_rec` returns exactly `sp_document` of its input and
/// `object_to_rec_string` returns exactly this print, so the law carries
/// over to the executable pair.
#[verifier::rlimit(100)]
proof fn lemma_document_prefix(s: Seq<char>)
    requires
        s.len() > 0,
        s[0] == '{',
    ensures
        crate::grammar::sp_inclusion_list(s, 0) == (Seq::<Seq<char>>::empty(), 0int),
        crate::grammar::sp_enum_list(s, 0) == (Seq::<crate::ast::EnumDefS>::empty(), 0int),
        crate::grammar::sp_type_def_list(s, 0) == (Seq::<crate::ast::TypeDefS>::empty(), 0int),
        sp_ws(s, 0) == 0,
{
    assert(sp_ws(s, 0) == 0);
    lemma_tag_fails(s, 0, crate::grammar::kw_inclusion());
    lemma_tag_fails(s, 0, crate::grammar::kw_at_enum());
    lemma_tag_fails(s, 0, crate::grammar::kw_at_type());
    assert(crate::grammar::sp_inclusion(s, 0) is None);
    assert(crate::grammar::sp_inclusion_list(s, 0) == (Seq::<Seq<char>>::empty(), 0int));
    assert(crate::grammar::sp_enum_def(s, 0) is None);
    assert(crate::grammar::sp_enum_list(s, 0) == (Seq::<crate::ast::EnumDefS>::empty(), 0int));
    assert(crate::grammar::sp_type_def(s, 0) is None);
    assert(crate::grammar::sp_type_def_list(s, 0) == (
        Seq::<crate::ast::TypeDefS>::empty(),
        0int,
    ));
}

#[verifier::rlimit(100)]
pub proof fn lemma_document_round_trip(fs: Seq<(Seq<char>, ValS)>)
    requires
        wf_fields(fs),
    ensures
        sp_document(print_value(ValS::ObjV(fs))) matches Some(d) && d.root == fs
            && d.inclusions.len() == 0 && d.enums.len() == 0 && d.types.len() == 0,
{
    let s = print_value(ValS::ObjV(fs));
    assert(s =~= seq!['{'] + (print_fields(fs, 0) + seq!['}']));
    assert(s[0] == '{');
    lemma_document_prefix(s);
    assert(prints_at(s, 0, s)) by {
        assert(s.subrange(0, s.len() as int) =~= s);
    }
    lemma_object_rt(fs, s, 0);
}

} // verus!
