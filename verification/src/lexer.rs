//! Executable lexical scanners.  Each one returns exactly what the
//! corresponding specification function in `grammar` says.
use vstd::prelude::*;
use crate::chars::chars_to_string;
use crate::grammar::digits_end;
use crate::grammar::digits_val;
use crate::grammar::ident_end;
use crate::grammar::is_digit;
use crate::grammar::is_ident_char;
use crate::grammar::is_ident_start;
use crate::grammar::is_space;
use crate::grammar::nonquote_end;
use crate::grammar::sp_ch;
use crate::grammar::sp_ident;
use crate::grammar::sp_int;
use crate::grammar::sp_string;
use crate::grammar::sp_tag;
use crate::grammar::sp_ws;

verus! {

pub fn is_space_e(c: char) -> (r: bool)
    ensures
        r == is_space(c),
{
    c == ' ' || c == '\t' || c == '\n' || c == '\r'
}

pub fn is_digit_e(c: char) -> (r: bool)
    ensures
        r == is_digit(c),
{
    '0' <= c && c <= '9'
}

pub fn is_ident_start_e(c: char) -> (r: bool)
    ensures
        r == is_ident_start(c),
{
    ('a' <= c && c <= 'z') || ('A' <= c && c <= 'Z') || c == '_'
}

pub fn is_ident_char_e(c: char) -> (r: bool)
    ensures
        r == is_ident_char(c),
{
    ('a' <= c && c <= 'z') || ('A' <= c && c <= 'Z') || ('0' <= c && c <= '9') || c == '_'
}

/// Skip whitespace.
pub fn p_ws(s: &Vec<char>, i: usize) -> (r: usize)
    requires
        i <= s@.len(),
    ensures
        r as int == sp_ws(s@, i as int),
        i <= r <= s@.len(),
{
    let mut j = i;
    while j < s.len() && is_space_e(s[j])
        invariant
            i <= j <= s@.len(),
            sp_ws(s@, i as int) == sp_ws(s@, j as int),
        decreases s@.len() - j,
    {
        j = j + 1;
    }
    j
}

/// Scan to the end of a run of identifier characters.
pub fn p_ident_end(s: &Vec<char>, i: usize) -> (r: usize)
    requires
        i <= s@.len(),
    ensures
        r as int == ident_end(s@, i as int),
        i <= r <= s@.len(),
{
    let mut j = i;
    while j < s.len() && is_ident_char_e(s[j])
        invariant
            i <= j <= s@.len(),
            ident_end(s@, i as int) == ident_end(s@, j as int),
        decreases s@.len() - j,
    {
        j = j + 1;
    }
    j
}

/// Scan to the end of a run of decimal digits.
pub fn p_digits_end(s: &Vec<char>, i: usize) -> (r: usize)
    requires
        i <= s@.len(),
    ensures
        r as int == digits_end(s@, i as int),
        i <= r <= s@.len(),
{
    let mut j = i;
    while j < s.len() && is_digit_e(s[j])
        invariant
            i <= j <= s@.len(),
            digits_end(s@, i as int) == digits_end(s@, j as int),
        decreases s@.len() - j,
    {
        j = j + 1;
    }
    j
}

/// Scan to the next double quote, or the end of the input.
pub fn p_nonquote_end(s: &Vec<char>, i: usize) -> (r: usize)
    requires
        i <= s@.len(),
    ensures
        r as int == nonquote_end(s@, i as int),
        i <= r <= s@.len(),
{
    let mut j = i;
    while j < s.len() && s[j] != '"'
        invariant
            i <= j <= s@.len(),
            nonquote_end(s@, i as int) == nonquote_end(s@, j as int),
        decreases s@.len() - j,
    {
        j = j + 1;
    }
    j
}

/// One expected character.
pub fn p_ch(s: &Vec<char>, i: usize, c: char) -> (r: bool)
    ensures
        r == sp_ch(s@, i as int, c),
{
    i < s.len() && s[i] == c
}

/// A whole expected character sequence.
pub fn p_tag(s: &Vec<char>, i: usize, kw: &Vec<char>) -> (r: bool)
    requires
        i <= s@.len(),
    ensures
        r == sp_tag(s@, i as int, kw@),
{
    let n = s.len();
    if n - i < kw.len() {
        return false;
    }
    let mut j: usize = 0;
    while j < kw.len()
        invariant
            n == s@.len(),
            i + kw@.len() <= n,
            j <= kw@.len(),
            forall|k: int| 0 <= k < j ==> s@[i + k] == kw@[k],
        decreases kw@.len() - j,
    {
        if s[i + j] != kw[j] {
            proof {
                assert(s@.subrange(i as int, i + kw@.len())[j as int] != kw@[j as int]);
            }
            return false;
        }
        j = j + 1;
    }
    proof {
        assert(s@.subrange(i as int, i + kw@.len()) =~= kw@);
    }
    true
}

/// Copy out a substring.
pub fn sub_string(s: &Vec<char>, a: usize, b: usize) -> (r: String)
    requires
        a <= b <= s@.len(),
    ensures
        r@ == s@.subrange(a as int, b as int),
{
    let mut v: Vec<char> = Vec::new();
    let mut k = a;
    while k < b
        invariant
            a <= k <= b <= s@.len(),
            v@ == s@.subrange(a as int, k as int),
        decreases b - k,
    {
        v.push(s[k]);
        k = k + 1;
        proof {
            assert(v@ =~= s@.subrange(a as int, k as int));
        }
    }
    chars_to_string(&v)
}

/// An identifier.
pub fn p_ident(s: &Vec<char>, i: usize) -> (r: Option<(String, usize)>)
    requires
        i <= s@.len(),
    ensures
        match r {
            Some((t, j)) => sp_ident(s@, i as int) == Some((t@, j as int)) && i < j <= s@.len(),
            None => sp_ident(s@, i as int) is None,
        },
{
    if i < s.len() && is_ident_start_e(s[i]) {
        let j = p_ident_end(s, i + 1);
        Some((sub_string(s, i, j), j))
    } else {
        None
    }
}

/// A string literal.
pub fn p_string(s: &Vec<char>, i: usize) -> (r: Option<(String, usize)>)
    requires
        i <= s@.len(),
    ensures
        match r {
            Some((t, j)) => sp_string(s@, i as int) == Some((t@, j as int)) && i < j <= s@.len(),
            None => sp_string(s@, i as int) is None,
        },
{
    let n = s.len();
    if p_ch(s, i, '"') {
        let j = p_nonquote_end(s, i + 1);
        if j < n {
            Some((sub_string(s, i + 1, j), j + 1))
        } else {
            None
        }
    } else {
        None
    }
}

pub proof fn lemma_digits_val_nonneg(ds: Seq<char>)
    requires
        forall|k: int| 0 <= k < ds.len() ==> is_digit(ds[k]),
    ensures
        digits_val(ds) >= 0,
    decreases ds,
{
    if ds.len() > 0 {
        lemma_digits_val_nonneg(ds.drop_last());
    }
}

/// The value of a digit run never goes down as the run grows to the right.
pub proof fn lemma_digits_val_prefix(ds: Seq<char>, k: int)
    requires
        0 <= k <= ds.len(),
        forall|m: int| 0 <= m < ds.len() ==> is_digit(ds[m]),
    ensures
        digits_val(ds.subrange(0, k)) <= digits_val(ds),
    decreases ds.len() - k,
{
    if k < ds.len() {
        lemma_digits_val_prefix(ds, k + 1);
        let p = ds.subrange(0, k);
        let q = ds.subrange(0, k + 1);
        assert(q.drop_last() =~= p);
        lemma_digits_val_nonneg(p);
        assert(is_digit(q.last()));
    } else {
        assert(ds.subrange(0, k) =~= ds);
    }
}

/// The numeric value of the digit run `[a, b)`, unless it exceeds `i64::MAX`.
pub fn p_digits_val(s: &Vec<char>, a: usize, b: usize) -> (r: Option<i64>)
    requires
        a <= b <= s@.len(),
        forall|k: int| a <= k < b ==> is_digit(s@[k]),
    ensures
        match r {
            Some(v) => v as int == digits_val(s@.subrange(a as int, b as int)) && v >= 0,
            None => digits_val(s@.subrange(a as int, b as int)) > i64::MAX,
        },
{
    let ghost whole = s@.subrange(a as int, b as int);
    proof {
        assert(forall|m: int| 0 <= m < whole.len() ==> is_digit(whole[m]));
    }
    let mut v: i64 = 0;
    let mut k = a;
    while k < b
        invariant
            a <= k <= b <= s@.len(),
            forall|m: int| a <= m < b ==> is_digit(s@[m]),
            whole == s@.subrange(a as int, b as int),
            forall|m: int| 0 <= m < whole.len() ==> is_digit(whole[m]),
            0 <= v,
            v as int == digits_val(s@.subrange(a as int, k as int)),
        decreases b - k,
    {
        let c = s[k];
        proof {
            assert(is_digit(s@[k as int]));
            assert('0' <= c && c <= '9');
        }
        let d: u32 = (c as u32) - ('0' as u32);
        proof {
            assert(d <= 9);
        }
        let ghost pre = s@.subrange(a as int, k as int);
        let ghost cur = s@.subrange(a as int, k as int + 1);
        proof {
            assert(cur.drop_last() =~= pre);
            assert(cur.last() == s@[k as int]);
        }
        if v > (i64::MAX - (d as i64)) / 10 {
            proof {
                assert(digits_val(cur) == digits_val(pre) * 10 + (s@[k as int] as int - '0' as int));
                assert(digits_val(cur) > i64::MAX);
                assert(cur =~= whole.subrange(0, k - a + 1));
                lemma_digits_val_prefix(whole, k - a + 1);
            }
            return None;
        }
        v = v * 10 + (d as i64);
        k = k + 1;
    }
    proof {
        assert(s@.subrange(a as int, k as int) =~= whole);
    }
    Some(v)
}

/// An integer literal.
pub fn p_int(s: &Vec<char>, i: usize) -> (r: Option<(i64, usize)>)
    requires
        i <= s@.len(),
    ensures
        match r {
            Some((n, j)) => sp_int(s@, i as int) == Some((n as int, j as int)) && i < j
                <= s@.len(),
            None => sp_int(s@, i as int) is None,
        },
{
    let n = s.len();
    let neg = p_ch(s, i, '-');
    let j = if neg {
        i + 1
    } else {
        i
    };
    let k = p_digits_end(s, j);
    if k == j {
        return None;
    }
    proof {
        assert(forall|m: int| j <= m < k ==> is_digit(s@[m])) by {
            assert forall|m: int| j <= m < k implies is_digit(s@[m]) by {
                lemma_digits_run(s@, j as int, m);
            }
        };
    }
    match p_digits_val(s, j, k) {
        None => None,
        Some(v) => {
            if neg {
                Some((-v, k))
            } else {
                Some((v, k))
            }
        },
    }
}

/// Inside a digit run, every character is a digit.
pub proof fn lemma_digits_run(s: Seq<char>, i: int, m: int)
    requires
        0 <= i <= s.len(),
        i <= m < digits_end(s, i),
    ensures
        is_digit(s[m]),
    decreases m - i,
{
    if i < m {
        lemma_digits_run(s, i + 1, m);
    }
}

} // verus!
