//! Typed access to parsed values: shape accessors and the `RecDeserialize`
//! trait, which turns a value into a host-side type.
use vstd::prelude::*;
use crate::ast::RecError;
use crate::ast::RecObject;
use crate::ast::RecValue;
use crate::ast::ValS;
use crate::ast::lemma_view_val_fields;
use crate::ast::lemma_view_vals;
use crate::ast::view_val_fields;
use crate::ast::view_vals;
use crate::chars::str_eq;
use crate::grammar::first_key_index;
use crate::grammar::has_key;
use crate::grammar::lookup_key;

verus! {

impl RecObject {
    /// The value of the first field with the given name, if any.
    pub fn get<'a>(&'a self, key: &str) -> (r: Option<&'a RecValue>)
        ensures
            match r {
                Some(v) => lookup_key(self@, key@) == Some(v@),
                None => lookup_key(self@, key@) is None,
            },
    {
        proof {
            lemma_view_val_fields(self.fields@);
        }
        let ghost gfs = view_val_fields(self.fields@);
        let mut i: usize = 0;
        while i < self.fields.len()
            invariant
                gfs == view_val_fields(self.fields@),
                gfs.len() == self.fields@.len(),
                forall|m: int|
                    0 <= m < self.fields@.len() ==> gfs[m] == (
                        self.fields@[m].0@,
                        self.fields@[m].1@,
                    ),
                i <= self.fields@.len(),
                forall|m: int| 0 <= m < i ==> gfs[m].0 != key@,
            decreases self.fields@.len() - i,
        {
            if str_eq(self.fields[i].0.as_str(), key) {
                proof {
                    assert(gfs[i as int].0 == key@);
                    crate::grammar::lemma_first_key_index(gfs, key@);
                    if first_key_index(gfs, key@) > i as nat {
                        assert(gfs[i as int].0 != key@);
                        assert(false);
                    }
                    if first_key_index(gfs, key@) < i as nat {
                        assert(gfs[first_key_index(gfs, key@) as int].0 == key@);
                        assert(false);
                    }
                }
                return Some(&self.fields[i].1);
            }
            i = i + 1;
        }
        proof {
            crate::grammar::lemma_first_key_index(gfs, key@);
        }
        None
    }
}

impl RecValue {
    /// The inner string of a string value.
    pub fn as_string<'a>(&'a self) -> (r: Option<&'a str>)
        ensures
            match r {
                Some(s) => self@ matches ValS::StrV(t) && s@ == t,
                None => !(self@ is StrV),
            },
    {
        match self {
            RecValue::String(s) => Some(s.as_str()),
            _ => None,
        }
    }

    /// The inner integer of an integer value.
    pub fn as_int(&self) -> (r: Option<i64>)
        ensures
            match r {
                Some(n) => self@ == ValS::IntV(n as int),
                None => !(self@ is IntV),
            },
    {
        match self {
            RecValue::Int(n) => Some(*n),
            _ => None,
        }
    }

    /// The inner object of an object value.
    pub fn as_object<'a>(&'a self) -> (r: Option<&'a RecObject>)
        ensures
            match r {
                Some(o) => self@ == ValS::ObjV(o@),
                None => !(self@ is ObjV),
            },
    {
        match self {
            RecValue::Object(o) => Some(o),
            _ => None,
        }
    }

    /// Field lookup on an object value.
    pub fn get<'a>(&'a self, key: &str) -> (r: Option<&'a RecValue>)
        ensures
            match r {
                Some(v) => self@ matches ValS::ObjV(fs) && lookup_key(fs, key@) == Some(v@),
                None => match self@ {
                    ValS::ObjV(fs) => lookup_key(fs, key@) is None,
                    _ => true,
                },
            },
    {
        match self {
            RecValue::Object(o) => o.get(key),
            _ => None,
        }
    }
}

/// A host-side type that can be read out of a parsed value.  Each impl
/// defines which values it accepts (`accepts`), what the produced value
/// means (`means`), and what a failure looks like (`err_means`: a type
/// error naming the expected kind, or, in a container, the first failing
/// element's own error, unchanged); `from_rec` succeeds exactly on
/// accepted values.
pub trait RecDeserialize: Sized {
    spec fn accepts(v: ValS) -> bool
        decreases v,
    ;

    spec fn means(v: ValS, out: Self) -> bool
        decreases v,
    ;

    spec fn err_means(v: ValS, e: RecError) -> bool
        decreases v,
    ;

    fn from_rec(value: &RecValue) -> (r: Result<Self, RecError>)
        ensures
            r is Ok <==> Self::accepts(value@),
            r matches Ok(out) ==> Self::means(value@, out),
            r matches Err(e) ==> Self::err_means(value@, e),
    ;
}

fn type_error(expected: &str, value: &RecValue) -> (r: RecError)
    ensures
        r matches RecError::TypeError { expected: x, actual: _ } && x@ == expected@,
{
    let actual = match value {
        RecValue::String(_) => "string",
        RecValue::Int(_) => "int",
        RecValue::Float(_) => "float",
        RecValue::Bool(_) => "bool",
        RecValue::Null => "null",
        RecValue::Url(_) => "url",
        RecValue::Socket(_) => "socket",
        RecValue::Pubkey(_) => "pubkey",
        RecValue::Array(_) => "array",
        RecValue::Object(_) => "object",
        RecValue::EnumVariant { .. } => "enum variant",
    };
    RecError::TypeError { expected: expected.to_owned(), actual: actual.to_owned() }
}

impl RecDeserialize for String {
    open spec fn accepts(v: ValS) -> bool
        decreases v,
    {
        v is StrV
    }

    open spec fn means(v: ValS, out: Self) -> bool
        decreases v,
    {
        v matches ValS::StrV(t) && out@ == t
    }

    open spec fn err_means(v: ValS, e: RecError) -> bool
        decreases v,
    {
        e matches RecError::TypeError { expected, actual: _ } && expected@ == "string"@
    }

    fn from_rec(value: &RecValue) -> (r: Result<Self, RecError>) {
        match value {
            RecValue::String(s) => Ok(s.clone()),
            _ => Err(type_error("string", value)),
        }
    }
}

impl RecDeserialize for i64 {
    open spec fn accepts(v: ValS) -> bool
        decreases v,
    {
        v is IntV
    }

    open spec fn means(v: ValS, out: Self) -> bool
        decreases v,
    {
        v == ValS::IntV(out as int)
    }

    open spec fn err_means(v: ValS, e: RecError) -> bool
        decreases v,
    {
        e matches RecError::TypeError { expected, actual: _ } && expected@ == "int"@
    }

    fn from_rec(value: &RecValue) -> (r: Result<Self, RecError>) {
        match value {
            RecValue::Int(n) => Ok(*n),
            _ => Err(type_error("int", value)),
        }
    }
}

impl RecDeserialize for bool {
    open spec fn accepts(v: ValS) -> bool
        decreases v,
    {
        v is BoolV
    }

    open spec fn means(v: ValS, out: Self) -> bool
        decreases v,
    {
        v == ValS::BoolV(out)
    }

    open spec fn err_means(v: ValS, e: RecError) -> bool
        decreases v,
    {
        e matches RecError::TypeError { expected, actual: _ } && expected@ == "bool"@
    }

    fn from_rec(value: &RecValue) -> (r: Result<Self, RecError>) {
        match value {
            RecValue::Bool(b) => Ok(*b),
            _ => Err(type_error("bool", value)),
        }
    }
}

/// The failure of an element-wise conversion: on anything but an array, a
/// type error expecting an array; on an array, the first failing element's
/// own error, unchanged.
pub open spec fn arr_err_means<T: RecDeserialize>(v: ValS, e: RecError) -> bool {
    match v {
        ValS::ArrV(vs) => exists|i: int|
            0 <= i < vs.len() && (forall|m: int| 0 <= m < i ==> T::accepts(#[trigger] vs[m]))
                && !T::accepts(vs[i]) && #[trigger] T::err_means(vs[i], e),
        _ => e matches RecError::TypeError { expected, actual: _ } && expected@ == "array"@,
    }
}

proof fn lemma_arr_err<T: RecDeserialize>(vs: Seq<ValS>, i: int, e: RecError)
    requires
        0 <= i < vs.len(),
        forall|m: int| 0 <= m < i ==> T::accepts(#[trigger] vs[m]),
        !T::accepts(vs[i]),
        T::err_means(vs[i], e),
    ensures
        arr_err_means::<T>(ValS::ArrV(vs), e),
{
    assert(ValS::ArrV(vs)->ArrV_0 == vs);
}

proof fn lemma_arr_err_not_array<T: RecDeserialize>(v: ValS, e: RecError)
    requires
        !(v is ArrV),
        e matches RecError::TypeError { expected, actual: _ } && expected@ == "array"@,
    ensures
        arr_err_means::<T>(v, e),
{
}

pub open spec fn arr_accepts<T: RecDeserialize>(v: ValS) -> bool {
    v is ArrV && forall|i: int| 0 <= i < v->ArrV_0.len() ==> T::accepts(#[trigger] v->ArrV_0[i])
}

pub open spec fn arr_means<T: RecDeserialize>(v: ValS, out: Vec<T>) -> bool {
    v matches ValS::ArrV(vs) && out@.len() == vs.len() && forall|i: int|
        0 <= i < vs.len() ==> T::means(vs[i], #[trigger] out@[i])
}

impl<T: RecDeserialize> RecDeserialize for Vec<T> {
    open spec fn accepts(v: ValS) -> bool
        decreases v,
    {
        arr_accepts::<T>(v)
    }

    open spec fn means(v: ValS, out: Self) -> bool
        decreases v,
    {
        arr_means::<T>(v, out)
    }

    open spec fn err_means(v: ValS, e: RecError) -> bool
        decreases v,
    {
        arr_err_means::<T>(v, e)
    }

    #[verifier::loop_isolation(false)]
    fn from_rec(value: &RecValue) -> (r: Result<Self, RecError>) {
        match value {
            RecValue::Array(arr) => {
                proof {
                    lemma_view_vals(arr@);
                }
                let ghost gvs = view_vals(arr@);
                let mut out: Vec<T> = Vec::new();
                let mut i: usize = 0;
                while i < arr.len()
                    invariant
                        gvs == view_vals(arr@),
                        gvs.len() == arr@.len(),
                        forall|m: int| 0 <= m < arr@.len() ==> gvs[m] == arr@[m]@,
                        i <= arr@.len(),
                        out@.len() == i,
                        forall|m: int| 0 <= m < i ==> T::accepts(#[trigger] gvs[m]),
                        forall|m: int| 0 <= m < i ==> T::means(gvs[m], #[trigger] out@[m]),
                    decreases arr@.len() - i,
                {
                    match T::from_rec(&arr[i]) {
                        Ok(x) => {
                            out.push(x);
                        },
                        Err(e) => {
                            proof {
                                assert(!T::accepts(gvs[i as int]));
                                assert(value@ == ValS::ArrV(gvs));
                                lemma_arr_rejects::<T>(gvs, i as int);
                                assert(!Self::accepts(value@));
                                lemma_arr_err::<T>(gvs, i as int, e);
                                assert(Self::err_means(value@, e));
                            }
                            return Err(e);
                        },
                    }
                    i = i + 1;
                }
                proof {
                    lemma_arr_accepts_all::<T>(gvs);
                    assert(value@ == ValS::ArrV(gvs));
                    assert(arr_means::<T>(value@, out)) by {
                        assert(value@->ArrV_0 == gvs);
                    };
                }
                Ok(out)
            },
            _ => {
                let e = type_error("array", value);
                proof {
                    lemma_arr_err_not_array::<T>(value@, e);
                    assert(Self::err_means(value@, e));
                }
                Err(e)
            },
        }
    }
}

impl<T: RecDeserialize> RecDeserialize for Option<T> {
    open spec fn accepts(v: ValS) -> bool
        decreases v,
    {
        v is NullV || T::accepts(v)
    }

    open spec fn means(v: ValS, out: Self) -> bool
        decreases v,
    {
        match out {
            None => v is NullV,
            Some(x) => T::means(v, x),
        }
    }

    open spec fn err_means(v: ValS, e: RecError) -> bool
        decreases v,
    {
        T::err_means(v, e)
    }

    fn from_rec(value: &RecValue) -> (r: Result<Self, RecError>) {
        match value {
            RecValue::Null => Ok(None),
            _ => match T::from_rec(value) {
                Ok(x) => Ok(Some(x)),
                Err(e) => Err(e),
            },
        }
    }
}




proof fn lemma_arr_rejects<T: RecDeserialize>(vs: Seq<ValS>, i: int)
    requires
        0 <= i < vs.len(),
        !T::accepts(vs[i]),
    ensures
        !arr_accepts::<T>(ValS::ArrV(vs)),
{
    assert(ValS::ArrV(vs)->ArrV_0 == vs);
}

proof fn lemma_arr_accepts_all<T: RecDeserialize>(vs: Seq<ValS>)
    requires
        forall|m: int| 0 <= m < vs.len() ==> T::accepts(#[trigger] vs[m]),
    ensures
        arr_accepts::<T>(ValS::ArrV(vs)),
{
    assert(ValS::ArrV(vs)->ArrV_0 == vs);
}

} // verus!
