//! The tagged runtime value and its mathematical model.
//!
//! A `Value` is a closed discriminated union over nil, booleans, 64-bit
//! signed numbers and heap objects.  Scalars copy by value; the object
//! variant owns its heap entity.  The model of a value (`ValueModel`)
//! replaces the object reference by the object's content, so contracts speak
//! of what a value *is*, never of where it lives.

use vstd::pervasive::unreached;
use vstd::prelude::*;

use crate::object::{Obj, ObjType};

verus! {

/// The type tag of a runtime value.
#[allow(non_camel_case_types)]
#[derive(Clone, Copy, PartialEq, Eq, Structural, Debug)]
pub enum ValueType {
    VAL_BOOLEAN,
    VAL_NIL,
    VAL_NUMBER,
    VAL_OBJ,
}

/// The mathematical model of a runtime value: a string object is modelled
/// by its content alone.
pub enum ValueModel {
    Nil,
    Bool(bool),
    Num(i64),
    Str(Seq<u8>),
}

/// A runtime value.
#[derive(Clone, Debug)]
pub enum Value {
    Nil,
    Boolean(bool),
    Number(i64),
    Obj(Obj),
}

impl View for Value {
    type V = ValueModel;

    open spec fn view(&self) -> ValueModel {
        match self {
            Value::Nil => ValueModel::Nil,
            Value::Boolean(b) => ValueModel::Bool(*b),
            Value::Number(n) => ValueModel::Num(*n),
            Value::Obj(o) => ValueModel::Str(o@),
        }
    }
}

impl Value {
    /// A nil value.
    pub fn nill() -> (r: Value)
        ensures
            r@ == ValueModel::Nil,
    {
        Value::Nil
    }

    /// A boolean value.
    pub fn boolean_val(b: bool) -> (r: Value)
        ensures
            r@ == ValueModel::Bool(b),
    {
        Value::Boolean(b)
    }

    /// A numeric value.
    pub fn number_val(n: i64) -> (r: Value)
        ensures
            r@ == ValueModel::Num(n),
    {
        Value::Number(n)
    }

    /// A value holding a heap object.
    pub fn obj_val(o: Obj) -> (r: Value)
        ensures
            r@ == ValueModel::Str(o@),
    {
        Value::Obj(o)
    }

    /// An owned copy of the value.
    pub fn duplicate(&self) -> (r: Value)
        ensures
            r@ == self@,
    {
        match self {
            Value::Nil => Value::Nil,
            Value::Boolean(b) => Value::Boolean(*b),
            Value::Number(n) => Value::Number(*n),
            Value::Obj(o) => Value::Obj(o.duplicate()),
        }
    }

    /// The type tag of this value.
    pub fn get_type_ref(&self) -> (t: ValueType)
        ensures
            t == ValueType::VAL_NIL <==> self@ is Nil,
            t == ValueType::VAL_BOOLEAN <==> self@ is Bool,
            t == ValueType::VAL_NUMBER <==> self@ is Num,
            t == ValueType::VAL_OBJ <==> self@ is Str,
    {
        match self {
            Value::Nil => ValueType::VAL_NIL,
            Value::Boolean(_) => ValueType::VAL_BOOLEAN,
            Value::Number(_) => ValueType::VAL_NUMBER,
            Value::Obj(_) => ValueType::VAL_OBJ,
        }
    }

    /// Unwrap a numeric value.
    pub fn as_number(&self) -> (n: i64)
        requires
            self@ is Num,
        ensures
            self@ == ValueModel::Num(n),
    {
        match self {
            Value::Number(n) => *n,
            _ => 0,
        }
    }

    /// Unwrap a boolean value.
    pub fn as_boolean(&self) -> (b: bool)
        requires
            self@ is Bool,
        ensures
            self@ == ValueModel::Bool(b),
    {
        match self {
            Value::Boolean(b) => *b,
            _ => false,
        }
    }

    /// Unwrap an object value.
    pub fn as_obj(&self) -> (o: &Obj)
        requires
            self@ is Str,
        ensures
            self@ == ValueModel::Str(o@),
    {
        match self {
            Value::Obj(o) => o,
            _ => unreached(),
        }
    }
}

/// Whether a value holds an object of the given kind.
pub fn is_obj_type(value: &Value, type_: &ObjType) -> (r: bool)
    ensures
        r == (value@ is Str && *type_ == ObjType::OBJ_STRING),
{
    match value {
        Value::Obj(o) => o.get_type() == *type_,
        _ => false,
    }
}

/// The append-only constant pool: an ordered sequence of values.
#[derive(Debug)]
pub struct ValueArray {
    values: Vec<Value>,
}

impl View for ValueArray {
    type V = Seq<ValueModel>;

    closed spec fn view(&self) -> Seq<ValueModel> {
        self.values@.map_values(|v: Value| v@)
    }
}

impl ValueArray {
    /// A fresh, empty pool.
    pub fn init_value() -> (r: Self)
        ensures
            r@ == Seq::<ValueModel>::empty(),
    {
        let r = ValueArray { values: Vec::new() };
        proof {
            assert(r@ =~= Seq::<ValueModel>::empty());
        }
        r
    }

    /// Append one value to the pool.
    pub fn write_value(&mut self, value: Value)
        ensures
            final(self)@ == old(self)@.push(value@),
    {
        let ghost before = self@;
        self.values.push(value);
        proof {
            assert(self@ =~= before.push(value@));
        }
    }

    /// The values of the pool, in insertion order.
    pub fn get_values(&self) -> (r: &Vec<Value>)
        ensures
            r@.map_values(|v: Value| v@) == self@,
            r@.len() == self@.len(),
    {
        &self.values
    }
}

/// The decimal digits of a non-negative number, most significant first.
pub open spec fn spec_udec_text(m: int) -> Seq<u8>
    decreases m,
{
    if m < 10 {
        seq![('0' as u8 + m) as u8]
    } else {
        spec_udec_text(m / 10).push(('0' as u8 + m % 10) as u8)
    }
}

/// The canonical decimal text of a number: a minus sign for negatives, then
/// the digits of the magnitude.
pub open spec fn spec_i64_text(n: int) -> Seq<u8> {
    if n < 0 {
        seq!['-' as u8] + spec_udec_text(-n)
    } else {
        spec_udec_text(n)
    }
}

/// The canonical textual form of a value, as `print` shows it.
pub open spec fn spec_value_text(v: ValueModel) -> Seq<u8> {
    match v {
        ValueModel::Nil => seq!['n' as u8, 'i' as u8, 'l' as u8],
        ValueModel::Bool(b) => if b {
            seq!['t' as u8, 'r' as u8, 'u' as u8, 'e' as u8]
        } else {
            seq!['f' as u8, 'a' as u8, 'l' as u8, 's' as u8, 'e' as u8]
        },
        ValueModel::Num(n) => spec_i64_text(n as int),
        ValueModel::Str(s) => s,
    }
}

/// Append the bytes of `src` to `dst`.
pub fn append_bytes(dst: &mut Vec<u8>, src: &Vec<u8>)
    ensures
        final(dst)@ == old(dst)@ + src@,
{
    let mut i: usize = 0;
    while i < src.len()
        invariant
            i <= src@.len(),
            dst@ == old(dst)@ + src@.subrange(0, i as int),
        decreases src@.len() - i,
    {
        dst.push(src[i]);
        i += 1;
        proof {
            assert(dst@ =~= old(dst)@ + src@.subrange(0, i as int));
        }
    }
    proof {
        assert(dst@ =~= old(dst)@ + src@);
    }
}

/// Whether two byte vectors hold the same bytes.
pub fn bytes_equal(a: &Vec<u8>, b: &Vec<u8>) -> (r: bool)
    ensures
        r == (a@ == b@),
{
    if a.len() != b.len() {
        return false;
    }
    let mut i: usize = 0;
    while i < a.len()
        invariant
            i <= a@.len(),
            a@.len() == b@.len(),
            forall|j: int| 0 <= j < i ==> a@[j] == b@[j],
        decreases a@.len() - i,
    {
        if a[i] != b[i] {
            return false;
        }
        i += 1;
    }
    proof {
        assert(a@ =~= b@);
    }
    true
}

/// Copy the bytes of a vector.
pub fn clone_bytes(v: &Vec<u8>) -> (r: Vec<u8>)
    ensures
        r@ == v@,
{
    let mut r: Vec<u8> = Vec::new();
    append_bytes(&mut r, v);
    proof {
        assert(r@ =~= v@);
    }
    r
}

/// The decimal digits of a non-negative number.
fn udec_text(m: u64) -> (r: Vec<u8>)
    ensures
        r@ == spec_udec_text(m as int),
    decreases m,
{
    if m < 10 {
        let mut v: Vec<u8> = Vec::new();
        v.push('0' as u8 + (m as u8));
        proof {
            assert(v@ =~= seq![('0' as u8 + m as int) as u8]);
        }
        v
    } else {
        let mut v = udec_text(m / 10);
        v.push('0' as u8 + ((m % 10) as u8));
        proof {
            assert(v@ =~= spec_udec_text(m as int / 10).push(('0' as u8 + m as int % 10) as u8));
        }
        v
    }
}

/// The canonical decimal text of a number.
fn i64_text(n: i64) -> (r: Vec<u8>)
    ensures
        r@ == spec_i64_text(n as int),
{
    if n >= 0 {
        udec_text(n as u64)
    } else {
        let mag: u64 = if n == i64::MIN {
            9223372036854775808u64
        } else {
            (-n) as u64
        };
        proof {
            assert(mag as int == -(n as int));
        }
        let mut v: Vec<u8> = Vec::new();
        v.push('-' as u8);
        let digits = udec_text(mag);
        append_bytes(&mut v, &digits);
        proof {
            assert(v@ =~= seq!['-' as u8] + spec_udec_text(-(n as int)));
        }
        v
    }
}

/// The canonical textual form of a value.
pub fn value_text(value: &Value) -> (r: Vec<u8>)
    ensures
        r@ == spec_value_text(value@),
{
    match value {
        Value::Nil => {
            let v: Vec<u8> = vec!['n' as u8, 'i' as u8, 'l' as u8];
            proof {
                assert(v@ =~= spec_value_text(ValueModel::Nil));
            }
            v
        },
        Value::Boolean(b) => {
            if *b {
                let v: Vec<u8> = vec!['t' as u8, 'r' as u8, 'u' as u8, 'e' as u8];
                proof {
                    assert(v@ =~= spec_value_text(ValueModel::Bool(true)));
                }
                v
            } else {
                let v: Vec<u8> = vec!['f' as u8, 'a' as u8, 'l' as u8, 's' as u8, 'e' as u8];
                proof {
                    assert(v@ =~= spec_value_text(ValueModel::Bool(false)));
                }
                v
            }
        },
        Value::Number(n) => i64_text(*n),
        Value::Obj(o) => clone_bytes(o.as_string().get_string()),
    }
}

} // verus!
