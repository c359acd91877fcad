//! Dynamically typed values exchanged with the interpreter.
//!
//! A slot of the interpreter's operand stack holds one [`LuaValue`].  Numbers
//! that are not integral are carried by their IEEE-754 bit pattern so that the
//! bridge itself never computes with floating point; only the host converts
//! bits to and from `f64`.  A table is a reference into the table heap of the
//! owning [`crate::state::Vm`], so two values may alias the same live table.

use vstd::prelude::*;

verus! {

/// The nil value, as a unit type for pushing and reading.
#[derive(Clone, Copy, Debug, PartialEq, Eq, Structural)]
pub struct Nil;

/// A non-integral number, carried as the bit pattern of an `f64` so that the
/// bridge itself never computes with floating point.
#[derive(Clone, Copy, Debug, PartialEq, Eq, Structural)]
pub struct FloatBits {
    pub bits: u64,
}

/// The runtime type of a stack slot, as the interpreter reports it.
#[derive(Clone, Copy, PartialEq, Eq, Structural)]
pub enum LuaType {
    Nil,
    Boolean,
    Number,
    Str,
    Table,
    Function,
    Cdata,
    Other,
}

/// A dynamically typed value: the total decoding that never fails.
pub enum LuaValue {
    /// The absence of a value.
    Nil,
    /// A boolean.
    Boolean(bool),
    /// An integral number.
    Integer(i64),
    /// A non-integral number, carried as the bit pattern of an `f64`.
    Number(u64),
    /// A text value.
    Str(String),
    /// A reference to a table in the heap of the owning `Vm`.
    Table(usize),
    /// A reference to a function value; the token identifies it host-side.
    Function(u64),
    /// A foreign-data record: the registered type it belongs to, and its raw
    /// bytes in the interpreter's native order.
    Cdata(usize, Vec<u8>),
    /// Any value of a kind the bridge does not convert.
    Other,
}

/// The mathematical shape of a [`LuaValue`].
pub enum ValueView {
    Nil,
    Boolean(bool),
    Integer(i64),
    Number(u64),
    Str(Seq<char>),
    Table(int),
    Function(u64),
    Cdata(int, Seq<u8>),
    Other,
}

impl View for LuaValue {
    type V = ValueView;

    open spec fn view(&self) -> ValueView {
        match self {
            LuaValue::Nil => ValueView::Nil,
            LuaValue::Boolean(b) => ValueView::Boolean(*b),
            LuaValue::Integer(n) => ValueView::Integer(*n),
            LuaValue::Number(bits) => ValueView::Number(*bits),
            LuaValue::Str(s) => ValueView::Str(s@),
            LuaValue::Table(id) => ValueView::Table(*id as int),
            LuaValue::Function(tok) => ValueView::Function(*tok),
            LuaValue::Cdata(ct, data) => ValueView::Cdata(*ct as int, data@),
            LuaValue::Other => ValueView::Other,
        }
    }
}

/// The runtime type of a value, at the spec level.
pub open spec fn spec_type_of(v: ValueView) -> LuaType {
    match v {
        ValueView::Nil => LuaType::Nil,
        ValueView::Boolean(_) => LuaType::Boolean,
        ValueView::Integer(_) => LuaType::Number,
        ValueView::Number(_) => LuaType::Number,
        ValueView::Str(_) => LuaType::Str,
        ValueView::Table(_) => LuaType::Table,
        ValueView::Function(_) => LuaType::Function,
        ValueView::Cdata(_, _) => LuaType::Cdata,
        ValueView::Other => LuaType::Other,
    }
}

/// The name the interpreter uses for a runtime type.
pub open spec fn spec_type_name(t: LuaType) -> Seq<char> {
    match t {
        LuaType::Nil => "nil"@,
        LuaType::Boolean => "boolean"@,
        LuaType::Number => "number"@,
        LuaType::Str => "string"@,
        LuaType::Table => "table"@,
        LuaType::Function => "function"@,
        LuaType::Cdata => "cdata"@,
        LuaType::Other => "userdata"@,
    }
}

impl LuaValue {
    /// The runtime type of this value.
    pub fn value_type(&self) -> (t: LuaType)
        ensures
            t == spec_type_of(self@),
    {
        match self {
            LuaValue::Nil => LuaType::Nil,
            LuaValue::Boolean(_) => LuaType::Boolean,
            LuaValue::Integer(_) => LuaType::Number,
            LuaValue::Number(_) => LuaType::Number,
            LuaValue::Str(_) => LuaType::Str,
            LuaValue::Table(_) => LuaType::Table,
            LuaValue::Function(_) => LuaType::Function,
            LuaValue::Cdata(_, _) => LuaType::Cdata,
            LuaValue::Other => LuaType::Other,
        }
    }

    /// Whether this value is nil.
    pub fn is_nil(&self) -> (r: bool)
        ensures
            r == (self@ is Nil),
    {
        matches!(self, LuaValue::Nil)
    }
}

impl Clone for LuaValue {
    fn clone(&self) -> (r: Self)
        ensures
            r@ == self@,
    {
        match self {
            LuaValue::Nil => LuaValue::Nil,
            LuaValue::Boolean(b) => LuaValue::Boolean(*b),
            LuaValue::Integer(n) => LuaValue::Integer(*n),
            LuaValue::Number(bits) => LuaValue::Number(*bits),
            LuaValue::Str(s) => LuaValue::Str(s.clone()),
            LuaValue::Table(id) => LuaValue::Table(*id),
            LuaValue::Function(tok) => LuaValue::Function(*tok),
            LuaValue::Cdata(ct, data) => LuaValue::Cdata(*ct, copy_bytes(data)),
            LuaValue::Other => LuaValue::Other,
        }
    }
}

/// A copy of a byte vector.
fn copy_bytes(v: &Vec<u8>) -> (r: Vec<u8>)
    ensures
        r@ == v@,
{
    let n = v.len();
    let mut out: Vec<u8> = Vec::new();
    let mut i: usize = 0;
    while i < n
        invariant
            i <= n,
            n == v@.len(),
            out@.len() == i,
            forall|j: int| 0 <= j < i ==> out@[j] == v@[j],
        decreases n - i,
    {
        out.push(v[i]);
        i += 1;
    }
    proof {
        assert(out@ =~= v@);
    }
    out
}

/// Equality of two byte sequences, decided at run time.
fn bytes_eq(a: &Vec<u8>, b: &Vec<u8>) -> (r: bool)
    ensures
        r == (a@ == b@),
{
    let n = a.len();
    if n != b.len() {
        return false;
    }
    let mut i: usize = 0;
    while i < n
        invariant
            i <= n,
            n == a@.len(),
            n == b@.len(),
            forall|j: int| 0 <= j < i ==> a@[j] == b@[j],
        decreases n - i,
    {
        if a[i] != b[i] {
            proof {
                assert(a@[i as int] != b@[i as int]);
            }
            return false;
        }
        i += 1;
    }
    proof {
        assert(a@ =~= b@);
    }
    true
}

/// Equality of two values, decided at the level of their views.
pub fn value_eq(a: &LuaValue, b: &LuaValue) -> (r: bool)
    ensures
        r == (a@ == b@),
{
    match (a, b) {
        (LuaValue::Nil, LuaValue::Nil) => true,
        (LuaValue::Boolean(x), LuaValue::Boolean(y)) => x == y,
        (LuaValue::Integer(x), LuaValue::Integer(y)) => x == y,
        (LuaValue::Number(x), LuaValue::Number(y)) => x == y,
        (LuaValue::Str(x), LuaValue::Str(y)) => x.eq(y),
        (LuaValue::Table(x), LuaValue::Table(y)) => x == y,
        (LuaValue::Function(x), LuaValue::Function(y)) => x == y,
        (LuaValue::Cdata(ct, data), LuaValue::Cdata(cu, datb)) => ct == cu && bytes_eq(
            data,
            datb,
        ),
        (LuaValue::Other, LuaValue::Other) => true,
        _ => false,
    }
}

} // verus!
