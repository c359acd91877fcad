//! Errors of the bridge, and the rendering of runtime type names.

use vstd::prelude::*;
use crate::handle::AsLua;
use crate::read::LuaRead;
use crate::value::LuaType;
use crate::value::ValueView;
use crate::value::spec_type_name;
use crate::value::spec_type_of;

verus! {

/// Error that can happen when executing interpreter code.
#[derive(Debug)]
pub enum LuaError {
    /// The chunk failed to compile; carries the interpreter's message.
    SyntaxError(String),
    /// The chunk or function raised during execution; carries the
    /// interpreter's message.
    ExecutionError(String),
    /// Reading the source text failed before compilation could begin;
    /// carries a rendering of the underlying failure.
    ReadError(String),
    /// A read produced a value whose runtime type does not match the
    /// requested host type.
    WrongType {
        /// The name of the requested host type.
        rust_expected: String,
        /// The rendering of the actual runtime type or types.
        lua_actual: String,
    },
}

impl LuaError {
    /// The rendered message of this error.
    pub open spec fn spec_message(&self) -> Seq<char> {
        match self {
            LuaError::SyntaxError(s) => "Syntax error: "@ + s@,
            LuaError::ExecutionError(s) => "Execution error: "@ + s@,
            LuaError::ReadError(s) => "Read error: "@ + s@,
            LuaError::WrongType { rust_expected, lua_actual } => "Wrong type returned by Lua: "@
                + rust_expected@ + " expected, got "@ + lua_actual@,
        }
    }

    /// Renders this error as text.
    pub fn message(&self) -> (m: String)
        ensures
            m@ == self.spec_message(),
    {
        match self {
            LuaError::SyntaxError(s) => {
                let mut m = "Syntax error: ".to_owned();
                m.append(s.as_str());
                m
            },
            LuaError::ExecutionError(s) => {
                let mut m = "Execution error: ".to_owned();
                m.append(s.as_str());
                m
            },
            LuaError::ReadError(s) => {
                let mut m = "Read error: ".to_owned();
                m.append(s.as_str());
                m
            },
            LuaError::WrongType { rust_expected, lua_actual } => {
                let mut m = "Wrong type returned by Lua: ".to_owned();
                m.append(rust_expected.as_str());
                m.append(" expected, got ");
                m.append(lua_actual.as_str());
                m
            },
        }
    }

    /// The mismatch error for a failed read of `T`, naming the host type and
    /// the runtime types of the top `n_values` stack slots.
    pub fn wrong_type<T: LuaRead<L>, L: AsLua>(lua: &L, n_values: usize) -> (e: LuaError)
        requires
            lua.wf(),
            1 <= n_values,
            n_values as int <= lua.vm().stack.len(),
        ensures
            (e matches LuaError::WrongType { rust_expected, lua_actual } && {
                &&& rust_expected@ == T::expected_name()
                &&& lua_actual@ == spec_actual_types(lua.vm().stack, n_values as int)
            }),
    {
        LuaError::WrongType {
            rust_expected: T::host_name(),
            lua_actual: lua_typename(lua, n_values),
        }
    }
}

/// The runtime name of one type.
pub fn type_name_of(t: LuaType) -> (s: &'static str)
    ensures
        s@ == spec_type_name(t),
{
    match t {
        LuaType::Nil => "nil",
        LuaType::Boolean => "boolean",
        LuaType::Number => "number",
        LuaType::Str => "string",
        LuaType::Table => "table",
        LuaType::Function => "function",
        LuaType::Cdata => "cdata",
        LuaType::Other => "userdata",
    }
}

/// The names of the top `k` slots, topmost first, joined by `", "`.
pub open spec fn spec_top_names(stack: Seq<ValueView>, k: int) -> Seq<char>
    decreases k,
{
    if k <= 1 {
        spec_type_name(spec_type_of(stack[stack.len() - 1]))
    } else {
        spec_top_names(stack, k - 1) + ", "@ + spec_type_name(
            spec_type_of(stack[stack.len() - k]),
        )
    }
}

/// The rendering of the runtime types of the top `n` slots: the bare name
/// for one slot, a parenthesised list for several.
pub open spec fn spec_actual_types(stack: Seq<ValueView>, n: int) -> Seq<char> {
    if n == 1 {
        spec_top_names(stack, 1)
    } else {
        "("@ + spec_top_names(stack, n) + ")"@
    }
}

/// Renders the runtime types of the top `n_values` stack slots.
pub fn lua_typename<L: AsLua>(lua: &L, n_values: usize) -> (s: String)
    requires
        lua.wf(),
        1 <= n_values,
        n_values as int <= lua.vm().stack.len(),
    ensures
        s@ == spec_actual_types(lua.vm().stack, n_values as int),
{
    let top = lua.stack_top();
    let n = n_values;
    let first = lua.slot_at(top);
    let mut acc = type_name_of(first.value_type()).to_owned();
    let mut done: usize = 1;
    while done < n
        invariant
            lua.wf(),
            1 <= done <= n,
            n <= top,
            top == lua.vm().stack.len(),
            acc@ == spec_top_names(lua.vm().stack, done as int),
        decreases n - done,
    {
        let v = lua.slot_at(top - done);
        acc.append(", ");
        acc.append(type_name_of(v.value_type()));
        done += 1;
    }
    if n == 1 {
        acc
    } else {
        let mut m = "(".to_owned();
        m.append(acc.as_str());
        m.append(")");
        m
    }
}

} // verus!
