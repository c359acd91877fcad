//! The laws the marshalling protocols obey, stated and proved once.

use vstd::prelude::*;
use crate::lua::Lua;
use crate::push::Push;
use crate::read::LuaRead;
use crate::value::FloatBits;
use crate::value::ValueView;
use crate::value::spec_type_name;
use crate::value::spec_type_of;

verus! {

/// Stack balance: the slots a guard covers are exactly those its
/// destruction removes.  A successful push leaves the stack at
/// `base + pushed` under a guard sized `|pushed|`
/// (`Push::push_to_lua`), and destroying the guard truncates the stack by
/// its size (`PushGuard::into_inner`); this law closes the loop: the
/// truncation restores exactly the stack from before the push.
pub proof fn lemma_stack_balance(base: Seq<ValueView>, pushed: Seq<ValueView>)
    ensures
        (base + pushed).take(base.len() as int) == base,
{
    assert((base + pushed).take(base.len() as int) =~= base);
}

/// Round trip for integers: the slot written when pushing `v` decodes, and
/// decodes only to `v` itself.
pub proof fn lemma_round_trip_i32(v: i32, x: i32)
    ensures
        <i32 as LuaRead<Lua>>::accepts(<i32 as Push<Lua>>::pushed(&v)),
        <i32 as LuaRead<Lua>>::models(&x, <i32 as Push<Lua>>::pushed(&v)) ==> x == v,
{
}

/// Round trip for booleans: the slot written when pushing `v` decodes, and
/// decodes only to `v` itself.
pub proof fn lemma_round_trip_bool(v: bool, x: bool)
    ensures
        <bool as LuaRead<Lua>>::accepts(<bool as Push<Lua>>::pushed(&v)),
        <bool as LuaRead<Lua>>::models(&x, <bool as Push<Lua>>::pushed(&v)) ==> x == v,
{
}

/// Round trip for numbers: the slot written when pushing `v` decodes, and
/// decodes only to a value with the same bit pattern.
pub proof fn lemma_round_trip_float_bits(v: FloatBits, x: FloatBits)
    ensures
        <FloatBits as LuaRead<Lua>>::accepts(<FloatBits as Push<Lua>>::pushed(&v)),
        <FloatBits as LuaRead<Lua>>::models(&x, <FloatBits as Push<Lua>>::pushed(&v)) ==> x.bits
            == v.bits,
{
}

/// Round trip for text: the slot written when pushing `v` decodes, and
/// decodes only to text with the same characters.
pub proof fn lemma_round_trip_string(v: String, x: String)
    ensures
        <String as LuaRead<Lua>>::accepts(<String as Push<Lua>>::pushed(&v)),
        <String as LuaRead<Lua>>::models(&x, <String as Push<Lua>>::pushed(&v)) ==> x@ == v@,
{
}

/// Wrong-type reporting: a boolean slot does not decode as an integer, and
/// its runtime type renders as `boolean`, so a failed integer read of a
/// pushed boolean reports the integer host type against `boolean`.
pub proof fn lemma_boolean_is_not_integer(b: bool)
    ensures
        !<i32 as LuaRead<Lua>>::accepts(seq![ValueView::Boolean(b)]),
        spec_type_name(spec_type_of(ValueView::Boolean(b))) == "boolean"@,
{
}

} // verus!
