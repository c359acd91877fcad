//! The inbound marshalling protocol: `LuaRead`.
//!
//! A readable type inspects a window of consecutive stack slots (one for
//! scalars, none for `()`, several for tuples) and decodes it fallibly; on
//! failure nothing is mutated, so the caller can probe another type or
//! report a typed mismatch.  Index 0 is the sentinel for "no value at all"
//! and is handled apart from real positions: it never resolves to a slot.

use vstd::prelude::*;
use crate::handle::AsLua;
use crate::handle::spec_resolve_index;
use crate::state::VmView;
use crate::value::FloatBits;
use crate::value::LuaValue;
use crate::value::Nil;
use crate::value::ValueView;

verus! {

/// The `n` slots beginning at the 1-based absolute position `abs`.
pub open spec fn window_at(vm: VmView, abs: int, n: int) -> Seq<ValueView> {
    if n <= 0 {
        Seq::empty()
    } else {
        vm.stack.subrange(abs - 1, abs - 1 + n)
    }
}

/// The slots a read of width `n` at the possibly relative `index` inspects,
/// or nothing where the window does not fit on the stack.
pub open spec fn read_window(vm: VmView, index: int, n: int) -> Option<Seq<ValueView>> {
    if n <= 0 {
        Some(Seq::empty())
    } else {
        let abs = spec_resolve_index(vm.stack.len() as int, index);
        if 1 <= abs && abs + n - 1 <= vm.stack.len() {
            Some(window_at(vm, abs, n))
        } else {
            None
        }
    }
}

/// Resolves `index` to the 1-based absolute start of a window of `n` slots,
/// or nothing where the window does not fit on the stack.
pub fn resolve_window<L: AsLua>(lua: &L, index: i32, n: usize) -> (r: Option<usize>)
    requires
        lua.wf(),
        index != 0,
        n >= 1,
    ensures
        match r {
            Some(abs) => {
                &&& abs as int == spec_resolve_index(lua.vm().stack.len() as int, index as int)
                &&& 1 <= abs
                &&& abs + n - 1 <= lua.vm().stack.len()
            },
            None => !{
                let abs = spec_resolve_index(lua.vm().stack.len() as int, index as int);
                1 <= abs && abs + n - 1 <= lua.vm().stack.len()
            },
        },
{
    let top = lua.stack_top();
    if index > 0 {
        let abs = index as usize;
        if abs <= top && n - 1 <= top - abs {
            Some(abs)
        } else {
            None
        }
    } else {
        let neg = (-(index as i64)) as usize;
        if neg <= top && n <= neg {
            Some(top - neg + 1)
        } else {
            None
        }
    }
}

/// Types that can be obtained from the interpreter by decoding stack slots.
pub trait LuaRead<L: AsLua>: Sized {
    /// How many consecutive slots a read of this type inspects.
    spec fn n_slots() -> int;

    /// Whether a window of slots decodes to this type at all.
    spec fn accepts(vs: Seq<ValueView>) -> bool;

    /// Whether this value is the decoding of the window.
    spec fn models(&self, vs: Seq<ValueView>) -> bool;

    /// Whether "no value at all" (the index-0 sentinel) decodes.
    spec fn accepts_absent() -> bool;

    /// The host-side name of this type, for mismatch reports.
    spec fn expected_name() -> Seq<char>;

    /// A window never has negative width.
    proof fn n_slots_nonneg()
        ensures
            Self::n_slots() >= 0,
    ;

    /// How many consecutive slots a read of this type inspects.
    fn slot_count() -> (n: usize)
        ensures
            n == Self::n_slots(),
    ;

    /// The host-side name of this type, for mismatch reports.
    fn host_name() -> (s: String)
        ensures
            s@ == Self::expected_name(),
    ;

    /// The decoding of "no value at all", where the type admits one.
    fn read_absent() -> (r: Option<Self>)
        ensures
            match r {
                Some(x) => Self::accepts_absent() && x.models(Seq::empty()),
                None => !Self::accepts_absent(),
            },
    ;

    /// Decodes the window starting at the 1-based absolute position `abs`.
    fn lua_read_at_abs(lua: &L, abs: usize) -> (r: Option<Self>)
        requires
            lua.wf(),
            Self::n_slots() > 0 ==> 1 <= abs && abs + Self::n_slots() - 1 <= lua.vm().stack.len(),
        ensures
            match r {
                Some(x) => Self::accepts(window_at(lua.vm(), abs as int, Self::n_slots()))
                    && x.models(window_at(lua.vm(), abs as int, Self::n_slots())),
                None => !Self::accepts(window_at(lua.vm(), abs as int, Self::n_slots())),
            },
    ;

    /// Decodes the window at a possibly relative, non-zero index; fails
    /// where the window does not fit or does not decode.
    fn lua_read_at_position(lua: &L, index: i32) -> (r: Option<Self>)
        requires
            lua.wf(),
            index != 0,
        ensures
            match r {
                Some(x) => match read_window(lua.vm(), index as int, Self::n_slots()) {
                    Some(vs) => Self::accepts(vs) && x.models(vs),
                    None => false,
                },
                None => match read_window(lua.vm(), index as int, Self::n_slots()) {
                    Some(vs) => !Self::accepts(vs),
                    None => true,
                },
            },
    {
        let n = Self::slot_count();
        if n == 0 {
            Self::lua_read_at_abs(lua, 1)
        } else {
            match resolve_window(lua, index, n) {
                Some(abs) => Self::lua_read_at_abs(lua, abs),
                None => None,
            }
        }
    }

    /// Like `lua_read_at_position`, but treats index 0 as the "absent"
    /// sentinel rather than coercing it to a real position.
    fn lua_read_at_maybe_zero_position(lua: &L, index: i32) -> (r: Option<Self>)
        requires
            lua.wf(),
        ensures
            index != 0 ==> match r {
                Some(x) => match read_window(lua.vm(), index as int, Self::n_slots()) {
                    Some(vs) => Self::accepts(vs) && x.models(vs),
                    None => false,
                },
                None => match read_window(lua.vm(), index as int, Self::n_slots()) {
                    Some(vs) => !Self::accepts(vs),
                    None => true,
                },
            },
            index == 0 ==> match r {
                Some(x) => Self::accepts_absent() && x.models(Seq::empty()),
                None => !Self::accepts_absent(),
            },
    {
        if index != 0 {
            Self::lua_read_at_position(lua, index)
        } else {
            Self::read_absent()
        }
    }

    /// Reads from the top of the stack.
    fn lua_read(lua: &L) -> (r: Option<Self>)
        requires
            lua.wf(),
        ensures
            match r {
                Some(x) => match read_window(lua.vm(), -Self::n_slots(), Self::n_slots()) {
                    Some(vs) => Self::accepts(vs) && x.models(vs),
                    None => false,
                },
                None => match read_window(lua.vm(), -Self::n_slots(), Self::n_slots()) {
                    Some(vs) => !Self::accepts(vs),
                    None => true,
                },
            },
    {
        let n = Self::slot_count();
        let top = lua.stack_top();
        if n == 0 {
            Self::lua_read_at_abs(lua, 1)
        } else if n <= top {
            Self::lua_read_at_abs(lua, top - n + 1)
        } else {
            proof {
                Self::n_slots_nonneg();
            }
            None
        }
    }
}


/// The sub-contract of `LuaRead`: this type inspects exactly one slot.
pub trait LuaReadOne<L: AsLua>: LuaRead<L> {
    /// Exactly one slot is inspected.
    proof fn one_slot()
        ensures
            Self::n_slots() == 1,
    ;
}

impl<L: AsLua> LuaReadOne<L> for i8 {
    proof fn one_slot() {
    }
}

impl<L: AsLua> LuaRead<L> for i8 {
    open spec fn n_slots() -> int {
        1
    }

    open spec fn accepts(vs: Seq<ValueView>) -> bool {
        vs.len() == 1 && (vs[0] matches ValueView::Integer(n) && i8::MIN <= n <= i8::MAX)
    }

    open spec fn models(&self, vs: Seq<ValueView>) -> bool {
        vs.len() == 1 && vs[0] == ValueView::Integer(*self as i64)
    }

    open spec fn accepts_absent() -> bool {
        false
    }

    open spec fn expected_name() -> Seq<char> {
        "i8"@
    }

    proof fn n_slots_nonneg() {
    }

    fn slot_count() -> (n: usize) {
        1
    }

    fn host_name() -> (s: String) {
        "i8".to_owned()
    }

    fn read_absent() -> (r: Option<Self>) {
        None
    }

    fn lua_read_at_abs(lua: &L, abs: usize) -> (r: Option<Self>) {
        let v = lua.slot_at(abs);
        proof {
            assert(window_at(lua.vm(), abs as int, 1) =~= seq![lua.vm().stack[abs - 1]]);
        }
        match v {
            LuaValue::Integer(n) => {
                if i8::MIN as i64 <= n && n <= i8::MAX as i64 {
                    Some(n as i8)
                } else {
                    None
                }
            },
            _ => None,
        }
    }
}

impl<L: AsLua> LuaReadOne<L> for i16 {
    proof fn one_slot() {
    }
}

impl<L: AsLua> LuaRead<L> for i16 {
    open spec fn n_slots() -> int {
        1
    }

    open spec fn accepts(vs: Seq<ValueView>) -> bool {
        vs.len() == 1 && (vs[0] matches ValueView::Integer(n) && i16::MIN <= n <= i16::MAX)
    }

    open spec fn models(&self, vs: Seq<ValueView>) -> bool {
        vs.len() == 1 && vs[0] == ValueView::Integer(*self as i64)
    }

    open spec fn accepts_absent() -> bool {
        false
    }

    open spec fn expected_name() -> Seq<char> {
        "i16"@
    }

    proof fn n_slots_nonneg() {
    }

    fn slot_count() -> (n: usize) {
        1
    }

    fn host_name() -> (s: String) {
        "i16".to_owned()
    }

    fn read_absent() -> (r: Option<Self>) {
        None
    }

    fn lua_read_at_abs(lua: &L, abs: usize) -> (r: Option<Self>) {
        let v = lua.slot_at(abs);
        proof {
            assert(window_at(lua.vm(), abs as int, 1) =~= seq![lua.vm().stack[abs - 1]]);
        }
        match v {
            LuaValue::Integer(n) => {
                if i16::MIN as i64 <= n && n <= i16::MAX as i64 {
                    Some(n as i16)
                } else {
                    None
                }
            },
            _ => None,
        }
    }
}

impl<L: AsLua> LuaReadOne<L> for i32 {
    proof fn one_slot() {
    }
}

impl<L: AsLua> LuaRead<L> for i32 {
    open spec fn n_slots() -> int {
        1
    }

    open spec fn accepts(vs: Seq<ValueView>) -> bool {
        vs.len() == 1 && (vs[0] matches ValueView::Integer(n) && i32::MIN <= n <= i32::MAX)
    }

    open spec fn models(&self, vs: Seq<ValueView>) -> bool {
        vs.len() == 1 && vs[0] == ValueView::Integer(*self as i64)
    }

    open spec fn accepts_absent() -> bool {
        false
    }

    open spec fn expected_name() -> Seq<char> {
        "i32"@
    }

    proof fn n_slots_nonneg() {
    }

    fn slot_count() -> (n: usize) {
        1
    }

    fn host_name() -> (s: String) {
        "i32".to_owned()
    }

    fn read_absent() -> (r: Option<Self>) {
        None
    }

    fn lua_read_at_abs(lua: &L, abs: usize) -> (r: Option<Self>) {
        let v = lua.slot_at(abs);
        proof {
            assert(window_at(lua.vm(), abs as int, 1) =~= seq![lua.vm().stack[abs - 1]]);
        }
        match v {
            LuaValue::Integer(n) => {
                if i32::MIN as i64 <= n && n <= i32::MAX as i64 {
                    Some(n as i32)
                } else {
                    None
                }
            },
            _ => None,
        }
    }
}

impl<L: AsLua> LuaReadOne<L> for u8 {
    proof fn one_slot() {
    }
}

impl<L: AsLua> LuaRead<L> for u8 {
    open spec fn n_slots() -> int {
        1
    }

    open spec fn accepts(vs: Seq<ValueView>) -> bool {
        vs.len() == 1 && (vs[0] matches ValueView::Integer(n) && u8::MIN <= n <= u8::MAX)
    }

    open spec fn models(&self, vs: Seq<ValueView>) -> bool {
        vs.len() == 1 && vs[0] == ValueView::Integer(*self as i64)
    }

    open spec fn accepts_absent() -> bool {
        false
    }

    open spec fn expected_name() -> Seq<char> {
        "u8"@
    }

    proof fn n_slots_nonneg() {
    }

    fn slot_count() -> (n: usize) {
        1
    }

    fn host_name() -> (s: String) {
        "u8".to_owned()
    }

    fn read_absent() -> (r: Option<Self>) {
        None
    }

    fn lua_read_at_abs(lua: &L, abs: usize) -> (r: Option<Self>) {
        let v = lua.slot_at(abs);
        proof {
            assert(window_at(lua.vm(), abs as int, 1) =~= seq![lua.vm().stack[abs - 1]]);
        }
        match v {
            LuaValue::Integer(n) => {
                if u8::MIN as i64 <= n && n <= u8::MAX as i64 {
                    Some(n as u8)
                } else {
                    None
                }
            },
            _ => None,
        }
    }
}

impl<L: AsLua> LuaReadOne<L> for u16 {
    proof fn one_slot() {
    }
}

impl<L: AsLua> LuaRead<L> for u16 {
    open spec fn n_slots() -> int {
        1
    }

    open spec fn accepts(vs: Seq<ValueView>) -> bool {
        vs.len() == 1 && (vs[0] matches ValueView::Integer(n) && u16::MIN <= n <= u16::MAX)
    }

    open spec fn models(&self, vs: Seq<ValueView>) -> bool {
        vs.len() == 1 && vs[0] == ValueView::Integer(*self as i64)
    }

    open spec fn accepts_absent() -> bool {
        false
    }

    open spec fn expected_name() -> Seq<char> {
        "u16"@
    }

    proof fn n_slots_nonneg() {
    }

    fn slot_count() -> (n: usize) {
        1
    }

    fn host_name() -> (s: String) {
        "u16".to_owned()
    }

    fn read_absent() -> (r: Option<Self>) {
        None
    }

    fn lua_read_at_abs(lua: &L, abs: usize) -> (r: Option<Self>) {
        let v = lua.slot_at(abs);
        proof {
            assert(window_at(lua.vm(), abs as int, 1) =~= seq![lua.vm().stack[abs - 1]]);
        }
        match v {
            LuaValue::Integer(n) => {
                if u16::MIN as i64 <= n && n <= u16::MAX as i64 {
                    Some(n as u16)
                } else {
                    None
                }
            },
            _ => None,
        }
    }
}

impl<L: AsLua> LuaReadOne<L> for u32 {
    proof fn one_slot() {
    }
}

impl<L: AsLua> LuaRead<L> for u32 {
    open spec fn n_slots() -> int {
        1
    }

    open spec fn accepts(vs: Seq<ValueView>) -> bool {
        vs.len() == 1 && (vs[0] matches ValueView::Integer(n) && u32::MIN <= n <= u32::MAX)
    }

    open spec fn models(&self, vs: Seq<ValueView>) -> bool {
        vs.len() == 1 && vs[0] == ValueView::Integer(*self as i64)
    }

    open spec fn accepts_absent() -> bool {
        false
    }

    open spec fn expected_name() -> Seq<char> {
        "u32"@
    }

    proof fn n_slots_nonneg() {
    }

    fn slot_count() -> (n: usize) {
        1
    }

    fn host_name() -> (s: String) {
        "u32".to_owned()
    }

    fn read_absent() -> (r: Option<Self>) {
        None
    }

    fn lua_read_at_abs(lua: &L, abs: usize) -> (r: Option<Self>) {
        let v = lua.slot_at(abs);
        proof {
            assert(window_at(lua.vm(), abs as int, 1) =~= seq![lua.vm().stack[abs - 1]]);
        }
        match v {
            LuaValue::Integer(n) => {
                if u32::MIN as i64 <= n && n <= u32::MAX as i64 {
                    Some(n as u32)
                } else {
                    None
                }
            },
            _ => None,
        }
    }
}

impl<L: AsLua> LuaReadOne<L> for bool {
    proof fn one_slot() {
    }
}

impl<L: AsLua> LuaRead<L> for bool {
    open spec fn n_slots() -> int {
        1
    }

    open spec fn accepts(vs: Seq<ValueView>) -> bool {
        vs.len() == 1 && vs[0] is Boolean
    }

    open spec fn models(&self, vs: Seq<ValueView>) -> bool {
        vs.len() == 1 && vs[0] == ValueView::Boolean(*self)
    }

    open spec fn accepts_absent() -> bool {
        false
    }

    open spec fn expected_name() -> Seq<char> {
        "bool"@
    }

    proof fn n_slots_nonneg() {
    }

    fn slot_count() -> (n: usize) {
        1
    }

    fn host_name() -> (s: String) {
        "bool".to_owned()
    }

    fn read_absent() -> (r: Option<Self>) {
        None
    }

    fn lua_read_at_abs(lua: &L, abs: usize) -> (r: Option<Self>) {
        let v = lua.slot_at(abs);
        proof {
            assert(window_at(lua.vm(), abs as int, 1) =~= seq![lua.vm().stack[abs - 1]]);
        }
        match v {
            LuaValue::Boolean(b) => Some(b),
            _ => None,
        }
    }
}

impl<L: AsLua> LuaReadOne<L> for FloatBits {
    proof fn one_slot() {
    }
}

impl<L: AsLua> LuaRead<L> for FloatBits {
    open spec fn n_slots() -> int {
        1
    }

    open spec fn accepts(vs: Seq<ValueView>) -> bool {
        vs.len() == 1 && vs[0] is Number
    }

    open spec fn models(&self, vs: Seq<ValueView>) -> bool {
        vs.len() == 1 && vs[0] == ValueView::Number(self.bits)
    }

    open spec fn accepts_absent() -> bool {
        false
    }

    open spec fn expected_name() -> Seq<char> {
        "FloatBits"@
    }

    proof fn n_slots_nonneg() {
    }

    fn slot_count() -> (n: usize) {
        1
    }

    fn host_name() -> (s: String) {
        "FloatBits".to_owned()
    }

    fn read_absent() -> (r: Option<Self>) {
        None
    }

    fn lua_read_at_abs(lua: &L, abs: usize) -> (r: Option<Self>) {
        let v = lua.slot_at(abs);
        proof {
            assert(window_at(lua.vm(), abs as int, 1) =~= seq![lua.vm().stack[abs - 1]]);
        }
        match v {
            LuaValue::Number(bits) => Some(FloatBits { bits }),
            _ => None,
        }
    }
}

impl<L: AsLua> LuaReadOne<L> for String {
    proof fn one_slot() {
    }
}

impl<L: AsLua> LuaRead<L> for String {
    open spec fn n_slots() -> int {
        1
    }

    open spec fn accepts(vs: Seq<ValueView>) -> bool {
        vs.len() == 1 && vs[0] is Str
    }

    open spec fn models(&self, vs: Seq<ValueView>) -> bool {
        vs.len() == 1 && vs[0] == ValueView::Str(self@)
    }

    open spec fn accepts_absent() -> bool {
        false
    }

    open spec fn expected_name() -> Seq<char> {
        "String"@
    }

    proof fn n_slots_nonneg() {
    }

    fn slot_count() -> (n: usize) {
        1
    }

    fn host_name() -> (s: String) {
        "String".to_owned()
    }

    fn read_absent() -> (r: Option<Self>) {
        None
    }

    fn lua_read_at_abs(lua: &L, abs: usize) -> (r: Option<Self>) {
        let v = lua.slot_at(abs);
        proof {
            assert(window_at(lua.vm(), abs as int, 1) =~= seq![lua.vm().stack[abs - 1]]);
        }
        match v {
            LuaValue::Str(s) => Some(s),
            _ => None,
        }
    }
}

impl<L: AsLua> LuaReadOne<L> for LuaValue {
    proof fn one_slot() {
    }
}

impl<L: AsLua> LuaRead<L> for LuaValue {
    open spec fn n_slots() -> int {
        1
    }

    open spec fn accepts(vs: Seq<ValueView>) -> bool {
        vs.len() == 1
    }

    open spec fn models(&self, vs: Seq<ValueView>) -> bool {
        vs.len() == 1 && vs[0] == self@
    }

    open spec fn accepts_absent() -> bool {
        false
    }

    open spec fn expected_name() -> Seq<char> {
        "LuaValue"@
    }

    proof fn n_slots_nonneg() {
    }

    fn slot_count() -> (n: usize) {
        1
    }

    fn host_name() -> (s: String) {
        "LuaValue".to_owned()
    }

    fn read_absent() -> (r: Option<Self>) {
        None
    }

    fn lua_read_at_abs(lua: &L, abs: usize) -> (r: Option<Self>) {
        let v = lua.slot_at(abs);
        proof {
            assert(window_at(lua.vm(), abs as int, 1) =~= seq![lua.vm().stack[abs - 1]]);
        }
        Some(v)
    }
}

impl<L: AsLua> LuaReadOne<L> for Nil {
    proof fn one_slot() {
    }
}

impl<L: AsLua> LuaRead<L> for Nil {
    open spec fn n_slots() -> int {
        1
    }

    open spec fn accepts(vs: Seq<ValueView>) -> bool {
        vs.len() == 1 && vs[0] is Nil
    }

    open spec fn models(&self, vs: Seq<ValueView>) -> bool {
        true
    }

    open spec fn accepts_absent() -> bool {
        true
    }

    open spec fn expected_name() -> Seq<char> {
        "Nil"@
    }

    proof fn n_slots_nonneg() {
    }

    fn slot_count() -> (n: usize) {
        1
    }

    fn host_name() -> (s: String) {
        "Nil".to_owned()
    }

    fn read_absent() -> (r: Option<Self>) {
        Some(Nil)
    }

    fn lua_read_at_abs(lua: &L, abs: usize) -> (r: Option<Self>) {
        let v = lua.slot_at(abs);
        proof {
            assert(window_at(lua.vm(), abs as int, 1) =~= seq![lua.vm().stack[abs - 1]]);
        }
        match v {
            LuaValue::Nil => Some(Nil),
            _ => None,
        }
    }
}

impl<L: AsLua> LuaRead<L> for () {
    open spec fn n_slots() -> int {
        0
    }

    open spec fn accepts(vs: Seq<ValueView>) -> bool {
        true
    }

    open spec fn models(&self, vs: Seq<ValueView>) -> bool {
        true
    }

    open spec fn accepts_absent() -> bool {
        true
    }

    open spec fn expected_name() -> Seq<char> {
        "()"@
    }

    proof fn n_slots_nonneg() {
    }

    fn slot_count() -> (n: usize) {
        0
    }

    fn host_name() -> (s: String) {
        "()".to_owned()
    }

    fn read_absent() -> (r: Option<Self>) {
        Some(())
    }

    fn lua_read_at_abs(lua: &L, abs: usize) -> (r: Option<Self>) {
        Some(())
    }
}

impl<L: AsLua, A: LuaReadOne<L>, B: LuaReadOne<L>> LuaRead<L> for (A, B) {
    open spec fn n_slots() -> int {
        2
    }

    open spec fn accepts(vs: Seq<ValueView>) -> bool {
        &&& vs.len() == 2
        &&& A::accepts(seq![vs[0]])
        &&& B::accepts(seq![vs[1]])
    }

    open spec fn models(&self, vs: Seq<ValueView>) -> bool {
        &&& vs.len() == 2
        &&& self.0.models(seq![vs[0]])
        &&& self.1.models(seq![vs[1]])
    }

    open spec fn accepts_absent() -> bool {
        false
    }

    open spec fn expected_name() -> Seq<char> {
        "("@ + A::expected_name() + ", "@ + B::expected_name() + ")"@
    }

    proof fn n_slots_nonneg() {
    }

    fn slot_count() -> (n: usize) {
        2
    }

    fn host_name() -> (s: String) {
        let mut m = "(".to_owned();
        m.append(A::host_name().as_str());
        m.append(", ");
        m.append(B::host_name().as_str());
        m.append(")");
        m
    }

    fn read_absent() -> (r: Option<Self>) {
        None
    }

    fn lua_read_at_abs(lua: &L, abs: usize) -> (r: Option<Self>) {
        let ghost full = window_at(lua.vm(), abs as int, 2);
        proof {
            lua.wf_vm();
            A::one_slot();
            B::one_slot();
            assert(seq![full[0]] =~= window_at(lua.vm(), abs as int, 1));
            assert(seq![full[1]] =~= window_at(lua.vm(), abs as int + 1, 1));
        }
        let a = A::lua_read_at_abs(lua, abs)?;
        let b = B::lua_read_at_abs(lua, abs + 1)?;
        Some((a, b))
    }
}

impl<L: AsLua, A: LuaReadOne<L>, B: LuaReadOne<L>, C: LuaReadOne<L>> LuaRead<L> for (A, B, C) {
    open spec fn n_slots() -> int {
        3
    }

    open spec fn accepts(vs: Seq<ValueView>) -> bool {
        &&& vs.len() == 3
        &&& A::accepts(seq![vs[0]])
        &&& B::accepts(seq![vs[1]])
        &&& C::accepts(seq![vs[2]])
    }

    open spec fn models(&self, vs: Seq<ValueView>) -> bool {
        &&& vs.len() == 3
        &&& self.0.models(seq![vs[0]])
        &&& self.1.models(seq![vs[1]])
        &&& self.2.models(seq![vs[2]])
    }

    open spec fn accepts_absent() -> bool {
        false
    }

    open spec fn expected_name() -> Seq<char> {
        "("@ + A::expected_name() + ", "@ + B::expected_name() + ", "@ + C::expected_name()
            + ")"@
    }

    proof fn n_slots_nonneg() {
    }

    fn slot_count() -> (n: usize) {
        3
    }

    fn host_name() -> (s: String) {
        let mut m = "(".to_owned();
        m.append(A::host_name().as_str());
        m.append(", ");
        m.append(B::host_name().as_str());
        m.append(", ");
        m.append(C::host_name().as_str());
        m.append(")");
        m
    }

    fn read_absent() -> (r: Option<Self>) {
        None
    }

    fn lua_read_at_abs(lua: &L, abs: usize) -> (r: Option<Self>) {
        let ghost full = window_at(lua.vm(), abs as int, 3);
        proof {
            lua.wf_vm();
            A::one_slot();
            B::one_slot();
            C::one_slot();
            assert(seq![full[0]] =~= window_at(lua.vm(), abs as int, 1));
            assert(seq![full[1]] =~= window_at(lua.vm(), abs as int + 1, 1));
            assert(seq![full[2]] =~= window_at(lua.vm(), abs as int + 2, 1));
        }
        let a = A::lua_read_at_abs(lua, abs)?;
        let b = B::lua_read_at_abs(lua, abs + 1)?;
        let c = C::lua_read_at_abs(lua, abs + 2)?;
        Some((a, b, c))
    }
}

} // verus!
