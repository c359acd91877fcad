//! The outbound marshalling protocol: `Push` and `PushOne`.
//!
//! A pushable value states, through `pushed`, exactly which slots it writes;
//! `push_to_lua` appends them on top of the stack and wraps the handle in a
//! guard covering exactly those slots.  On failure the handle comes back
//! unchanged, so the stack stays net-neutral.  `PushOne` is the sub-contract
//! "exactly one slot", proved once per type rather than asserted at run
//! time.

use vstd::prelude::*;
use crate::handle::AsLua;
use crate::handle::PushGuard;
use crate::state::VmView;
use crate::state::value_ok;
use crate::value::FloatBits;
use crate::value::LuaValue;
use crate::value::Nil;
use crate::value::ValueView;

verus! {

/// The error type of pushes that cannot fail.  No operation of the library
/// ever constructs it; a pusher whose error is `Void` also states
/// `never_fails`, so the error arm is provably dead.
#[derive(Clone, Copy, Debug, PartialEq, Eq, Structural)]
pub struct Void;

/// Values that can be given to the interpreter by writing stack slots.
pub trait Push<L: AsLua>: Sized {
    /// Error that can happen when pushing the value.
    type Error;

    /// The slots this value writes, in stack order.
    spec fn pushed(&self) -> Seq<ValueView>;

    /// Whether a push of this type always succeeds.
    spec fn never_fails() -> bool;

    /// What must hold of the target state for the push to be meaningful
    /// (table references must point into its heap).
    spec fn push_ok(&self, vm: VmView) -> bool;

    /// Pushes the value on top of the stack.
    ///
    /// On success the returned guard covers exactly the written slots; on
    /// failure the handle comes back unchanged.
    fn push_to_lua(self, lua: L) -> (r: Result<PushGuard<L>, (Self::Error, L)>)
        requires
            lua.wf(),
            self.push_ok(lua.vm()),
        ensures
            match r {
                Ok(g) => {
                    &&& g.wf()
                    &&& g.spec_size() == self.pushed().len()
                    &&& g.vm() == lua.vm().with_stack(lua.vm().stack + self.pushed())
                },
                Err((_, l)) => l.wf() && l.vm() == lua.vm(),
            },
            Self::never_fails() ==> r is Ok,
    ;
}

/// The sub-contract of `Push`: this value always writes exactly one slot.
pub trait PushOne<L: AsLua>: Push<L> {
    /// Exactly one slot is written.
    proof fn one_slot(&self)
        ensures
            self.pushed().len() == 1,
    ;

    /// The single written slot is admissible wherever the push is.
    proof fn slot_ok(&self, vm: VmView)
        requires
            self.push_ok(vm),
        ensures
            value_ok(self.pushed()[0], vm.tables.len() as int),
    ;

    /// The single slot this value writes, as a value.
    fn into_value(self) -> (v: LuaValue)
        ensures
            v@ == self.pushed()[0],
    ;
}

/// Pushes a value whose push cannot fail; available only where the error
/// type is uninstantiable.
pub fn push_no_err<L: AsLua, T: Push<L, Error = Void>>(v: T, lua: L) -> (g: PushGuard<L>)
    requires
        lua.wf(),
        v.push_ok(lua.vm()),
        T::never_fails(),
    ensures
        g.wf(),
        g.spec_size() == v.pushed().len(),
        g.vm() == lua.vm().with_stack(lua.vm().stack + v.pushed()),
{
    match v.push_to_lua(lua) {
        Ok(g) => g,
        Err(_) => vstd::pervasive::unreached(),
    }
}

impl<L: AsLua> Push<L> for bool {
    type Error = Void;

    open spec fn pushed(&self) -> Seq<ValueView> {
        seq![ValueView::Boolean(*self)]
    }

    open spec fn never_fails() -> bool {
        true
    }

    open spec fn push_ok(&self, vm: VmView) -> bool {
        true
    }

    fn push_to_lua(self, mut lua: L) -> (r: Result<PushGuard<L>, (Self::Error, L)>) {
        let ghost lua0 = lua;
        lua.push_slot(LuaValue::Boolean(self));
        proof {
            assert(lua.vm().stack =~= lua0.vm().stack + seq![ValueView::Boolean(self)]);
        }
        Ok(PushGuard::new(lua, 1))
    }
}

impl<L: AsLua> PushOne<L> for bool {
    proof fn one_slot(&self) {
    }

    proof fn slot_ok(&self, vm: VmView) {
    }

    fn into_value(self) -> (v: LuaValue) {
        LuaValue::Boolean(self)
    }
}

impl<L: AsLua> Push<L> for FloatBits {
    type Error = Void;

    open spec fn pushed(&self) -> Seq<ValueView> {
        seq![ValueView::Number(self.bits)]
    }

    open spec fn never_fails() -> bool {
        true
    }

    open spec fn push_ok(&self, vm: VmView) -> bool {
        true
    }

    fn push_to_lua(self, mut lua: L) -> (r: Result<PushGuard<L>, (Self::Error, L)>) {
        let ghost lua0 = lua;
        lua.push_slot(LuaValue::Number(self.bits));
        proof {
            assert(lua.vm().stack =~= lua0.vm().stack + seq![ValueView::Number(self.bits)]);
        }
        Ok(PushGuard::new(lua, 1))
    }
}

impl<L: AsLua> PushOne<L> for FloatBits {
    proof fn one_slot(&self) {
    }

    proof fn slot_ok(&self, vm: VmView) {
    }

    fn into_value(self) -> (v: LuaValue) {
        LuaValue::Number(self.bits)
    }
}

impl<L: AsLua> Push<L> for String {
    type Error = Void;

    open spec fn pushed(&self) -> Seq<ValueView> {
        seq![ValueView::Str(self@)]
    }

    open spec fn never_fails() -> bool {
        true
    }

    open spec fn push_ok(&self, vm: VmView) -> bool {
        true
    }

    fn push_to_lua(self, mut lua: L) -> (r: Result<PushGuard<L>, (Self::Error, L)>) {
        let ghost lua0 = lua;
        let ghost slots = seq![ValueView::Str(self@)];
        lua.push_slot(LuaValue::Str(self));
        proof {
            assert(lua.vm().stack =~= lua0.vm().stack + slots);
        }
        Ok(PushGuard::new(lua, 1))
    }
}

impl<L: AsLua> PushOne<L> for String {
    proof fn one_slot(&self) {
    }

    proof fn slot_ok(&self, vm: VmView) {
    }

    fn into_value(self) -> (v: LuaValue) {
        LuaValue::Str(self)
    }
}

impl<'s, L: AsLua> Push<L> for &'s str {
    type Error = Void;

    open spec fn pushed(&self) -> Seq<ValueView> {
        seq![ValueView::Str(self@)]
    }

    open spec fn never_fails() -> bool {
        true
    }

    open spec fn push_ok(&self, vm: VmView) -> bool {
        true
    }

    fn push_to_lua(self, mut lua: L) -> (r: Result<PushGuard<L>, (Self::Error, L)>) {
        let ghost lua0 = lua;
        lua.push_slot(LuaValue::Str(self.to_owned()));
        proof {
            assert(lua.vm().stack =~= lua0.vm().stack + seq![ValueView::Str(self@)]);
        }
        Ok(PushGuard::new(lua, 1))
    }
}

impl<'s, L: AsLua> PushOne<L> for &'s str {
    proof fn one_slot(&self) {
    }

    proof fn slot_ok(&self, vm: VmView) {
    }

    fn into_value(self) -> (v: LuaValue) {
        LuaValue::Str(self.to_owned())
    }
}

impl<L: AsLua> Push<L> for Nil {
    type Error = Void;

    open spec fn pushed(&self) -> Seq<ValueView> {
        seq![ValueView::Nil]
    }

    open spec fn never_fails() -> bool {
        true
    }

    open spec fn push_ok(&self, vm: VmView) -> bool {
        true
    }

    fn push_to_lua(self, mut lua: L) -> (r: Result<PushGuard<L>, (Self::Error, L)>) {
        let ghost lua0 = lua;
        lua.push_slot(LuaValue::Nil);
        proof {
            assert(lua.vm().stack =~= lua0.vm().stack + seq![ValueView::Nil]);
        }
        Ok(PushGuard::new(lua, 1))
    }
}

impl<L: AsLua> PushOne<L> for Nil {
    proof fn one_slot(&self) {
    }

    proof fn slot_ok(&self, vm: VmView) {
    }

    fn into_value(self) -> (v: LuaValue) {
        LuaValue::Nil
    }
}

impl<L: AsLua> Push<L> for LuaValue {
    type Error = Void;

    open spec fn pushed(&self) -> Seq<ValueView> {
        seq![self@]
    }

    open spec fn never_fails() -> bool {
        true
    }

    open spec fn push_ok(&self, vm: VmView) -> bool {
        value_ok(self@, vm.tables.len() as int)
    }

    fn push_to_lua(self, mut lua: L) -> (r: Result<PushGuard<L>, (Self::Error, L)>) {
        let ghost lua0 = lua;
        let ghost slots = seq![self@];
        lua.push_slot(self);
        proof {
            assert(lua.vm().stack =~= lua0.vm().stack + slots);
        }
        Ok(PushGuard::new(lua, 1))
    }
}

impl<L: AsLua> PushOne<L> for LuaValue {
    proof fn one_slot(&self) {
    }

    proof fn slot_ok(&self, vm: VmView) {
    }

    fn into_value(self) -> (v: LuaValue) {
        self
    }
}

impl<L: AsLua> Push<L> for i8 {
    type Error = Void;

    open spec fn pushed(&self) -> Seq<ValueView> {
        seq![ValueView::Integer(*self as i64)]
    }

    open spec fn never_fails() -> bool {
        true
    }

    open spec fn push_ok(&self, vm: VmView) -> bool {
        true
    }

    fn push_to_lua(self, mut lua: L) -> (r: Result<PushGuard<L>, (Self::Error, L)>) {
        let ghost lua0 = lua;
        lua.push_slot(LuaValue::Integer(self as i64));
        proof {
            assert(lua.vm().stack =~= lua0.vm().stack + seq![ValueView::Integer(self as i64)]);
        }
        Ok(PushGuard::new(lua, 1))
    }
}

impl<L: AsLua> PushOne<L> for i8 {
    proof fn one_slot(&self) {
    }

    proof fn slot_ok(&self, vm: VmView) {
    }

    fn into_value(self) -> (v: LuaValue) {
        LuaValue::Integer(self as i64)
    }
}

impl<L: AsLua> Push<L> for i16 {
    type Error = Void;

    open spec fn pushed(&self) -> Seq<ValueView> {
        seq![ValueView::Integer(*self as i64)]
    }

    open spec fn never_fails() -> bool {
        true
    }

    open spec fn push_ok(&self, vm: VmView) -> bool {
        true
    }

    fn push_to_lua(self, mut lua: L) -> (r: Result<PushGuard<L>, (Self::Error, L)>) {
        let ghost lua0 = lua;
        lua.push_slot(LuaValue::Integer(self as i64));
        proof {
            assert(lua.vm().stack =~= lua0.vm().stack + seq![ValueView::Integer(self as i64)]);
        }
        Ok(PushGuard::new(lua, 1))
    }
}

impl<L: AsLua> PushOne<L> for i16 {
    proof fn one_slot(&self) {
    }

    proof fn slot_ok(&self, vm: VmView) {
    }

    fn into_value(self) -> (v: LuaValue) {
        LuaValue::Integer(self as i64)
    }
}

impl<L: AsLua> Push<L> for i32 {
    type Error = Void;

    open spec fn pushed(&self) -> Seq<ValueView> {
        seq![ValueView::Integer(*self as i64)]
    }

    open spec fn never_fails() -> bool {
        true
    }

    open spec fn push_ok(&self, vm: VmView) -> bool {
        true
    }

    fn push_to_lua(self, mut lua: L) -> (r: Result<PushGuard<L>, (Self::Error, L)>) {
        let ghost lua0 = lua;
        lua.push_slot(LuaValue::Integer(self as i64));
        proof {
            assert(lua.vm().stack =~= lua0.vm().stack + seq![ValueView::Integer(self as i64)]);
        }
        Ok(PushGuard::new(lua, 1))
    }
}

impl<L: AsLua> PushOne<L> for i32 {
    proof fn one_slot(&self) {
    }

    proof fn slot_ok(&self, vm: VmView) {
    }

    fn into_value(self) -> (v: LuaValue) {
        LuaValue::Integer(self as i64)
    }
}

impl<L: AsLua> Push<L> for u8 {
    type Error = Void;

    open spec fn pushed(&self) -> Seq<ValueView> {
        seq![ValueView::Integer(*self as i64)]
    }

    open spec fn never_fails() -> bool {
        true
    }

    open spec fn push_ok(&self, vm: VmView) -> bool {
        true
    }

    fn push_to_lua(self, mut lua: L) -> (r: Result<PushGuard<L>, (Self::Error, L)>) {
        let ghost lua0 = lua;
        lua.push_slot(LuaValue::Integer(self as i64));
        proof {
            assert(lua.vm().stack =~= lua0.vm().stack + seq![ValueView::Integer(self as i64)]);
        }
        Ok(PushGuard::new(lua, 1))
    }
}

impl<L: AsLua> PushOne<L> for u8 {
    proof fn one_slot(&self) {
    }

    proof fn slot_ok(&self, vm: VmView) {
    }

    fn into_value(self) -> (v: LuaValue) {
        LuaValue::Integer(self as i64)
    }
}

impl<L: AsLua> Push<L> for u16 {
    type Error = Void;

    open spec fn pushed(&self) -> Seq<ValueView> {
        seq![ValueView::Integer(*self as i64)]
    }

    open spec fn never_fails() -> bool {
        true
    }

    open spec fn push_ok(&self, vm: VmView) -> bool {
        true
    }

    fn push_to_lua(self, mut lua: L) -> (r: Result<PushGuard<L>, (Self::Error, L)>) {
        let ghost lua0 = lua;
        lua.push_slot(LuaValue::Integer(self as i64));
        proof {
            assert(lua.vm().stack =~= lua0.vm().stack + seq![ValueView::Integer(self as i64)]);
        }
        Ok(PushGuard::new(lua, 1))
    }
}

impl<L: AsLua> PushOne<L> for u16 {
    proof fn one_slot(&self) {
    }

    proof fn slot_ok(&self, vm: VmView) {
    }

    fn into_value(self) -> (v: LuaValue) {
        LuaValue::Integer(self as i64)
    }
}

impl<L: AsLua> Push<L> for u32 {
    type Error = Void;

    open spec fn pushed(&self) -> Seq<ValueView> {
        seq![ValueView::Integer(*self as i64)]
    }

    open spec fn never_fails() -> bool {
        true
    }

    open spec fn push_ok(&self, vm: VmView) -> bool {
        true
    }

    fn push_to_lua(self, mut lua: L) -> (r: Result<PushGuard<L>, (Self::Error, L)>) {
        let ghost lua0 = lua;
        lua.push_slot(LuaValue::Integer(self as i64));
        proof {
            assert(lua.vm().stack =~= lua0.vm().stack + seq![ValueView::Integer(self as i64)]);
        }
        Ok(PushGuard::new(lua, 1))
    }
}

impl<L: AsLua> PushOne<L> for u32 {
    proof fn one_slot(&self) {
    }

    proof fn slot_ok(&self, vm: VmView) {
    }

    fn into_value(self) -> (v: LuaValue) {
        LuaValue::Integer(self as i64)
    }
}

impl<L: AsLua> Push<L> for () {
    type Error = Void;

    open spec fn pushed(&self) -> Seq<ValueView> {
        Seq::empty()
    }

    open spec fn never_fails() -> bool {
        true
    }

    open spec fn push_ok(&self, vm: VmView) -> bool {
        true
    }

    fn push_to_lua(self, lua: L) -> (r: Result<PushGuard<L>, (Self::Error, L)>) {
        proof {
            assert(lua.vm().stack =~= lua.vm().stack + Seq::<ValueView>::empty());
            assert(lua.vm().with_stack(lua.vm().stack) == lua.vm());
        }
        Ok(PushGuard::new(lua, 0))
    }
}

/// Why pushing a tuple failed: in the first member, or in a later one.
/// Members already on the stack are popped before the error is returned, so
/// the stack stays net-neutral.
pub enum TuplePushError<A, B> {
    /// The first member failed to push.
    First(A),
    /// A later member failed to push.
    Other(B),
}

impl<L, A, B> Push<L> for (A, B) where L: AsLua, A: Push<L>, B: Push<L> {
    type Error = TuplePushError<A::Error, B::Error>;

    open spec fn pushed(&self) -> Seq<ValueView> {
        self.0.pushed() + self.1.pushed()
    }

    open spec fn never_fails() -> bool {
        A::never_fails() && B::never_fails()
    }

    open spec fn push_ok(&self, vm: VmView) -> bool {
        &&& self.0.push_ok(vm)
        &&& self.1.push_ok(vm.with_stack(vm.stack + self.0.pushed()))
    }

    fn push_to_lua(self, lua: L) -> (r: Result<PushGuard<L>, (Self::Error, L)>) {
        let ghost lua0 = lua;
        let ghost sa = self.0.pushed();
        let ghost sb = self.1.pushed();
        let (a, b) = self;
        match a.push_to_lua(lua) {
            Err((e, l)) => Err((TuplePushError::First(e), l)),
            Ok(ga) => {
                let (na, lua1) = ga.release();
                match b.push_to_lua(lua1) {
                    Err((e, mut l2)) => {
                        proof {
                            assert((lua0.vm().stack + sa).take(lua0.vm().stack.len() as int)
                                =~= lua0.vm().stack);
                        }
                        l2.pop_slots(na);
                        proof {
                            assert(l2.vm() == lua0.vm());
                        }
                        Err((TuplePushError::Other(e), l2))
                    },
                    Ok(gb) => {
                        proof {
                            gb.wf_vm();
                        }
                        let (nb, lua2) = gb.release();
                        proof {
                            assert((lua0.vm().stack + sa) + sb =~= lua0.vm().stack + (sa + sb));
                        }
                        Ok(PushGuard::new(lua2, na + nb))
                    },
                }
            },
        }
    }
}

impl<L, A, B, C> Push<L> for (A, B, C) where L: AsLua, A: Push<L>, B: Push<L>, C: Push<L> {
    type Error = TuplePushError<TuplePushError<A::Error, B::Error>, C::Error>;

    open spec fn pushed(&self) -> Seq<ValueView> {
        self.0.pushed() + self.1.pushed() + self.2.pushed()
    }

    open spec fn never_fails() -> bool {
        A::never_fails() && B::never_fails() && C::never_fails()
    }

    open spec fn push_ok(&self, vm: VmView) -> bool {
        &&& self.0.push_ok(vm)
        &&& self.1.push_ok(vm.with_stack(vm.stack + self.0.pushed()))
        &&& self.2.push_ok(vm.with_stack(vm.stack + self.0.pushed() + self.1.pushed()))
    }

    fn push_to_lua(self, lua: L) -> (r: Result<PushGuard<L>, (Self::Error, L)>) {
        let ghost sa = self.0.pushed();
        let ghost sb = self.1.pushed();
        let ghost sc = self.2.pushed();
        let (a, b, c) = self;
        let pair = ((a, b), c);
        proof {
            assert(pair.pushed() =~= sa + sb + sc);
            assert(lua.vm().stack + (sa + sb) =~= lua.vm().stack + sa + sb);
            assert(lua.vm().with_stack(lua.vm().stack + (sa + sb))
                == lua.vm().with_stack(lua.vm().stack + sa + sb));
        }
        pair.push_to_lua(lua)
    }
}

} // verus!
