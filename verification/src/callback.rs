//! The function bridge: invoking host closures on behalf of the
//! interpreter.
//!
//! When the interpreter calls a host closure, its arguments sit on the
//! shared stack.  The trampoline decodes the declared argument, invokes the
//! closure, and pushes the result; an argument of the wrong runtime type
//! fails the call with a mismatch error naming the expected host type and
//! the actual runtime type, the only sanctioned way host failure crosses
//! back into interpreter control flow.

use vstd::prelude::*;
use crate::error::LuaError;
use crate::handle::AsLua;
use crate::push::Push;
use crate::push::PushOne;
use crate::read::LuaRead;
use crate::read::window_at;
use crate::value::ValueView;

verus! {

/// Invokes the host closure `f` on the argument the stack holds.
///
/// The stack must hold exactly the argument slots.  Where the argument does
/// not decode as `A`, nothing is pushed and the mismatch error comes back;
/// where it does, the closure runs and its single result slot is pushed on
/// top of the arguments, and the count of pushed slots comes back.
pub fn dispatch_callback<L: AsLua, A: LuaRead<L>, R: PushOne<L>, F: Fn(A) -> R>(
    lua: &mut L,
    f: &F,
) -> (r: Result<usize, LuaError>)
    requires
        old(lua).wf(),
        old(lua).vm().stack.len() == A::n_slots(),
        forall|a: A| #[trigger] call_requires(*f, (a,)),
        forall|a: A, out: R| #[trigger] call_ensures(*f, (a,), out) ==> out.push_ok(old(lua).vm()),
    ensures
        final(lua).wf(),
        match r {
            Ok(n) => {
                &&& n == 1
                &&& exists|a: A, out: R|
                    {
                        &&& A::accepts(window_at(old(lua).vm(), 1, A::n_slots()))
                        &&& a.models(window_at(old(lua).vm(), 1, A::n_slots()))
                        &&& #[trigger] call_ensures(*f, (a,), out)
                        &&& final(lua).vm() == old(lua).vm().with_stack(
                            old(lua).vm().stack.push(out.pushed()[0]),
                        )
                    }
            },
            Err(e) => {
                &&& final(lua).vm() == old(lua).vm()
                &&& !A::accepts(window_at(old(lua).vm(), 1, A::n_slots()))
                &&& (e matches LuaError::WrongType { rust_expected, lua_actual } && {
                    &&& rust_expected@ == A::expected_name()
                    &&& lua_actual@ == (if A::n_slots() == 0 {
                        "(no value)"@
                    } else {
                        crate::error::spec_actual_types(old(lua).vm().stack, A::n_slots())
                    })
                })
            },
        },
{
    proof {
        A::n_slots_nonneg();
    }
    let n_args = A::slot_count();
    let arg: Option<A> = A::lua_read_at_abs(&*lua, 1);
    match arg {
        None => {
            let e = if n_args == 0 {
                LuaError::WrongType {
                    rust_expected: A::host_name(),
                    lua_actual: "(no value)".to_owned(),
                }
            } else {
                LuaError::wrong_type::<A, L>(&*lua, n_args)
            };
            Err(e)
        },
        Some(a) => {
            let out = f(a);
            proof {
                out.one_slot();
                out.slot_ok(old(lua).vm());
            }
            let ghost gout = out;
            let ghost slot = out.pushed()[0];
            let v = out.into_value();
            lua.push_slot(v);
            Ok(1)
        },
    }
}

} // verus!
