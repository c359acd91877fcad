//! Stack handles and scoped push guards.
//!
//! [`AsLua`] is the capability "this value reaches a live interpreter
//! instance": it is implemented by the owning context, by a mutable borrow of
//! it, and by [`PushGuard`], so generic marshalling code works with any of
//! them.  A [`PushGuard`] records how many stack slots an operation left on
//! the shared stack; the slots are removed exactly once, either by
//! [`PushGuard::into_inner`] or by whoever takes the count over through
//! [`PushGuard::release`] or [`PushGuard::forget`].  Because every consuming
//! method takes the guard by value, a guard cannot be disarmed twice.

use vstd::prelude::*;
use crate::state::LibFlags;
use crate::state::VmView;
use crate::state::table_lookup;
use crate::state::table_store;
use crate::state::value_ok;
use crate::value::LuaValue;
use crate::value::ValueView;

verus! {

/// The capability to reach one interpreter instance's state.
///
/// Each method mirrors one entry point of the interpreter and states its
/// exact effect on the model; `vm` is the state the handle reaches and `wf`
/// its well-formedness, which every operation preserves.
pub trait AsLua: Sized {
    /// The observable interpreter state this handle reaches.
    spec fn vm(&self) -> VmView;

    /// Whether the handle, and the state it reaches, are well-formed.
    spec fn wf(&self) -> bool;

    /// A well-formed handle reaches a well-formed state.
    proof fn wf_vm(&self)
        requires
            self.wf(),
        ensures
            self.vm().wf(),
    ;

    /// The stack height.
    fn stack_top(&self) -> (n: usize)
        requires
            self.wf(),
        ensures
            n == self.vm().stack.len(),
    ;

    /// The value at the absolute, 1-based stack position `abs`.
    fn slot_at(&self, abs: usize) -> (r: LuaValue)
        requires
            self.wf(),
            1 <= abs <= self.vm().stack.len(),
        ensures
            r@ == self.vm().stack[abs - 1],
    ;

    /// Pushes one value on top of the stack.
    fn push_slot(&mut self, v: LuaValue)
        requires
            old(self).wf(),
            value_ok(v@, old(self).vm().tables.len() as int),
        ensures
            final(self).wf(),
            final(self).vm() == old(self).vm().with_stack(old(self).vm().stack.push(v@)),
    ;

    /// Removes the top `n` values from the stack.
    fn pop_slots(&mut self, n: usize)
        requires
            old(self).wf(),
            n <= old(self).vm().stack.len(),
        ensures
            final(self).wf(),
            final(self).vm() == old(self).vm().with_stack(
                old(self).vm().stack.take(old(self).vm().stack.len() - n as int),
            ),
    ;

    /// Pushes the value of the global named `name` (nil where unset).
    fn push_global_slot(&mut self, name: &str)
        requires
            old(self).wf(),
        ensures
            final(self).wf(),
            final(self).vm() == old(self).vm().with_stack(
                old(self).vm().stack.push(old(self).vm().global_of(name@)),
            ),
    ;

    /// Pushes a reference to the globals table.
    fn push_globals_table(&mut self)
        requires
            old(self).wf(),
        ensures
            final(self).wf(),
            final(self).vm() == old(self).vm().with_stack(
                old(self).vm().stack.push(ValueView::Table(0)),
            ),
    ;

    /// Creates a fresh empty table in the heap and pushes a reference to it.
    fn push_fresh_table(&mut self)
        requires
            old(self).wf(),
        ensures
            final(self).wf(),
            final(self).vm().stack == old(self).vm().stack.push(
                ValueView::Table(old(self).vm().tables.len() as int),
            ),
            final(self).vm().tables == old(self).vm().tables.push(
                Seq::<(ValueView, ValueView)>::empty(),
            ),
            final(self).vm().libs == old(self).vm().libs,
            final(self).vm().ctypes == old(self).vm().ctypes,
    ;

    /// The value the table `id` associates with `key`.
    fn read_table(&self, id: usize, key: &LuaValue) -> (r: LuaValue)
        requires
            self.wf(),
            id < self.vm().tables.len(),
        ensures
            r@ == table_lookup(self.vm().tables[id as int], key@),
    ;

    /// Associates `key` with `value` in the table `id`.
    fn write_table(&mut self, id: usize, key: LuaValue, value: LuaValue)
        requires
            old(self).wf(),
            id < old(self).vm().tables.len(),
            value_ok(key@, old(self).vm().tables.len() as int),
            value_ok(value@, old(self).vm().tables.len() as int),
        ensures
            final(self).wf(),
            final(self).vm().stack == old(self).vm().stack,
            final(self).vm().libs == old(self).vm().libs,
            final(self).vm().ctypes == old(self).vm().ctypes,
            final(self).vm().tables == old(self).vm().tables.update(
                id as int,
                table_store(old(self).vm().tables[id as int], key@, value@),
            ),
    ;

    /// Which standard libraries are open.
    fn lib_flags(&self) -> (l: LibFlags)
        requires
            self.wf(),
        ensures
            l == self.vm().libs,
    ;

    /// The id of the foreign-data type named `name`, registering it on
    /// first use; later calls with the same name yield the same id.
    fn ctype_id(&mut self, name: &str) -> (id: usize)
        requires
            old(self).wf(),
        ensures
            final(self).wf(),
            final(self).vm().stack == old(self).vm().stack,
            final(self).vm().tables == old(self).vm().tables,
            final(self).vm().libs == old(self).vm().libs,
            ({
                let idx = crate::state::ctype_index_from(old(self).vm().ctypes, name@, 0);
                if idx >= 0 {
                    final(self).vm().ctypes == old(self).vm().ctypes && id as int == idx
                } else {
                    final(self).vm().ctypes == old(self).vm().ctypes.push(name@) && id as int
                        == old(self).vm().ctypes.len()
                }
            }),
            crate::state::ctype_index_from(final(self).vm().ctypes, name@, 0) == id as int,
    ;

    /// The id of the foreign-data type named `name`, where it is already
    /// registered.
    fn find_ctype(&self, name: &str) -> (r: Option<usize>)
        requires
            self.wf(),
        ensures
            match r {
                Some(id) => id as int == crate::state::ctype_index_from(
                    self.vm().ctypes,
                    name@,
                    0,
                ),
                None => crate::state::ctype_index_from(self.vm().ctypes, name@, 0) < 0,
            },
    ;
}

/// A token for `size` values resident on top of the shared stack.
///
/// Creating a guard performs no stack mutation: it only records the
/// obligation to pop.  The obligation is discharged exactly once, by
/// [`PushGuard::into_inner`] (which pops), or transferred away by
/// [`PushGuard::release`] or [`PushGuard::forget`]; each of them consumes the
/// guard, so a second disarm of the same guard does not compile.
pub struct PushGuard<L: AsLua> {
    lua: L,
    size: usize,
}

impl<L: AsLua> PushGuard<L> {
    /// The number of slots this guard is responsible for.
    pub closed spec fn spec_size(&self) -> int {
        self.size as int
    }

    /// The wrapped handle.
    pub closed spec fn spec_inner(&self) -> L {
        self.lua
    }

    /// Records that `size` values were just placed on top of the stack.
    pub fn new(lua: L, size: usize) -> (g: Self)
        ensures
            g.spec_size() == size,
            g.spec_inner() == lua,
            g.vm() == lua.vm(),
            g.wf() == lua.wf(),
    {
        PushGuard { lua, size }
    }

    /// The number of slots this guard is responsible for.
    pub fn size(&self) -> (n: usize)
        ensures
            n == self.spec_size(),
    {
        self.size
    }

    /// Disarms the guard: the values stay on the stack, and the caller takes
    /// over the obligation to pop `n` slots through the returned handle.
    pub fn release(self) -> (r: (usize, L))
        ensures
            r.0 == self.spec_size(),
            r.1 == self.spec_inner(),
    {
        let PushGuard { lua, size } = self;
        (size, lua)
    }

    /// Disarms the guard and gives up the handle: the values stay on the
    /// stack and only the slot count comes back.
    pub fn forget(self) -> (n: usize)
        ensures
            n == self.spec_size(),
    {
        let PushGuard { lua: _, size } = self;
        size
    }

    /// `forget`, for callers that rely on the guard covering one slot.
    pub fn assert_one_and_forget(self) -> (n: usize)
        requires
            self.spec_size() == 1,
        ensures
            n == 1,
    {
        self.forget()
    }

    /// Destroys the guard: pops its slots and returns the wrapped handle,
    /// restoring the stack to its height from before the covered push.
    pub fn into_inner(self) -> (r: L)
        requires
            self.wf(),
            self.spec_size() <= self.vm().stack.len(),
        ensures
            r.wf(),
            r.vm() == self.vm().with_stack(
                self.vm().stack.take(self.vm().stack.len() - self.spec_size()),
            ),
    {
        let PushGuard { mut lua, size } = self;
        lua.pop_slots(size);
        lua
    }
}

impl<L: AsLua> AsLua for PushGuard<L> {
    open spec fn vm(&self) -> VmView {
        self.spec_inner().vm()
    }

    open spec fn wf(&self) -> bool {
        self.spec_inner().wf()
    }

    proof fn wf_vm(&self) {
        self.spec_inner().wf_vm();
    }

    fn stack_top(&self) -> (n: usize) {
        self.lua.stack_top()
    }

    fn slot_at(&self, abs: usize) -> (r: LuaValue) {
        self.lua.slot_at(abs)
    }

    fn push_slot(&mut self, v: LuaValue) {
        self.lua.push_slot(v);
    }

    fn pop_slots(&mut self, n: usize) {
        self.lua.pop_slots(n);
    }

    fn push_global_slot(&mut self, name: &str) {
        self.lua.push_global_slot(name);
    }

    fn push_globals_table(&mut self) {
        self.lua.push_globals_table();
    }

    fn push_fresh_table(&mut self) {
        self.lua.push_fresh_table();
    }

    fn read_table(&self, id: usize, key: &LuaValue) -> (r: LuaValue) {
        self.lua.read_table(id, key)
    }

    fn write_table(&mut self, id: usize, key: LuaValue, value: LuaValue) {
        self.lua.write_table(id, key, value);
    }

    fn lib_flags(&self) -> (l: LibFlags) {
        self.lua.lib_flags()
    }

    fn ctype_id(&mut self, name: &str) -> (id: usize) {
        self.lua.ctype_id(name)
    }

    fn find_ctype(&self, name: &str) -> (r: Option<usize>) {
        self.lua.find_ctype(name)
    }
}

/// A stack position resolved once against the current height.
///
/// A relative (negative) index is turned into the 1-based absolute position
/// it denotes right now; the result is a snapshot that later stack growth or
/// shrinkage does not follow.
#[derive(Clone, Copy, Debug)]
pub struct AbsoluteIndex {
    pos: usize,
}

/// Resolution of a possibly relative index against a stack of height `top`.
pub open spec fn spec_resolve_index(top: int, index: int) -> int {
    if index < 0 {
        top + index + 1
    } else {
        index
    }
}

impl AbsoluteIndex {
    /// The resolved 1-based position.
    pub closed spec fn spec_pos(&self) -> int {
        self.pos as int
    }

    /// Resolves `index` against the current stack height of `lua`.
    pub fn new<L: AsLua>(index: i32, lua: &L) -> (r: Self)
        requires
            lua.wf(),
            index != 0,
            index < 0 ==> -(index as int) <= lua.vm().stack.len(),
        ensures
            r.spec_pos() == spec_resolve_index(lua.vm().stack.len() as int, index as int),
    {
        if index > 0 {
            AbsoluteIndex { pos: index as usize }
        } else {
            let top = lua.stack_top();
            let neg = (-(index as i64)) as usize;
            AbsoluteIndex { pos: top - neg + 1 }
        }
    }

    /// The resolved 1-based position.
    pub fn position(&self) -> (p: usize)
        ensures
            p == self.spec_pos(),
    {
        self.pos
    }
}

/// The interpreter's table-write entry point on the stack: with a table at
/// position `t_abs` and a key and a value on top, pops both and stores the
/// association in the live table.
pub fn set_table<L: AsLua>(lua: &mut L, t_abs: usize)
    requires
        old(lua).wf(),
        old(lua).vm().stack.len() >= 2,
        1 <= t_abs <= old(lua).vm().stack.len() - 2,
        old(lua).vm().stack[t_abs - 1] is Table,
        old(lua).vm().stack[old(lua).vm().stack.len() - 2] !is Nil,
    ensures
        final(lua).wf(),
        final(lua).vm().stack == old(lua).vm().stack.take(old(lua).vm().stack.len() - 2),
        final(lua).vm().libs == old(lua).vm().libs,
        final(lua).vm().ctypes == old(lua).vm().ctypes,
        final(lua).vm().tables == old(lua).vm().tables.update(
            old(lua).vm().stack[t_abs - 1]->Table_0,
            table_store(
                old(lua).vm().tables[old(lua).vm().stack[t_abs - 1]->Table_0],
                old(lua).vm().stack[old(lua).vm().stack.len() - 2],
                old(lua).vm().stack[old(lua).vm().stack.len() - 1],
            ),
        ),
{
    proof {
        old(lua).wf_vm();
    }
    let top = lua.stack_top();
    let tslot = lua.slot_at(t_abs);
    let key = lua.slot_at(top - 1);
    let value = lua.slot_at(top);
    match tslot {
        LuaValue::Table(id) => {
            lua.pop_slots(2);
            lua.write_table(id, key, value);
        },
        _ => {
            proof {
                assert(false);
            }
        },
    }
}

/// The interpreter's table-read entry point on the stack: with a table at
/// position `t_abs` and a key on top, pops the key and pushes the value the
/// live table associates with it.
pub fn get_table<L: AsLua>(lua: &mut L, t_abs: usize)
    requires
        old(lua).wf(),
        old(lua).vm().stack.len() >= 1,
        1 <= t_abs <= old(lua).vm().stack.len() - 1,
        old(lua).vm().stack[t_abs - 1] is Table,
    ensures
        final(lua).wf(),
        final(lua).vm().stack == old(lua).vm().stack.take(old(lua).vm().stack.len() - 1).push(
            table_lookup(
                old(lua).vm().tables[old(lua).vm().stack[t_abs - 1]->Table_0],
                old(lua).vm().stack[old(lua).vm().stack.len() - 1],
            ),
        ),
        final(lua).vm().libs == old(lua).vm().libs,
        final(lua).vm().ctypes == old(lua).vm().ctypes,
        final(lua).vm().tables == old(lua).vm().tables,
{
    proof {
        old(lua).wf_vm();
    }
    let top = lua.stack_top();
    let tslot = lua.slot_at(t_abs);
    let key = lua.slot_at(top);
    match tslot {
        LuaValue::Table(id) => {
            let v = lua.read_table(id, &key);
            proof {
                lua.wf_vm();
                crate::state::lemma_lookup_ok(
                    lua.vm().tables[id as int],
                    key@,
                    lua.vm().tables.len() as int,
                );
            }
            lua.pop_slots(1);
            lua.push_slot(v);
        },
        _ => {
            proof {
                assert(false);
            }
        },
    }
}

} // verus!
