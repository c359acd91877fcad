//! Live handles to interpreter-side tables.
//!
//! A [`LuaTable`] pairs a stack handle with the identity of one table in the
//! interpreter's heap.  Reads and writes go through the live table — they
//! are visible to every other reference to it — and use the interpreter's
//! stack entry points, so the stack ends exactly as high as it began.

use vstd::prelude::*;
use crate::handle::AsLua;
use crate::handle::get_table;
use crate::handle::set_table;
use crate::read::LuaRead;
use crate::state::TableView;
use crate::state::table_lookup;
use crate::state::table_store;
use crate::state::value_ok;
use crate::value::LuaValue;

verus! {

/// A live reference to one interpreter-side table.
pub struct LuaTable<L: AsLua> {
    lua: L,
    id: usize,
}

impl<L: AsLua> LuaTable<L> {
    /// The identity of the table in the heap.
    pub closed spec fn spec_id(&self) -> int {
        self.id as int
    }

    /// The wrapped handle.
    pub closed spec fn spec_lua(&self) -> L {
        self.lua
    }

    /// Whether the handle is well-formed and the table exists.
    pub open spec fn wf(&self) -> bool {
        &&& self.spec_lua().wf()
        &&& 0 <= self.spec_id() < self.spec_lua().vm().tables.len()
    }

    /// The current contents of the table.
    pub open spec fn contents(&self) -> TableView {
        self.spec_lua().vm().tables[self.spec_id()]
    }

    /// Wraps the table `id` of the handle's instance.
    pub fn from_parts(lua: L, id: usize) -> (t: Self)
        requires
            lua.wf(),
            id < lua.vm().tables.len(),
        ensures
            t.wf(),
            t.spec_lua() == lua,
            t.spec_id() == id,
    {
        LuaTable { lua, id }
    }

    /// Wraps the table a value refers to, where it refers to one.
    pub fn from_value(lua: L, v: &LuaValue) -> (r: Result<Self, L>)
        requires
            lua.wf(),
            value_ok(v@, lua.vm().tables.len() as int),
        ensures
            match r {
                Ok(t) => {
                    &&& v@ is Table
                    &&& t.wf()
                    &&& t.spec_lua() == lua
                    &&& t.spec_id() == v@->Table_0
                },
                Err(l) => l == lua && !(v@ is Table),
            },
    {
        match v {
            LuaValue::Table(id) => Ok(LuaTable { lua, id: *id }),
            _ => Err(lua),
        }
    }

    /// Gives the wrapped handle back.
    pub fn into_inner(self) -> (r: L)
        ensures
            r == self.spec_lua(),
    {
        let LuaTable { lua, id: _ } = self;
        lua
    }

    /// Reads the value the table associates with `key`, decoded as `V`.
    ///
    /// The key and the value travel over the stack, which ends as it began;
    /// the handle comes back for further use.
    pub fn get<V: LuaRead<L>>(self, key: LuaValue) -> (r: (Option<V>, Self))
        requires
            self.wf(),
            value_ok(key@, self.spec_lua().vm().tables.len() as int),
        ensures
            r.1.wf(),
            r.1.spec_lua().vm() == self.spec_lua().vm(),
            r.1.spec_id() == self.spec_id(),
            ({
                let looked = table_lookup(self.contents(), key@);
                let pushed = self.spec_lua().vm().with_stack(
                    self.spec_lua().vm().stack.push(looked),
                );
                match r.0 {
                    Some(v) => match crate::read::read_window(pushed, -V::n_slots(), V::n_slots()) {
                        Some(vs) => V::accepts(vs) && v.models(vs),
                        None => false,
                    },
                    None => match crate::read::read_window(pushed, -V::n_slots(), V::n_slots()) {
                        Some(vs) => !V::accepts(vs),
                        None => true,
                    },
                }
            }),
    {
        let ghost vm0 = self.spec_lua().vm();
        let LuaTable { mut lua, id } = self;
        proof {
            lua.wf_vm();
        }
        lua.push_slot(LuaValue::Table(id));
        lua.push_slot(key);
        let top = lua.stack_top();
        get_table(&mut lua, top - 1);
        let looked = lua.slot_at(top);
        lua.pop_slots(2);
        proof {
            lua.wf_vm();
            crate::state::lemma_lookup_ok(vm0.tables[id as int], key@, vm0.tables.len() as int);
            assert(lua.vm().stack =~= vm0.stack);
        }
        lua.push_slot(looked);
        let r: Option<V> = V::lua_read(&lua);
        lua.pop_slots(1);
        proof {
            assert(lua.vm().stack =~= vm0.stack);
            assert(lua.vm().tables =~= vm0.tables);
            assert(lua.vm() == vm0);
        }
        (r, LuaTable { lua, id })
    }

    /// Associates `key` with `value` in the live table.
    ///
    /// The key and the value travel over the stack, which ends as it began;
    /// the handle comes back for further use.
    pub fn set(self, key: LuaValue, value: LuaValue) -> (t: Self)
        requires
            self.wf(),
            !(key@ is Nil),
            value_ok(key@, self.spec_lua().vm().tables.len() as int),
            value_ok(value@, self.spec_lua().vm().tables.len() as int),
        ensures
            t.wf(),
            t.spec_id() == self.spec_id(),
            t.spec_lua().vm().stack == self.spec_lua().vm().stack,
            t.spec_lua().vm().libs == self.spec_lua().vm().libs,
            t.spec_lua().vm().ctypes == self.spec_lua().vm().ctypes,
            t.spec_lua().vm().tables == self.spec_lua().vm().tables.update(
                self.spec_id(),
                table_store(self.contents(), key@, value@),
            ),
            table_lookup(t.contents(), key@) == value@,
    {
        let ghost vm0 = self.spec_lua().vm();
        let ghost k = key@;
        let ghost v = value@;
        let LuaTable { mut lua, id } = self;
        proof {
            lua.wf_vm();
        }
        lua.push_slot(LuaValue::Table(id));
        lua.push_slot(key);
        lua.push_slot(value);
        let top = lua.stack_top();
        set_table(&mut lua, top - 2);
        lua.pop_slots(1);
        proof {
            assert(lua.vm().stack =~= vm0.stack);
            crate::state::lemma_table_store_lookup(vm0.tables[id as int], k, v, k);
        }
        LuaTable { lua, id }
    }
}

} // verus!
