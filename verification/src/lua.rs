//! The top-level context owning one interpreter instance.

use vstd::prelude::*;
use crate::error::LuaError;
use crate::handle::AsLua;
use crate::handle::PushGuard;
use crate::push::Push;
use crate::push::PushOne;
use crate::read::LuaRead;
use crate::state::LibFlags;
use crate::state::Table;
use crate::state::TableView;
use crate::state::Vm;
use crate::state::VmView;
use crate::state::table_store;
use crate::state::value_ok;
use crate::value::LuaValue;
use crate::value::ValueView;

verus! {

/// Main object of the library: owns the interpreter instance it models.
pub struct Lua {
    state: Vm,
}

impl View for Lua {
    type V = VmView;

    closed spec fn view(&self) -> VmView {
        self.state@
    }
}

impl Lua {
    /// Builds a new empty context: no globals, no libraries opened.
    pub fn new() -> (lua: Lua)
        ensures
            lua@.stack =~= Seq::<ValueView>::empty(),
            lua@.tables =~= seq![Seq::<(ValueView, ValueView)>::empty()],
            lua@.libs == LibFlags::spec_none_open(),
            lua@.wf(),
    {
        Lua { state: Vm::new() }
    }
}

impl Lua {
    /// Opens every standard library.
    pub fn openlibs(&mut self)
        requires
            old(self)@.wf(),
        ensures
            final(self)@ == (VmView { libs: LibFlags::spec_all_open(), ..old(self)@ }),
            final(self)@.wf(),
    {
        self.state.set_libs(
            LibFlags {
                base: true,
                bit: true,
                debug: true,
                io: true,
                math: true,
                os: true,
                package: true,
                string_lib: true,
                table_lib: true,
            },
        );
    }

    /// Opens the base library.
    pub fn open_base(&mut self)
        requires
            old(self)@.wf(),
        ensures
            final(self)@ == (VmView {
                libs: LibFlags { base: true, ..old(self)@.libs },
                ..old(self)@
            }),
            final(self)@.wf(),
    {
        let mut l = self.state.libs();
        l.base = true;
        self.state.set_libs(l);
    }

    /// Opens the bit library.
    pub fn open_bit(&mut self)
        requires
            old(self)@.wf(),
        ensures
            final(self)@ == (VmView {
                libs: LibFlags { bit: true, ..old(self)@.libs },
                ..old(self)@
            }),
            final(self)@.wf(),
    {
        let mut l = self.state.libs();
        l.bit = true;
        self.state.set_libs(l);
    }

    /// Opens the debug library.
    pub fn open_debug(&mut self)
        requires
            old(self)@.wf(),
        ensures
            final(self)@ == (VmView {
                libs: LibFlags { debug: true, ..old(self)@.libs },
                ..old(self)@
            }),
            final(self)@.wf(),
    {
        let mut l = self.state.libs();
        l.debug = true;
        self.state.set_libs(l);
    }

    /// Opens the io library.
    pub fn open_io(&mut self)
        requires
            old(self)@.wf(),
        ensures
            final(self)@ == (VmView {
                libs: LibFlags { io: true, ..old(self)@.libs },
                ..old(self)@
            }),
            final(self)@.wf(),
    {
        let mut l = self.state.libs();
        l.io = true;
        self.state.set_libs(l);
    }

    /// Opens the math library.
    pub fn open_math(&mut self)
        requires
            old(self)@.wf(),
        ensures
            final(self)@ == (VmView {
                libs: LibFlags { math: true, ..old(self)@.libs },
                ..old(self)@
            }),
            final(self)@.wf(),
    {
        let mut l = self.state.libs();
        l.math = true;
        self.state.set_libs(l);
    }

    /// Opens the os library.
    pub fn open_os(&mut self)
        requires
            old(self)@.wf(),
        ensures
            final(self)@ == (VmView {
                libs: LibFlags { os: true, ..old(self)@.libs },
                ..old(self)@
            }),
            final(self)@.wf(),
    {
        let mut l = self.state.libs();
        l.os = true;
        self.state.set_libs(l);
    }

    /// Opens the package library.
    pub fn open_package(&mut self)
        requires
            old(self)@.wf(),
        ensures
            final(self)@ == (VmView {
                libs: LibFlags { package: true, ..old(self)@.libs },
                ..old(self)@
            }),
            final(self)@.wf(),
    {
        let mut l = self.state.libs();
        l.package = true;
        self.state.set_libs(l);
    }

    /// Opens the string library.
    pub fn open_string(&mut self)
        requires
            old(self)@.wf(),
        ensures
            final(self)@ == (VmView {
                libs: LibFlags { string_lib: true, ..old(self)@.libs },
                ..old(self)@
            }),
            final(self)@.wf(),
    {
        let mut l = self.state.libs();
        l.string_lib = true;
        self.state.set_libs(l);
    }

    /// Opens the table library.
    pub fn open_table(&mut self)
        requires
            old(self)@.wf(),
        ensures
            final(self)@ == (VmView {
                libs: LibFlags { table_lib: true, ..old(self)@.libs },
                ..old(self)@
            }),
            final(self)@.wf(),
    {
        let mut l = self.state.libs();
        l.table_lib = true;
        self.state.set_libs(l);
    }

    /// Reads the value of a global variable.
    ///
    /// Yields nothing where the variable is unset or where its value does
    /// not decode as `V`; the stack is left exactly as it was.
    pub fn get<V: LuaRead<Lua>>(&mut self, index: &str) -> (r: Option<V>)
        requires
            old(self)@.wf(),
        ensures
            final(self)@ == old(self)@,
            ({
                let g = old(self)@.global_of(index@);
                let pushed = old(self)@.with_stack(old(self)@.stack.push(g));
                match r {
                    Some(v) => !(g is Nil) && match crate::read::read_window(
                        pushed,
                        -V::n_slots(),
                        V::n_slots(),
                    ) {
                        Some(vs) => V::accepts(vs) && v.models(vs),
                        None => false,
                    },
                    None => g is Nil || match crate::read::read_window(
                        pushed,
                        -V::n_slots(),
                        V::n_slots(),
                    ) {
                        Some(vs) => !V::accepts(vs),
                        None => true,
                    },
                }
            }),
    {
        self.state.push_global(index);
        let top = self.state.top();
        let v = self.state.value_at(top);
        if v.is_nil() {
            self.state.pop_n(1);
            proof {
                assert(self@.stack =~= old(self)@.stack);
                assert(self@ == old(self)@);
            }
            return None;
        }
        let r: Option<V> = V::lua_read(&*self);
        self.state.pop_n(1);
        proof {
            assert(self@.stack =~= old(self)@.stack);
            assert(self@ == old(self)@);
        }
        r
    }

    /// Reads the value of a global, consuming the context.
    ///
    /// On failure the context comes back inside a guard covering the slot
    /// that was pushed while probing.
    pub fn into_get<V: LuaRead<Lua>>(self, index: &str) -> (r: Result<V, PushGuard<Lua>>)
        requires
            self@.wf(),
        ensures
            ({
                let g = self@.global_of(index@);
                let pushed = self@.with_stack(self@.stack.push(g));
                match r {
                    Ok(v) => !(g is Nil) && match crate::read::read_window(
                        pushed,
                        -V::n_slots(),
                        V::n_slots(),
                    ) {
                        Some(vs) => V::accepts(vs) && v.models(vs),
                        None => false,
                    },
                    Err(guard) => {
                        &&& guard.wf()
                        &&& guard.spec_size() == 1
                        &&& guard.vm() == pushed
                        &&& (g is Nil || match crate::read::read_window(
                            pushed,
                            -V::n_slots(),
                            V::n_slots(),
                        ) {
                            Some(vs) => !V::accepts(vs),
                            None => true,
                        })
                    },
                }
            }),
    {
        let mut me = self;
        me.state.push_global(index);
        let top = me.state.top();
        let v = me.state.value_at(top);
        if v.is_nil() {
            return Err(PushGuard::new(me, 1));
        }
        let r: Option<V> = V::lua_read(&me);
        match r {
            Some(x) => Ok(x),
            None => Err(PushGuard::new(me, 1)),
        }
    }

    /// Modifies the value of a global variable.
    pub fn set<V: PushOne<Lua>>(&mut self, index: &str, value: V)
        requires
            old(self)@.wf(),
            value.push_ok(old(self)@),
        ensures
            final(self)@.wf(),
            final(self)@.stack == old(self)@.stack,
            final(self)@.libs == old(self)@.libs,
            final(self)@.ctypes == old(self)@.ctypes,
            final(self)@.tables == old(self)@.tables.update(
                0,
                table_store(old(self)@.globals(), ValueView::Str(index@), value.pushed()[0]),
            ),
            final(self)@.global_of(index@) == value.pushed()[0],
    {
        match self.checked_set(index, value) {
            Ok(()) => (),
            Err(_) => vstd::pervasive::unreached(),
        }
    }

    /// Modifies the value of a global variable, surfacing the push error
    /// instead of relying on its impossibility.
    pub fn checked_set<V: PushOne<Lua>>(&mut self, index: &str, value: V) -> (r: Result<
        (),
        <V as Push<Lua>>::Error,
    >)
        requires
            old(self)@.wf(),
            value.push_ok(old(self)@),
        ensures
            r is Ok,
            final(self)@.wf(),
            final(self)@.stack == old(self)@.stack,
            final(self)@.libs == old(self)@.libs,
            final(self)@.ctypes == old(self)@.ctypes,
            final(self)@.tables == old(self)@.tables.update(
                0,
                table_store(old(self)@.globals(), ValueView::Str(index@), value.pushed()[0]),
            ),
            final(self)@.global_of(index@) == value.pushed()[0],
    {
        proof {
            value.one_slot();
            value.slot_ok(old(self)@);
        }
        let ghost slot = value.pushed()[0];
        let v = value.into_value();
        self.state.push_global_table();
        self.state.push_value(LuaValue::Str(index.to_owned()));
        self.state.push_value(v);
        let top = self.state.top();
        crate::handle::set_table(self, top - 2);
        self.state.pop_n(1);
        proof {
            assert(self@.stack =~= old(self)@.stack);
            crate::state::lemma_table_store_lookup(
                old(self)@.globals(),
                ValueView::Str(index@),
                slot,
                ValueView::Str(index@),
            );
        }
        Ok(())
    }
}

impl Lua {
    /// Sets the value of a global variable to a fresh empty table and hands
    /// a live handle to it back, so the caller can fill it.
    pub fn empty_array<'a>(&'a mut self, index: &str) -> (t: crate::tables::LuaTable<&'a mut Lua>)
        requires
            old(self)@.wf(),
        ensures
            t.wf(),
            t.spec_id() == old(self)@.tables.len(),
            t.contents() =~= Seq::<(ValueView, ValueView)>::empty(),
            t.spec_lua().vm().stack == old(self)@.stack,
            t.spec_lua().vm().libs == old(self)@.libs,
            t.spec_lua().vm().ctypes == old(self)@.ctypes,
            t.spec_lua().vm().tables == old(self)@.tables.push(
                Seq::<(ValueView, ValueView)>::empty(),
            ).update(
                0,
                table_store(
                    old(self)@.globals(),
                    ValueView::Str(index@),
                    ValueView::Table(old(self)@.tables.len() as int),
                ),
            ),
            t.spec_lua().vm().global_of(index@) == ValueView::Table(old(self)@.tables.len() as int),
    {
        self.state.push_global_table();
        self.state.push_value(LuaValue::Str(index.to_owned()));
        let nid = self.state.table_count();
        self.state.push_new_table();
        let top = self.state.top();
        crate::handle::set_table(self, top - 2);
        self.state.pop_n(1);
        proof {
            assert(self@.stack =~= old(self)@.stack);
            crate::state::lemma_table_store_lookup(
                old(self)@.globals(),
                ValueView::Str(index@),
                ValueView::Table(old(self)@.tables.len() as int),
                ValueView::Str(index@),
            );
        }
        crate::tables::LuaTable::from_parts(self, nid)
    }

    /// The live table holding the global variables.
    pub fn globals_table<'a>(&'a mut self) -> (t: crate::tables::LuaTable<&'a mut Lua>)
        requires
            old(self)@.wf(),
        ensures
            t.wf(),
            t.spec_id() == 0,
            t.contents() == old(self)@.globals(),
            t.spec_lua().vm() == old(self)@,
    {
        crate::tables::LuaTable::from_parts(self, 0)
    }
}

impl AsLua for Lua {
    open spec fn vm(&self) -> VmView {
        self@
    }

    open spec fn wf(&self) -> bool {
        self@.wf()
    }

    proof fn wf_vm(&self) {
    }

    fn stack_top(&self) -> (n: usize) {
        self.state.top()
    }

    fn slot_at(&self, abs: usize) -> (r: LuaValue) {
        self.state.value_at(abs)
    }

    fn push_slot(&mut self, v: LuaValue) {
        self.state.push_value(v);
    }

    fn pop_slots(&mut self, n: usize) {
        self.state.pop_n(n);
    }

    fn push_global_slot(&mut self, name: &str) {
        self.state.push_global(name);
    }

    fn push_globals_table(&mut self) {
        self.state.push_global_table();
    }

    fn push_fresh_table(&mut self) {
        self.state.push_new_table();
    }

    fn read_table(&self, id: usize, key: &LuaValue) -> (r: LuaValue) {
        self.state.table_get(id, key)
    }

    fn write_table(&mut self, id: usize, key: LuaValue, value: LuaValue) {
        self.state.table_set(id, key, value);
    }

    fn lib_flags(&self) -> (l: LibFlags) {
        self.state.libs()
    }

    fn ctype_id(&mut self, name: &str) -> (id: usize) {
        self.state.ctype_id(name)
    }

    fn find_ctype(&self, name: &str) -> (r: Option<usize>) {
        self.state.find_ctype(name)
    }
}

impl<'a> AsLua for &'a mut Lua {
    open spec fn vm(&self) -> VmView {
        (**self)@
    }

    open spec fn wf(&self) -> bool {
        (**self)@.wf()
    }

    proof fn wf_vm(&self) {
    }

    fn stack_top(&self) -> (n: usize) {
        (**self).state.top()
    }

    fn slot_at(&self, abs: usize) -> (r: LuaValue) {
        (**self).state.value_at(abs)
    }

    fn push_slot(&mut self, v: LuaValue) {
        (**self).state.push_value(v);
    }

    fn pop_slots(&mut self, n: usize) {
        (**self).state.pop_n(n);
    }

    fn push_global_slot(&mut self, name: &str) {
        (**self).state.push_global(name);
    }

    fn push_globals_table(&mut self) {
        (**self).state.push_global_table();
    }

    fn push_fresh_table(&mut self) {
        (**self).state.push_new_table();
    }

    fn read_table(&self, id: usize, key: &LuaValue) -> (r: LuaValue) {
        (**self).state.table_get(id, key)
    }

    fn write_table(&mut self, id: usize, key: LuaValue, value: LuaValue) {
        (**self).state.table_set(id, key, value);
    }

    fn lib_flags(&self) -> (l: LibFlags) {
        (**self).state.libs()
    }

    fn ctype_id(&mut self, name: &str) -> (id: usize) {
        (**self).state.ctype_id(name)
    }

    fn find_ctype(&self, name: &str) -> (r: Option<usize>) {
        (**self).state.find_ctype(name)
    }
}


/// What the execution engine is handed for one chunk: the source text and a
/// snapshot of the state it may read.
pub struct ChunkInput {
    /// The source text of the chunk.
    pub source: String,
    /// Which standard libraries are open.
    pub libs: LibFlags,
    /// A copy of the globals table.
    pub globals: Table,
}

/// What one chunk execution came to.
pub enum ChunkOutcome {
    /// The chunk failed to compile; carries the engine's message.
    Syntax(String),
    /// The chunk raised during execution; carries the engine's message.
    Runtime(String),
    /// The chunk ran to completion: the global bindings it wrote, in order,
    /// and the values it returned.
    Done(Vec<(String, LuaValue)>, Vec<LuaValue>),
}

/// The views of a sequence of values.
pub open spec fn spec_values_view(vs: Seq<LuaValue>) -> Seq<ValueView> {
    vs.map_values(|v: LuaValue| v@)
}

/// The views of a sequence of global bindings.
pub open spec fn spec_updates_view(ups: Seq<(String, LuaValue)>) -> Seq<(Seq<char>, ValueView)> {
    ups.map_values(|p: (String, LuaValue)| (p.0@, p.1@))
}

/// Whether every bound value may live in a state with `n_tables` tables.
pub open spec fn updates_admissible(ups: Seq<(Seq<char>, ValueView)>, n_tables: int) -> bool {
    forall|i: int| 0 <= i < ups.len() ==> value_ok(#[trigger] ups[i].1, n_tables)
}

/// Whether every returned value may live in a state with `n_tables` tables.
pub open spec fn results_admissible(rs: Seq<ValueView>, n_tables: int) -> bool {
    forall|i: int| 0 <= i < rs.len() ==> value_ok(#[trigger] rs[i], n_tables)
}

/// The globals table after writing the bindings in order.
pub open spec fn apply_updates(g: TableView, ups: Seq<(Seq<char>, ValueView)>) -> TableView
    decreases ups.len(),
{
    if ups.len() == 0 {
        g
    } else {
        apply_updates(
            table_store(g, ValueView::Str(ups.first().0), ups.first().1),
            ups.drop_first(),
        )
    }
}

/// Writing one more binding after a sequence of bindings is the same as
/// appending it to the sequence.
proof fn lemma_apply_updates_snoc(
    g: TableView,
    ups: Seq<(Seq<char>, ValueView)>,
    u: (Seq<char>, ValueView),
)
    ensures
        apply_updates(g, ups.push(u)) == table_store(apply_updates(g, ups), ValueView::Str(u.0), u.1),
    decreases ups.len(),
{
    if ups.len() == 0 {
        let s1 = ups.push(u);
        assert(s1.first() == u);
        assert(s1.drop_first() =~= Seq::<(Seq<char>, ValueView)>::empty());
        assert(apply_updates(g, s1) == apply_updates(
            table_store(g, ValueView::Str(u.0), u.1),
            s1.drop_first(),
        ));
        assert(apply_updates(table_store(g, ValueView::Str(u.0), u.1), s1.drop_first())
            == table_store(g, ValueView::Str(u.0), u.1));
        assert(apply_updates(g, ups) == g);
    } else {
        assert(ups.push(u).first() == ups.first());
        assert(ups.push(u).drop_first() =~= ups.drop_first().push(u));
        lemma_apply_updates_snoc(
            table_store(g, ValueView::Str(ups.first().0), ups.first().1),
            ups.drop_first(),
            u,
        );
    }
}

impl Lua {
    /// Executes a chunk of source text through the given execution engine
    /// and decodes its return values as `T`.
    ///
    /// The engine stands for the interpreter's compiler and call mechanism,
    /// which live outside this library; the contract states what holds for
    /// every outcome it can produce.  A compile failure becomes
    /// `SyntaxError`, a raise becomes `ExecutionError`, and return values
    /// that do not decode as `T` become `WrongType`.  An outcome holding a
    /// table reference that does not exist in this instance is refused as an
    /// `ExecutionError` reading `invalid value from chunk`.  In every case
    /// the stack ends exactly as high as it began.
    pub fn execute<T: LuaRead<Lua>, F: Fn(ChunkInput) -> ChunkOutcome>(
        &mut self,
        engine: F,
        code: &str,
    ) -> (r: Result<T, LuaError>)
        requires
            old(self)@.wf(),
            forall|input: ChunkInput| #[trigger] call_requires(engine, (input,)),
        ensures
            final(self)@.wf(),
            final(self)@.stack == old(self)@.stack,
            final(self)@.libs == old(self)@.libs,
            final(self)@.ctypes == old(self)@.ctypes,
            exists|input: ChunkInput, outcome: ChunkOutcome|
                {
                    &&& input.source@ == code@
                    &&& input.libs == old(self)@.libs
                    &&& input.globals@ == old(self)@.globals()
                    &&& #[trigger] call_ensures(engine, (input,), outcome)
                    &&& match outcome {
                        ChunkOutcome::Syntax(m) => final(self)@.tables == old(self)@.tables && (
                        r matches Err(LuaError::SyntaxError(e)) && e == m),
                        ChunkOutcome::Runtime(m) => final(self)@.tables == old(self)@.tables && (
                        r matches Err(LuaError::ExecutionError(e)) && e == m),
                        ChunkOutcome::Done(ups, rs) => {
                            let nt = old(self)@.tables.len() as int;
                            if updates_admissible(spec_updates_view(ups@), nt)
                                && results_admissible(spec_values_view(rs@), nt) {
                                let tables1 = old(self)@.tables.update(
                                    0,
                                    apply_updates(old(self)@.globals(), spec_updates_view(ups@)),
                                );
                                let run_vm = VmView {
                                    stack: old(self)@.stack + spec_values_view(rs@),
                                    tables: tables1,
                                    libs: old(self)@.libs,
                                    ctypes: old(self)@.ctypes,
                                };
                                &&& final(self)@.tables == tables1
                                &&& match crate::read::read_window(
                                    run_vm,
                                    -T::n_slots(),
                                    T::n_slots(),
                                ) {
                                    Some(vs) => if T::accepts(vs) {
                                        r matches Ok(x) && x.models(vs)
                                    } else {
                                        execute_mismatch::<T>(r, run_vm.stack, rs@.len() as int)
                                    },
                                    None => execute_mismatch::<T>(r, run_vm.stack, rs@.len() as int),
                                }
                            } else {
                                &&& final(self)@.tables == old(self)@.tables
                                &&& (r matches Err(LuaError::ExecutionError(e)) && e@
                                    == "invalid value from chunk"@)
                            }
                        },
                    }
                },
    {
        let input = ChunkInput {
            source: code.to_owned(),
            libs: self.state.libs(),
            globals: self.state.globals_snapshot(),
        };
        let outcome = engine(input);
        match outcome {
            ChunkOutcome::Syntax(m) => Err(LuaError::SyntaxError(m)),
            ChunkOutcome::Runtime(m) => Err(LuaError::ExecutionError(m)),
            ChunkOutcome::Done(updates, results) => {
                let ghost gups = spec_updates_view(updates@);
                let ghost grs = spec_values_view(results@);
                let nt = self.state.table_count();
                let mut ok = true;
                let n_up = updates.len();
                let mut i: usize = 0;
                while i < n_up
                    invariant
                        n_up == updates.len(),
                        i <= n_up,
                        nt == self@.tables.len(),
                        gups == spec_updates_view(updates@),
                        ok == (forall|j: int|
                            0 <= j < i ==> value_ok(#[trigger] gups[j].1, nt as int)),
                    decreases n_up - i,
                {
                    proof {
                        assert(gups[i as int].1 == updates@[i as int].1@);
                    }
                    if !crate::state::check_value_ok(&updates[i].1, nt) {
                        ok = false;
                    }
                    i += 1;
                }
                let n_res = results.len();
                let mut ok_res = true;
                let mut i: usize = 0;
                while i < n_res
                    invariant
                        n_res == results.len(),
                        i <= n_res,
                        nt == self@.tables.len(),
                        grs == spec_values_view(results@),
                        ok_res == (forall|j: int|
                            0 <= j < i ==> value_ok(#[trigger] grs[j], nt as int)),
                    decreases n_res - i,
                {
                    proof {
                        assert(grs[i as int] == results@[i as int]@);
                    }
                    if !crate::state::check_value_ok(&results[i], nt) {
                        ok_res = false;
                    }
                    i += 1;
                }
                if !(ok && ok_res) {
                    return Err(LuaError::ExecutionError("invalid value from chunk".to_owned()));
                }
                let ghost pre = self@;
                proof {
                    assert(gups.take(0) =~= Seq::<(Seq<char>, ValueView)>::empty());
                    assert(pre.tables.update(0, apply_updates(pre.globals(), gups.take(0)))
                        =~= pre.tables);
                }
                let mut i: usize = 0;
                while i < n_up
                    invariant
                        n_up == updates.len(),
                        i <= n_up,
                        gups == spec_updates_view(updates@),
                        updates_admissible(gups, pre.tables.len() as int),
                        pre.wf(),
                        self@.wf(),
                        self@.stack == pre.stack,
                        self@.libs == pre.libs,
                        self@.ctypes == pre.ctypes,
                        self@.tables == pre.tables.update(
                            0,
                            apply_updates(pre.globals(), gups.take(i as int)),
                        ),
                    decreases n_up - i,
                {
                    let name = updates[i].0.clone();
                    let v = updates[i].1.clone();
                    proof {
                        assert(gups[i as int] == (updates@[i as int].0@, updates@[i as int].1@));
                        assert(self@.tables[0] == apply_updates(pre.globals(), gups.take(i as int)));
                        lemma_apply_updates_snoc(pre.globals(), gups.take(i as int), gups[i as int]);
                        assert(gups.take(i as int).push(gups[i as int]) =~= gups.take(i as int + 1));
                    }
                    self.state.table_set(0, LuaValue::Str(name), v);
                    proof {
                        assert(self@.tables =~= pre.tables.update(
                            0,
                            apply_updates(pre.globals(), gups.take(i as int + 1)),
                        ));
                    }
                    i += 1;
                }
                proof {
                    assert(gups.take(n_up as int) =~= gups);
                }
                let ghost mid = self@;
                let mut i: usize = 0;
                while i < n_res
                    invariant
                        n_res == results.len(),
                        i <= n_res,
                        grs == spec_values_view(results@),
                        results_admissible(grs, mid.tables.len() as int),
                        self@.wf(),
                        self@.tables == mid.tables,
                        self@.libs == mid.libs,
                        self@.ctypes == mid.ctypes,
                        self@.stack == mid.stack + grs.take(i as int),
                    decreases n_res - i,
                {
                    proof {
                        assert(grs[i as int] == results@[i as int]@);
                    }
                    let v = results[i].clone();
                    self.state.push_value(v);
                    proof {
                        assert(mid.stack + grs.take(i as int + 1) =~= (mid.stack + grs.take(
                            i as int,
                        )).push(grs[i as int]));
                    }
                    i += 1;
                }
                proof {
                    assert(grs.take(n_res as int) =~= grs);
                    assert(self@.stack == mid.stack + grs);
                }
                let r: Option<T> = T::lua_read(&*self);
                match r {
                    Some(x) => {
                        self.state.pop_n(n_res);
                        proof {
                            assert(self@.stack =~= pre.stack);
                        }
                        Ok(x)
                    },
                    None => {
                        let e = if n_res == 0 {
                            LuaError::WrongType {
                                rust_expected: T::host_name(),
                                lua_actual: "(no value)".to_owned(),
                            }
                        } else {
                            LuaError::wrong_type::<T, Lua>(&*self, n_res)
                        };
                        self.state.pop_n(n_res);
                        proof {
                            assert(self@.stack =~= pre.stack);
                        }
                        Err(e)
                    },
                }
            },
        }
    }
}

/// How a failed decoding of chunk results is reported: a `WrongType` error
/// naming the requested host type, and the runtime types of the `n_res`
/// returned values (`(no value)` where the chunk returned none).
pub open spec fn execute_mismatch<T: LuaRead<Lua>>(
    r: Result<T, LuaError>,
    run_stack: Seq<ValueView>,
    n_res: int,
) -> bool {
    &&& r matches Err(LuaError::WrongType { rust_expected, lua_actual })
    &&& rust_expected@ == T::expected_name()
    &&& lua_actual@ == (if n_res == 0 {
        "(no value)"@
    } else {
        crate::error::spec_actual_types(run_stack, n_res)
    })
}

} // verus!
