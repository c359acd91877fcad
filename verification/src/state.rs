//! An explicit model of the interpreter's observable state.
//!
//! The bridge consumes the embedded interpreter through a small set of
//! entry points: stack primitives (push, pop, height, read a slot), table
//! access, global access and library loading.  [`Vm`] holds exactly the state
//! those entry points observe: the operand stack, the table heap (whose first
//! table is the globals table), and which standard libraries have been
//! opened.  Every entry point is a verified method whose contract states its
//! effect on the model; the execution engine itself stays outside the model
//! and is handed in where a chunk has to run (see [`crate::lua`]).

use vstd::prelude::*;
use crate::value::LuaValue;
use crate::value::ValueView;

verus! {

/// Which standard libraries have been opened in one interpreter instance.
#[derive(Clone, Copy, PartialEq, Eq, Structural)]
pub struct LibFlags {
    pub base: bool,
    pub bit: bool,
    pub debug: bool,
    pub io: bool,
    pub math: bool,
    pub os: bool,
    pub package: bool,
    pub string_lib: bool,
    pub table_lib: bool,
}

impl LibFlags {
    /// The state of a freshly created instance: nothing is open.
    pub open spec fn spec_none_open() -> LibFlags {
        LibFlags {
            base: false,
            bit: false,
            debug: false,
            io: false,
            math: false,
            os: false,
            package: false,
            string_lib: false,
            table_lib: false,
        }
    }

    /// The state after opening every standard library.
    pub open spec fn spec_all_open() -> LibFlags {
        LibFlags {
            base: true,
            bit: true,
            debug: true,
            io: true,
            math: true,
            os: true,
            package: true,
            string_lib: true,
            table_lib: true,
        }
    }
}

/// One interpreter-side table: an association list of key/value pairs.
/// The first entry whose key matches decides a lookup; `set` replaces that
/// entry, so keys stay unique once written through `set` alone.
pub struct Table {
    entries: Vec<(LuaValue, LuaValue)>,
}

/// The mathematical shape of a table.
pub type TableView = Seq<(ValueView, ValueView)>;

impl View for Table {
    type V = TableView;

    closed spec fn view(&self) -> TableView {
        self.entries@.map_values(|p: (LuaValue, LuaValue)| (p.0@, p.1@))
    }
}

/// The value a table associates with a key: the value of the first entry
/// whose key matches, or nil where no entry matches.
pub open spec fn table_lookup(t: TableView, k: ValueView) -> ValueView
    decreases t.len(),
{
    if t.len() == 0 {
        ValueView::Nil
    } else if t.first().0 == k {
        t.first().1
    } else {
        table_lookup(t.drop_first(), k)
    }
}

/// The table after associating `k` with `v`: the first entry with key `k` is
/// replaced, or a new entry is appended where none exists.
pub open spec fn table_store(t: TableView, k: ValueView, v: ValueView) -> TableView
    decreases t.len(),
{
    if t.len() == 0 {
        seq![(k, v)]
    } else if t.first().0 == k {
        t.update(0, (k, v))
    } else {
        seq![t.first()].add(table_store(t.drop_first(), k, v))
    }
}

/// Storing then looking up the same key yields the stored value, and leaves
/// every other key's association unchanged.
pub proof fn lemma_table_store_lookup(t: TableView, k: ValueView, v: ValueView, q: ValueView)
    ensures
        table_lookup(table_store(t, k, v), k) == v,
        q != k ==> table_lookup(table_store(t, k, v), q) == table_lookup(t, q),
    decreases t.len(),
{
    if t.len() == 0 {
        assert(table_store(t, k, v) == seq![(k, v)]);
        assert(table_lookup(seq![(k, v)], k) == v);
        if q != k {
            assert(table_lookup(seq![(k, v)], q) == table_lookup(seq![(k, v)].drop_first(), q));
            assert(seq![(k, v)].drop_first() =~= Seq::<(ValueView, ValueView)>::empty());
        }
    } else if t.first().0 == k {
        let s = t.update(0, (k, v));
        assert(s.first() == (k, v));
        if q != k {
            assert(s.drop_first() =~= t.drop_first());
        }
    } else {
        let rest = table_store(t.drop_first(), k, v);
        let s = seq![t.first()].add(rest);
        assert(s.first() == t.first());
        assert(s.drop_first() =~= rest);
        lemma_table_store_lookup(t.drop_first(), k, v, q);
    }
}

impl Table {
    /// A table with no entries.
    pub fn empty() -> (t: Table)
        ensures
            t@ =~= Seq::<(ValueView, ValueView)>::empty(),
    {
        Table { entries: Vec::new() }
    }

    /// The number of entries.
    pub fn len(&self) -> (n: usize)
        ensures
            n == self@.len(),
    {
        self.entries.len()
    }

    /// The entry at a position, by value.
    pub fn entry_at(&self, i: usize) -> (e: (LuaValue, LuaValue))
        requires
            i < self@.len(),
        ensures
            (e.0@, e.1@) == self@[i as int],
    {
        let e = &self.entries[i];
        (e.0.clone(), e.1.clone())
    }

    /// The value associated with `key`, or nil where there is none.
    pub fn lookup(&self, key: &LuaValue) -> (r: LuaValue)
        ensures
            r@ == table_lookup(self@, key@),
    {
        let n = self.entries.len();
        let mut i: usize = 0;
        proof {
            assert(self@.skip(0) =~= self@);
        }
        while i < n
            invariant
                n == self.entries.len(),
                i <= n,
                table_lookup(self@, key@) == table_lookup(self@.skip(i as int), key@),
            decreases n - i,
        {
            let e = &self.entries[i];
            proof {
                assert(self@[i as int] == (self.entries@[i as int].0@, self.entries@[i as int].1@));
            }
            if crate::value::value_eq(&e.0, key) {
                proof {
                    assert(self@.skip(i as int).first() == self@[i as int]);
                }
                return e.1.clone();
            }
            proof {
                assert(self@.skip(i as int).drop_first() =~= self@.skip(i as int + 1));
            }
            i += 1;
        }
        proof {
            assert(self@.skip(n as int) =~= Seq::<(ValueView, ValueView)>::empty());
        }
        LuaValue::Nil
    }

    /// Associates `key` with `value`.
    pub fn store(&mut self, key: LuaValue, value: LuaValue)
        ensures
            final(self)@ =~= table_store(old(self)@, key@, value@),
    {
        let ghost k = key@;
        let ghost v = value@;
        let n = self.entries.len();
        let mut i: usize = 0;
        while i < n
            invariant
                n == self.entries.len(),
                i <= n,
                self == old(self),
                key@ == k,
                value@ == v,
                forall|j: int| 0 <= j < i ==> #[trigger] self@[j].0 != k,
            decreases n - i,
        {
            let e = &self.entries[i];
            let matched = crate::value::value_eq(&e.0, &key);
            proof {
                assert(self@[i as int] == (self.entries@[i as int].0@, self.entries@[i as int].1@));
            }
            if matched {
                let elt = vstd::std_specs::vec::vec_index_mut(&mut self.entries, i);
                *elt = (key, value);
                proof {
                    lemma_store_at_match(old(self)@, k, v, i as int);
                    assert(self@ =~= old(self)@.update(i as int, (k, v)));
                }
                return;
            }
            i += 1;
        }
        self.entries.push((key, value));
        proof {
            lemma_store_append(old(self)@, k, v);
            assert(self@ =~= old(self)@.push((k, v)));
        }
    }
}

/// Where the first matching key stands at position `i`, storing is the same
/// as updating that entry in place.
proof fn lemma_store_at_match(t: TableView, k: ValueView, v: ValueView, i: int)
    requires
        0 <= i < t.len(),
        t[i].0 == k,
        forall|j: int| 0 <= j < i ==> #[trigger] t[j].0 != k,
    ensures
        table_store(t, k, v) =~= t.update(i, (k, v)),
    decreases i,
{
    if i == 0 {
        assert(t.first().0 == k);
    } else {
        assert(t.first().0 != k);
        assert forall|j: int| 0 <= j < i - 1 implies #[trigger] t.drop_first()[j].0 != k by {
            assert(t.drop_first()[j] == t[j + 1]);
        }
        assert(t.drop_first()[i - 1].0 == k);
        lemma_store_at_match(t.drop_first(), k, v, i - 1);
        assert(seq![t.first()].add(t.drop_first().update(i - 1, (k, v))) =~= t.update(i, (k, v)));
    }
}

impl Clone for Table {
    /// A deep copy with the same entries.
    fn clone(&self) -> (r: Self)
        ensures
            r@ == self@,
    {
        let n = self.entries.len();
        let mut entries: Vec<(LuaValue, LuaValue)> = Vec::new();
        let mut i: usize = 0;
        while i < n
            invariant
                n == self.entries.len(),
                i <= n,
                entries@.len() == i,
                forall|j: int| 0 <= j < i ==> #[trigger] entries@[j].0@ == self.entries@[j].0@
                    && entries@[j].1@ == self.entries@[j].1@,
            decreases n - i,
        {
            let e = &self.entries[i];
            entries.push((e.0.clone(), e.1.clone()));
            i += 1;
        }
        let r = Table { entries };
        proof {
            assert(r@ =~= self@);
        }
        r
    }
}

/// Where no key matches, storing appends a fresh entry.
proof fn lemma_store_append(t: TableView, k: ValueView, v: ValueView)
    requires
        forall|j: int| 0 <= j < t.len() ==> #[trigger] t[j].0 != k,
    ensures
        table_store(t, k, v) =~= t.push((k, v)),
    decreases t.len(),
{
    if t.len() == 0 {
        assert(table_store(t, k, v) =~= t.push((k, v)));
    } else {
        assert(t.first().0 != k);
        assert forall|j: int| 0 <= j < t.drop_first().len() implies #[trigger] t.drop_first()[j].0
            != k by {
            assert(t.drop_first()[j] == t[j + 1]);
        }
        lemma_store_append(t.drop_first(), k, v);
        assert(seq![t.first()].add(t.drop_first().push((k, v))) =~= t.push((k, v)));
    }
}

/// Whether a value may live in a state with `n_tables` tables: a table
/// reference must point into the heap.
pub open spec fn value_ok(v: ValueView, n_tables: int) -> bool {
    v is Table ==> 0 <= v->Table_0 < n_tables
}

/// Whether every key and value of a table points into the heap.
pub open spec fn table_ok(t: TableView, n_tables: int) -> bool {
    forall|j: int|
        0 <= j < t.len() ==> value_ok(#[trigger] t[j].0, n_tables) && value_ok(t[j].1, n_tables)
}

/// Storing well-formed values into a well-formed table keeps it well-formed.
pub proof fn lemma_store_ok(t: TableView, k: ValueView, v: ValueView, n_tables: int)
    requires
        table_ok(t, n_tables),
        value_ok(k, n_tables),
        value_ok(v, n_tables),
    ensures
        table_ok(table_store(t, k, v), n_tables),
    decreases t.len(),
{
    if t.len() == 0 {
        let s = table_store(t, k, v);
        assert(s == seq![(k, v)]);
        assert forall|j: int| 0 <= j < s.len() implies value_ok(#[trigger] s[j].0, n_tables)
            && value_ok(s[j].1, n_tables) by {
            assert(s[j] == (k, v));
        }
    } else if t.first().0 == k {
        let s = t.update(0, (k, v));
        assert forall|j: int| 0 <= j < s.len() implies value_ok(#[trigger] s[j].0, n_tables)
            && value_ok(s[j].1, n_tables) by {
            if j == 0 {
                assert(s[j] == (k, v));
            } else {
                assert(s[j] == t[j]);
            }
        }
    } else {
        assert forall|j: int| 0 <= j < t.drop_first().len() implies value_ok(
            #[trigger] t.drop_first()[j].0,
            n_tables,
        ) && value_ok(t.drop_first()[j].1, n_tables) by {
            assert(t.drop_first()[j] == t[j + 1]);
        }
        lemma_store_ok(t.drop_first(), k, v, n_tables);
        let s = seq![t.first()].add(table_store(t.drop_first(), k, v));
        assert forall|j: int| 0 <= j < s.len() implies value_ok(#[trigger] s[j].0, n_tables)
            && value_ok(s[j].1, n_tables) by {
            if j > 0 {
                assert(s[j] == table_store(t.drop_first(), k, v)[j - 1]);
            } else {
                assert(s[j] == t[0]);
                assert(value_ok(t[0].0, n_tables) && value_ok(t[0].1, n_tables));
            }
        }
        assert(table_ok(s, n_tables));
        assert(table_store(t, k, v) == s);
    }
}

/// The mathematical shape of one interpreter instance's observable state.
pub struct VmView {
    /// The operand stack, bottom first.
    pub stack: Seq<ValueView>,
    /// The table heap; the table at position 0 holds the globals.
    pub tables: Seq<TableView>,
    /// Which standard libraries are open.
    pub libs: LibFlags,
    /// The names of the registered foreign-data types, by their id.
    pub ctypes: Seq<Seq<char>>,
}

/// The id under which a foreign-data type name is registered from position
/// `i` on, or -1 where it is not.
pub open spec fn ctype_index_from(cts: Seq<Seq<char>>, name: Seq<char>, i: int) -> int
    decreases cts.len() - i,
{
    if i < 0 || i >= cts.len() {
        -1
    } else if cts[i] == name {
        i
    } else {
        ctype_index_from(cts, name, i + 1)
    }
}

/// Registering an absent name places it at the end of the registry.
pub proof fn lemma_ctype_register(cts: Seq<Seq<char>>, name: Seq<char>, i: int)
    requires
        0 <= i <= cts.len(),
        ctype_index_from(cts, name, i) < 0,
    ensures
        ctype_index_from(cts.push(name), name, i) == cts.len(),
    decreases cts.len() - i,
{
    if i < cts.len() {
        assert(cts.push(name)[i] == cts[i]);
        lemma_ctype_register(cts, name, i + 1);
    } else {
        assert(cts.push(name)[i] == name);
    }
}

/// Where the first `i` entries miss, the search can start at `i`.
pub proof fn lemma_ctype_index_skip(cts: Seq<Seq<char>>, name: Seq<char>, i: int)
    requires
        0 <= i <= cts.len(),
        forall|j: int| 0 <= j < i ==> cts[j] != name,
    ensures
        ctype_index_from(cts, name, 0) == ctype_index_from(cts, name, i),
    decreases i,
{
    if i > 0 {
        lemma_ctype_index_skip(cts, name, i - 1);
    }
}

impl VmView {
    /// Well-formedness: the globals table exists and every table reference
    /// on the stack or inside a table points into the heap.
    pub open spec fn wf(self) -> bool {
        &&& self.tables.len() >= 1
        &&& self.stack.len() <= usize::MAX
        &&& self.tables.len() <= usize::MAX
        &&& forall|i: int|
            0 <= i < self.stack.len() ==> value_ok(
                #[trigger] self.stack[i],
                self.tables.len() as int,
            )
        &&& forall|i: int|
            0 <= i < self.tables.len() ==> table_ok(
                #[trigger] self.tables[i],
                self.tables.len() as int,
            )
    }

    /// The globals table.
    pub open spec fn globals(self) -> TableView {
        self.tables[0]
    }

    /// The value of the global named `name`, nil where it is not set.
    pub open spec fn global_of(self, name: Seq<char>) -> ValueView {
        table_lookup(self.globals(), ValueView::Str(name))
    }

    /// The same state with another stack.
    pub open spec fn with_stack(self, stack: Seq<ValueView>) -> VmView {
        VmView { stack, tables: self.tables, libs: self.libs, ctypes: self.ctypes }
    }
}

/// The observable state of one interpreter instance; see the module text.
pub struct Vm {
    stack: Vec<LuaValue>,
    tables: Vec<Table>,
    libs: LibFlags,
    ctypes: Vec<String>,
}

impl View for Vm {
    type V = VmView;

    closed spec fn view(&self) -> VmView {
        VmView {
            stack: self.stack@.map_values(|v: LuaValue| v@),
            tables: self.tables@.map_values(|t: Table| t@),
            libs: self.libs,
            ctypes: self.ctypes@.map_values(|n: String| n@),
        }
    }
}

impl Vm {
    /// A fresh instance: empty stack, an empty globals table, no libraries.
    pub fn new() -> (vm: Vm)
        ensures
            vm@.stack =~= Seq::<ValueView>::empty(),
            vm@.tables =~= seq![Seq::<(ValueView, ValueView)>::empty()],
            vm@.libs == LibFlags::spec_none_open(),
            vm@.ctypes =~= Seq::<Seq<char>>::empty(),
            vm@.wf(),
    {
        let mut tables: Vec<Table> = Vec::new();
        tables.push(Table::empty());
        let vm = Vm { stack: Vec::new(), tables, ctypes: Vec::new(), libs: LibFlags {
            base: false,
            bit: false,
            debug: false,
            io: false,
            math: false,
            os: false,
            package: false,
            string_lib: false,
            table_lib: false,
        } };
        proof {
            assert(vm@.stack =~= Seq::<ValueView>::empty());
            assert(vm@.tables =~= seq![Seq::<(ValueView, ValueView)>::empty()]);
            assert(vm@.ctypes =~= Seq::<Seq<char>>::empty());
        }
        vm
    }

    /// The stack height.
    pub fn top(&self) -> (n: usize)
        ensures
            n == self@.stack.len(),
    {
        self.stack.len()
    }

    /// The number of tables in the heap.
    pub fn table_count(&self) -> (n: usize)
        ensures
            n == self@.tables.len(),
    {
        self.tables.len()
    }

    /// Which libraries are open.
    pub fn libs(&self) -> (l: LibFlags)
        ensures
            l == self@.libs,
    {
        self.libs
    }

    /// Records which libraries are open; stack and tables are untouched.
    pub fn set_libs(&mut self, libs: LibFlags)
        ensures
            final(self)@ == (VmView { libs, ..old(self)@ }),
            old(self)@.wf() ==> final(self)@.wf(),
    {
        self.libs = libs;
    }

    /// Pushes one value on top of the stack.
    pub fn push_value(&mut self, v: LuaValue)
        requires
            old(self)@.wf(),
            value_ok(v@, old(self)@.tables.len() as int),
        ensures
            final(self)@ == old(self)@.with_stack(old(self)@.stack.push(v@)),
            final(self)@.wf(),
    {
        let ghost prev = self@;
        self.stack.push(v);
        proof {
            broadcast use vstd::std_specs::vec::axiom_spec_len;
            assert(vstd::std_specs::vec::spec_vec_len(&self.stack) == self.stack@.len());
            assert(self@.stack =~= prev.stack.push(v@));
            assert(self@ == prev.with_stack(prev.stack.push(v@)));
        }
    }

    /// Removes the top `n` values from the stack.
    pub fn pop_n(&mut self, n: usize)
        requires
            old(self)@.wf(),
            n <= old(self)@.stack.len(),
        ensures
            final(self)@ == old(self)@.with_stack(
                old(self)@.stack.take(old(self)@.stack.len() - n as int),
            ),
            final(self)@.wf(),
    {
        let ghost prev = self@;
        let new_len = self.stack.len() - n;
        self.stack.truncate(new_len);
        proof {
            assert(self@.stack =~= prev.stack.take(prev.stack.len() - n as int));
            assert(self@ == prev.with_stack(prev.stack.take(prev.stack.len() - n as int)));
        }
    }

    /// The value at the absolute, 1-based stack position `abs`.
    pub fn value_at(&self, abs: usize) -> (r: LuaValue)
        requires
            1 <= abs <= self@.stack.len(),
        ensures
            r@ == self@.stack[abs - 1],
    {
        self.stack[abs - 1].clone()
    }

    /// Pushes the value of the global named `name` (nil where unset).
    pub fn push_global(&mut self, name: &str)
        requires
            old(self)@.wf(),
        ensures
            final(self)@ == old(self)@.with_stack(
                old(self)@.stack.push(old(self)@.global_of(name@)),
            ),
            final(self)@.wf(),
    {
        let key = LuaValue::Str(name.to_owned());
        let v = self.tables[0].lookup(&key);
        proof {
            assert(self@.tables[0] == self.tables@[0]@);
            lemma_lookup_ok(self@.tables[0], key@, self@.tables.len() as int);
        }
        self.push_value(v);
    }

    /// Pushes a reference to the globals table.
    pub fn push_global_table(&mut self)
        requires
            old(self)@.wf(),
        ensures
            final(self)@ == old(self)@.with_stack(
                old(self)@.stack.push(ValueView::Table(0)),
            ),
            final(self)@.wf(),
    {
        self.push_value(LuaValue::Table(0));
    }

    /// Creates a fresh empty table in the heap and pushes a reference to it.
    pub fn push_new_table(&mut self)
        requires
            old(self)@.wf(),
        ensures
            final(self)@.stack == old(self)@.stack.push(
                ValueView::Table(old(self)@.tables.len() as int),
            ),
            final(self)@.tables == old(self)@.tables.push(
                Seq::<(ValueView, ValueView)>::empty(),
            ),
            final(self)@.libs == old(self)@.libs,
            final(self)@.ctypes == old(self)@.ctypes,
            final(self)@.wf(),
    {
        let ghost prev = self@;
        let id = self.tables.len();
        self.tables.push(Table::empty());
        self.stack.push(LuaValue::Table(id));
        proof {
            broadcast use vstd::std_specs::vec::axiom_spec_len;
            assert(vstd::std_specs::vec::spec_vec_len(&self.stack) == self.stack@.len());
            assert(vstd::std_specs::vec::spec_vec_len(&self.tables) == self.tables@.len());
            assert(self@.tables =~= prev.tables.push(Seq::<(ValueView, ValueView)>::empty()));
            assert(self@.stack =~= prev.stack.push(ValueView::Table(prev.tables.len() as int)));
            lemma_wf_grow(prev, self@);
        }
    }

    /// The value a table in the heap associates with `key`.
    pub fn table_get(&self, id: usize, key: &LuaValue) -> (r: LuaValue)
        requires
            id < self@.tables.len(),
        ensures
            r@ == table_lookup(self@.tables[id as int], key@),
    {
        proof {
            assert(self@.tables[id as int] == self.tables@[id as int]@);
        }
        self.tables[id].lookup(key)
    }

    /// Associates `key` with `value` in the table `id`.
    pub fn table_set(&mut self, id: usize, key: LuaValue, value: LuaValue)
        requires
            old(self)@.wf(),
            id < old(self)@.tables.len(),
            value_ok(key@, old(self)@.tables.len() as int),
            value_ok(value@, old(self)@.tables.len() as int),
        ensures
            final(self)@.stack == old(self)@.stack,
            final(self)@.libs == old(self)@.libs,
            final(self)@.ctypes == old(self)@.ctypes,
            final(self)@.tables == old(self)@.tables.update(
                id as int,
                table_store(old(self)@.tables[id as int], key@, value@),
            ),
            final(self)@.wf(),
    {
        let ghost prev = self@;
        let ghost k = key@;
        let ghost v = value@;
        let t = vstd::std_specs::vec::vec_index_mut(&mut self.tables, id);
        t.store(key, value);
        proof {
            assert(self@.tables =~= prev.tables.update(
                id as int,
                table_store(prev.tables[id as int], k, v),
            ));
            assert(self@.stack =~= prev.stack);
            assert(self@ == (VmView {
                tables: prev.tables.update(
                    id as int,
                    table_store(prev.tables[id as int], k, v),
                ),
                ..prev
            }));
            lemma_store_ok(prev.tables[id as int], k, v, prev.tables.len() as int);
            assert forall|i: int| 0 <= i < self@.tables.len() implies table_ok(
                #[trigger] self@.tables[i],
                self@.tables.len() as int,
            ) by {
                if i != id as int {
                    assert(self@.tables[i] == prev.tables[i]);
                }
            }
        }
    }

    /// The id of the foreign-data type named `name`, registering it on
    /// first use; later calls with the same name yield the same id.
    pub fn ctype_id(&mut self, name: &str) -> (id: usize)
        ensures
            final(self)@.stack == old(self)@.stack,
            final(self)@.tables == old(self)@.tables,
            final(self)@.libs == old(self)@.libs,
            old(self)@.wf() ==> final(self)@.wf(),
            ({
                let idx = ctype_index_from(old(self)@.ctypes, name@, 0);
                if idx >= 0 {
                    final(self)@.ctypes == old(self)@.ctypes && id as int == idx
                } else {
                    final(self)@.ctypes == old(self)@.ctypes.push(name@) && id as int == old(
                        self,
                    )@.ctypes.len()
                }
            }),
            ctype_index_from(final(self)@.ctypes, name@, 0) == id as int,
    {
        let ghost cts = self@.ctypes;
        let n = self.ctypes.len();
        let mut i: usize = 0;
        while i < n
            invariant
                i <= n,
                n == self.ctypes.len(),
                self == old(self),
                cts == self@.ctypes,
                forall|j: int| 0 <= j < i ==> cts[j] != name@,
            decreases n - i,
        {
            proof {
                assert(cts[i as int] == self.ctypes@[i as int]@);
            }
            if crate::util::str_eq(self.ctypes[i].as_str(), name) {
                proof {
                    lemma_ctype_index_skip(cts, name@, i as int);
                }
                return i;
            }
            i += 1;
        }
        proof {
            lemma_ctype_index_skip(cts, name@, n as int);
            lemma_ctype_register(cts, name@, 0);
        }
        self.ctypes.push(name.to_owned());
        proof {
            assert(self@.ctypes =~= cts.push(name@));
            assert(self@.stack =~= old(self)@.stack);
            assert(self@.tables =~= old(self)@.tables);
        }
        n
    }

    /// The id of the foreign-data type named `name`, where it is already
    /// registered.
    pub fn find_ctype(&self, name: &str) -> (r: Option<usize>)
        ensures
            match r {
                Some(id) => id as int == ctype_index_from(self@.ctypes, name@, 0),
                None => ctype_index_from(self@.ctypes, name@, 0) < 0,
            },
    {
        let ghost cts = self@.ctypes;
        let n = self.ctypes.len();
        let mut i: usize = 0;
        while i < n
            invariant
                i <= n,
                n == self.ctypes.len(),
                cts == self@.ctypes,
                forall|j: int| 0 <= j < i ==> cts[j] != name@,
            decreases n - i,
        {
            proof {
                assert(cts[i as int] == self.ctypes@[i as int]@);
            }
            if crate::util::str_eq(self.ctypes[i].as_str(), name) {
                proof {
                    lemma_ctype_index_skip(cts, name@, i as int);
                }
                return Some(i);
            }
            i += 1;
        }
        proof {
            lemma_ctype_index_skip(cts, name@, n as int);
        }
        None
    }

    /// The value of the global named `name` (nil where unset); a read that
    /// leaves the stack alone, for callers outside the stack protocol.
    pub fn global_get(&self, name: &str) -> (r: LuaValue)
        requires
            self@.wf(),
        ensures
            r@ == self@.global_of(name@),
    {
        let key = LuaValue::Str(name.to_owned());
        proof {
            assert(self@.tables[0] == self.tables@[0]@);
        }
        self.tables[0].lookup(&key)
    }
}

/// Whether a value may live in a state with `n_tables` tables, decided at
/// run time.
pub fn check_value_ok(v: &LuaValue, n_tables: usize) -> (r: bool)
    ensures
        r == value_ok(v@, n_tables as int),
{
    match v {
        LuaValue::Table(id) => *id < n_tables,
        _ => true,
    }
}

impl Vm {
    /// A copy of the globals table, for handing to an execution engine.
    pub fn globals_snapshot(&self) -> (t: Table)
        requires
            self@.wf(),
        ensures
            t@ == self@.globals(),
    {
        proof {
            assert(self@.tables[0] == self.tables@[0]@);
        }
        self.tables[0].clone()
    }
}

/// A looked-up value of a well-formed table is itself well-formed.
pub proof fn lemma_lookup_ok(t: TableView, k: ValueView, n_tables: int)
    requires
        table_ok(t, n_tables),
    ensures
        value_ok(table_lookup(t, k), n_tables),
    decreases t.len(),
{
    if t.len() == 0 {
    } else if t.first().0 == k {
        assert(t[0] == t.first());
    } else {
        assert forall|j: int| 0 <= j < t.drop_first().len() implies value_ok(
            #[trigger] t.drop_first()[j].0,
            n_tables,
        ) && value_ok(t.drop_first()[j].1, n_tables) by {
            assert(t.drop_first()[j] == t[j + 1]);
        }
        lemma_lookup_ok(t.drop_first(), k, n_tables);
    }
}

/// Growing the heap by one table keeps every old reference valid.
proof fn lemma_wf_grow(prev: VmView, cur: VmView)
    requires
        prev.wf(),
        cur.stack == prev.stack.push(ValueView::Table(prev.tables.len() as int)),
        cur.tables == prev.tables.push(Seq::<(ValueView, ValueView)>::empty()),
        cur.stack.len() <= usize::MAX,
        cur.tables.len() <= usize::MAX,
    ensures
        cur.wf(),
{
    let n = cur.tables.len() as int;
    assert forall|i: int| 0 <= i < cur.stack.len() implies value_ok(#[trigger] cur.stack[i], n) by {
        if i < prev.stack.len() {
            assert(cur.stack[i] == prev.stack[i]);
            assert(value_ok(prev.stack[i], n - 1));
        }
    }
    assert forall|i: int| 0 <= i < cur.tables.len() implies table_ok(#[trigger] cur.tables[i], n) by {
        if i < prev.tables.len() {
            assert(cur.tables[i] == prev.tables[i]);
            assert(table_ok(prev.tables[i], n - 1));
            assert forall|j: int| 0 <= j < cur.tables[i].len() implies value_ok(
                #[trigger] cur.tables[i][j].0,
                n,
            ) && value_ok(cur.tables[i][j].1, n) by {
                assert(value_ok(prev.tables[i][j].0, n - 1));
                assert(value_ok(prev.tables[i][j].1, n - 1));
            }
        }
    }
}

} // verus!
