use lua_bridge::AbsoluteIndex;
use lua_bridge::AsLua;
use lua_bridge::ChunkInput;
use lua_bridge::ChunkOutcome;
use lua_bridge::FloatBits;
use lua_bridge::Lua;
use lua_bridge::LuaError;
use lua_bridge::LuaRead;
use lua_bridge::LuaValue;
use lua_bridge::Nil;
use lua_bridge::Push;
use lua_bridge::PushGuard;
use lua_bridge::dispatch_callback;
use lua_bridge::lua_typename;
use lua_bridge::push_no_err;

#[test]
fn push_and_read_integer_round_trip() {
    let mut lua = Lua::new();
    let Ok(g) = 12i32.push_to_lua(&mut lua) else {
        panic!("push failed")
    };
    assert_eq!(g.size(), 1);
    let (n, handle) = g.release();
    assert_eq!(n, 1);
    let v: Option<i32> = LuaRead::lua_read(&handle);
    assert_eq!(v, Some(12));
    handle.pop_slots(1);
    assert_eq!(lua.stack_top(), 0);
}

#[test]
fn push_and_read_bool_and_float_round_trip() {
    let mut lua = Lua::new();
    let Ok(g) = true.push_to_lua(&mut lua) else {
        panic!("push failed")
    };
    let v: Option<bool> = LuaRead::lua_read(&g);
    assert_eq!(v, Some(true));
    let handle = g.into_inner();

    let bits = FloatBits { bits: 1.5f64.to_bits() };
    let Ok(g) = bits.push_to_lua(handle) else {
        panic!("push failed")
    };
    let v: Option<FloatBits> = LuaRead::lua_read(&g);
    let got = v.expect("float did not read back");
    assert_eq!(f64::from_bits(got.bits), 1.5f64);
    g.into_inner();
    assert_eq!(lua.stack_top(), 0);
}

#[test]
fn push_and_read_text_round_trip() {
    let mut lua = Lua::new();
    let Ok(g) = "hello".push_to_lua(&mut lua) else {
        panic!("push failed")
    };
    let v: Option<String> = LuaRead::lua_read(&g);
    assert_eq!(v.as_deref(), Some("hello"));
    g.into_inner();

    let Ok(g) = String::new().push_to_lua(&mut lua) else {
        panic!("push failed")
    };
    let v: Option<String> = LuaRead::lua_read(&g);
    assert_eq!(v.as_deref(), Some(""));
    g.into_inner();
    assert_eq!(lua.stack_top(), 0);
}

#[test]
fn integer_bounds_round_trip() {
    let mut lua = Lua::new();
    lua.set("big", i32::MAX);
    assert_eq!(lua.get::<i32>("big"), Some(i32::MAX));
    lua.set("small", i32::MIN);
    assert_eq!(lua.get::<i32>("small"), Some(i32::MIN));
    lua.set("wide", u32::MAX);
    assert_eq!(lua.get::<u32>("wide"), Some(u32::MAX));
    // a value out of i32 range does not read back as i32
    assert_eq!(lua.get::<i32>("wide"), None);
    assert_eq!(lua.stack_top(), 0);
}

#[test]
fn nil_reads_only_nil() {
    let mut lua = Lua::new();
    let Ok(g) = Nil.push_to_lua(&mut lua) else {
        panic!("push failed")
    };
    let v: Option<Nil> = LuaRead::lua_read(&g);
    assert_eq!(v, Some(Nil));
    let v: Option<i32> = LuaRead::lua_read(&g);
    assert_eq!(v, None);
    g.into_inner();
}

#[test]
fn tuple_push_and_read() {
    let mut lua = Lua::new();
    let Ok(g) = (7i32, true).push_to_lua(&mut lua) else {
        panic!("push failed")
    };
    assert_eq!(g.size(), 2);
    let v: Option<(i32, bool)> = LuaRead::lua_read(&g);
    assert_eq!(v, Some((7, true)));
    g.into_inner();
    assert_eq!(lua.stack_top(), 0);
}

#[test]
fn dynamic_value_read_is_total() {
    let mut lua = Lua::new();
    let Ok(g) = false.push_to_lua(&mut lua) else {
        panic!("push failed")
    };
    let v: Option<LuaValue> = LuaRead::lua_read(&g);
    assert!(matches!(v, Some(LuaValue::Boolean(false))));
    g.into_inner();
}

#[test]
fn zero_index_is_absent_sentinel() {
    let lua = Lua::new();
    // nil and the empty tuple decode "no value at all"; an integer does not
    let v: Option<Nil> = LuaRead::lua_read_at_maybe_zero_position(&lua, 0);
    assert_eq!(v, Some(Nil));
    let v: Option<()> = LuaRead::lua_read_at_maybe_zero_position(&lua, 0);
    assert_eq!(v, Some(()));
    let v: Option<i32> = LuaRead::lua_read_at_maybe_zero_position(&lua, 0);
    assert_eq!(v, None);
}

#[test]
fn typename_rendering_single_and_many() {
    let mut lua = Lua::new();
    let Ok(g) = 3i32.push_to_lua(&mut lua) else {
        panic!("push failed")
    };
    assert_eq!(lua_typename(&g, 1), "number");
    let Ok(g2) = true.push_to_lua(g) else {
        panic!("push failed")
    };
    // topmost first
    assert_eq!(lua_typename(&g2, 2), "(boolean, number)");
    let g = g2.into_inner();
    g.into_inner();
}

#[test]
fn wrong_type_reports_boolean_against_integer() {
    let mut lua = Lua::new();
    let Ok(g) = true.push_to_lua(&mut lua) else {
        panic!("push failed")
    };
    let v: Option<i32> = LuaRead::lua_read(&g);
    assert_eq!(v, None);
    let e = LuaError::wrong_type::<i32, _>(&g, 1);
    match &e {
        LuaError::WrongType { rust_expected, lua_actual } => {
            assert_eq!(rust_expected, "i32");
            assert_eq!(lua_actual, "boolean");
        },
        other => panic!("unexpected error: {:?}", other),
    }
    assert_eq!(e.message(), "Wrong type returned by Lua: i32 expected, got boolean");
    g.into_inner();
}

#[test]
fn stack_balance_across_operations() {
    let mut lua = Lua::new();
    assert_eq!(lua.stack_top(), 0);
    lua.set("a", 1i32);
    assert_eq!(lua.stack_top(), 0);
    let _ = lua.get::<i32>("a");
    assert_eq!(lua.stack_top(), 0);
    let Ok(g) = ("x", 2i32, false).push_to_lua(&mut lua) else {
        panic!("push failed")
    };
    assert_eq!(g.size(), 3);
    g.into_inner();
    assert_eq!(lua.stack_top(), 0);
}

#[test]
fn guard_forget_transfers_the_obligation() {
    let mut lua = Lua::new();
    let Ok(g) = 5i32.push_to_lua(&mut lua) else {
        panic!("push failed")
    };
    let n = g.forget();
    assert_eq!(n, 1);
    // the slot stayed behind; the caller owns it now
    assert_eq!(lua.stack_top(), 1);
    lua.pop_slots(1);
    assert_eq!(lua.stack_top(), 0);
}

#[test]
fn nested_guard_composition() {
    let mut lua = Lua::new();
    lua.set("g", 9i32);
    let base = lua.stack_top();

    // outer: push a global under a guard
    lua.push_global_slot("g");
    let mut outer = PushGuard::new(&mut lua, 1);

    // inner: a further slot pushed through the outer guard
    outer.push_global_slot("g");
    let inner = PushGuard::new(outer, 1);

    // disarm the inner guard: its slot stays, the outer guard comes back
    let (n, outer) = inner.release();
    assert_eq!(n, 1);

    // dropping the outer guard pops exactly the outer count, not both
    let handle = outer.into_inner();
    assert_eq!(handle.stack_top(), base + 1);
    handle.pop_slots(1);
    assert_eq!(lua.stack_top(), base);
}

#[test]
fn into_get_returns_guard_on_absent_global() {
    let lua = Lua::new();
    match lua.into_get::<i32>("missing") {
        Ok(_) => panic!("unexpected success"),
        Err(guard) => {
            assert_eq!(guard.size(), 1);
            let lua = guard.into_inner();
            assert_eq!(lua.stack_top(), 0);
        },
    }
}

#[test]
fn into_get_reads_a_present_global() {
    let mut lua = Lua::new();
    lua.set("a", 41i32);
    match lua.into_get::<i32>("a") {
        Ok(v) => assert_eq!(v, 41),
        Err(_) => panic!("unexpected failure"),
    }
}

#[test]
fn get_collapses_absent_and_wrong_type() {
    let mut lua = Lua::new();
    assert_eq!(lua.get::<i32>("nothing"), None);
    lua.set("flag", true);
    assert_eq!(lua.get::<i32>("flag"), None);
    assert_eq!(lua.get::<bool>("flag"), Some(true));
}

#[test]
fn checked_set_always_succeeds_for_scalars() {
    let mut lua = Lua::new();
    assert!(lua.checked_set("a", 3i32).is_ok());
    assert_eq!(lua.get::<i32>("a"), Some(3));
    assert!(lua.checked_set("a", "text").is_ok());
    assert_eq!(lua.get::<String>("a").as_deref(), Some("text"));
}

#[test]
fn empty_array_and_table_access() {
    let mut lua = Lua::new();
    {
        let array = lua.empty_array("my_values");
        let array = array.set(LuaValue::Integer(1), LuaValue::Integer(10));
        let array = array.set(LuaValue::Integer(2), LuaValue::Integer(15));
        let array = array.set(LuaValue::Integer(3), LuaValue::Integer(20));
        let (v, array) = array.get::<i32>(LuaValue::Integer(2));
        assert_eq!(v, Some(15));
        // writing the same key again replaces the association
        let array = array.set(LuaValue::Integer(2), LuaValue::Integer(99));
        let (v, array) = array.get::<i32>(LuaValue::Integer(2));
        assert_eq!(v, Some(99));
        let (v, array) = array.get::<i32>(LuaValue::Integer(7));
        assert_eq!(v, None);
        array.into_inner();
    }
    assert!(matches!(lua.get::<LuaValue>("my_values"), Some(LuaValue::Table(_))));
    assert_eq!(lua.stack_top(), 0);
}

#[test]
fn globals_table_writes_globals() {
    let mut lua = Lua::new();
    {
        let t = lua.globals_table();
        let t = t.set(LuaValue::Str("a".to_string()), LuaValue::Integer(5));
        t.into_inner();
    }
    assert_eq!(lua.get::<i32>("a"), Some(5));
}

#[test]
fn execute_scenario_assign_then_get() {
    let mut lua = Lua::new();
    let engine = |input: ChunkInput| -> ChunkOutcome {
        assert_eq!(input.source, "a = 12 * 5");
        ChunkOutcome::Done(vec![("a".to_string(), LuaValue::Integer(60))], vec![])
    };
    lua.execute::<(), _>(engine, "a = 12 * 5").unwrap();
    assert_eq!(lua.get::<i32>("a"), Some(60));
    assert_eq!(lua.stack_top(), 0);
}

#[test]
fn execute_scenario_set_then_divide() {
    let mut lua = Lua::new();
    lua.set("a", 12i32);
    let engine = |input: ChunkInput| -> ChunkOutcome {
        assert_eq!(input.source, "return a / 2");
        assert!(input.globals.len() >= 1);
        let (key, _) = input.globals.entry_at(0);
        assert!(matches!(key, LuaValue::Str(_)));
        match input.globals.lookup(&LuaValue::Str("a".to_string())) {
            LuaValue::Integer(n) => ChunkOutcome::Done(vec![], vec![LuaValue::Integer(n / 2)]),
            _ => ChunkOutcome::Runtime("not a number".to_string()),
        }
    };
    let six: i32 = lua.execute(engine, "return a / 2").unwrap();
    assert_eq!(six, 6);
    assert_eq!(lua.stack_top(), 0);
}

#[test]
fn execute_classifies_compile_failures() {
    let mut lua = Lua::new();
    let engine =
        |_input: ChunkInput| -> ChunkOutcome { ChunkOutcome::Syntax("unexpected symbol".into()) };
    match lua.execute::<(), _>(engine, "a = = 1") {
        Err(LuaError::SyntaxError(m)) => assert_eq!(m, "unexpected symbol"),
        other => panic!("unexpected outcome: {:?}", other.map(|_| ())),
    }
    assert_eq!(lua.stack_top(), 0);
}

#[test]
fn execute_reports_wrong_result_type() {
    let mut lua = Lua::new();
    let engine = |_input: ChunkInput| -> ChunkOutcome {
        ChunkOutcome::Done(vec![], vec![LuaValue::Boolean(true)])
    };
    match lua.execute::<i32, _>(engine, "return true") {
        Err(LuaError::WrongType { rust_expected, lua_actual }) => {
            assert_eq!(rust_expected, "i32");
            assert_eq!(lua_actual, "boolean");
        },
        other => panic!("unexpected outcome: {:?}", other),
    }
    assert_eq!(lua.stack_top(), 0);
}

#[test]
fn execute_reports_missing_results() {
    let mut lua = Lua::new();
    let engine = |_input: ChunkInput| -> ChunkOutcome { ChunkOutcome::Done(vec![], vec![]) };
    match lua.execute::<i32, _>(engine, "return") {
        Err(LuaError::WrongType { rust_expected, lua_actual }) => {
            assert_eq!(rust_expected, "i32");
            assert_eq!(lua_actual, "(no value)");
        },
        other => panic!("unexpected outcome: {:?}", other),
    }
}

#[test]
fn execute_refuses_foreign_table_references() {
    let mut lua = Lua::new();
    let engine = |_input: ChunkInput| -> ChunkOutcome {
        ChunkOutcome::Done(vec![], vec![LuaValue::Table(999)])
    };
    match lua.execute::<LuaValue, _>(engine, "return mystery") {
        Err(LuaError::ExecutionError(m)) => assert_eq!(m, "invalid value from chunk"),
        other => panic!("unexpected outcome: {:?}", other.map(|_| ())),
    }
}

fn base_library_engine(input: ChunkInput) -> ChunkOutcome {
    if input.libs.base {
        ChunkOutcome::Done(vec![], vec![LuaValue::Boolean(true)])
    } else {
        ChunkOutcome::Runtime("attempt to call global 'assert' (a nil value)".to_string())
    }
}

#[test]
fn open_base_opens_base_library() {
    let mut lua = Lua::new();
    match lua.execute::<(), _>(base_library_engine, "return assert(true)") {
        Err(LuaError::ExecutionError(_)) => {},
        Err(_) => panic!("Wrong error"),
        Ok(_) => panic!("Unexpected success"),
    }
    lua.open_base();
    let result: bool = lua.execute(base_library_engine, "return assert(true)").unwrap();
    assert_eq!(result, true);
}

#[test]
fn opening_all_libraries_doesnt_panic() {
    let mut lua = Lua::new();
    lua.open_base();
    lua.open_bit();
    lua.open_debug();
    lua.open_io();
    lua.open_math();
    lua.open_os();
    lua.open_package();
    lua.open_string();
    lua.open_table();
}

#[test]
fn callback_with_wrong_argument_type_surfaces_as_execution_error() {
    let mut lua = Lua::new();
    // the interpreter put a text argument on the stack before the call
    let Ok(g) = "x".push_to_lua(&mut lua) else {
        panic!("push failed")
    };
    let (_, _) = g.release();
    let double = |x: i32| -> i32 { x * 2 };
    match dispatch_callback::<Lua, i32, i32, _>(&mut lua, &double) {
        Err(e) => {
            match &e {
                LuaError::WrongType { rust_expected, lua_actual } => {
                    assert_eq!(rust_expected, "i32");
                    assert_eq!(lua_actual, "string");
                },
                other => panic!("unexpected error: {:?}", other),
            }
            // raised into the interpreter, it surfaces as an execution error
            let raised = LuaError::ExecutionError(e.message());
            let text = raised.message();
            assert!(text.contains("i32"));
            assert!(text.contains("string"));
        },
        Ok(_) => panic!("unexpected success"),
    }
    lua.pop_slots(1);
    assert_eq!(lua.stack_top(), 0);
}

#[test]
fn callback_with_correct_argument_returns_its_result() {
    let mut lua = Lua::new();
    let Ok(g) = 21i32.push_to_lua(&mut lua) else {
        panic!("push failed")
    };
    let (_, _) = g.release();
    let double = |x: i32| -> i32 { x * 2 };
    let n = dispatch_callback::<Lua, i32, i32, _>(&mut lua, &double).unwrap();
    assert_eq!(n, 1);
    let v: Option<i32> = LuaRead::lua_read(&lua);
    assert_eq!(v, Some(42));
    lua.pop_slots(2);
    assert_eq!(lua.stack_top(), 0);
}

#[test]
fn absolute_index_resolution() {
    let mut lua = Lua::new();
    let Ok(g) = (1i32, 2i32, 3i32).push_to_lua(&mut lua) else {
        panic!("push failed")
    };
    assert_eq!(AbsoluteIndex::new(-1, &g).position(), 3);
    assert_eq!(AbsoluteIndex::new(-3, &g).position(), 1);
    assert_eq!(AbsoluteIndex::new(2, &g).position(), 2);
    g.into_inner();
}

#[test]
fn push_without_error_path() {
    let mut lua = Lua::new();
    let g = push_no_err(4i32, &mut lua);
    assert_eq!(g.size(), 1);
    let v: Option<i32> = LuaRead::lua_read(&g);
    assert_eq!(v, Some(4));
    g.into_inner();
    assert_eq!(lua.stack_top(), 0);
}
