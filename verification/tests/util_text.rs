use lua_bridge::DisplayAsHexBytes;
use lua_bridge::IntoClones;
use lua_bridge::NumOrStr;
use lua_bridge::str_eq;
use lua_bridge::util::render_i64;
use lua_bridge::util::render_u64;
use lua_bridge::util::replace_nul_bytes;

#[test]
fn str_eq_compares_contents() {
    assert!(str_eq("", ""));
    assert!(str_eq("abc", "abc"));
    assert!(!str_eq("abc", "abd"));
    assert!(!str_eq("abc", "abcd"));
    assert!(str_eq("na\u{ef}ve", "na\u{ef}ve"));
}

#[test]
fn decimal_rendering() {
    assert_eq!(render_u64(0), "0");
    assert_eq!(render_u64(7), "7");
    assert_eq!(render_u64(105), "105");
    assert_eq!(render_u64(u64::MAX), "18446744073709551615");
    assert_eq!(render_i64(-38), "-38");
    assert_eq!(render_i64(i64::MIN), "-9223372036854775808");
    assert_eq!(render_i64(42), "42");
}

#[test]
fn num_or_str_renders_and_defaults() {
    assert_eq!(NumOrStr::default(), NumOrStr::Num(0));
    assert_eq!(NumOrStr::from(17u32), NumOrStr::Num(17));
    assert_eq!(NumOrStr::from("x".to_string()), NumOrStr::Str("x".to_string()));
    assert_eq!(NumOrStr::Num(17).to_text(), "17");
    assert_eq!(NumOrStr::Str("seventeen".to_string()).to_text(), "seventeen");
}

#[test]
fn into_clones_fans_out() {
    let (a, b, c) = String::from("v").into_clones();
    assert_eq!(a, "v");
    assert_eq!(b, "v");
    assert_eq!(c, "v");
    let (x, y) = 5i32.into_clones();
    assert_eq!((x, y), (5, 5));
    let (only,) = true.into_clones();
    assert!(only);
}

#[test]
fn hex_bytes_rendering() {
    let s = DisplayAsHexBytes(&[1, 2, 3]).render();
    assert_eq!(s, r#"b"\x01\x02\x03""#);
    assert_eq!(DisplayAsHexBytes(&[]).render(), r#"b"""#);
    assert_eq!(DisplayAsHexBytes(&[0xff, 0x0a]).render(), r#"b"\xff\x0a""#);
}

#[test]
fn check_to_cstring_lossy() {
    let message = String::from("hell\0 w\0rld\0");
    assert!(message.as_bytes().contains(&0));
    let replaced = replace_nul_bytes(message.as_bytes());
    assert!(!replaced.contains(&0));
    assert_eq!(
        String::from_utf8(replaced).unwrap(),
        "hell\u{fffd} w\u{fffd}rld\u{fffd}"
    );
}
