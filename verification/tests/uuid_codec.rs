use lua_bridge::AsLua;
use lua_bridge::Lua;
use lua_bridge::LuaRead;
use lua_bridge::MP_UUID;
use lua_bridge::TtUuid;
use lua_bridge::lua_typename;
use lua_bridge::Uuid;
use lua_bridge::uuid::DecodeError;
use lua_bridge::uuid::ParseError;

const SAMPLE: [u8; 16] = [
    0x93, 0x6d, 0xa0, 0x1f, 0x9a, 0xbd, 0x4d, 0x9d, 0x80, 0xc7, 0x02, 0xaf, 0x85, 0xc8, 0x22,
    0xa8,
];

#[test]
fn bytes_round_trip() {
    let u = Uuid::from_bytes(SAMPLE);
    assert_eq!(u.as_bytes(), &SAMPLE);
    assert_eq!(Uuid::try_from_slice(&SAMPLE), Some(u));
    assert_eq!(Uuid::try_from_slice(&SAMPLE[..15]), None);
    assert_eq!(Uuid::try_from_slice(&[0u8; 17]), None);
}

#[test]
fn nil_is_all_zero() {
    let n = Uuid::nil();
    assert!(n.is_nil());
    assert_eq!(n.as_bytes(), &[0u8; 16]);
    assert!(!Uuid::from_bytes(SAMPLE).is_nil());
    assert_eq!(Uuid::default(), Uuid::nil());
    assert_eq!(n.to_hyphenated().render(), "00000000-0000-0000-0000-000000000000");
}

#[test]
fn native_record_round_trip() {
    let u = Uuid::from_bytes(SAMPLE);
    let tt = u.to_tt_uuid();
    assert_eq!(tt.time_low, 0x936da01f);
    assert_eq!(tt.time_mid, 0x9abd);
    assert_eq!(tt.time_hi_and_version, 0x4d9d);
    assert_eq!(tt.clock_seq_hi_and_reserved, 0x80);
    assert_eq!(tt.clock_seq_lo, 0xc7);
    assert_eq!(tt.node, [0x02, 0xaf, 0x85, 0xc8, 0x22, 0xa8]);
    assert_eq!(Uuid::from_tt_uuid(tt), u);

    let tt2 = TtUuid {
        time_low: 0x01020304,
        time_mid: 0x0506,
        time_hi_and_version: 0x0708,
        clock_seq_hi_and_reserved: 0x09,
        clock_seq_lo: 0x0a,
        node: [0x0b, 0x0c, 0x0d, 0x0e, 0x0f, 0x10],
    };
    let u2 = Uuid::from_tt_uuid(tt2);
    assert_eq!(
        u2.as_bytes(),
        &[1, 2, 3, 4, 5, 6, 7, 8, 9, 0x0a, 0x0b, 0x0c, 0x0d, 0x0e, 0x0f, 0x10]
    );
    assert_eq!(u2.to_tt_uuid(), tt2);
}

#[test]
fn msgpack_encoding_is_a_fixext16() {
    let u = Uuid::from_bytes(SAMPLE);
    let wire = u.to_msgpack();
    assert_eq!(wire.len(), 18);
    assert_eq!(wire[0], 0xd8);
    assert_eq!(wire[1], MP_UUID as u8);
    assert_eq!(&wire[2..], &SAMPLE);
    assert_eq!(Uuid::from_msgpack(&wire), Ok(u));
}

#[test]
fn msgpack_encoding_matches_the_reference_codec() {
    struct ExtProbe<'a>(i8, &'a [u8]);
    impl serde::Serialize for ExtProbe<'_> {
        fn serialize<S: serde::Serializer>(&self, s: S) -> Result<S::Ok, S::Error> {
            s.serialize_newtype_struct(
                rmp_serde::MSGPACK_EXT_STRUCT_NAME,
                &(self.0, serde_bytes::Bytes::new(self.1)),
            )
        }
    }
    let u = Uuid::from_bytes(SAMPLE);
    let reference = rmp_serde::to_vec(&ExtProbe(MP_UUID, &SAMPLE)).unwrap();
    assert_eq!(u.to_msgpack(), reference);

    let mut rd = &reference[..];
    let meta = rmp::decode::read_ext_meta(&mut rd).unwrap();
    assert_eq!(meta.typeid, MP_UUID);
    assert_eq!(meta.size, 16);
}

#[test]
fn msgpack_decoding_accepts_other_ext_framings() {
    // the same identifier framed as ext8 instead of fixext16
    let mut wire = vec![0xc7u8, 16, MP_UUID as u8];
    wire.extend_from_slice(&SAMPLE);
    assert_eq!(Uuid::from_msgpack(&wire), Ok(Uuid::from_bytes(SAMPLE)));
}

#[test]
fn msgpack_decoding_rejects_each_departure() {
    assert_eq!(Uuid::from_msgpack(&[]), Err(DecodeError::NotExt));
    assert_eq!(Uuid::from_msgpack(&[0x00, 1, 2]), Err(DecodeError::NotExt));
    assert_eq!(Uuid::from_msgpack(&[0xd8, 2, 0, 0]), Err(DecodeError::Truncated));
    assert_eq!(Uuid::from_msgpack(&[0xc7]), Err(DecodeError::Truncated));
    assert_eq!(
        Uuid::from_msgpack(&[0xd4, 2, 0, 9]),
        Err(DecodeError::TrailingBytes)
    );

    let mut wrong_kind = vec![0xd8u8, 5];
    wrong_kind.extend_from_slice(&SAMPLE);
    let e = Uuid::from_msgpack(&wrong_kind);
    assert_eq!(e, Err(DecodeError::WrongExtType(5)));
    assert_eq!(
        e.unwrap_err().message(),
        "Expected UUID, found msgpack ext #5"
    );

    let short = [0xc7u8, 4, 2, 1, 2, 3, 4];
    let e = Uuid::from_msgpack(&short);
    assert_eq!(e, Err(DecodeError::WrongLength(4)));
    assert_eq!(
        e.unwrap_err().message(),
        "Not enough bytes for UUID: expected 16, got 4"
    );
}

#[test]
fn parse_accepts_the_three_forms() {
    let simple = "936da01f9abd4d9d80c702af85c822a8";
    let hyphenated = "936da01f-9abd-4d9d-80c7-02af85c822a8";
    let urn = "urn:uuid:936da01f-9abd-4d9d-80c7-02af85c822a8";
    let mixed_case = "936DA01F9ABD4d9d80C702AF85C822A8";
    for text in [simple, hyphenated, urn, mixed_case] {
        let u = Uuid::parse_str(text).unwrap();
        assert_eq!(u.as_bytes(), &SAMPLE);
    }
}

#[test]
fn parse_matches_the_reference_parser() {
    let inputs = [
        "936da01f9abd4d9d80c702af85c822a8",
        "936da01f-9abd-4d9d-80c7-02af85c822a8",
        "urn:uuid:936da01f-9abd-4d9d-80c7-02af85c822a8",
        "936DA01F9ABD4d9d80C702AF85C822A8",
        "00000000-0000-0000-0000-000000000000",
        "F9168C5E-CEB2-4faa-B6BF-329BF39FA1E4",
    ];
    for text in inputs {
        let ours = Uuid::parse_str(text).unwrap();
        let reference = ::uuid::Uuid::parse_str(text).unwrap();
        assert_eq!(ours.as_bytes(), reference.as_bytes());
    }
    let bad = [
        "",
        "!",
        "936da01f9abd4d9d80c702af85c822a",
        "936da01f9abd4d9d80c702af85c822a8x",
        "936da01f-9abd-4d9d-80c7-02af85c822a&",
        "93-6da01f9abd-4d9d-80c7-02af85c822a8",
        "urn:uuXd:936da01f-9abd-4d9d-80c7-02af85c822a8",
    ];
    for text in bad {
        assert!(Uuid::parse_str(text).is_err(), "accepted {:?}", text);
        assert!(::uuid::Uuid::parse_str(text).is_err(), "reference accepted {:?}", text);
    }
}

#[test]
fn parse_reports_exact_failures() {
    assert_eq!(
        Uuid::parse_str("abc"),
        Err(ParseError::InvalidLength { found: 3 })
    );
    // the urn length without the urn prefix is a length failure
    assert_eq!(
        Uuid::parse_str("urn:uuXd:936da01f-9abd-4d9d-80c7-02af85c822a8"),
        Err(ParseError::InvalidLength { found: 45 })
    );
    // a bad character in the simple form, at its position
    assert_eq!(
        Uuid::parse_str("936da01g9abd4d9d80c702af85c822a8"),
        Err(ParseError::InvalidCharacter { index: 7 })
    );
    // a hyphen out of place in the hyphenated form: position 8 must hold one
    assert_eq!(
        Uuid::parse_str("936da01f9-abd-4d9d-80c7-02af85c822a8"),
        Err(ParseError::InvalidCharacter { index: 8 })
    );
    // within the urn form, positions count from the identifier portion
    assert_eq!(
        Uuid::parse_str("urn:uuid:936da01f-9abd-4d9d-80c7-02af85c822a&"),
        Err(ParseError::InvalidCharacter { index: 35 })
    );
    assert_eq!(
        ParseError::InvalidLength { found: 3 }.message(),
        "invalid length: found 3"
    );
    assert_eq!(
        ParseError::InvalidCharacter { index: 35 }.message(),
        "invalid character at position 35"
    );
}

#[test]
fn renders_match_the_reference_formatters() {
    let u = Uuid::from_bytes(SAMPLE);
    let reference = ::uuid::Uuid::from_bytes(SAMPLE);
    assert_eq!(u.to_hyphenated().render(), reference.to_hyphenated().to_string());
    assert_eq!(u.to_hyphenated_ref().render(), reference.to_hyphenated_ref().to_string());
    assert_eq!(u.to_simple().render(), reference.to_simple().to_string());
    assert_eq!(u.to_simple_ref().render(), reference.to_simple_ref().to_string());
    assert_eq!(u.to_urn().render(), reference.to_urn().to_string());
    assert_eq!(u.to_urn_ref().render(), reference.to_urn_ref().to_string());
}

#[test]
fn render_then_parse_round_trips() {
    let u = Uuid::from_bytes(SAMPLE);
    assert_eq!(Uuid::parse_str(&u.to_hyphenated().render()), Ok(u));
    assert_eq!(Uuid::parse_str(&u.to_simple().render()), Ok(u));
    assert_eq!(Uuid::parse_str(&u.to_urn().render()), Ok(u));
    let parsed: Uuid = "936da01f-9abd-4d9d-80c7-02af85c822a8".parse().unwrap();
    assert_eq!(parsed, u);
}

#[test]
fn uuid_crosses_the_stack_as_a_native_record() {
    let mut lua = Lua::new();
    let u = Uuid::from_bytes(SAMPLE);
    let g = u.push_into_lua(&mut lua);
    assert_eq!(g.size(), 1);
    assert_eq!(lua_typename(&g, 1), "cdata");
    assert_eq!(Uuid::lua_read_at_position(&g, -1), Some(u));
    // the record travels by reference the same way
    let g2 = u.push_to_lua(g);
    assert_eq!(Uuid::lua_read_at_position(&g2, -1), Some(u));
    let g = g2.into_inner();
    g.into_inner();
    assert_eq!(lua.stack_top(), 0);

    // a slot of another kind does not read as an identifier
    lua.push_slot(lua_bridge::LuaValue::Integer(5));
    assert_eq!(Uuid::lua_read_at_position(&lua, -1), None);
    lua.pop_slots(1);

    // a foreign-data record of another registered type does not either
    let ct = lua.ctype_id("struct other_record");
    lua.push_slot(lua_bridge::LuaValue::Cdata(ct, vec![0u8; 16]));
    assert_eq!(Uuid::lua_read_at_position(&lua, -1), None);
    lua.pop_slots(1);

    // reading nothing from an empty stack fails quietly
    let v: Option<i32> = LuaRead::lua_read(&lua);
    assert_eq!(v, None);
}
