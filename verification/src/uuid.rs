//! A 128-bit identifier carried as 16 bytes in big-endian order.
//!
//! The identifier crosses two boundaries: the interpreter's foreign-data
//! records, which keep the three leading fields in the machine's
//! little-endian order ([`TtUuid`]), and the wire, where it travels as a
//! msgpack extension value with a fixed type code carrying exactly the 16
//! raw bytes (see [`Uuid::to_msgpack`] and [`Uuid::from_msgpack`]).

use vstd::prelude::*;
use crate::handle::AsLua;
use crate::handle::PushGuard;

verus! {

/// The msgpack extension type code under which identifiers travel.
pub const MP_UUID: i8 = 2;

/// A 128-bit identifier, as 16 bytes in big-endian order.
#[derive(Debug, Copy, Clone, Eq, Hash, Ord, PartialEq, PartialOrd)]
pub struct Uuid {
    bytes: [u8; 16],
}

impl View for Uuid {
    type V = Seq<u8>;

    closed spec fn view(&self) -> Seq<u8> {
        self.bytes@
    }
}

/// The interpreter-native form of the identifier: a fixed-size record whose
/// three leading fields are kept in little-endian machine order, so they are
/// byte-swapped relative to the big-endian wire form.
#[derive(Debug, Copy, Clone, Eq, PartialEq)]
pub struct TtUuid {
    pub time_low: u32,
    pub time_mid: u16,
    pub time_hi_and_version: u16,
    pub clock_seq_hi_and_reserved: u8,
    pub clock_seq_lo: u8,
    pub node: [u8; 6],
}

/// The big-endian byte sequence a native record stands for.
pub open spec fn spec_tt_bytes(tt: TtUuid) -> Seq<u8> {
    seq![
        (tt.time_low >> 24) as u8,
        (tt.time_low >> 16) as u8,
        (tt.time_low >> 8) as u8,
        tt.time_low as u8,
        (tt.time_mid >> 8) as u8,
        tt.time_mid as u8,
        (tt.time_hi_and_version >> 8) as u8,
        tt.time_hi_and_version as u8,
        tt.clock_seq_hi_and_reserved,
        tt.clock_seq_lo,
        tt.node@[0],
        tt.node@[1],
        tt.node@[2],
        tt.node@[3],
        tt.node@[4],
        tt.node@[5],
    ]
}

impl Uuid {
    /// Converts an array of bytes in the big-endian order into a `Uuid`.
    pub fn from_bytes(bytes: [u8; 16]) -> (r: Self)
        ensures
            r@ == bytes@,
    {
        Uuid { bytes }
    }

    /// The bytes, in the big-endian order.
    pub fn as_bytes(&self) -> (r: &[u8; 16])
        ensures
            r@ == self@,
    {
        &self.bytes
    }

    /// Converts a slice of bytes in the big-endian order into a `Uuid`;
    /// yields nothing unless the slice holds exactly 16 bytes.
    pub fn try_from_slice(bytes: &[u8]) -> (r: Option<Self>)
        ensures
            match r {
                Some(u) => bytes@.len() == 16 && u@ == bytes@,
                None => bytes@.len() != 16,
            },
    {
        if bytes.len() != 16 {
            return None;
        }
        let arr: [u8; 16] = [
            bytes[0],
            bytes[1],
            bytes[2],
            bytes[3],
            bytes[4],
            bytes[5],
            bytes[6],
            bytes[7],
            bytes[8],
            bytes[9],
            bytes[10],
            bytes[11],
            bytes[12],
            bytes[13],
            bytes[14],
            bytes[15],
        ];
        proof {
            assert(arr@ =~= bytes@);
        }
        Some(Uuid { bytes: arr })
    }

    /// The nil identifier: all 128 bits zero.
    pub fn nil() -> (r: Self)
        ensures
            r@ =~= Seq::new(16, |i: int| 0u8),
    {
        Uuid { bytes: [0, 0, 0, 0, 0, 0, 0, 0, 0, 0, 0, 0, 0, 0, 0, 0] }
    }

    /// Whether every bit of the identifier is zero.
    pub fn is_nil(&self) -> (r: bool)
        ensures
            r == (forall|i: int| 0 <= i < 16 ==> self@[i] == 0),
    {
        let mut i: usize = 0;
        while i < 16
            invariant
                i <= 16,
                forall|j: int| 0 <= j < i ==> self@[j] == 0,
            decreases 16 - i,
        {
            if self.bytes[i] != 0 {
                proof {
                    assert(self@[i as int] != 0);
                }
                return false;
            }
            i += 1;
        }
        true
    }

    /// Converts the interpreter-native (little-endian) record into a `Uuid`,
    /// swapping the three leading fields into big-endian order.
    pub fn from_tt_uuid(tt: TtUuid) -> (r: Self)
        ensures
            r@ =~= spec_tt_bytes(tt),
    {
        let n = &tt.node;
        Uuid {
            bytes: [
                (tt.time_low >> 24) as u8,
                (tt.time_low >> 16) as u8,
                (tt.time_low >> 8) as u8,
                tt.time_low as u8,
                (tt.time_mid >> 8) as u8,
                tt.time_mid as u8,
                (tt.time_hi_and_version >> 8) as u8,
                tt.time_hi_and_version as u8,
                tt.clock_seq_hi_and_reserved,
                tt.clock_seq_lo,
                n[0],
                n[1],
                n[2],
                n[3],
                n[4],
                n[5],
            ],
        }
    }

    /// The interpreter-native (little-endian) record of this identifier,
    /// swapping the three leading fields out of big-endian order.
    pub fn to_tt_uuid(&self) -> (r: TtUuid)
        ensures
            spec_tt_bytes(r) =~= self@,
    {
        let b = &self.bytes;
        let r = TtUuid {
            time_low: ((b[0] as u32) << 24) | ((b[1] as u32) << 16) | ((b[2] as u32) << 8) | (
            b[3] as u32),
            time_mid: ((b[4] as u16) << 8) | (b[5] as u16),
            time_hi_and_version: ((b[6] as u16) << 8) | (b[7] as u16),
            clock_seq_hi_and_reserved: b[8],
            clock_seq_lo: b[9],
            node: [b[10], b[11], b[12], b[13], b[14], b[15]],
        };
        proof {
            lemma_u32_bytes_roundtrip(b@[0], b@[1], b@[2], b@[3]);
            lemma_u16_bytes_roundtrip(b@[4], b@[5]);
            lemma_u16_bytes_roundtrip(b@[6], b@[7]);
        }
        r
    }
}

/// Packing four bytes big-endian into a 32-bit field and reading them back
/// yields the same bytes.
proof fn lemma_u32_bytes_roundtrip(b0: u8, b1: u8, b2: u8, b3: u8)
    ensures
        ({
            let x = ((b0 as u32) << 24) | ((b1 as u32) << 16) | ((b2 as u32) << 8) | (b3 as u32);
            &&& (x >> 24) as u8 == b0
            &&& (x >> 16) as u8 == b1
            &&& (x >> 8) as u8 == b2
            &&& x as u8 == b3
        }),
{
    let x = ((b0 as u32) << 24) | ((b1 as u32) << 16) | ((b2 as u32) << 8) | (b3 as u32);
    assert((x >> 24) as u8 == b0 && (x >> 16) as u8 == b1 && (x >> 8) as u8 == b2 && x as u8 == b3)
        by (bit_vector)
        requires
            x == ((b0 as u32) << 24) | ((b1 as u32) << 16) | ((b2 as u32) << 8) | (b3 as u32),
    ;
}

/// Packing two bytes big-endian into a 16-bit field and reading them back
/// yields the same bytes.
proof fn lemma_u16_bytes_roundtrip(b0: u8, b1: u8)
    ensures
        ({
            let x = ((b0 as u16) << 8) | (b1 as u16);
            &&& (x >> 8) as u8 == b0
            &&& x as u8 == b1
        }),
{
    let x = ((b0 as u16) << 8) | (b1 as u16);
    assert((x >> 8) as u8 == b0 && x as u8 == b1) by (bit_vector)
        requires
            x == ((b0 as u16) << 8) | (b1 as u16),
    ;
}


/// Why a msgpack value failed to decode as an identifier.
#[derive(Debug, Clone, PartialEq, Eq)]
pub enum DecodeError {
    /// The data does not begin with a msgpack extension marker.
    NotExt,
    /// The data ends before the declared extension value is complete.
    Truncated,
    /// The extension carries another type code; holds the code found.
    WrongExtType(i8),
    /// The extension payload is not 16 bytes long; holds the length found.
    WrongLength(usize),
    /// Bytes follow the end of the extension value.
    TrailingBytes,
}

impl DecodeError {
    /// The rendered message of this error.
    pub open spec fn spec_message(&self) -> Seq<char> {
        match self {
            DecodeError::NotExt => "Expected UUID, found no msgpack ext"@,
            DecodeError::Truncated => "Not enough bytes for msgpack ext"@,
            DecodeError::WrongExtType(t) => "Expected UUID, found msgpack ext #"@
                + crate::util::spec_decimal_signed(*t as int),
            DecodeError::WrongLength(n) => "Not enough bytes for UUID: expected 16, got "@
                + crate::util::spec_decimal(*n as nat),
            DecodeError::TrailingBytes => "Trailing bytes after msgpack ext"@,
        }
    }

    /// Renders this error as text.
    pub fn message(&self) -> (m: String)
        ensures
            m@ == self.spec_message(),
    {
        match self {
            DecodeError::NotExt => "Expected UUID, found no msgpack ext".to_owned(),
            DecodeError::Truncated => "Not enough bytes for msgpack ext".to_owned(),
            DecodeError::WrongExtType(t) => {
                let mut m = "Expected UUID, found msgpack ext #".to_owned();
                m.append(crate::util::render_i64(*t as i64).as_str());
                m
            },
            DecodeError::WrongLength(n) => {
                let mut m = "Not enough bytes for UUID: expected 16, got ".to_owned();
                m.append(crate::util::render_u64(*n as u64).as_str());
                m
            },
            DecodeError::TrailingBytes => "Trailing bytes after msgpack ext".to_owned(),
        }
    }
}

/// Whether a byte opens a msgpack extension value.
pub open spec fn spec_is_ext_marker(b: u8) -> bool {
    b == 0xd4 || b == 0xd5 || b == 0xd6 || b == 0xd7 || b == 0xd8 || b == 0xc7 || b == 0xc8
        || b == 0xc9
}

/// How many bytes the extension header occupies, by its marker.
pub open spec fn spec_ext_header_len(marker: u8) -> int {
    if marker == 0xc7 {
        3
    } else if marker == 0xc8 {
        4
    } else if marker == 0xc9 {
        6
    } else {
        2
    }
}

/// The payload length the extension header declares, where the data holds
/// the whole header.
pub open spec fn spec_ext_payload_len(d: Seq<u8>) -> int {
    if d[0] == 0xd4 {
        1
    } else if d[0] == 0xd5 {
        2
    } else if d[0] == 0xd6 {
        4
    } else if d[0] == 0xd7 {
        8
    } else if d[0] == 0xd8 {
        16
    } else if d[0] == 0xc7 {
        d[1] as int
    } else if d[0] == 0xc8 {
        d[1] as int * 256 + d[2] as int
    } else {
        d[1] as int * 0x1000000 + d[2] as int * 0x10000 + d[3] as int * 0x100 + d[4] as int
    }
}

/// The type code of the extension, which stands last in the header.
pub open spec fn spec_ext_type(d: Seq<u8>) -> i8 {
    d[spec_ext_header_len(d[0]) - 1] as i8
}

/// Whether the data is exactly one whole msgpack extension value.
pub open spec fn spec_ext_exact(d: Seq<u8>) -> bool {
    &&& d.len() >= 1
    &&& spec_is_ext_marker(d[0])
    &&& d.len() >= spec_ext_header_len(d[0])
    &&& d.len() == spec_ext_header_len(d[0]) + spec_ext_payload_len(d)
}

/// The payload of an exact extension value.
pub open spec fn spec_ext_payload(d: Seq<u8>) -> Seq<u8> {
    d.skip(spec_ext_header_len(d[0]))
}

impl Uuid {
    /// Encodes the identifier for the wire: a msgpack extension value with
    /// type code [`MP_UUID`] carrying exactly the 16 raw bytes, big-endian.
    pub fn to_msgpack(&self) -> (r: Vec<u8>)
        ensures
            r@ =~= seq![0xd8u8, MP_UUID as u8] + self@,
            spec_ext_exact(r@),
            spec_ext_type(r@) == MP_UUID,
            spec_ext_payload(r@) =~= self@,
    {
        let mut out: Vec<u8> = Vec::new();
        out.push(0xd8);
        out.push(2);
        let mut i: usize = 0;
        while i < 16
            invariant
                i <= 16,
                out@.len() == 2 + i,
                out@[0] == 0xd8u8,
                out@[1] == 2u8,
                forall|j: int| 0 <= j < i ==> out@[2 + j] == self@[j],
            decreases 16 - i,
        {
            let b = self.bytes[i];
            out.push(b);
            i += 1;
        }
        proof {
            assert(out@ =~= seq![0xd8u8, MP_UUID as u8] + self@);
            assert(spec_ext_payload(out@) =~= self@);
        }
        out
    }

    /// Decodes an identifier from the wire: the data must be exactly one
    /// msgpack extension value with type code [`MP_UUID`] and a 16-byte
    /// payload; each departure is reported apart.
    pub fn from_msgpack(data: &[u8]) -> (r: Result<Uuid, DecodeError>)
        ensures
            match r {
                Ok(u) => spec_ext_exact(data@) && spec_ext_type(data@) == MP_UUID
                    && spec_ext_payload(data@).len() == 16 && u@ == spec_ext_payload(data@),
                Err(e) => match e {
                    DecodeError::NotExt => data@.len() == 0 || !spec_is_ext_marker(data@[0]),
                    DecodeError::Truncated => data@.len() >= 1 && spec_is_ext_marker(data@[0]) && (
                    data@.len() < spec_ext_header_len(data@[0]) || data@.len() < spec_ext_header_len(
                        data@[0],
                    ) + spec_ext_payload_len(data@)),
                    DecodeError::TrailingBytes => data@.len() >= 1 && spec_is_ext_marker(data@[0])
                        && data@.len() >= spec_ext_header_len(data@[0]) && data@.len()
                        > spec_ext_header_len(data@[0]) + spec_ext_payload_len(data@),
                    DecodeError::WrongExtType(t) => spec_ext_exact(data@) && spec_ext_type(data@)
                        != MP_UUID && t == spec_ext_type(data@),
                    DecodeError::WrongLength(n) => spec_ext_exact(data@) && spec_ext_type(data@)
                        == MP_UUID && spec_ext_payload(data@).len() != 16 && n as int
                        == spec_ext_payload(data@).len(),
                },
            },
    {
        let n = data.len();
        if n == 0 {
            return Err(DecodeError::NotExt);
        }
        let marker = data[0];
        let header: usize = if marker == 0xc7 {
            3
        } else if marker == 0xc8 {
            4
        } else if marker == 0xc9 {
            6
        } else if marker == 0xd4 || marker == 0xd5 || marker == 0xd6 || marker == 0xd7 || marker
            == 0xd8 {
            2
        } else {
            return Err(DecodeError::NotExt);
        };
        if n < header {
            return Err(DecodeError::Truncated);
        }
        let payload_len: usize = if marker == 0xd4 {
            1
        } else if marker == 0xd5 {
            2
        } else if marker == 0xd6 {
            4
        } else if marker == 0xd7 {
            8
        } else if marker == 0xd8 {
            16
        } else if marker == 0xc7 {
            data[1] as usize
        } else if marker == 0xc8 {
            data[1] as usize * 256 + data[2] as usize
        } else {
            data[1] as usize * 0x1000000 + data[2] as usize * 0x10000 + data[3] as usize * 0x100
                + data[4] as usize
        };
        if n - header < payload_len {
            return Err(DecodeError::Truncated);
        }
        if n - header > payload_len {
            return Err(DecodeError::TrailingBytes);
        }
        let kind = data[header - 1] as i8;
        if kind != MP_UUID {
            return Err(DecodeError::WrongExtType(kind));
        }
        if payload_len != 16 {
            return Err(DecodeError::WrongLength(payload_len));
        }
        let payload = &data[header..n];
        proof {
            assert(payload@ =~= spec_ext_payload(data@));
        }
        match Uuid::try_from_slice(payload) {
            Some(u) => Ok(u),
            None => vstd::pervasive::unreached(),
        }
    }
}


/// Why a text failed to parse as an identifier.
#[derive(Debug, Clone, Copy, PartialEq, Eq, Structural)]
pub enum ParseError {
    /// The text has none of the accepted lengths; holds the length found.
    InvalidLength { found: usize },
    /// A character breaks the accepted shape; holds the position of the
    /// first offending character within the identifier portion.
    InvalidCharacter { index: usize },
}

impl ParseError {
    /// The rendered message of this error.
    pub open spec fn spec_message(&self) -> Seq<char> {
        match self {
            ParseError::InvalidLength { found } => "invalid length: found "@
                + crate::util::spec_decimal(*found as nat),
            ParseError::InvalidCharacter { index } => "invalid character at position "@
                + crate::util::spec_decimal(*index as nat),
        }
    }

    /// Renders this error as text.
    pub fn message(&self) -> (m: String)
        ensures
            m@ == self.spec_message(),
    {
        match self {
            ParseError::InvalidLength { found } => {
                let mut m = "invalid length: found ".to_owned();
                m.append(crate::util::render_u64(*found as u64).as_str());
                m
            },
            ParseError::InvalidCharacter { index } => {
                let mut m = "invalid character at position ".to_owned();
                m.append(crate::util::render_u64(*index as u64).as_str());
                m
            },
        }
    }
}

/// Whether a character is a hexadecimal digit.
pub open spec fn spec_is_hex(c: char) -> bool {
    ('0' <= c && c <= '9') || ('a' <= c && c <= 'f') || ('A' <= c && c <= 'F')
}

/// The value of a hexadecimal digit.
pub open spec fn spec_hex_val(c: char) -> int {
    if '0' <= c && c <= '9' {
        c as int - '0' as int
    } else if 'a' <= c && c <= 'f' {
        c as int - 'a' as int + 10
    } else {
        c as int - 'A' as int + 10
    }
}

/// Whether the hyphenated form holds a hyphen at this position.
pub open spec fn spec_hyphen_pos(i: int) -> bool {
    i == 8 || i == 13 || i == 18 || i == 23
}

/// Whether one position of the hyphenated form holds what it should.
pub open spec fn spec_hy_char_ok(s: Seq<char>, i: int) -> bool {
    if spec_hyphen_pos(i) {
        s[i] == '-'
    } else {
        spec_is_hex(s[i])
    }
}

/// The hyphenated form: five groups of 8, 4, 4, 4 and 12 hexadecimal
/// digits, separated by hyphens.
pub open spec fn spec_hyphenated_ok(s: Seq<char>) -> bool {
    s.len() == 36 && forall|i: int| 0 <= i < 36 ==> spec_hy_char_ok(s, i)
}

/// The simple form: 32 hexadecimal digits.
pub open spec fn spec_simple_ok(s: Seq<char>) -> bool {
    s.len() == 32 && forall|i: int| 0 <= i < 32 ==> spec_is_hex(#[trigger] s[i])
}

/// The urn form: the urn prefix followed by the hyphenated form.
pub open spec fn spec_urn_ok(s: Seq<char>) -> bool {
    s.len() == 45 && s.take(9) == "urn:uuid:"@ && spec_hyphenated_ok(s.skip(9))
}

/// The position of the `j`-th hexadecimal digit in the hyphenated form.
pub open spec fn spec_hy_digit_pos(j: int) -> int {
    if j < 8 {
        j
    } else if j < 12 {
        j + 1
    } else if j < 16 {
        j + 2
    } else if j < 20 {
        j + 3
    } else {
        j + 4
    }
}

/// The bytes the hyphenated form denotes.
pub open spec fn spec_hyphenated_bytes(s: Seq<char>) -> Seq<u8> {
    Seq::new(
        16,
        |k: int|
            (spec_hex_val(s[spec_hy_digit_pos(2 * k)]) * 16 + spec_hex_val(
                s[spec_hy_digit_pos(2 * k + 1)],
            )) as u8,
    )
}

/// The bytes the simple form denotes.
pub open spec fn spec_simple_bytes(s: Seq<char>) -> Seq<u8> {
    Seq::new(16, |k: int| (spec_hex_val(s[2 * k]) * 16 + spec_hex_val(s[2 * k + 1])) as u8)
}

/// The bytes a text denotes, under whichever accepted form it matches.
pub open spec fn spec_parse_uuid(s: Seq<char>) -> Option<Seq<u8>> {
    if spec_simple_ok(s) {
        Some(spec_simple_bytes(s))
    } else if spec_hyphenated_ok(s) {
        Some(spec_hyphenated_bytes(s))
    } else if spec_urn_ok(s) {
        Some(spec_hyphenated_bytes(s.skip(9)))
    } else {
        None
    }
}

/// The first position from `i` on that breaks the hyphenated form, or 36.
pub open spec fn spec_first_bad_hy(s: Seq<char>, i: int) -> int
    decreases 36 - i,
{
    if i >= 36 {
        36
    } else if spec_hy_char_ok(s, i) {
        spec_first_bad_hy(s, i + 1)
    } else {
        i
    }
}

/// The first position from `i` on that breaks the simple form, or 32.
pub open spec fn spec_first_bad_simple(s: Seq<char>, i: int) -> int
    decreases 32 - i,
{
    if i >= 32 {
        32
    } else if spec_is_hex(s[i]) {
        spec_first_bad_simple(s, i + 1)
    } else {
        i
    }
}

/// Where the first `i` positions are sound, the search can start at `i`.
proof fn lemma_first_bad_hy_skip(s: Seq<char>, i: int)
    requires
        0 <= i <= 36,
        forall|j: int| 0 <= j < i ==> spec_hy_char_ok(s, j),
    ensures
        spec_first_bad_hy(s, 0) == spec_first_bad_hy(s, i),
    decreases i,
{
    if i > 0 {
        lemma_first_bad_hy_skip(s, i - 1);
    }
}

/// Where the first `i` positions are sound, the search can start at `i`.
proof fn lemma_first_bad_simple_skip(s: Seq<char>, i: int)
    requires
        0 <= i <= 32,
        forall|j: int| 0 <= j < i ==> spec_is_hex(#[trigger] s[j]),
    ensures
        spec_first_bad_simple(s, 0) == spec_first_bad_simple(s, i),
    decreases i,
{
    if i > 0 {
        lemma_first_bad_simple_skip(s, i - 1);
    }
}

/// The value of a hexadecimal digit character.
fn hex_digit_val(c: char) -> (v: u8)
    requires
        spec_is_hex(c),
    ensures
        v as int == spec_hex_val(c),
        v < 16,
{
    let x = c as u32;
    if c >= '0' && c <= '9' {
        (x - 48) as u8
    } else if c >= 'a' && c <= 'f' {
        (x - 97 + 10) as u8
    } else {
        (x - 65 + 10) as u8
    }
}

/// The position of the `j`-th hexadecimal digit in the hyphenated form.
fn hy_digit_pos(j: usize) -> (p: usize)
    requires
        j < 32,
    ensures
        p as int == spec_hy_digit_pos(j as int),
        p < 36,
{
    if j < 8 {
        j
    } else if j < 12 {
        j + 1
    } else if j < 16 {
        j + 2
    } else if j < 20 {
        j + 3
    } else {
        j + 4
    }
}

/// Checks the hyphenated form starting at `offset` and extracts its bytes;
/// a failure names the first offending position, relative to `offset`.
fn parse_hyphenated(input: &str, offset: usize) -> (r: Result<Uuid, usize>)
    requires
        offset <= 16,
        offset + 36 <= input@.len(),
    ensures
        match r {
            Ok(u) => spec_hyphenated_ok(input@.subrange(offset as int, offset + 36)) && u@
                == spec_hyphenated_bytes(input@.subrange(offset as int, offset + 36)),
            Err(index) => !spec_hyphenated_ok(input@.subrange(offset as int, offset + 36))
                && index as int == spec_first_bad_hy(
                input@.subrange(offset as int, offset + 36),
                0,
            ),
        },
{
    let ghost s = input@.subrange(offset as int, offset + 36);
    let mut i: usize = 0;
    while i < 36
        invariant
            i <= 36,
            offset <= 16,
            offset + 36 <= input@.len(),
            s == input@.subrange(offset as int, offset + 36),
            forall|j: int| 0 <= j < i ==> spec_hy_char_ok(s, j),
        decreases 36 - i,
    {
        let c = input.get_char(offset + i);
        proof {
            assert(s[i as int] == input@[offset + i]);
        }
        let good = if i == 8 || i == 13 || i == 18 || i == 23 {
            c == '-'
        } else {
            (c >= '0' && c <= '9') || (c >= 'a' && c <= 'f') || (c >= 'A' && c <= 'F')
        };
        if !good {
            proof {
                lemma_first_bad_hy_skip(s, i as int);
                assert(!spec_hy_char_ok(s, i as int));
            }
            return Err(i);
        }
        i += 1;
    }
    let mut bytes: Vec<u8> = Vec::new();
    let mut k: usize = 0;
    while k < 16
        invariant
            k <= 16,
            offset <= 16,
            offset + 36 <= input@.len(),
            s == input@.subrange(offset as int, offset + 36),
            spec_hyphenated_ok(s),
            bytes@.len() == k,
            forall|j: int| 0 <= j < k ==> bytes@[j] == spec_hyphenated_bytes(s)[j],
        decreases 16 - k,
    {
        let p0 = hy_digit_pos(2 * k);
        let p1 = hy_digit_pos(2 * k + 1);
        let c0 = input.get_char(offset + p0);
        let c1 = input.get_char(offset + p1);
        proof {
            assert(s[p0 as int] == input@[offset + p0]);
            assert(s[p1 as int] == input@[offset + p1]);
            assert(spec_hy_char_ok(s, p0 as int));
            assert(spec_hy_char_ok(s, p1 as int));
        }
        let b = hex_digit_val(c0) * 16 + hex_digit_val(c1);
        bytes.push(b);
        k += 1;
    }
    proof {
        assert(bytes@ =~= spec_hyphenated_bytes(s));
    }
    match Uuid::try_from_slice(bytes.as_slice()) {
        Some(u) => Ok(u),
        None => vstd::pervasive::unreached(),
    }
}

/// Checks the simple form and extracts its bytes; a failure names the first
/// offending position.
fn parse_simple(input: &str) -> (r: Result<Uuid, usize>)
    requires
        input@.len() == 32,
    ensures
        match r {
            Ok(u) => spec_simple_ok(input@) && u@ == spec_simple_bytes(input@),
            Err(index) => !spec_simple_ok(input@) && index as int == spec_first_bad_simple(
                input@,
                0,
            ),
        },
{
    let mut i: usize = 0;
    while i < 32
        invariant
            i <= 32,
            input@.len() == 32,
            forall|j: int| 0 <= j < i ==> spec_is_hex(#[trigger] input@[j]),
        decreases 32 - i,
    {
        let c = input.get_char(i);
        let good = (c >= '0' && c <= '9') || (c >= 'a' && c <= 'f') || (c >= 'A' && c <= 'F');
        if !good {
            proof {
                lemma_first_bad_simple_skip(input@, i as int);
            }
            return Err(i);
        }
        i += 1;
    }
    let mut bytes: Vec<u8> = Vec::new();
    let mut k: usize = 0;
    while k < 16
        invariant
            k <= 16,
            input@.len() == 32,
            spec_simple_ok(input@),
            bytes@.len() == k,
            forall|j: int| 0 <= j < k ==> bytes@[j] == spec_simple_bytes(input@)[j],
        decreases 16 - k,
    {
        let c0 = input.get_char(2 * k);
        let c1 = input.get_char(2 * k + 1);
        let b = hex_digit_val(c0) * 16 + hex_digit_val(c1);
        bytes.push(b);
        k += 1;
    }
    proof {
        assert(bytes@ =~= spec_simple_bytes(input@));
    }
    match Uuid::try_from_slice(bytes.as_slice()) {
        Some(u) => Ok(u),
        None => vstd::pervasive::unreached(),
    }
}

impl Uuid {
    /// Parses an identifier from a text of hexadecimal digits: the simple,
    /// hyphenated and urn forms are accepted.
    ///
    /// A text of another length is refused as `InvalidLength` (a text of
    /// the urn length without the urn prefix as well); a text of an
    /// accepted shape with an offending character is refused as
    /// `InvalidCharacter`, naming the first offending position within the
    /// identifier portion.
    pub fn parse_str(input: &str) -> (r: Result<Self, ParseError>)
        ensures
            match r {
                Ok(u) => spec_parse_uuid(input@) == Some(u@),
                Err(e) => spec_parse_uuid(input@) is None && match e {
                    ParseError::InvalidLength { found } => {
                        &&& found == input@.len()
                        &&& input@.len() != 32
                        &&& input@.len() != 36
                        &&& !(input@.len() == 45 && input@.take(9) == "urn:uuid:"@)
                    },
                    ParseError::InvalidCharacter { index } => {
                        ||| (input@.len() == 32 && index as int == spec_first_bad_simple(
                            input@,
                            0,
                        ) && index < 32)
                        ||| (input@.len() == 36 && index as int == spec_first_bad_hy(input@, 0)
                            && index < 36)
                        ||| (input@.len() == 45 && input@.take(9) == "urn:uuid:"@ && index as int
                            == spec_first_bad_hy(input@.skip(9), 0) && index < 36)
                    },
                },
            },
    {
        let n = input.unicode_len();
        if n == 32 {
            match parse_simple(input) {
                Ok(u) => {
                    proof {
                        assert(spec_parse_uuid(input@) == Some(u@));
                    }
                    Ok(u)
                },
                Err(index) => {
                    proof {
                        lemma_first_bad_simple_in_range(input@);
                        assert(spec_parse_uuid(input@) is None);
                    }
                    Err(ParseError::InvalidCharacter { index })
                },
            }
        } else if n == 36 {
            proof {
                assert(input@.subrange(0, 36) =~= input@);
            }
            match parse_hyphenated(input, 0) {
                Ok(u) => {
                    proof {
                        assert(!spec_simple_ok(input@));
                        assert(spec_parse_uuid(input@) == Some(u@));
                    }
                    Ok(u)
                },
                Err(index) => {
                    proof {
                        lemma_first_bad_hy_in_range(input@);
                        assert(spec_parse_uuid(input@) is None);
                    }
                    Err(ParseError::InvalidCharacter { index })
                },
            }
        } else if n == 45 {
            let prefix_ok = input.get_char(0) == 'u' && input.get_char(1) == 'r' && input.get_char(
                2,
            ) == 'n' && input.get_char(3) == ':' && input.get_char(4) == 'u' && input.get_char(5)
                == 'u' && input.get_char(6) == 'i' && input.get_char(7) == 'd' && input.get_char(8)
                == ':';
            proof {
                reveal_strlit("urn:uuid:");
            }
            if !prefix_ok {
                proof {
                    assert(input@.take(9) != "urn:uuid:"@) by {
                        if input@.take(9) == "urn:uuid:"@ {
                            assert(input@[0] == input@.take(9)[0]);
                            assert(input@[1] == input@.take(9)[1]);
                            assert(input@[2] == input@.take(9)[2]);
                            assert(input@[3] == input@.take(9)[3]);
                            assert(input@[4] == input@.take(9)[4]);
                            assert(input@[5] == input@.take(9)[5]);
                            assert(input@[6] == input@.take(9)[6]);
                            assert(input@[7] == input@.take(9)[7]);
                            assert(input@[8] == input@.take(9)[8]);
                        }
                    }
                }
                return Err(ParseError::InvalidLength { found: n });
            }
            proof {
                assert(input@.take(9) =~= "urn:uuid:"@);
                assert(input@.subrange(9, 45) =~= input@.skip(9));
            }
            match parse_hyphenated(input, 9) {
                Ok(u) => {
                    proof {
                        assert(!spec_simple_ok(input@));
                        assert(!spec_hyphenated_ok(input@));
                        assert(spec_parse_uuid(input@) == Some(u@));
                    }
                    Ok(u)
                },
                Err(index) => {
                    proof {
                        lemma_first_bad_hy_in_range(input@.skip(9));
                        assert(spec_parse_uuid(input@) is None);
                    }
                    Err(ParseError::InvalidCharacter { index })
                },
            }
        } else {
            Err(ParseError::InvalidLength { found: n })
        }
    }
}

/// A failing search over the simple form ends strictly inside it.
proof fn lemma_first_bad_simple_in_range(s: Seq<char>)
    requires
        !spec_simple_ok(s),
        s.len() == 32,
    ensures
        0 <= spec_first_bad_simple(s, 0) < 32,
{
    lemma_first_bad_simple_bound(s, 0);
}

proof fn lemma_first_bad_simple_bound(s: Seq<char>, i: int)
    requires
        0 <= i <= 32,
        s.len() == 32,
        !(forall|j: int| i <= j < 32 ==> spec_is_hex(#[trigger] s[j])),
    ensures
        i <= spec_first_bad_simple(s, i) < 32,
    decreases 32 - i,
{
    if i < 32 {
        if spec_is_hex(s[i]) {
            assert(!(forall|j: int| i + 1 <= j < 32 ==> spec_is_hex(#[trigger] s[j])));
            lemma_first_bad_simple_bound(s, i + 1);
        }
    }
}

/// A failing search over the hyphenated form ends strictly inside it.
proof fn lemma_first_bad_hy_in_range(s: Seq<char>)
    requires
        !spec_hyphenated_ok(s),
        s.len() == 36,
    ensures
        0 <= spec_first_bad_hy(s, 0) < 36,
{
    lemma_first_bad_hy_bound(s, 0);
}

proof fn lemma_first_bad_hy_bound(s: Seq<char>, i: int)
    requires
        0 <= i <= 36,
        s.len() == 36,
        !(forall|j: int| i <= j < 36 ==> spec_hy_char_ok(s, j)),
    ensures
        i <= spec_first_bad_hy(s, i) < 36,
    decreases 36 - i,
{
    if i < 36 {
        if spec_hy_char_ok(s, i) {
            assert(!(forall|j: int| i + 1 <= j < 36 ==> spec_hy_char_ok(s, j)));
            lemma_first_bad_hy_bound(s, i + 1);
        }
    }
}


/// The simple rendering of 16 bytes: 32 lowercase hexadecimal digits.
pub open spec fn spec_simple_text(b: Seq<u8>) -> Seq<char> {
    Seq::new(
        32,
        |i: int|
            if i % 2 == 0 {
                crate::util::spec_hex_char(b[i / 2] as int / 16)
            } else {
                crate::util::spec_hex_char(b[i / 2] as int % 16)
            },
    )
}

/// The digit index a position of the hyphenated form carries.
pub open spec fn spec_hy_digit_of_pos(i: int) -> int {
    if i < 8 {
        i
    } else if i < 13 {
        i - 1
    } else if i < 18 {
        i - 2
    } else if i < 23 {
        i - 3
    } else {
        i - 4
    }
}

/// The hyphenated rendering of 16 bytes: five lowercase digit groups.
pub open spec fn spec_hyphenated_text(b: Seq<u8>) -> Seq<char> {
    Seq::new(
        36,
        |i: int|
            if spec_hyphen_pos(i) {
                '-'
            } else {
                let j = spec_hy_digit_of_pos(i);
                if j % 2 == 0 {
                    crate::util::spec_hex_char(b[j / 2] as int / 16)
                } else {
                    crate::util::spec_hex_char(b[j / 2] as int % 16)
                }
            },
    )
}

/// The urn rendering of 16 bytes: the urn prefix before the hyphenated
/// rendering.
pub open spec fn spec_urn_text(b: Seq<u8>) -> Seq<char> {
    "urn:uuid:"@ + spec_hyphenated_text(b)
}

/// Renders bytes as the simple form.
fn render_simple(bytes: &[u8; 16]) -> (s: String)
    ensures
        s@ == spec_simple_text(bytes@),
{
    let digits = "0123456789abcdef";
    let mut acc = String::new();
    let mut k: usize = 0;
    while k < 16
        invariant
            k <= 16,
            acc@.len() == 2 * k,
            forall|i: int| 0 <= i < 2 * k ==> acc@[i] == spec_simple_text(bytes@)[i],
            digits@ == "0123456789abcdef"@,
        decreases 16 - k,
    {
        proof {
            reveal_strlit("0123456789abcdef");
        }
        let b = bytes[k];
        let hi = (b / 16) as usize;
        let lo = (b % 16) as usize;
        acc.append(digits.substring_ascii(hi, hi + 1));
        acc.append(digits.substring_ascii(lo, lo + 1));
        k += 1;
    }
    proof {
        assert(acc@ =~= spec_simple_text(bytes@));
    }
    acc
}

/// Renders bytes as the hyphenated form.
fn render_hyphenated(bytes: &[u8; 16]) -> (s: String)
    ensures
        s@ == spec_hyphenated_text(bytes@),
{
    let digits = "0123456789abcdef";
    let mut acc = String::new();
    let mut i: usize = 0;
    while i < 36
        invariant
            i <= 36,
            acc@.len() == i,
            forall|j: int| 0 <= j < i ==> acc@[j] == spec_hyphenated_text(bytes@)[j],
            digits@ == "0123456789abcdef"@,
        decreases 36 - i,
    {
        proof {
            reveal_strlit("0123456789abcdef");
            reveal_strlit("-");
        }
        if i == 8 || i == 13 || i == 18 || i == 23 {
            acc.append("-");
            proof {
                assert("-"@ =~= seq!['-']);
            }
        } else {
            let j: usize = if i < 8 {
                i
            } else if i < 13 {
                i - 1
            } else if i < 18 {
                i - 2
            } else if i < 23 {
                i - 3
            } else {
                i - 4
            };
            let b = bytes[j / 2];
            let d = if j % 2 == 0 {
                (b / 16) as usize
            } else {
                (b % 16) as usize
            };
            acc.append(digits.substring_ascii(d, d + 1));
        }
        i += 1;
    }
    proof {
        assert(acc@ =~= spec_hyphenated_text(bytes@));
    }
    acc
}

/// A formatter for the hyphenated form of an owned identifier.
#[derive(Debug, Clone, Copy)]
pub struct Hyphenated {
    uuid: Uuid,
}

/// A formatter for the hyphenated form of a borrowed identifier.
#[derive(Debug, Clone, Copy)]
pub struct HyphenatedRef<'a> {
    uuid: &'a Uuid,
}

/// A formatter for the simple form of an owned identifier.
#[derive(Debug, Clone, Copy)]
pub struct Simple {
    uuid: Uuid,
}

/// A formatter for the simple form of a borrowed identifier.
#[derive(Debug, Clone, Copy)]
pub struct SimpleRef<'a> {
    uuid: &'a Uuid,
}

/// A formatter for the urn form of an owned identifier.
#[derive(Debug, Clone, Copy)]
pub struct Urn {
    uuid: Uuid,
}

/// A formatter for the urn form of a borrowed identifier.
#[derive(Debug, Clone, Copy)]
pub struct UrnRef<'a> {
    uuid: &'a Uuid,
}

impl Hyphenated {
    /// The identifier being formatted.
    pub closed spec fn spec_uuid(&self) -> Seq<u8> {
        self.uuid@
    }

    /// Renders the identifier.
    pub fn render(&self) -> (s: String)
        ensures
            s@ == spec_hyphenated_text(self.spec_uuid()),
    {
        render_hyphenated(&self.uuid.bytes)
    }
}

impl<'a> HyphenatedRef<'a> {
    /// The identifier being formatted.
    pub closed spec fn spec_uuid(&self) -> Seq<u8> {
        self.uuid@
    }

    /// Renders the identifier.
    pub fn render(&self) -> (s: String)
        ensures
            s@ == spec_hyphenated_text(self.spec_uuid()),
    {
        render_hyphenated(&self.uuid.bytes)
    }
}

impl Simple {
    /// The identifier being formatted.
    pub closed spec fn spec_uuid(&self) -> Seq<u8> {
        self.uuid@
    }

    /// Renders the identifier.
    pub fn render(&self) -> (s: String)
        ensures
            s@ == spec_simple_text(self.spec_uuid()),
    {
        render_simple(&self.uuid.bytes)
    }
}

impl<'a> SimpleRef<'a> {
    /// The identifier being formatted.
    pub closed spec fn spec_uuid(&self) -> Seq<u8> {
        self.uuid@
    }

    /// Renders the identifier.
    pub fn render(&self) -> (s: String)
        ensures
            s@ == spec_simple_text(self.spec_uuid()),
    {
        render_simple(&self.uuid.bytes)
    }
}

impl Urn {
    /// The identifier being formatted.
    pub closed spec fn spec_uuid(&self) -> Seq<u8> {
        self.uuid@
    }

    /// Renders the identifier.
    pub fn render(&self) -> (s: String)
        ensures
            s@ == spec_urn_text(self.spec_uuid()),
    {
        let mut s = "urn:uuid:".to_owned();
        s.append(render_hyphenated(&self.uuid.bytes).as_str());
        s
    }
}

impl<'a> UrnRef<'a> {
    /// The identifier being formatted.
    pub closed spec fn spec_uuid(&self) -> Seq<u8> {
        self.uuid@
    }

    /// Renders the identifier.
    pub fn render(&self) -> (s: String)
        ensures
            s@ == spec_urn_text(self.spec_uuid()),
    {
        let mut s = "urn:uuid:".to_owned();
        s.append(render_hyphenated(&self.uuid.bytes).as_str());
        s
    }
}

impl Uuid {
    /// A formatter for the hyphenated form.
    pub fn to_hyphenated(self) -> (r: Hyphenated)
        ensures
            r.spec_uuid() == self@,
    {
        Hyphenated { uuid: self }
    }

    /// A borrowed formatter for the hyphenated form.
    pub fn to_hyphenated_ref(&self) -> (r: HyphenatedRef<'_>)
        ensures
            r.spec_uuid() == self@,
    {
        HyphenatedRef { uuid: self }
    }

    /// A formatter for the simple form.
    pub fn to_simple(self) -> (r: Simple)
        ensures
            r.spec_uuid() == self@,
    {
        Simple { uuid: self }
    }

    /// A borrowed formatter for the simple form.
    pub fn to_simple_ref(&self) -> (r: SimpleRef<'_>)
        ensures
            r.spec_uuid() == self@,
    {
        SimpleRef { uuid: self }
    }

    /// A formatter for the urn form.
    pub fn to_urn(self) -> (r: Urn)
        ensures
            r.spec_uuid() == self@,
    {
        Urn { uuid: self }
    }

    /// A borrowed formatter for the urn form.
    pub fn to_urn_ref(&self) -> (r: UrnRef<'_>)
        ensures
            r.spec_uuid() == self@,
    {
        UrnRef { uuid: self }
    }
}


impl Default for Uuid {
    /// The nil identifier.
    fn default() -> (r: Self)
        ensures
            r@ =~= Seq::new(16, |i: int| 0u8),
    {
        Uuid::nil()
    }
}

impl core::str::FromStr for Uuid {
    type Err = ParseError;

    fn from_str(uuid_str: &str) -> Result<Self, ParseError> {
        Uuid::parse_str(uuid_str)
    }
}


/// The byte order of the native record relative to the wire: the first
/// three fields are byte-swapped, the rest kept.  The swap is its own
/// inverse.
pub open spec fn spec_swab_uuid(b: Seq<u8>) -> Seq<u8> {
    seq![
        b[3],
        b[2],
        b[1],
        b[0],
        b[5],
        b[4],
        b[7],
        b[6],
        b[8],
        b[9],
        b[10],
        b[11],
        b[12],
        b[13],
        b[14],
        b[15],
    ]
}

/// The id of the native record's registered foreign-data type, registering
/// it with this instance on first use.
fn ctid_uuid<L: crate::handle::AsLua>(lua: &mut L) -> (id: usize)
    requires
        old(lua).wf(),
    ensures
        final(lua).wf(),
        final(lua).vm().stack == old(lua).vm().stack,
        final(lua).vm().tables == old(lua).vm().tables,
        final(lua).vm().libs == old(lua).vm().libs,
        ({
            let idx = crate::state::ctype_index_from(old(lua).vm().ctypes, "struct tt_uuid"@, 0);
            if idx >= 0 {
                final(lua).vm().ctypes == old(lua).vm().ctypes && id as int == idx
            } else {
                final(lua).vm().ctypes == old(lua).vm().ctypes.push("struct tt_uuid"@) && id as int
                    == old(lua).vm().ctypes.len()
            }
        }),
        crate::state::ctype_index_from(final(lua).vm().ctypes, "struct tt_uuid"@, 0) == id as int,
{
    lua.ctype_id("struct tt_uuid")
}

/// Whether a slot holds this instance's native identifier record: a
/// foreign-data value of the registered record type carrying 16 bytes.
pub open spec fn spec_uuid_slot_ok(vm: crate::state::VmView, slot: crate::value::ValueView) -> bool {
    slot matches crate::value::ValueView::Cdata(ct, data) && ct == crate::state::ctype_index_from(
        vm.ctypes,
        "struct tt_uuid"@,
        0,
    ) && data.len() == 16
}

impl Uuid {
    /// Pushes the identifier as a native foreign-data record, registering
    /// the record type with the instance on first use.
    pub fn push_into_lua<L: crate::handle::AsLua>(self, lua: L) -> (g: crate::handle::PushGuard<
        L,
    >)
        requires
            lua.wf(),
        ensures
            g.wf(),
            g.spec_size() == 1,
            ({
                let cts0 = lua.vm().ctypes;
                let idx = crate::state::ctype_index_from(cts0, "struct tt_uuid"@, 0);
                let ct: int = if idx >= 0 {
                    idx
                } else {
                    cts0.len() as int
                };
                let cts1 = if idx >= 0 {
                    cts0
                } else {
                    cts0.push("struct tt_uuid"@)
                };
                g.vm() == (crate::state::VmView {
                    stack: lua.vm().stack.push(
                        crate::value::ValueView::Cdata(ct, spec_swab_uuid(self@)),
                    ),
                    tables: lua.vm().tables,
                    libs: lua.vm().libs,
                    ctypes: cts1,
                })
            }),
            spec_uuid_slot_ok(g.vm(), g.vm().stack.last()),
    {
        let mut lua = lua;
        let ct = ctid_uuid(&mut lua);
        let b = &self.bytes;
        let mut data: Vec<u8> = Vec::new();
        data.push(b[3]);
        data.push(b[2]);
        data.push(b[1]);
        data.push(b[0]);
        data.push(b[5]);
        data.push(b[4]);
        data.push(b[7]);
        data.push(b[6]);
        data.push(b[8]);
        data.push(b[9]);
        data.push(b[10]);
        data.push(b[11]);
        data.push(b[12]);
        data.push(b[13]);
        data.push(b[14]);
        data.push(b[15]);
        proof {
            assert(data@ =~= spec_swab_uuid(self@));
        }
        lua.push_slot(crate::value::LuaValue::Cdata(ct, data));
        PushGuard::new(lua, 1)
    }

    /// Pushes the identifier by reference; see `push_into_lua`.
    pub fn push_to_lua<L: crate::handle::AsLua>(&self, lua: L) -> (g: crate::handle::PushGuard<L>)
        requires
            lua.wf(),
        ensures
            g.wf(),
            g.spec_size() == 1,
            ({
                let cts0 = lua.vm().ctypes;
                let idx = crate::state::ctype_index_from(cts0, "struct tt_uuid"@, 0);
                let ct: int = if idx >= 0 {
                    idx
                } else {
                    cts0.len() as int
                };
                let cts1 = if idx >= 0 {
                    cts0
                } else {
                    cts0.push("struct tt_uuid"@)
                };
                g.vm() == (crate::state::VmView {
                    stack: lua.vm().stack.push(
                        crate::value::ValueView::Cdata(ct, spec_swab_uuid(self@)),
                    ),
                    tables: lua.vm().tables,
                    libs: lua.vm().libs,
                    ctypes: cts1,
                })
            }),
    {
        (*self).push_into_lua(lua)
    }

    /// Reads the identifier from the slot at a possibly relative index:
    /// the slot must hold a foreign-data record of the registered type with
    /// 16 bytes, which come back swapped into big-endian order.
    pub fn lua_read_at_position<L: crate::handle::AsLua>(lua: &L, index: i32) -> (r: Option<Uuid>)
        requires
            lua.wf(),
            index != 0,
        ensures
            match r {
                Some(u) => match crate::read::read_window(lua.vm(), index as int, 1) {
                    Some(vs) => spec_uuid_slot_ok(lua.vm(), vs[0]) && u@ == spec_swab_uuid(
                        vs[0]->Cdata_1,
                    ),
                    None => false,
                },
                None => match crate::read::read_window(lua.vm(), index as int, 1) {
                    Some(vs) => !spec_uuid_slot_ok(lua.vm(), vs[0]),
                    None => true,
                },
            },
    {
        match crate::read::resolve_window(lua, index, 1) {
            None => None,
            Some(abs) => {
                let v = lua.slot_at(abs);
                proof {
                    assert(crate::read::window_at(lua.vm(), abs as int, 1) =~= seq![
                        lua.vm().stack[abs - 1],
                    ]);
                }
                match v {
                    crate::value::LuaValue::Cdata(ct, data) => {
                        match lua.find_ctype("struct tt_uuid") {
                            Some(id) => {
                                if id == ct && data.len() == 16 {
                                    let arr: [u8; 16] = [
                                        data[3],
                                        data[2],
                                        data[1],
                                        data[0],
                                        data[5],
                                        data[4],
                                        data[7],
                                        data[6],
                                        data[8],
                                        data[9],
                                        data[10],
                                        data[11],
                                        data[12],
                                        data[13],
                                        data[14],
                                        data[15],
                                    ];
                                    proof {
                                        assert(arr@ =~= spec_swab_uuid(data@));
                                    }
                                    Some(Uuid { bytes: arr })
                                } else {
                                    None
                                }
                            },
                            None => None,
                        }
                    },
                    _ => None,
                }
            },
        }
    }
}

/// Swapping the native order twice yields the wire order back.
pub proof fn lemma_swab_involution(b: Seq<u8>)
    requires
        b.len() == 16,
    ensures
        spec_swab_uuid(spec_swab_uuid(b)) =~= b,
{
}


/// The renderings and the parser agree: the simple and the hyphenated text
/// of any 16 bytes parse back to exactly those bytes.
#[verifier::rlimit(60)]
pub proof fn lemma_text_round_trip(b: Seq<u8>)
    requires
        b.len() == 16,
    ensures
        spec_parse_uuid(spec_simple_text(b)) == Some(b),
        spec_parse_uuid(spec_hyphenated_text(b)) == Some(b),
{
    reveal_strlit("0123456789abcdef");
    assert forall|d: int| 0 <= d < 16 implies spec_is_hex(
        #[trigger] crate::util::spec_hex_char(d),
    ) && spec_hex_val(crate::util::spec_hex_char(d)) == d by {
        assert("0123456789abcdef"@.len() == 16);
    }

    let st = spec_simple_text(b);
    assert(st.len() == 32);
    assert forall|i: int| 0 <= i < 32 implies spec_is_hex(#[trigger] st[i]) by {
        assert(0 <= b[i / 2] as int / 16 < 16);
        assert(0 <= b[i / 2] as int % 16 < 16);
    }
    assert(spec_simple_ok(st));
    assert forall|k: int| 0 <= k < 16 implies spec_simple_bytes(st)[k] == b[k] by {
        assert(st[2 * k] == crate::util::spec_hex_char(b[k] as int / 16));
        assert(st[2 * k + 1] == crate::util::spec_hex_char(b[k] as int % 16));
        assert((b[k] as int / 16) * 16 + b[k] as int % 16 == b[k] as int);
    }
    assert(spec_simple_bytes(st) =~= b);

    let ht = spec_hyphenated_text(b);
    assert(ht.len() == 36);
    assert forall|i: int| 0 <= i < 36 implies spec_hy_char_ok(ht, i) by {
        if !spec_hyphen_pos(i) {
            let j = spec_hy_digit_of_pos(i);
            assert(0 <= j < 32);
            assert(0 <= b[j / 2] as int / 16 < 16);
            assert(0 <= b[j / 2] as int % 16 < 16);
        }
    }
    assert(spec_hyphenated_ok(ht));
    assert forall|k: int| 0 <= k < 16 implies spec_hyphenated_bytes(ht)[k] == b[k] by {
        let p0 = spec_hy_digit_pos(2 * k);
        let p1 = spec_hy_digit_pos(2 * k + 1);
        assert(!spec_hyphen_pos(p0));
        assert(!spec_hyphen_pos(p1));
        assert(spec_hy_digit_of_pos(p0) == 2 * k);
        assert(spec_hy_digit_of_pos(p1) == 2 * k + 1);
        assert(ht[p0] == crate::util::spec_hex_char(b[k] as int / 16));
        assert(ht[p1] == crate::util::spec_hex_char(b[k] as int % 16));
        assert((b[k] as int / 16) * 16 + b[k] as int % 16 == b[k] as int);
    }
    assert(spec_hyphenated_bytes(ht) =~= b);
    assert(!spec_simple_ok(ht));
}

} // verus!
