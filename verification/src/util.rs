//! Small shared utilities: text comparison and rendering helpers.

use vstd::prelude::*;

verus! {

/// Compares strings for equality, character by character.
pub fn str_eq(lhs: &str, rhs: &str) -> (r: bool)
    ensures
        r == (lhs@ == rhs@),
{
    let n = lhs.unicode_len();
    let m = rhs.unicode_len();
    if n != m {
        return false;
    }
    let mut i: usize = 0;
    while i < n
        invariant
            i <= n,
            n == lhs@.len(),
            n == rhs@.len(),
            forall|j: int| 0 <= j < i ==> lhs@[j] == rhs@[j],
        decreases n - i,
    {
        if lhs.get_char(i) != rhs.get_char(i) {
            proof {
                assert(lhs@[i as int] != rhs@[i as int]);
            }
            return false;
        }
        i += 1;
    }
    proof {
        assert(lhs@ =~= rhs@);
    }
    true
}

/// The decimal digits of `n`, most significant first.
pub open spec fn spec_decimal(n: nat) -> Seq<char>
    decreases n,
{
    if n < 10 {
        seq![spec_digit_char(n as int)]
    } else {
        spec_decimal(n / 10) + seq![spec_digit_char((n % 10) as int)]
    }
}

/// The character of one decimal digit.
pub open spec fn spec_digit_char(d: int) -> char {
    "0123456789"@[d]
}

/// Renders a number in decimal.
pub fn render_u64(n: u64) -> (s: String)
    ensures
        s@ == spec_decimal(n as nat),
    decreases n,
{
    let digits = "0123456789";
    proof {
        reveal_strlit("0123456789");
    }
    if n < 10 {
        let d = digits.substring_ascii(n as usize, n as usize + 1);
        proof {
            assert(d@ =~= seq![spec_digit_char(n as int)]);
        }
        d.to_owned()
    } else {
        let mut s = render_u64(n / 10);
        let r = (n % 10) as usize;
        let d = digits.substring_ascii(r, r + 1);
        proof {
            assert(d@ =~= seq![spec_digit_char((n % 10) as int)]);
        }
        s.append(d);
        s
    }
}

/// The decimal rendering of a signed number: a minus sign before the digits
/// where it is negative.
pub open spec fn spec_decimal_signed(n: int) -> Seq<char> {
    if n < 0 {
        seq!['-'] + spec_decimal((-n) as nat)
    } else {
        spec_decimal(n as nat)
    }
}

/// Renders a signed number in decimal.
pub fn render_i64(n: i64) -> (s: String)
    ensures
        s@ == spec_decimal_signed(n as int),
{
    if n >= 0 {
        render_u64(n as u64)
    } else {
        let mag: u64 = if n == i64::MIN {
            9223372036854775808u64
        } else {
            (-n) as u64
        };
        let mut s = "-".to_owned();
        s.append(render_u64(mag).as_str());
        proof {
            reveal_strlit("-");
            assert("-"@ =~= seq!['-']);
            assert(s@ =~= spec_decimal_signed(n as int));
        }
        s
    }
}

/// A value that is either a number or a text, as some interfaces accept.
#[derive(Clone, Debug, PartialEq, Eq)]
pub enum NumOrStr {
    Num(u32),
    Str(String),
}

impl NumOrStr {
    /// The text this value stands for: the text itself, or the number
    /// rendered in decimal.
    pub fn to_text(&self) -> (s: String)
        ensures
            s@ == match self {
                NumOrStr::Num(n) => spec_decimal(*n as nat),
                NumOrStr::Str(t) => t@,
            },
    {
        match self {
            NumOrStr::Num(n) => render_u64(*n as u64),
            NumOrStr::Str(t) => t.clone(),
        }
    }
}

impl Default for NumOrStr {
    /// The number zero.
    fn default() -> (r: Self)
        ensures
            r == NumOrStr::Num(0u32),
    {
        NumOrStr::Num(0)
    }
}

impl From<u32> for NumOrStr {
    fn from(n: u32) -> (r: Self) {
        NumOrStr::Num(n)
    }
}

impl vstd::std_specs::convert::FromSpecImpl<u32> for NumOrStr {
    open spec fn obeys_from_spec() -> bool {
        true
    }

    open spec fn from_spec(n: u32) -> NumOrStr {
        NumOrStr::Num(n)
    }
}

impl From<String> for NumOrStr {
    fn from(s: String) -> (r: Self) {
        NumOrStr::Str(s)
    }
}

impl vstd::std_specs::convert::FromSpecImpl<String> for NumOrStr {
    open spec fn obeys_from_spec() -> bool {
        true
    }

    open spec fn from_spec(s: String) -> NumOrStr {
        NumOrStr::Str(s)
    }
}

/// Clones of one value, as a tuple, so that one owned value can fan out to
/// several owners at once.
pub trait IntoClones<Tuple>: Clone + Sized {
    /// Turns this value into clones of itself.
    fn into_clones(self) -> Tuple;
}

impl<T: Clone> IntoClones<(T,)> for T {
    fn into_clones(self) -> (T,) {
        (self,)
    }
}

impl<T: Clone> IntoClones<(T, T)> for T {
    fn into_clones(self) -> (T, T) {
        (self.clone(), self)
    }
}

impl<T: Clone> IntoClones<(T, T, T)> for T {
    fn into_clones(self) -> (T, T, T) {
        (self.clone(), self.clone(), self)
    }
}

/// The rendering of one byte as an escaped hexadecimal pair.
pub open spec fn spec_hex_byte(b: u8) -> Seq<char> {
    seq!['\\', 'x', spec_hex_char(b as int / 16), spec_hex_char(b as int % 16)]
}

/// The character of one hexadecimal digit.
pub open spec fn spec_hex_char(d: int) -> char {
    "0123456789abcdef"@[d]
}

/// The rendering of a byte sequence as escaped hexadecimal pairs.
pub open spec fn spec_hex_run(bs: Seq<u8>) -> Seq<char>
    decreases bs.len(),
{
    if bs.len() == 0 {
        Seq::empty()
    } else {
        spec_hex_byte(bs.first()) + spec_hex_run(bs.drop_first())
    }
}

/// Appending one byte extends the rendering by one escaped pair.
proof fn lemma_hex_run_snoc(bs: Seq<u8>, b: u8)
    ensures
        spec_hex_run(bs.push(b)) == spec_hex_run(bs) + spec_hex_byte(b),
    decreases bs.len(),
{
    if bs.len() == 0 {
        assert(bs.push(b).first() == b);
        assert(bs.push(b).drop_first() =~= Seq::<u8>::empty());
        assert(spec_hex_run(bs.push(b)) == spec_hex_byte(b) + spec_hex_run(
            bs.push(b).drop_first(),
        ));
        assert(spec_hex_run(Seq::<u8>::empty()) == Seq::<char>::empty());
        assert(spec_hex_run(bs.push(b)) =~= spec_hex_run(bs) + spec_hex_byte(b));
    } else {
        assert(bs.push(b).first() == bs.first());
        assert(bs.push(b).drop_first() =~= bs.drop_first().push(b));
        lemma_hex_run_snoc(bs.drop_first(), b);
        assert(spec_hex_run(bs.push(b)) =~= spec_hex_run(bs) + spec_hex_byte(b));
    }
}

/// A wrapper rendering byte slices as hexadecimal byte-slice literals, in
/// the shape `b"\x01\x02\x03"`.
pub struct DisplayAsHexBytes<'a>(pub &'a [u8]);

impl<'a> DisplayAsHexBytes<'a> {
    /// Renders the bytes as a hexadecimal byte-slice literal.
    pub fn render(&self) -> (s: String)
        ensures
            s@ == "b\""@ + spec_hex_run(self.0@) + "\""@,
    {
        let digits = "0123456789abcdef";
        proof {
            reveal_strlit("0123456789abcdef");
        }
        let mut acc = "b\"".to_owned();
        let n = self.0.len();
        let mut i: usize = 0;
        while i < n
            invariant
                i <= n,
                n == self.0@.len(),
                digits@ == "0123456789abcdef"@,
                digits@.len() == 16,
                forall|d: int| 0 <= d < 16 ==> digits@[d] == spec_hex_char(d),
                acc@ == "b\""@ + spec_hex_run(self.0@.take(i as int)),
            decreases n - i,
        {
            proof {
                reveal_strlit("0123456789abcdef");
                reveal_strlit("\\x");
                assert("\\x"@ =~= seq!['\\', 'x']);
            }
            let b = self.0[i];
            acc.append("\\x");
            let hi = (b / 16) as usize;
            let lo = (b % 16) as usize;
            acc.append(digits.substring_ascii(hi, hi + 1));
            acc.append(digits.substring_ascii(lo, lo + 1));
            proof {
                lemma_hex_run_snoc(self.0@.take(i as int), self.0@[i as int]);
                assert(self.0@.take(i as int).push(self.0@[i as int]) =~= self.0@.take(
                    i as int + 1,
                ));
                assert(acc@ =~= "b\""@ + spec_hex_run(self.0@.take(i as int + 1)));
            }
            i += 1;
        }
        proof {
            assert(self.0@.take(n as int) =~= self.0@);
        }
        acc.append("\"");
        acc
    }
}

/// The UTF-8 encoding of the replacement character, standing in for each
/// nul byte.
pub open spec fn spec_replacement_bytes() -> Seq<u8> {
    seq![0xefu8, 0xbfu8, 0xbdu8]
}

/// The bytes with every nul replaced by the replacement character.
pub open spec fn spec_replace_nul(bs: Seq<u8>) -> Seq<u8>
    decreases bs.len(),
{
    if bs.len() == 0 {
        Seq::empty()
    } else {
        (if bs.first() == 0 {
            spec_replacement_bytes()
        } else {
            seq![bs.first()]
        }) + spec_replace_nul(bs.drop_first())
    }
}

/// Appending one byte extends the replacement accordingly.
proof fn lemma_replace_nul_snoc(bs: Seq<u8>, b: u8)
    ensures
        spec_replace_nul(bs.push(b)) == spec_replace_nul(bs) + (if b == 0 {
            spec_replacement_bytes()
        } else {
            seq![b]
        }),
    decreases bs.len(),
{
    if bs.len() == 0 {
        assert(bs.push(b).first() == b);
        assert(bs.push(b).drop_first() =~= Seq::<u8>::empty());
        assert(spec_replace_nul(bs.push(b)) == (if b == 0 {
            spec_replacement_bytes()
        } else {
            seq![b]
        }) + spec_replace_nul(bs.push(b).drop_first()));
        assert(spec_replace_nul(Seq::<u8>::empty()) == Seq::<u8>::empty());
        assert(spec_replace_nul(bs.push(b)) =~= spec_replace_nul(bs) + (if b == 0 {
            spec_replacement_bytes()
        } else {
            seq![b]
        }));
    } else {
        assert(bs.push(b).first() == bs.first());
        assert(bs.push(b).drop_first() =~= bs.drop_first().push(b));
        lemma_replace_nul_snoc(bs.drop_first(), b);
        assert(spec_replace_nul(bs.push(b)) =~= spec_replace_nul(bs) + (if b == 0 {
            spec_replacement_bytes()
        } else {
            seq![b]
        }));
    }
}

/// The UTF-8 bytes of a text with every nul byte replaced by the
/// replacement character, for interfaces that cannot carry nul.
pub fn replace_nul_bytes(s: &[u8]) -> (r: Vec<u8>)
    ensures
        r@ == spec_replace_nul(s@),
{
    let n = s.len();
    let mut out: Vec<u8> = Vec::new();
    let mut i: usize = 0;
    proof {
        assert(s@.take(0) =~= Seq::<u8>::empty());
    }
    while i < n
        invariant
            i <= n,
            n == s@.len(),
            out@ == spec_replace_nul(s@.take(i as int)),
        decreases n - i,
    {
        let b = s[i];
        if b == 0 {
            out.push(0xef);
            out.push(0xbf);
            out.push(0xbd);
        } else {
            out.push(b);
        }
        proof {
            lemma_replace_nul_snoc(s@.take(i as int), s@[i as int]);
            assert(s@.take(i as int).push(s@[i as int]) =~= s@.take(i as int + 1));
            assert(out@ =~= spec_replace_nul(s@.take(i as int + 1)));
        }
        i += 1;
    }
    proof {
        assert(s@.take(n as int) =~= s@);
    }
    out
}

} // verus!
