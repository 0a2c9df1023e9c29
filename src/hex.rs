use vstd::prelude::*;

use crate::error::HexError;

verus! {

/// The lowercase hex digit for a value below sixteen.
pub open spec fn hex_digit(n: int) -> char {
    if n < 10 {
        (n + 48) as char
    } else {
        (n + 87) as char
    }
}

/// Two lowercase digits per byte, high nibble first.
pub open spec fn hex_text(b: Seq<u8>) -> Seq<char> {
    Seq::new(
        2 * b.len(),
        |i: int|
            if i % 2 == 0 {
                hex_digit(b[i / 2] as int / 16)
            } else {
                hex_digit(b[i / 2] as int % 16)
            },
    )
}

pub open spec fn is_hex_digit(c: char) -> bool {
    ('0' <= c && c <= '9') || ('a' <= c && c <= 'f') || ('A' <= c && c <= 'F')
}

/// The value of a hex digit, upper or lower case.
pub open spec fn digit_value(c: char) -> int {
    if '0' <= c && c <= '9' {
        c as int - 48
    } else if 'a' <= c && c <= 'f' {
        c as int - 87
    } else {
        c as int - 55
    }
}

/// Text that decodes: an even number of characters, each a hex digit.
pub open spec fn is_hex_text(s: Seq<char>) -> bool {
    &&& s.len() % 2 == 0
    &&& forall|i: int| 0 <= i < s.len() ==> is_hex_digit(#[trigger] s[i])
}

/// The bytes that hex text stands for, two digits each.
pub open spec fn decoded(s: Seq<char>) -> Seq<u8> {
    Seq::new(
        s.len() / 2,
        |i: int| (digit_value(s[2 * i]) * 16 + digit_value(s[2 * i + 1])) as u8,
    )
}

proof fn lemma_digit_round_trip(n: int)
    requires
        0 <= n < 16,
    ensures
        is_hex_digit(hex_digit(n)),
        digit_value(hex_digit(n)) == n,
{
}

/// Lowercase hex text of any bytes decodes back to those bytes.
pub proof fn lemma_hex_text_round_trip(b: Seq<u8>)
    ensures
        is_hex_text(hex_text(b)),
        decoded(hex_text(b)) == b,
{
    let t = hex_text(b);
    assert forall|i: int| 0 <= i < t.len() implies is_hex_digit(#[trigger] t[i]) by {
        lemma_digit_round_trip(b[i / 2] as int / 16);
        lemma_digit_round_trip(b[i / 2] as int % 16);
    }
    assert(t.len() % 2 == 0);
    assert forall|i: int| 0 <= i < b.len() implies #[trigger] decoded(t)[i] == b[i] by {
        assert((2 * i) / 2 == i);
        assert((2 * i + 1) / 2 == i);
        assert((2 * i) % 2 == 0);
        assert((2 * i + 1) % 2 == 1);
        lemma_digit_round_trip(b[i] as int / 16);
        lemma_digit_round_trip(b[i] as int % 16);
    }
    assert(decoded(t) =~= b);
}


/// The number that bytes stand for, read big-endian (the value of their hex text).
pub open spec fn bytes_value(b: Seq<u8>) -> nat
    decreases b.len(),
{
    if b.len() == 0 {
        0
    } else {
        bytes_value(b.drop_last()) * 256 + b.last() as nat
    }
}

/// The shortest big-endian bytes of a number, at least one byte: its hex
/// digits without leading zeros, with one `0` put before an odd count.
pub open spec fn min_bytes(n: nat) -> Seq<u8>
    decreases n,
{
    if n < 256 {
        seq![n as u8]
    } else {
        min_bytes(n / 256).push((n % 256) as u8)
    }
}

/// The shortest bytes of a number stand for that number, and have no
/// leading zero byte unless they are the single byte of a value below 256.
pub proof fn lemma_min_bytes(n: nat)
    ensures
        bytes_value(min_bytes(n)) == n,
        min_bytes(n).len() >= 1,
        min_bytes(n).len() == 1 || min_bytes(n)[0] != 0,
        min_bytes(n).len() == 1 <==> n < 256,
    decreases n,
{
    if n < 256 {
        assert(min_bytes(n).drop_last() =~= Seq::<u8>::empty());
        assert(bytes_value(Seq::<u8>::empty()) == 0);
    } else {
        lemma_min_bytes(n / 256);
        assert(min_bytes(n).drop_last() =~= min_bytes(n / 256));
        assert(n == (n / 256) * 256 + n % 256) by (nonlinear_arith);
        assert(min_bytes(n)[0] == min_bytes(n / 256)[0]);
    }
}

/// A prefix never stands for more than the whole.
proof fn lemma_prefix_value(s: Seq<u8>, k: int)
    requires
        0 <= k <= s.len(),
    ensures
        bytes_value(s.take(k)) <= bytes_value(s),
    decreases s.len(),
{
    if k == s.len() {
        assert(s.take(k) =~= s);
    } else {
        lemma_prefix_value(s.drop_last(), k);
        assert(s.drop_last().take(k) =~= s.take(k));
    }
}

/// Relies on hex::encode: two lowercase digits per byte, high nibble first.
#[verifier::external_body]
fn encode_text(b: &Vec<u8>) -> (r: String)
    ensures
        r@ == hex_text(b@),
{
    ::hex::encode(b)
}

/// Relies on hex::decode: it fails on odd length or a byte outside
/// `[0-9a-fA-F]`, and otherwise gives one byte per pair of digits.
#[verifier::external_body]
fn decode_text(s: &str) -> (r: Option<Vec<u8>>)
    ensures
        r is Some <==> is_hex_text(s@),
        r matches Some(v) ==> v@ == decoded(s@),
{
    ::hex::decode(s).ok()
}

/// Binary data that reads as hexadecimal. Any bytes are valid.
#[derive(Clone, Debug)]
pub struct Hex(Vec<u8>);

impl View for Hex {
    type V = Seq<u8>;

    closed spec fn view(&self) -> Seq<u8> {
        self.0@
    }
}

impl Hex {
    /// Takes the bytes as they are.
    pub fn from_bytes(bytes: Vec<u8>) -> (r: Hex)
        ensures
            r@ == bytes@,
    {
        Hex(bytes)
    }

    /// Decodes hex text, upper or lower case.
    pub fn from_text(s: &str) -> (r: Result<Hex, HexError>)
        ensures
            r is Ok <==> is_hex_text(s@),
            r matches Ok(h) ==> h@ == decoded(s@),
            r matches Err(e) ==> e == HexError::Decode,
    {
        match decode_text(s) {
            Some(v) => Ok(Hex(v)),
            None => Err(HexError::Decode),
        }
    }

    /// The number's hex digits, without leading zeros and padded with one `0`
    /// to an even count, decoded: its shortest big-endian bytes.
    pub fn from_numeric(n: u64) -> (r: Hex)
        ensures
            r@ == min_bytes(n as nat),
            bytes_value(r@) == n,
    {
        proof {
            lemma_min_bytes(n as nat);
        }
        Hex(numeric_bytes(n))
    }

    /// Read-only view of the bytes.
    pub fn bytes(&self) -> (r: &Vec<u8>)
        ensures
            r@ == self@,
    {
        &self.0
    }

    /// Lowercase hex text, two digits per byte.
    pub fn to_alphanumeric(&self) -> (r: String)
        ensures
            r@ == hex_text(self@),
    {
        encode_text(&self.0)
    }

    /// The number that the hex text stands for; `Overflow` where it exceeds
    /// `u64::MAX`. Leading zero bytes do not count, so this loses them.
    pub fn to_numeric(&self) -> (r: Result<u64, HexError>)
        ensures
            r is Ok <==> bytes_value(self@) <= u64::MAX,
            r matches Ok(n) ==> n == bytes_value(self@),
            r matches Err(e) ==> e == HexError::Overflow,
    {
        let mut acc: u64 = 0;
        let mut i: usize = 0;
        while i < self.0.len()
            invariant
                i <= self.0@.len(),
                acc as nat == bytes_value(self.0@.take(i as int)),
            decreases self.0@.len() - i,
        {
            let b = self.0[i];
            proof {
                assert(self.0@.take(i + 1).drop_last() =~= self.0@.take(i as int));
            }
            if acc > (u64::MAX - b as u64) / 256 {
                proof {
                    assert(acc * 256 + b > u64::MAX) by (nonlinear_arith)
                        requires
                            acc > (u64::MAX - b as u64) / 256,
                            b <= 255,
                    ;
                    lemma_prefix_value(self.0@, i + 1);
                }
                return Err(HexError::Overflow);
            }
            proof {
                assert(acc * 256 + b <= u64::MAX) by (nonlinear_arith)
                    requires
                        acc <= (u64::MAX - b as u64) / 256,
                        b <= 255,
                ;
            }
            acc = acc * 256 + b as u64;
            i = i + 1;
        }
        proof {
            assert(self.0@.take(i as int) =~= self.0@);
        }
        Ok(acc)
    }
}

fn numeric_bytes(n: u64) -> (r: Vec<u8>)
    ensures
        r@ == min_bytes(n as nat),
    decreases n,
{
    if n < 256 {
        vec![n as u8]
    } else {
        let mut r = numeric_bytes(n / 256);
        r.push((n % 256) as u8);
        r
    }
}

/// Two values are equal exactly when their bytes are: `00ff` and `ff` differ.
impl PartialEq for Hex {
    fn eq(&self, other: &Hex) -> (r: bool) {
        if self.0.len() != other.0.len() {
            return false;
        }
        let mut i: usize = 0;
        while i < self.0.len()
            invariant
                i <= self.0@.len(),
                self.0@.len() == other.0@.len(),
                forall|j: int| 0 <= j < i ==> self.0@[j] == other.0@[j],
            decreases self.0@.len() - i,
        {
            if self.0[i] != other.0[i] {
                return false;
            }
            i = i + 1;
        }
        proof {
            assert(self.0@ =~= other.0@);
        }
        true
    }
}

impl vstd::std_specs::cmp::PartialEqSpecImpl for Hex {
    open spec fn obeys_eq_spec() -> bool {
        true
    }

    open spec fn eq_spec(&self, other: &Hex) -> bool {
        self@ == other@
    }
}

impl Eq for Hex {
}

} // verus!
