//! Hexadecimal text and the byte strings it stands for.

use vstd::prelude::*;
use vstd::string::StringSliceAdditionalSpecFns;

verus! {

#[verifier::external_type_specification]
#[verifier::external_body]
pub struct ExFromHexError(hex::FromHexError);

/// `c` is an ASCII hexadecimal digit, in either case.
pub open spec fn is_hex_digit(c: u8) -> bool {
    (48 <= c <= 57) || (65 <= c <= 70) || (97 <= c <= 102)
}

/// The value of a hexadecimal digit.
pub open spec fn hex_val(c: u8) -> nat {
    if 48 <= c <= 57 {
        (c - 48) as nat
    } else if 65 <= c <= 70 {
        (c - 55) as nat
    } else {
        (c - 87) as nat
    }
}

/// Every byte is a hexadecimal digit.
pub open spec fn all_hex(d: Seq<u8>) -> bool {
    forall|i: int| 0 <= i < d.len() ==> is_hex_digit(#[trigger] d[i])
}

/// The bytes that pairs of hexadecimal digits stand for, high digit first.
pub open spec fn spec_hex_decode(d: Seq<u8>) -> Seq<u8> {
    Seq::new(d.len() / 2, |i: int| (hex_val(d[2 * i]) * 16 + hex_val(d[2 * i + 1])) as u8)
}

/// The lower-case hexadecimal digit of a value below 16.
pub open spec fn hex_char(n: nat) -> char {
    if n < 10 {
        (48 + n) as char
    } else {
        (87 + n) as char
    }
}

/// Two lower-case hexadecimal digits per byte, high digit first.
pub open spec fn spec_hex_encode(b: Seq<u8>) -> Seq<char> {
    Seq::new(
        2 * b.len(),
        |j: int| hex_char(if j % 2 == 0 { (b[j / 2] as nat) / 16 } else { (b[j / 2] as nat) % 16 }),
    )
}

/// `hex::decode` on the bytes of `s`: it fails when their number is odd or
/// one of them is not a hexadecimal digit (either case); otherwise each pair
/// of digits gives one byte, high digit first. Which error it returns is not
/// stated.
#[verifier::external_body]
fn hex_decode(s: &str) -> (r: Result<Vec<u8>, hex::FromHexError>)
    ensures
        match r {
            Ok(v) => s.spec_bytes().len() % 2 == 0 && all_hex(s.spec_bytes()) && v@ == spec_hex_decode(
                s.spec_bytes(),
            ),
            Err(_) => !(s.spec_bytes().len() % 2 == 0 && all_hex(s.spec_bytes())),
        },
{
    hex::decode(s)
}

/// `hex::encode`: two lower-case digits per byte, high digit first.
#[verifier::external_body]
pub(crate) fn hex_encode(data: &Vec<u8>) -> (s: String)
    ensures
        s@ == spec_hex_encode(data@),
{
    hex::encode(data)
}

/// Why hexadecimal text could not be byte-reversed.
#[derive(Debug)]
pub enum ReverseHexError {
    /// An odd number of bytes.
    OddLength,
    /// A byte that is not a hexadecimal digit.
    Decode(hex::FromHexError),
}

impl ReverseHexError {
    /// The message that explains the error.
    pub open spec fn spec_message(self) -> Seq<char> {
        match self {
            ReverseHexError::OddLength => "hex string has odd length"@,
            ReverseHexError::Decode(_) => "failed to decode hex bytes"@,
        }
    }

    /// The message that explains the error.
    pub fn message(&self) -> (s: String)
        ensures
            s@ == self.spec_message(),
    {
        match self {
            ReverseHexError::OddLength => String::from_str("hex string has odd length"),
            ReverseHexError::Decode(_) => String::from_str("failed to decode hex bytes"),
        }
    }
}

/// The bytes in reverse order.
fn reversed(bytes: &Vec<u8>) -> (r: Vec<u8>)
    ensures
        r@ == bytes@.reverse(),
{
    let mut out: Vec<u8> = Vec::new();
    let n = bytes.len();
    let mut i: usize = 0;
    while i < n
        invariant
            i <= n,
            n == bytes@.len(),
            out@ == Seq::new(i as nat, |j: int| bytes@[n - 1 - j]),
        decreases n - i,
    {
        out.push(bytes[n - 1 - i]);
        i = i + 1;
        assert(out@ =~= Seq::new(i as nat, |j: int| bytes@[n - 1 - j]));
    }
    assert(out@ =~= bytes@.reverse());
    out
}

/// The hexadecimal text of the same bytes in reverse order, in lower case:
/// an error when the text has an odd number of bytes or holds a byte that is
/// not a hexadecimal digit.
pub fn reverse_hex_bytes(hex_value: &str) -> (r: Result<String, ReverseHexError>)
    ensures
        hex_value.spec_bytes().len() % 2 != 0 ==> r matches Err(ReverseHexError::OddLength),
        hex_value.spec_bytes().len() % 2 == 0 && !all_hex(hex_value.spec_bytes()) ==> r matches Err(
            ReverseHexError::Decode(_),
        ),
        hex_value.spec_bytes().len() % 2 == 0 && all_hex(hex_value.spec_bytes()) ==> (r matches Ok(s) && s@
            == spec_hex_encode(spec_hex_decode(hex_value.spec_bytes()).reverse())),
{
    if hex_value.as_bytes().len() % 2 != 0 {
        return Err(ReverseHexError::OddLength);
    }
    match hex_decode(hex_value) {
        Err(e) => Err(ReverseHexError::Decode(e)),
        Ok(bytes) => {
            let rev = reversed(&bytes);
            Ok(hex_encode(&rev))
        },
    }
}

/// The bytes of ASCII text.
pub open spec fn ascii_bytes(c: Seq<char>) -> Seq<u8> {
    Seq::new(c.len(), |i: int| c[i] as u8)
}

proof fn lemma_hex_char(n: nat)
    requires
        n < 16,
    ensures
        is_hex_digit(hex_char(n) as u8),
        hex_val(hex_char(n) as u8) == n,
{
}

/// Decoding the hexadecimal text of some bytes gives the bytes back, and
/// that text is made of hexadecimal digits only, two per byte.
pub proof fn lemma_hex_round_trip(b: Seq<u8>)
    ensures
        ascii_bytes(spec_hex_encode(b)).len() == 2 * b.len(),
        all_hex(ascii_bytes(spec_hex_encode(b))),
        spec_hex_decode(ascii_bytes(spec_hex_encode(b))) == b,
{
    let t = ascii_bytes(spec_hex_encode(b));
    assert forall|i: int| 0 <= i < t.len() implies is_hex_digit(#[trigger] t[i]) by {
        let v = b[i / 2] as nat;
        lemma_hex_char(v / 16);
        lemma_hex_char(v % 16);
    }
    assert forall|i: int| 0 <= i < b.len() implies #[trigger] spec_hex_decode(t)[i] == b[i] by {
        let v = b[i] as nat;
        lemma_hex_char(v / 16);
        lemma_hex_char(v % 16);
        assert((2 * i) / 2 == i && (2 * i) % 2 == 0);
        assert((2 * i + 1) / 2 == i && (2 * i + 1) % 2 == 1);
        assert(v / 16 * 16 + v % 16 == v);
    }
    assert(spec_hex_decode(t) =~= b);
}

/// The text of hexadecimal digits is ASCII, its bytes are hexadecimal
/// digits two per byte, and reversing them gives the text of the reversed
/// bytes.
pub proof fn lemma_reverse_encoded(b: Seq<u8>)
    ensures
        ({
            let bytes = vstd::utf8::encode_utf8(spec_hex_encode(b));
            &&& bytes.len() % 2 == 0
            &&& all_hex(bytes)
            &&& spec_hex_encode(spec_hex_decode(bytes).reverse()) == spec_hex_encode(b.reverse())
        }),
{
    let t = spec_hex_encode(b);
    assert forall|i: int| 0 <= i < t.len() implies '\0' <= #[trigger] t[i] <= '\u{7f}' by {
        let v = b[i / 2] as nat;
        assert(v / 16 < 16 && v % 16 < 16);
    }
    vstd::utf8::is_ascii_chars_encode_utf8(t);
    assert(vstd::utf8::encode_utf8(t) =~= ascii_bytes(t));
    lemma_hex_round_trip(b);
}

/// The lower-case form of an ASCII byte, as a character.
pub open spec fn lower_char(c: u8) -> char {
    if 65 <= c <= 90 {
        (c + 32) as char
    } else {
        c as char
    }
}

/// ASCII text in lower case.
pub open spec fn ascii_lower(d: Seq<u8>) -> Seq<char> {
    Seq::new(d.len(), |i: int| lower_char(d[i]))
}

proof fn lemma_digit_lower(c: u8)
    requires
        is_hex_digit(c),
    ensures
        hex_char(hex_val(c)) == lower_char(c),
{
}

proof fn lemma_split_byte(hi: nat, lo: nat)
    requires
        hi < 16,
        lo < 16,
    ensures
        ((hi * 16 + lo) as u8) as nat / 16 == hi,
        ((hi * 16 + lo) as u8) as nat % 16 == lo,
{
    assert(hi * 16 + lo < 256) by (nonlinear_arith)
        requires
            hi < 16,
            lo < 16,
    ;
    assert((hi * 16 + lo) / 16 == hi && (hi * 16 + lo) % 16 == lo) by (nonlinear_arith)
        requires
            lo < 16,
    ;
}

/// Hexadecimal text decoded then encoded again is the text in lower case.
pub proof fn lemma_decode_encode(d: Seq<u8>)
    requires
        d.len() % 2 == 0,
        all_hex(d),
    ensures
        spec_hex_encode(spec_hex_decode(d)) == ascii_lower(d),
{
    let e = spec_hex_encode(spec_hex_decode(d));
    assert forall|j: int| 0 <= j < d.len() implies #[trigger] e[j] == ascii_lower(d)[j] by {
        let k = j / 2;
        assert(0 <= 2 * k < d.len() && 2 * k + 1 < d.len());
        let hi = hex_val(d[2 * k]);
        let lo = hex_val(d[2 * k + 1]);
        assert(hi < 16 && lo < 16);
        lemma_split_byte(hi, lo);
        if j % 2 == 0 {
            assert(j == 2 * k);
            lemma_digit_lower(d[j]);
        } else {
            assert(j == 2 * k + 1);
            lemma_digit_lower(d[j]);
        }
    }
    assert(e =~= ascii_lower(d));
}

/// Reversing the bytes of hexadecimal text twice gives the text back in
/// lower case: the text reversed once is hexadecimal text of the same
/// length, and reversing it again gives the input with its letters in lower
/// case.
pub proof fn lemma_reverse_hex_twice(d: Seq<u8>)
    requires
        d.len() % 2 == 0,
        all_hex(d),
    ensures
        ({
            let once = spec_hex_encode(spec_hex_decode(d).reverse());
            let bytes = vstd::utf8::encode_utf8(once);
            &&& once.len() == d.len()
            &&& bytes.len() % 2 == 0
            &&& all_hex(bytes)
            &&& spec_hex_encode(spec_hex_decode(bytes).reverse()) == ascii_lower(d)
        }),
{
    let r = spec_hex_decode(d).reverse();
    lemma_reverse_encoded(r);
    assert(r.reverse() =~= spec_hex_decode(d));
    lemma_decode_encode(d);
}

} // verus!
