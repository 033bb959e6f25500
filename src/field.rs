//! Elements of the BN254 scalar field and their two external forms: 32
//! canonical little-endian bytes, and unsigned decimal numerals.
use vstd::prelude::*;
use ark_serialize::{CanonicalDeserialize, CanonicalSerialize};
use vstd::utf8::{encode_utf8, is_ascii_chars, is_ascii_chars_encode_utf8};
use crate::error::VortexError;

verus! {

/// The order r of the BN254 scalar field.
pub open spec fn field_modulus() -> nat {
    21888242871839275222246405745257275088548364400416034343698204186575808495617nat
}

/// Number of bytes in the canonical encoding of a field element.
pub const FIELD_BYTES: usize = 32;

/// The integer whose little-endian base-256 digits are `b`.
pub open spec fn le_value(b: Seq<u8>) -> nat
    decreases b.len(),
{
    if b.len() == 0 {
        0
    } else {
        b[0] as nat + 256 * le_value(b.drop_first())
    }
}

/// Whether `b` is the canonical encoding of some field element.
pub open spec fn is_canonical(b: Seq<u8>) -> bool {
    b.len() == FIELD_BYTES && le_value(b) < field_modulus()
}

/// A residue modulo `field_modulus()`, held as its canonical encoding.
#[derive(Debug, Clone)]
pub struct FieldElement {
    bytes: Vec<u8>,
}

impl View for FieldElement {
    type V = nat;

    open spec fn view(&self) -> nat {
        le_value(self.spec_bytes())
    }
}

impl FieldElement {
    /// The encoding that this element holds.
    pub closed spec fn spec_bytes(&self) -> Seq<u8> {
        self.bytes@
    }

    pub open spec fn wf(&self) -> bool {
        is_canonical(self.spec_bytes())
    }

    /// An element with the same encoding.
    pub fn copied(&self) -> (r: FieldElement)
        ensures
            r.spec_bytes() == self.spec_bytes(),
    {
        FieldElement { bytes: self.bytes.clone() }
    }

    /// The canonical little-endian encoding.
    pub fn to_bytes(&self) -> (r: Vec<u8>)
        ensures
            r@ == self.spec_bytes(),
    {
        self.bytes.clone()
    }

    /// Borrowed view of the canonical encoding.
    pub fn as_bytes(&self) -> (r: &Vec<u8>)
        ensures
            r@ == self.spec_bytes(),
    {
        &self.bytes
    }

    /// The element 0.
    pub fn zero() -> (r: FieldElement)
        ensures
            r.wf(),
            r@ == 0,
    {
        let mut bytes: Vec<u8> = Vec::new();
        let mut i: usize = 0;
        while i < FIELD_BYTES
            invariant
                i <= FIELD_BYTES,
                bytes@.len() == i,
                forall|j: int| 0 <= j < i ==> bytes@[j] == 0u8,
            decreases FIELD_BYTES - i,
        {
            bytes.push(0u8);
            i = i + 1;
        }
        proof { lemma_le_value_zeros(bytes@); }
        FieldElement { bytes }
    }

    /// Reads the canonical 32-byte encoding; any other length, or a value
    /// not below the modulus, is refused.
    pub fn from_bytes(b: &[u8]) -> (r: Result<FieldElement, VortexError>)
        ensures
            r matches Ok(x) ==> x.wf() && x.spec_bytes() == b@,
            r is Ok <==> is_canonical(b@),
            r matches Err(e) ==> e == VortexError::InputParse,
    {
        if b.len() != FIELD_BYTES {
            return Err(VortexError::InputParse);
        }
        if !field_bytes_in_range(b) {
            return Err(VortexError::InputParse);
        }
        let mut bytes: Vec<u8> = Vec::new();
        let mut i: usize = 0;
        while i < b.len()
            invariant
                i <= b@.len(),
                bytes@ == b@.subrange(0, i as int),
            decreases b@.len() - i,
        {
            bytes.push(b[i]);
            i = i + 1;
        }
        assert(bytes@ =~= b@);
        Ok(FieldElement { bytes })
    }

    /// Whether two elements are the same residue.
    pub fn equals(&self, other: &FieldElement) -> (r: bool)
        requires
            self.wf(),
            other.wf(),
        ensures
            r == (self@ == other@),
    {
        let mut i: usize = 0;
        while i < FIELD_BYTES
            invariant
                i <= FIELD_BYTES,
                self.bytes@.len() == FIELD_BYTES,
                other.bytes@.len() == FIELD_BYTES,
                forall|j: int| 0 <= j < i ==> self.bytes@[j] == other.bytes@[j],
            decreases FIELD_BYTES - i,
        {
            if self.bytes[i] != other.bytes[i] {
                proof {
                    if self@ == other@ {
                        lemma_le_value_injective(self.bytes@, other.bytes@);
                    }
                }
                return false;
            }
            i = i + 1;
        }
        assert(self.bytes@ =~= other.bytes@);
        true
    }

    /// The product of two elements.
    pub fn mul(&self, other: &FieldElement) -> (r: FieldElement)
        requires
            self.wf(),
            other.wf(),
        ensures
            r.wf(),
            r@ == (self@ * other@) % field_modulus(),
    {
        FieldElement { bytes: field_product(&self.bytes, &other.bytes) }
    }

    /// The element as an unsigned decimal numeral without leading zeros.
    pub fn to_decimal_string(&self) -> (r: String)
        requires
            self.wf(),
        ensures
            r@ == decimal_of(self@),
    {
        field_decimal(&self.bytes)
    }
}

proof fn lemma_le_value_zeros(b: Seq<u8>)
    requires
        forall|j: int| 0 <= j < b.len() ==> b[j] == 0u8,
    ensures
        le_value(b) == 0,
    decreases b.len(),
{
    if b.len() > 0 {
        lemma_le_value_zeros(b.drop_first());
    }
}

/// Two encodings of one length that denote the same integer are equal.
proof fn lemma_le_value_injective(a: Seq<u8>, b: Seq<u8>)
    requires
        a.len() == b.len(),
        le_value(a) == le_value(b),
    ensures
        a == b,
    decreases a.len(),
{
    if a.len() > 0 {
        let x0 = a[0] as nat;
        let x1 = b[0] as nat;
        let y0 = le_value(a.drop_first());
        let y1 = le_value(b.drop_first());
        assert(x0 == x1 && y0 == y1) by (nonlinear_arith)
            requires
                x0 + 256 * y0 == x1 + 256 * y1,
                x0 < 256,
                x1 < 256,
        ;
        lemma_le_value_injective(a.drop_first(), b.drop_first());
        assert(a =~= seq![a[0]] + a.drop_first());
        assert(b =~= seq![b[0]] + b.drop_first());
    }
}

/// Relies on ark-bn254's `Fr::deserialize_compressed`, which accepts 32
/// little-endian bytes exactly when they encode an integer below the modulus.
#[verifier::external_body]
fn field_bytes_in_range(b: &[u8]) -> (r: bool)
    requires
        b@.len() == FIELD_BYTES,
    ensures
        r == (le_value(b@) < field_modulus()),
{
    ark_bn254::Fr::deserialize_compressed(b).is_ok()
}

/// Relies on ark-bn254's `Fr` multiplication, which is multiplication modulo
/// r, and on its canonical little-endian serialization.
#[verifier::external_body]
fn field_product(a: &Vec<u8>, b: &Vec<u8>) -> (r: Vec<u8>)
    requires
        is_canonical(a@),
        is_canonical(b@),
    ensures
        is_canonical(r@),
        le_value(r@) == (le_value(a@) * le_value(b@)) % field_modulus(),
{
    let x = ark_bn254::Fr::deserialize_compressed(&a[..]).unwrap_or_default();
    let y = ark_bn254::Fr::deserialize_compressed(&b[..]).unwrap_or_default();
    let mut out = Vec::new();
    let _ = (x * y).serialize_compressed(&mut out);
    out
}

/// The character of a decimal digit `d < 10`.
pub open spec fn digit_char(d: nat) -> char {
    seq!['0', '1', '2', '3', '4', '5', '6', '7', '8', '9'][d as int]
}

/// The decimal numeral of `n`, without leading zeros ("0" for zero).
pub open spec fn decimal_of(n: nat) -> Seq<char>
    decreases n,
{
    if n < 10 {
        seq![digit_char(n)]
    } else {
        decimal_of(n / 10).push(digit_char(n % 10))
    }
}

/// Relies on ark-ff's `Display` for field elements, which prints the
/// canonical integer in decimal through num-bigint.
#[verifier::external_body]
fn field_decimal(b: &Vec<u8>) -> (r: String)
    requires
        is_canonical(b@),
    ensures
        r@ == decimal_of(le_value(b@)),
{
    ark_bn254::Fr::deserialize_compressed(&b[..]).unwrap_or_default().to_string()
}

/// Unicode White_Space, the characters that `str::trim` removes.
pub open spec fn is_white_space(c: char) -> bool {
    ('\u{9}' <= c && c <= '\u{d}') || c == ' ' || c == '\u{85}' || c == '\u{a0}'
        || c == '\u{1680}' || ('\u{2000}' <= c && c <= '\u{200a}') || c == '\u{2028}'
        || c == '\u{2029}' || c == '\u{202f}' || c == '\u{205f}' || c == '\u{3000}'
}

pub open spec fn trim_start_spec(s: Seq<char>) -> Seq<char>
    decreases s.len(),
{
    if s.len() > 0 && is_white_space(s[0]) {
        trim_start_spec(s.drop_first())
    } else {
        s
    }
}

pub open spec fn trim_end_spec(s: Seq<char>) -> Seq<char>
    decreases s.len(),
{
    if s.len() > 0 && is_white_space(s.last()) {
        trim_end_spec(s.drop_last())
    } else {
        s
    }
}

/// `s` without leading and trailing white space.
pub open spec fn trim_spec(s: Seq<char>) -> Seq<char> {
    trim_end_spec(trim_start_spec(s))
}

/// Relies on `str::trim`, which removes leading and trailing Unicode
/// White_Space.
#[verifier::external_body]
fn trim_str(s: &str) -> (r: &str)
    ensures
        r@ == trim_spec(s@),
{
    s.trim()
}

pub open spec fn is_digit_byte(c: u8) -> bool {
    48 <= c <= 57
}

/// An unsigned decimal numeral: one or more ASCII digits and nothing else.
pub open spec fn is_numeral(b: Seq<u8>) -> bool {
    &&& b.len() > 0
    &&& forall|i: int| 0 <= i < b.len() ==> is_digit_byte(#[trigger] b[i])
}

/// The value of a run of decimal digits.
pub open spec fn numeral_value(b: Seq<u8>) -> nat
    decreases b.len(),
{
    if b.len() == 0 {
        0
    } else {
        numeral_value(b.drop_last()) * 10 + (b.last() - 48) as nat
    }
}

/// The field element that the text `s` denotes: the numeral left after
/// trimming white space, reduced modulo the field order; `None` when that
/// is no numeral.
pub open spec fn parsed_value(s: Seq<char>) -> Option<nat> {
    let b = encode_utf8(trim_spec(s));
    if is_numeral(b) {
        Some(numeral_value(b) % field_modulus())
    } else {
        None
    }
}

fn is_numeral_bytes(b: &[u8]) -> (r: bool)
    ensures
        r == is_numeral(b@),
{
    if b.len() == 0 {
        return false;
    }
    let mut i: usize = 0;
    while i < b.len()
        invariant
            i <= b@.len(),
            forall|j: int| 0 <= j < i ==> is_digit_byte(#[trigger] b@[j]),
        decreases b@.len() - i,
    {
        let c = b[i];
        if !(48u8 <= c && c <= 57u8) {
            assert(!is_digit_byte(b@[i as int]));
            return false;
        }
        i = i + 1;
    }
    true
}

/// Relies on num-bigint's `BigUint::from_str`, which reads a run of
/// decimal digits as its value, on ark-ff's `From<BigUint>`, which reduces it modulo the
/// field order, and on the canonical serialization of `Fr`.
#[verifier::external_body]
fn reduce_numeral(t: &str) -> (r: Vec<u8>)
    requires
        is_numeral(encode_utf8(t@)),
    ensures
        is_canonical(r@),
        le_value(r@) == numeral_value(encode_utf8(t@)) % field_modulus(),
{
    let n = <num_bigint::BigUint as std::str::FromStr>::from_str(t).unwrap_or_default();
    let mut out = Vec::new();
    let _ = ark_bn254::Fr::from(n).serialize_compressed(&mut out);
    out
}

/// Reads a field element from an unsigned decimal numeral, surrounding
/// white space allowed, reducing it modulo the field order.
pub fn parse_field_element(s: &str) -> (r: Result<FieldElement, VortexError>)
    ensures
        r matches Ok(x) ==> x.wf() && parsed_value(s@) == Some(x@),
        r matches Err(e) ==> e == VortexError::InputParse && parsed_value(s@) is None,
{
    let t = trim_str(s);
    let b = t.as_bytes();
    if !is_numeral_bytes(b) {
        return Err(VortexError::InputParse);
    }
    Ok(FieldElement { bytes: reduce_numeral(t) })
}

/// The bytes of a sequence of ASCII characters.
pub open spec fn ascii_bytes(s: Seq<char>) -> Seq<u8> {
    Seq::new(s.len(), |i: int| s[i] as u8)
}

proof fn lemma_digit_char(d: nat)
    requires
        d < 10,
    ensures
        '0' <= digit_char(d) <= '9',
        digit_char(d) as u8 == 48 + d,
{
    assert(d == 0 || d == 1 || d == 2 || d == 3 || d == 4 || d == 5 || d == 6 || d == 7 || d == 8
        || d == 9);
}

/// The numeral of `n` is a nonempty run of digits whose value is `n`.
proof fn lemma_decimal_digits(n: nat)
    ensures
        decimal_of(n).len() > 0,
        forall|i: int| 0 <= i < decimal_of(n).len() ==> '0' <= #[trigger] decimal_of(n)[i] <= '9',
        numeral_value(ascii_bytes(decimal_of(n))) == n,
    decreases n,
{
    lemma_digit_char(n % 10);
    if n < 10 {
        let b = ascii_bytes(decimal_of(n));
        assert(b.drop_last() =~= Seq::<u8>::empty());
        assert(b.last() == 48 + n);
        assert(numeral_value(b) == numeral_value(b.drop_last()) * 10 + (b.last() - 48) as nat);
    } else {
        lemma_decimal_digits(n / 10);
        let d = decimal_of(n);
        let b = ascii_bytes(d);
        assert(b.drop_last() =~= ascii_bytes(decimal_of(n / 10)));
        assert(b.last() == 48 + n % 10);
        assert(numeral_value(b) == numeral_value(b.drop_last()) * 10 + (b.last() - 48) as nat);
        assert(forall|i: int| 0 <= i < d.len() ==> '0' <= #[trigger] d[i] <= '9') by {
            assert forall|i: int| 0 <= i < d.len() implies '0' <= #[trigger] d[i] <= '9' by {
                if i < d.len() - 1 {
                    assert(d[i] == decimal_of(n / 10)[i]);
                }
            }
        }
        assert((n / 10) * 10 + n % 10 == n);
    }
}

/// Reading back the decimal numeral of an element gives the element.
pub proof fn lemma_decimal_round_trip(x: FieldElement)
    requires
        x.wf(),
    ensures
        parsed_value(decimal_of(x@)) == Some(x@),
{
    let d = decimal_of(x@);
    lemma_decimal_digits(x@);
    assert(!is_white_space(d[0]));
    assert(!is_white_space(d.last()));
    assert(trim_start_spec(d) == d);
    assert(trim_end_spec(d) == d);
    assert(is_ascii_chars(d));
    is_ascii_chars_encode_utf8(d);
    let b = encode_utf8(d);
    assert(b =~= ascii_bytes(d));
    assert forall|i: int| 0 <= i < b.len() implies is_digit_byte(#[trigger] b[i]) by {
        assert('0' <= d[i] <= '9');
    }
}

/// Encoding an element and decoding it again gives the element back:
/// `from_bytes` accepts the encoding of a well-formed `x` (it is canonical),
/// and any element `y` holding that encoding, as the one `from_bytes`
/// returns does, is well formed and the same residue as `x`.
pub proof fn lemma_binary_round_trip(x: FieldElement, y: FieldElement)
    requires
        x.wf(),
        y.spec_bytes() == x.spec_bytes(),
    ensures
        is_canonical(x.spec_bytes()),
        y.wf(),
        y@ == x@,
{
}

} // verus!
