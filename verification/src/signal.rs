//! Signal definitions and extraction of a signal's raw value from frame data.
//!
//! A signal occupies `bit_length` consecutive bits of the payload. In Intel
//! (little-endian) order bit `q` of the payload is bit `q % 8` of byte
//! `q / 8`, counting from the least significant bit, and the first bit read is
//! the least significant bit of the value. In Motorola (big-endian) order bit
//! `q` is counted from the most significant bit of byte `q / 8`, and the first
//! bit read is the most significant bit of the value.
use vstd::prelude::*;
use crate::error::BusmasterError;
use crate::text::{dec_digits, owned, push_dec, push_str};

verus! {

broadcast use vstd::string::group_string_axioms;

/// Byte order for signal extraction
#[derive(Debug, Clone, Copy, PartialEq, Eq, Structural)]
pub enum ByteOrder {
    /// Little-endian (Intel)
    LittleEndian,
    /// Big-endian (Motorola)
    BigEndian,
}

/// Value type for signals
#[derive(Debug, Clone, Copy, PartialEq, Eq, Structural)]
pub enum ValueType {
    /// Unsigned integer
    Unsigned,
    /// Signed integer
    Signed,
    /// IEEE 754 float (32-bit)
    Float32,
    /// IEEE 754 double (64-bit)
    Float64,
}

/// Two to the power `n`.
pub open spec fn two_pow(n: nat) -> nat
    decreases n,
{
    if n == 0 {
        1
    } else {
        2 * two_pow((n - 1) as nat)
    }
}

proof fn lemma_two_pow_unfold(n: nat)
    ensures
        two_pow(n + 1) == 2 * two_pow(n),
        two_pow(n) >= 1,
    decreases n,
{
    if n > 0 {
        lemma_two_pow_unfold((n - 1) as nat);
    }
}

proof fn lemma_two_pow_mono(a: nat, b: nat)
    requires
        a <= b,
    ensures
        two_pow(a) <= two_pow(b),
        a < b ==> two_pow(a) < two_pow(b),
    decreases b - a,
{
    lemma_two_pow_unfold(a);
    if a < b {
        lemma_two_pow_mono(a + 1, b);
    }
}

proof fn lemma_two_pow_values()
    ensures
        two_pow(63) == 0x8000_0000_0000_0000,
        two_pow(64) == 0x1_0000_0000_0000_0000,
        two_pow(65) == 0x2_0000_0000_0000_0000,
{
    reveal_with_fuel(two_pow, 66);
}

/// Bit `q` of `data` in Intel numbering (0 or 1).
pub open spec fn lsb_bit(data: Seq<u8>, q: int) -> u8 {
    (data[q / 8] >> ((q % 8) as u8)) & 1u8
}

/// Bit `q` of `data` in Motorola numbering (0 or 1).
pub open spec fn msb_bit(data: Seq<u8>, q: int) -> u8 {
    (data[q / 8] >> ((7 - q % 8) as u8)) & 1u8
}

/// The value of the `n` Intel-order bits starting at bit `start`, least
/// significant first.
pub open spec fn le_value(data: Seq<u8>, start: int, n: nat) -> nat
    decreases n,
{
    if n == 0 {
        0
    } else {
        le_value(data, start, (n - 1) as nat) + (lsb_bit(data, start + n - 1) as nat) * two_pow((n - 1) as nat)
    }
}

/// The value of the `n` Motorola-order bits starting at bit `start`, most
/// significant first.
pub open spec fn be_value(data: Seq<u8>, start: int, n: nat) -> nat
    decreases n,
{
    if n == 0 {
        0
    } else {
        be_value(data, start, (n - 1) as nat) * 2 + (msb_bit(data, start + n - 1) as nat)
    }
}

/// Bytes a signal needs: those holding bits `0 .. start + length`.
pub open spec fn required_bytes(start_bit: u16, bit_length: u16) -> int {
    (start_bit + bit_length + 7) / 8
}

/// Signal definition: where a signal lies in the payload and how to read it.
#[derive(Debug, Clone)]
pub struct SignalDef {
    /// Signal name
    pub name: String,
    /// Start bit position
    pub start_bit: u16,
    /// Bit length
    pub bit_length: u16,
    /// Byte order
    pub byte_order: ByteOrder,
    /// Value type
    pub value_type: ValueType,
    /// Unit string
    pub unit: String,
    /// Comment/description
    pub comment: Option<String>,
}

/// The unsigned value of a signal's bits.
pub open spec fn raw_bits(sig: SignalDef, data: Seq<u8>) -> nat {
    match sig.byte_order {
        ByteOrder::LittleEndian => le_value(data, sig.start_bit as int, sig.bit_length as nat),
        ByteOrder::BigEndian => be_value(data, sig.start_bit as int, sig.bit_length as nat),
    }
}

/// The raw value of a signal: its bits read as two's complement for signed
/// signals, otherwise as unsigned, then taken as a 64-bit signed integer.
pub open spec fn raw_value(sig: SignalDef, data: Seq<u8>) -> int {
    let u = raw_bits(sig, data);
    if sig.value_type == ValueType::Signed && u >= two_pow((sig.bit_length - 1) as nat) {
        u - two_pow(sig.bit_length as nat)
    } else if u >= two_pow(63) {
        u - two_pow(64)
    } else {
        u as int
    }
}

/// The message of the error for a signal whose bit length is not from 1 to
/// 64.
pub open spec fn invalid_length_message(name: Seq<char>, bit_length: nat) -> Seq<char> {
    "Signal '"@ + name + "' has an invalid bit length ("@ + dec_digits(bit_length) + ")"@
}

/// The message of the error for a signal that does not fit its data.
pub open spec fn beyond_data_message(name: Seq<char>, needed: nat, have: nat) -> Seq<char> {
    "Signal '"@ + name + "' extends beyond data length (needs "@ + dec_digits(needed)
        + " bytes, have "@ + dec_digits(have) + ")"@
}

proof fn lemma_bit_le_1(b: u8, s: u8)
    ensures
        (b >> s) & 1u8 <= 1,
{
    assert((b >> s) & 1u8 <= 1) by (bit_vector);
}

proof fn lemma_le_value_bound(data: Seq<u8>, start: int, n: nat)
    ensures
        le_value(data, start, n) < two_pow(n),
    decreases n,
{
    if n > 0 {
        lemma_le_value_bound(data, start, (n - 1) as nat);
        lemma_two_pow_unfold((n - 1) as nat);
        let q = start + n - 1;
        let b = lsb_bit(data, q) as nat;
        let p = two_pow((n - 1) as nat);
        assert(b <= 1) by {
            lemma_bit_le_1(data[q / 8], (q % 8) as u8);
        }
        assert(b * p <= p) by (nonlinear_arith)
            requires
                b <= 1,
        ;
    }
}

proof fn lemma_be_value_bound(data: Seq<u8>, start: int, n: nat)
    ensures
        be_value(data, start, n) < two_pow(n),
    decreases n,
{
    if n > 0 {
        lemma_be_value_bound(data, start, (n - 1) as nat);
        lemma_two_pow_unfold((n - 1) as nat);
        let q = start + n - 1;
        assert(msb_bit(data, q) <= 1) by {
            lemma_bit_le_1(data[q / 8], (7 - q % 8) as u8);
        }
    }
}

/// The `bit_length` Intel-order bits starting at `start_bit`.
fn read_le(data: &[u8], start_bit: u16, bit_length: u16) -> (r: u64)
    requires
        bit_length <= 64,
        required_bytes(start_bit, bit_length) <= data@.len(),
    ensures
        r as nat == le_value(data@, start_bit as int, bit_length as nat),
{
    let mut value: u128 = 0;
    let mut pow: u128 = 1;
    let mut k: u16 = 0;
    while k < bit_length
        invariant
            k <= bit_length <= 64,
            required_bytes(start_bit, bit_length) <= data@.len(),
            pow as nat == two_pow(k as nat),
            value as nat == le_value(data@, start_bit as int, k as nat),
        decreases bit_length - k,
    {
        proof {
            lemma_two_pow_unfold(k as nat);
            lemma_two_pow_mono(k as nat, 64);
            lemma_two_pow_values();
            lemma_le_value_bound(data@, start_bit as int, k as nat);
        }
        let q: u32 = start_bit as u32 + k as u32;
        let byte = data[(q / 8) as usize];
        let bit = (byte >> ((q % 8) as u8)) & 1u8;
        proof {
            lemma_bit_le_1(byte, (q % 8) as u8);
            assert(bit == lsb_bit(data@, start_bit + k));
            assert((bit as u128) * pow <= pow) by (nonlinear_arith)
                requires
                    bit <= 1,
            ;
        }
        value = value + (bit as u128) * pow;
        pow = pow * 2;
        k = k + 1;
    }
    proof {
        lemma_le_value_bound(data@, start_bit as int, k as nat);
        lemma_two_pow_mono(k as nat, 64);
        lemma_two_pow_values();
    }
    value as u64
}

/// The `bit_length` Motorola-order bits starting at `start_bit`.
fn read_be(data: &[u8], start_bit: u16, bit_length: u16) -> (r: u64)
    requires
        bit_length <= 64,
        required_bytes(start_bit, bit_length) <= data@.len(),
    ensures
        r as nat == be_value(data@, start_bit as int, bit_length as nat),
{
    let mut value: u128 = 0;
    let mut k: u16 = 0;
    while k < bit_length
        invariant
            k <= bit_length <= 64,
            required_bytes(start_bit, bit_length) <= data@.len(),
            value as nat == be_value(data@, start_bit as int, k as nat),
        decreases bit_length - k,
    {
        proof {
            lemma_be_value_bound(data@, start_bit as int, k as nat);
            lemma_two_pow_mono(k as nat, 64);
            lemma_two_pow_values();
        }
        let q: u32 = start_bit as u32 + k as u32;
        let byte = data[(q / 8) as usize];
        let bit = (byte >> ((7 - q % 8) as u8)) & 1u8;
        proof {
            lemma_bit_le_1(byte, (7 - q % 8) as u8);
            assert(bit == msb_bit(data@, start_bit + k));
        }
        value = value * 2 + bit as u128;
        k = k + 1;
    }
    proof {
        lemma_be_value_bound(data@, start_bit as int, k as nat);
        lemma_two_pow_mono(k as nat, 64);
        lemma_two_pow_values();
    }
    value as u64
}

impl SignalDef {
    /// Create a new signal definition: Intel byte order, unsigned, no unit,
    /// no comment.
    pub fn new(name: &str, start_bit: u16, bit_length: u16) -> (r: Self)
        ensures
            r.name@ == name@,
            r.start_bit == start_bit,
            r.bit_length == bit_length,
            r.byte_order == ByteOrder::LittleEndian,
            r.value_type == ValueType::Unsigned,
            r.unit@ == Seq::<char>::empty(),
            r.comment is None,
    {
        SignalDef {
            name: owned(name),
            start_bit,
            bit_length,
            byte_order: ByteOrder::LittleEndian,
            value_type: ValueType::Unsigned,
            unit: String::new(),
            comment: None,
        }
    }

    /// Set byte order
    pub fn with_byte_order(self, order: ByteOrder) -> (r: Self)
        ensures
            r == (SignalDef { byte_order: order, ..self }),
    {
        let mut s = self;
        s.byte_order = order;
        s
    }

    /// Set value type
    pub fn with_value_type(self, vtype: ValueType) -> (r: Self)
        ensures
            r == (SignalDef { value_type: vtype, ..self }),
    {
        let mut s = self;
        s.value_type = vtype;
        s
    }

    /// Set unit
    pub fn with_unit(self, unit: &str) -> (r: Self)
        ensures
            r.unit@ == unit@,
            r.name == self.name,
            r.start_bit == self.start_bit,
            r.bit_length == self.bit_length,
            r.byte_order == self.byte_order,
            r.value_type == self.value_type,
            r.comment == self.comment,
    {
        let mut s = self;
        s.unit = owned(unit);
        s
    }

    /// Extract the signal's raw value from CAN frame data.
    ///
    /// Fails when the signal extends beyond the data, and when its bit
    /// length is not from 1 to 64 (an invalid definition); a signed value is
    /// sign-extended from its top bit, 64-bit ones included.
    pub fn extract_raw(&self, data: &[u8]) -> (r: Result<i64, BusmasterError>)
        requires
            self.start_bit + self.bit_length <= u16::MAX,
        ensures
            required_bytes(self.start_bit, self.bit_length) > data@.len() ==> (r matches Err(
                BusmasterError::InvalidSignal { message },
            ) && message@ == beyond_data_message(
                self.name@,
                required_bytes(self.start_bit, self.bit_length) as nat,
                data@.len(),
            )),
            required_bytes(self.start_bit, self.bit_length) <= data@.len() && (self.bit_length == 0
                || self.bit_length > 64) ==> (r matches Err(BusmasterError::InvalidSignal { message })
                && message@ == invalid_length_message(self.name@, self.bit_length as nat)),
            required_bytes(self.start_bit, self.bit_length) <= data@.len() && 1 <= self.bit_length
                <= 64 ==> r == Ok::<i64, BusmasterError>(raw_value(*self, data@) as i64),
    {
        let required: u32 = ((self.start_bit + self.bit_length) as u32 + 7) / 8;
        if required as usize > data.len() {
            let mut message = String::new();
            push_str(&mut message, "Signal '");
            push_str(&mut message, self.name.as_str());
            push_str(&mut message, "' extends beyond data length (needs ");
            push_dec(&mut message, required as u64);
            push_str(&mut message, " bytes, have ");
            push_dec(&mut message, data.len() as u64);
            push_str(&mut message, ")");
            return Err(BusmasterError::InvalidSignal { message });
        }
        if self.bit_length == 0 || self.bit_length > 64 {
            let mut message = String::new();
            push_str(&mut message, "Signal '");
            push_str(&mut message, self.name.as_str());
            push_str(&mut message, "' has an invalid bit length (");
            push_dec(&mut message, self.bit_length as u64);
            push_str(&mut message, ")");
            return Err(BusmasterError::InvalidSignal { message });
        }
        let raw: u64 = match self.byte_order {
            ByteOrder::LittleEndian => read_le(data, self.start_bit, self.bit_length),
            ByteOrder::BigEndian => read_be(data, self.start_bit, self.bit_length),
        };
        proof {
            lemma_two_pow_values();
        }
        if self.value_type == ValueType::Signed {
            proof {
                lemma_two_pow_unfold((self.bit_length - 1) as nat);
            }
            let half: u128 = pow_of_two((self.bit_length - 1) as u16);
            if raw as u128 >= half {
                let full: i128 = (half * 2) as i128;
                proof {
                    lemma_two_pow_mono((self.bit_length - 1) as nat, 63);
                }
                return Ok((raw as i128 - full) as i64);
            }
        }
        if raw >= 0x8000_0000_0000_0000u64 {
            Ok((raw as i128 - 0x1_0000_0000_0000_0000i128) as i64)
        } else {
            Ok(raw as i64)
        }
    }
}

/// `2^e` for `e <= 64`.
fn pow_of_two(e: u16) -> (r: u128)
    requires
        e <= 64,
    ensures
        r as nat == two_pow(e as nat),
{
    let mut r: u128 = 1;
    let mut k: u16 = 0;
    while k < e
        invariant
            k <= e <= 64,
            r as nat == two_pow(k as nat),
        decreases e - k,
    {
        proof {
            lemma_two_pow_unfold(k as nat);
            lemma_two_pow_mono(k as nat, 63);
            lemma_two_pow_values();
        }
        r = r * 2;
        k = k + 1;
    }
    r
}

/// A byte-aligned 8-bit signal reads as the byte itself in either byte
/// order, so the two orders agree on it.
pub proof fn lemma_single_byte_orders_agree(data: Seq<u8>, byte_index: int)
    requires
        0 <= byte_index < data.len(),
    ensures
        le_value(data, byte_index * 8, 8) == data[byte_index] as nat,
        be_value(data, byte_index * 8, 8) == data[byte_index] as nat,
{
    let b = data[byte_index];
    let s = byte_index * 8;
    assert(((s + 0) / 8) == byte_index && (s + 0) % 8 == 0);
    assert(((s + 1) / 8) == byte_index && (s + 1) % 8 == 1);
    assert(((s + 2) / 8) == byte_index && (s + 2) % 8 == 2);
    assert(((s + 3) / 8) == byte_index && (s + 3) % 8 == 3);
    assert(((s + 4) / 8) == byte_index && (s + 4) % 8 == 4);
    assert(((s + 5) / 8) == byte_index && (s + 5) % 8 == 5);
    assert(((s + 6) / 8) == byte_index && (s + 6) % 8 == 6);
    assert(((s + 7) / 8) == byte_index && (s + 7) % 8 == 7);
    let b0 = ((b >> 0u8) & 1u8) as nat;
    let b1 = ((b >> 1u8) & 1u8) as nat;
    let b2 = ((b >> 2u8) & 1u8) as nat;
    let b3 = ((b >> 3u8) & 1u8) as nat;
    let b4 = ((b >> 4u8) & 1u8) as nat;
    let b5 = ((b >> 5u8) & 1u8) as nat;
    let b6 = ((b >> 6u8) & 1u8) as nat;
    let b7 = ((b >> 7u8) & 1u8) as nat;
    assert(lsb_bit(data, s + 0) as nat == b0);
    assert(lsb_bit(data, s + 1) as nat == b1);
    assert(lsb_bit(data, s + 2) as nat == b2);
    assert(lsb_bit(data, s + 3) as nat == b3);
    assert(lsb_bit(data, s + 4) as nat == b4);
    assert(lsb_bit(data, s + 5) as nat == b5);
    assert(lsb_bit(data, s + 6) as nat == b6);
    assert(lsb_bit(data, s + 7) as nat == b7);
    assert(msb_bit(data, s + 0) as nat == b7);
    assert(msb_bit(data, s + 1) as nat == b6);
    assert(msb_bit(data, s + 2) as nat == b5);
    assert(msb_bit(data, s + 3) as nat == b4);
    assert(msb_bit(data, s + 4) as nat == b3);
    assert(msb_bit(data, s + 5) as nat == b2);
    assert(msb_bit(data, s + 6) as nat == b1);
    assert(msb_bit(data, s + 7) as nat == b0);
    assert(two_pow(0) == 1);
    assert(two_pow(1) == 2);
    assert(two_pow(2) == 4);
    assert(two_pow(3) == 8);
    assert(two_pow(4) == 16);
    assert(two_pow(5) == 32);
    assert(two_pow(6) == 64);
    assert(two_pow(7) == 128);
    assert(le_value(data, s, 0) == 0);
    assert(le_value(data, s, 1) == b0);
    assert(le_value(data, s, 2) == b0 + b1 * 2);
    assert(le_value(data, s, 3) == b0 + b1 * 2 + b2 * 4);
    assert(le_value(data, s, 4) == b0 + b1 * 2 + b2 * 4 + b3 * 8);
    assert(le_value(data, s, 5) == b0 + b1 * 2 + b2 * 4 + b3 * 8 + b4 * 16);
    assert(le_value(data, s, 6) == b0 + b1 * 2 + b2 * 4 + b3 * 8 + b4 * 16 + b5 * 32);
    assert(le_value(data, s, 7) == b0 + b1 * 2 + b2 * 4 + b3 * 8 + b4 * 16 + b5 * 32 + b6 * 64);
    assert(le_value(data, s, 8) == b0 + b1 * 2 + b2 * 4 + b3 * 8 + b4 * 16 + b5 * 32 + b6 * 64
        + b7 * 128);
    assert(be_value(data, s, 0) == 0);
    assert(be_value(data, s, 1) == b7);
    assert(be_value(data, s, 2) == b7 * 2 + b6);
    assert(be_value(data, s, 3) == b7 * 4 + b6 * 2 + b5);
    assert(be_value(data, s, 4) == b7 * 8 + b6 * 4 + b5 * 2 + b4);
    assert(be_value(data, s, 5) == b7 * 16 + b6 * 8 + b5 * 4 + b4 * 2 + b3);
    assert(be_value(data, s, 6) == b7 * 32 + b6 * 16 + b5 * 8 + b4 * 4 + b3 * 2 + b2);
    assert(be_value(data, s, 7) == b7 * 64 + b6 * 32 + b5 * 16 + b4 * 8 + b3 * 4 + b2 * 2 + b1);
    assert(be_value(data, s, 8) == b7 * 128 + b6 * 64 + b5 * 32 + b4 * 16 + b3 * 8 + b2 * 4 + b1
        * 2 + b0);
    assert(b as nat == ((b >> 0u8) & 1u8) as nat + ((b >> 1u8) & 1u8) as nat * 2 + ((b >> 2u8) & 1u8) as nat * 4
        + ((b >> 3u8) & 1u8) as nat * 8 + ((b >> 4u8) & 1u8) as nat * 16 + ((b >> 5u8) & 1u8) as nat * 32
        + ((b >> 6u8) & 1u8) as nat * 64 + ((b >> 7u8) & 1u8) as nat * 128) by (bit_vector);
}

} // verus!
