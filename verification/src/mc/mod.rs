//! Wire primitives of the handshake frame: variable-length integers and
//! length-prefixed strings, read from the front of a `Bytes` cursor.

use tokio_util::bytes::Buf;
use tokio_util::bytes::Bytes;
use vstd::prelude::*;
use vstd::utf8::decode_utf8;
use vstd::utf8::valid_utf8;

pub mod handshake;

verus! {

/// Why a frame could not be decoded.
#[derive(Clone, Copy, Debug, PartialEq, Eq, Structural)]
pub enum DecodeError {
    /// The input ended inside a variable-length integer.
    VarIntIncomplete,
    /// A variable-length integer announced a sixth byte.
    VarIntTooBig,
    /// A string declared more bytes than the input still holds.
    StringLengthMismatch,
    /// The bytes of a string are not UTF-8.
    InvalidUtf8,
    /// The packet id of the frame is not zero.
    NotHandshake,
    /// Fewer than two bytes are left where the port should stand.
    MissingPort,
}

impl DecodeError {
    /// True for the errors that mean "the input stopped too early", false for
    /// the ones that mean "the input holds something it must not".
    pub open spec fn spec_is_truncation(self) -> bool {
        self == DecodeError::VarIntIncomplete || self == DecodeError::StringLengthMismatch || self
            == DecodeError::MissingPort
    }

    #[verifier::when_used_as_spec(spec_is_truncation)]
    pub fn is_truncation(self) -> (r: bool)
        ensures
            r == self.spec_is_truncation(),
    {
        match self {
            DecodeError::VarIntIncomplete => true,
            DecodeError::StringLengthMismatch => true,
            DecodeError::MissingPort => true,
            DecodeError::VarIntTooBig => false,
            DecodeError::InvalidUtf8 => false,
            DecodeError::NotHandshake => false,
        }
    }

    /// A short text for the error, one per variant.
    pub fn message(self) -> (r: &'static str)
        ensures
            r@ == match self {
                DecodeError::VarIntIncomplete => "VarInt incomplete"@,
                DecodeError::VarIntTooBig => "VarInt is too big"@,
                DecodeError::StringLengthMismatch => "String length mismatch"@,
                DecodeError::InvalidUtf8 => "Invalid UTF-8"@,
                DecodeError::NotHandshake => "not a handshake packet"@,
                DecodeError::MissingPort => "missing port"@,
            },
    {
        match self {
            DecodeError::VarIntIncomplete => "VarInt incomplete",
            DecodeError::VarIntTooBig => "VarInt is too big",
            DecodeError::StringLengthMismatch => "String length mismatch",
            DecodeError::InvalidUtf8 => "Invalid UTF-8",
            DecodeError::NotHandshake => "not a handshake packet",
            DecodeError::MissingPort => "missing port",
        }
    }
}

// ---------------------------------------------------------------------------
// The byte cursor
// ---------------------------------------------------------------------------

/// `Bytes`, the read cursor of the `bytes` crate. Nothing of its inside is
/// visible here; `unread` names what it holds.
#[verifier::external_type_specification]
#[verifier::external_body]
pub struct ExBytes(tokio_util::bytes::Bytes);

/// What a `Bytes` cursor still holds: the bytes from its position to its end,
/// front first.
pub uninterp spec fn unread(src: Bytes) -> Seq<u8>;

/// `Buf::has_remaining` on `Bytes`: true exactly when at least one byte is unread.
#[verifier::external_body]
fn has_remaining(src: &Bytes) -> (r: bool)
    ensures
        r == (unread(*src).len() > 0),
{
    src.has_remaining()
}

/// `Buf::remaining` on `Bytes`: the number of unread bytes.
#[verifier::external_body]
pub(crate) fn remaining(src: &Bytes) -> (r: usize)
    ensures
        r == unread(*src).len(),
{
    src.remaining()
}

/// `Buf::get_u8` on `Bytes`: hands out the first unread byte and moves the
/// cursor past it. The call panics on an empty cursor, which the precondition
/// leaves out.
#[verifier::external_body]
fn get_u8(src: &mut Bytes) -> (r: u8)
    requires
        unread(*old(src)).len() >= 1,
    ensures
        r == unread(*old(src))[0],
        unread(*final(src)) == unread(*old(src)).skip(1),
{
    src.get_u8()
}

/// `Buf::get_u16` on `Bytes`: reads the first two unread bytes as a big-endian
/// number and moves the cursor past them. The call panics when fewer than two
/// bytes are unread, which the precondition leaves out.
#[verifier::external_body]
pub(crate) fn get_u16(src: &mut Bytes) -> (r: u16)
    requires
        unread(*old(src)).len() >= 2,
    ensures
        r == big_endian_u16(unread(*old(src))),
        unread(*final(src)) == unread(*old(src)).skip(2),
{
    src.get_u16()
}

/// `Buf::copy_to_bytes` on `Bytes`, with the piece handed out as a `Vec`: the
/// first `len` unread bytes, and the cursor moved past them. The call panics
/// when `len` exceeds what is unread, which the precondition leaves out.
#[verifier::external_body]
pub(crate) fn copy_to_vec(src: &mut Bytes, len: usize) -> (r: Vec<u8>)
    requires
        len <= unread(*old(src)).len(),
    ensures
        r@ == unread(*old(src)).take(len as int),
        unread(*final(src)) == unread(*old(src)).skip(len as int),
{
    src.copy_to_bytes(len).to_vec()
}

/// `String::from_utf8`: the text that the bytes encode, or nothing when they
/// are not UTF-8.
#[verifier::external_body]
fn string_from_utf8(bytes: Vec<u8>) -> (r: Option<String>)
    ensures
        r is Some <==> valid_utf8(bytes@),
        r matches Some(text) ==> text@ == decode_utf8(bytes@),
{
    String::from_utf8(bytes).ok()
}

// ---------------------------------------------------------------------------
// Variable-length integers
// ---------------------------------------------------------------------------

/// The most bytes a variable-length integer may take.
pub const VARINT_MAX_BYTES: usize = 5;

/// True when the byte announces that another byte follows.
pub open spec fn continues(byte: u8) -> bool {
    byte >= 128
}

/// The seven payload bits of a byte, as a number.
pub open spec fn payload(byte: u8) -> nat {
    (byte % 128) as nat
}

/// The weight of the group with the given index: 128 to that power.
pub open spec fn group_weight(index: nat) -> nat
    decreases index,
{
    if index == 0 {
        1
    } else {
        128 * group_weight((index - 1) as nat)
    }
}

/// The number that the first `count` bytes spell, least significant group
/// first: the sum of each payload times its group's weight.
pub open spec fn groups_value(s: Seq<u8>, count: nat) -> nat
    decreases count,
{
    if count == 0 {
        0
    } else {
        groups_value(s, (count - 1) as nat) + payload(s[count - 1]) * group_weight(
            (count - 1) as nat,
        )
    }
}

/// A natural number cut to 32 bits and read as a signed value.
pub open spec fn wrap_i32(n: nat) -> i32 {
    let low = n % 0x1_0000_0000;
    if low < 0x8000_0000 {
        low as i32
    } else {
        (low - 0x1_0000_0000) as i32
    }
}

/// How many bytes the integer at the front of `s` takes, looking from byte
/// `from` on, given that every byte before `from` announced a successor.
pub open spec fn varint_width_from(s: Seq<u8>, from: nat) -> Result<nat, DecodeError>
    decreases VARINT_MAX_BYTES - from,
{
    if from >= s.len() {
        Err(DecodeError::VarIntIncomplete)
    } else if !continues(s[from as int]) {
        Ok(from + 1)
    } else if from + 1 >= VARINT_MAX_BYTES {
        Err(DecodeError::VarIntTooBig)
    } else {
        varint_width_from(s, from + 1)
    }
}

/// How many bytes the integer at the front of `s` takes: the position of the
/// first byte that announces no successor, plus one. There is no such width
/// when the input ends first, or when the fifth byte still announces one.
pub open spec fn varint_width(s: Seq<u8>) -> Result<nat, DecodeError> {
    varint_width_from(s, 0)
}

/// The integer at the front of `s`.
pub open spec fn varint(s: Seq<u8>) -> Result<i32, DecodeError> {
    match varint_width(s) {
        Ok(width) => Ok(wrap_i32(groups_value(s, width))),
        Err(e) => Err(e),
    }
}

/// How many bytes reading the integer at the front of `s` uses up, whether it
/// succeeds or not: its width, or all of a truncated input, or the five bytes
/// of an oversized one.
pub open spec fn varint_consumed(s: Seq<u8>) -> nat {
    match varint_width(s) {
        Ok(width) => width,
        Err(DecodeError::VarIntTooBig) => VARINT_MAX_BYTES as nat,
        Err(_) => s.len(),
    }
}

/// The big-endian number in the first two bytes of `s`.
pub open spec fn big_endian_u16(s: Seq<u8>) -> u16 {
    (s[0] as int * 256 + s[1] as int) as u16
}

proof fn lemma_width_after_continuations(s: Seq<u8>, count: nat)
    requires
        count < VARINT_MAX_BYTES,
        count <= s.len(),
        forall|i: int| 0 <= i < count ==> continues(#[trigger] s[i]),
    ensures
        varint_width(s) == varint_width_from(s, count),
    decreases count,
{
    if count > 0 {
        lemma_width_after_continuations(s, (count - 1) as nat);
        assert(continues(s[count - 1]));
    }
}

proof fn lemma_groups_value_bound(s: Seq<u8>, count: nat)
    ensures
        groups_value(s, count) < group_weight(count),
    decreases count,
{
    if count > 0 {
        lemma_groups_value_bound(s, (count - 1) as nat);
        let w = group_weight((count - 1) as nat);
        let p = payload(s[count - 1]);
        assert(p * w <= 127 * w) by (nonlinear_arith)
            requires
                p <= 127,
                w >= 0,
        ;
    }
}

proof fn lemma_group_weights()
    ensures
        group_weight(0) == 1,
        group_weight(1) == 0x80,
        group_weight(2) == 0x4000,
        group_weight(3) == 0x20_0000,
        group_weight(4) == 0x1000_0000,
        group_weight(5) == 0x8_0000_0000,
{
    reveal_with_fuel(group_weight, 6);
}

/// Adds one group to an accumulator that holds the groups before it.
fn with_group(value: u32, byte: u8, position: u32, Ghost(index): Ghost<nat>) -> (r: u32)
    requires
        index < VARINT_MAX_BYTES,
        position == 7 * index,
        value < group_weight(index),
    ensures
        r as nat == (value + payload(byte) * group_weight(index)) % 0x1_0000_0000,
        wrap_i32(r as nat) == #[verifier::truncate] (r as i32),
{
    let bits: u32 = (byte & 0x7f) as u32;
    let r = value | (bits << position);
    proof {
        lemma_group_weights();
        assert(byte & 0x7fu8 == byte % 128u8) by (bit_vector);
        assert(bits == payload(byte));
        let weight = group_weight(index);
        let term = payload(byte) * weight;
        if index == 0 {
            assert(term == bits * 1) by (nonlinear_arith)
                requires
                    term == payload(byte) * weight,
                    weight == 1,
                    payload(byte) == bits,
            ;
            assert(value | (bits << 0u32) == value + bits) by (bit_vector)
                requires
                    value < 1u32,
                    bits < 0x80u32,
            ;
        } else if index == 1 {
            assert(term == bits * 0x80) by (nonlinear_arith)
                requires
                    term == payload(byte) * weight,
                    weight == 0x80,
                    payload(byte) == bits,
            ;
            assert(value | (bits << 7u32) == value + bits * 0x80u32) by (bit_vector)
                requires
                    value < 0x80u32,
                    bits < 0x80u32,
            ;
        } else if index == 2 {
            assert(term == bits * 0x4000) by (nonlinear_arith)
                requires
                    term == payload(byte) * weight,
                    weight == 0x4000,
                    payload(byte) == bits,
            ;
            assert(value | (bits << 14u32) == value + bits * 0x4000u32) by (bit_vector)
                requires
                    value < 0x4000u32,
                    bits < 0x80u32,
            ;
        } else if index == 3 {
            assert(term == bits * 0x20_0000) by (nonlinear_arith)
                requires
                    term == payload(byte) * weight,
                    weight == 0x20_0000,
                    payload(byte) == bits,
            ;
            assert(value | (bits << 21u32) == value + bits * 0x20_0000u32) by (bit_vector)
                requires
                    value < 0x20_0000u32,
                    bits < 0x80u32,
            ;
        } else {
            assert(term == bits * 0x1000_0000) by (nonlinear_arith)
                requires
                    term == payload(byte) * weight,
                    weight == 0x1000_0000,
                    payload(byte) == bits,
            ;
            assert(value | (bits << 28u32) == value + (bits % 16u32) * 0x1000_0000u32)
                by (bit_vector)
                requires
                    value < 0x1000_0000u32,
                    bits < 0x80u32,
            ;
            let carried = (bits / 16) as int;
            assert(value + bits * 0x1000_0000 == carried * 0x1_0000_0000 + r);
            vstd::arithmetic::div_mod::lemma_fundamental_div_mod_converse(
                value + bits * 0x1000_0000,
                0x1_0000_0000,
                carried,
                r as int,
            );
        }
        let signed: i64 = (#[verifier::truncate] (r as i32)) as i64;
        assert(r < 0x8000_0000u32 ==> signed == r as i64) by (bit_vector)
            requires
                signed == (#[verifier::truncate] (r as i32)) as i64,
        ;
        assert(r >= 0x8000_0000u32 ==> signed == (r as i64) - 0x1_0000_0000i64) by (bit_vector)
            requires
                signed == (#[verifier::truncate] (r as i32)) as i64,
        ;
    }
    r
}

/// Reads one variable-length integer from the front of `src`.
///
/// The bytes are groups of seven payload bits, least significant group first;
/// the top bit of a byte says that another byte follows. The sum is cut to 32
/// bits and read as a signed number. The input may end before the integer does
/// (`VarIntIncomplete`), or its fifth byte may announce a sixth
/// (`VarIntTooBig`). Either way the cursor stands behind the last byte that
/// was looked at.
pub fn read_varint(src: &mut Bytes) -> (r: Result<i32, DecodeError>)
    ensures
        r == varint(unread(*old(src))),
        unread(*final(src)) == unread(*old(src)).skip(varint_consumed(unread(*old(src))) as int),
{
    let ghost input = unread(*src);
    let ghost mut index: nat = 0;
    let mut value: u32 = 0;
    let mut position: u32 = 0;
    loop
        invariant
            input == unread(*old(src)),
            index < VARINT_MAX_BYTES,
            index <= input.len(),
            position == 7 * index,
            forall|i: int| 0 <= i < index ==> continues(#[trigger] input[i]),
            value as nat == groups_value(input, index),
            unread(*src) == input.skip(index as int),
        decreases VARINT_MAX_BYTES - index,
    {
        proof {
            lemma_width_after_continuations(input, index);
            lemma_groups_value_bound(input, index);
        }
        if !has_remaining(src) {
            assert(input.skip(index as int).len() == 0);
            assert(input.skip(input.len() as int) == input.skip(index as int));
            return Err(DecodeError::VarIntIncomplete);
        }
        assert(index < input.len());
        let byte = get_u8(src);
        assert(byte == input[index as int]);
        assert(input.skip(index as int).skip(1) == input.skip(index as int + 1));
        let sum = with_group(value, byte, position, Ghost(index));
        assert(byte & 0x80 == 0 <==> byte < 128) by (bit_vector);
        if byte & 0x80 == 0 {
            assert(groups_value(input, index + 1) == value + payload(byte) * group_weight(index));
            assert((sum as nat) % 0x1_0000_0000 == sum as nat);
            assert(wrap_i32(groups_value(input, index + 1)) == wrap_i32(sum as nat));
            return Ok(#[verifier::truncate] (sum as i32));
        }
        position = position + 7;
        if position >= 32 {
            assert(index == 4);
            return Err(DecodeError::VarIntTooBig);
        }
        proof {
            lemma_group_weights();
            assert(payload(byte) * group_weight(index) + value < 0x1_0000_0000) by {
                let w = group_weight(index);
                let p = payload(byte);
                assert(p * w <= 127 * w) by (nonlinear_arith)
                    requires
                        p <= 127,
                        w >= 0,
                ;
            }
            assert(groups_value(input, index + 1) == value + payload(byte) * group_weight(index));
            index = index + 1;
        }
        value = sum;
    }
}

// ---------------------------------------------------------------------------
// Length-prefixed strings
// ---------------------------------------------------------------------------

/// The bytes of `s` behind the integer at its front.
pub open spec fn after_varint(s: Seq<u8>) -> Seq<u8> {
    s.skip(varint_consumed(s) as int)
}

/// The string at the front of `s`: a length, then that many bytes of UTF-8.
/// A negative length counts as one that the input cannot hold.
pub open spec fn string_field(s: Seq<u8>) -> Result<Seq<char>, DecodeError> {
    match varint(s) {
        Err(e) => Err(e),
        Ok(len) => {
            let body = after_varint(s);
            if len < 0 || body.len() < len {
                Err(DecodeError::StringLengthMismatch)
            } else if !valid_utf8(body.take(len as int)) {
                Err(DecodeError::InvalidUtf8)
            } else {
                Ok(decode_utf8(body.take(len as int)))
            }
        },
    }
}

/// How many bytes reading the string at the front of `s` uses up: the length
/// prefix, and the body where the input holds all of it.
pub open spec fn string_consumed(s: Seq<u8>) -> nat {
    match varint(s) {
        Err(_) => varint_consumed(s),
        Ok(len) => {
            if len < 0 || after_varint(s).len() < len {
                varint_consumed(s)
            } else {
                varint_consumed(s) + len as nat
            }
        },
    }
}

/// Reads one length-prefixed string from the front of `src`.
///
/// Fails with the error of the length prefix, with `StringLengthMismatch`
/// when the declared length is more than what is left, and with `InvalidUtf8`
/// when the body is not UTF-8. The cursor then stands behind what was read:
/// behind the prefix in the first two cases, behind the body in the last.
pub fn read_string(src: &mut Bytes) -> (r: Result<String, DecodeError>)
    ensures
        match r {
            Ok(text) => string_field(unread(*old(src))) == Ok::<Seq<char>, DecodeError>(text@),
            Err(e) => string_field(unread(*old(src))) == Err::<Seq<char>, DecodeError>(e),
        },
        unread(*final(src)) == unread(*old(src)).skip(string_consumed(unread(*old(src))) as int),
{
    let ghost input = unread(*src);
    let declared = match read_varint(src) {
        Ok(v) => v,
        Err(e) => {
            return Err(e);
        },
    };
    if declared < 0 {
        return Err(DecodeError::StringLengthMismatch);
    }
    let len = declared as usize;
    if remaining(src) < len {
        return Err(DecodeError::StringLengthMismatch);
    }
    let body = copy_to_vec(src, len);
    proof {
        lemma_varint_consumed_in_bounds(input);
        assert(input.skip(varint_consumed(input) as int).skip(len as int) == input.skip(
            varint_consumed(input) as int + len as int,
        ));
    }
    match string_from_utf8(body) {
        Some(text) => Ok(text),
        None => Err(DecodeError::InvalidUtf8),
    }
}

// ---------------------------------------------------------------------------
// What holds of every input
// ---------------------------------------------------------------------------

/// Reading an integer never uses more bytes than the input holds, and never
/// more than five.
pub proof fn lemma_varint_consumed_in_bounds(s: Seq<u8>)
    ensures
        varint_consumed(s) <= s.len(),
        varint_consumed(s) <= VARINT_MAX_BYTES,
        varint(s) is Ok ==> 1 <= varint_consumed(s),
{
    reveal_with_fuel(varint_width_from, 6);
}

/// An integer that decodes from `s` decodes the same from `s` with more bytes
/// behind it, and uses up the same bytes.
pub proof fn lemma_varint_prefix(s: Seq<u8>, extra: Seq<u8>)
    requires
        varint(s) is Ok,
    ensures
        varint(s + extra) == varint(s),
        varint_consumed(s + extra) == varint_consumed(s),
        after_varint(s + extra) == after_varint(s) + extra,
{
    reveal_with_fuel(varint_width_from, 6);
    reveal_with_fuel(groups_value, 6);
    let t = s + extra;
    assert(forall|i: int| 0 <= i < s.len() ==> t[i] == s[i]);
    lemma_varint_consumed_in_bounds(s);
    assert(t.skip(varint_consumed(s) as int) == s.skip(varint_consumed(s) as int) + extra);
}

/// Reading a string never uses more bytes than the input holds.
pub proof fn lemma_string_consumed_in_bounds(s: Seq<u8>)
    ensures
        string_consumed(s) <= s.len(),
{
    lemma_varint_consumed_in_bounds(s);
}

/// The bytes that spell `n` in groups of seven bits, least significant group
/// first, every byte but the last announcing a successor.
pub open spec fn groups_of(n: nat) -> Seq<u8>
    decreases n,
{
    if n < 128 {
        seq![n as u8]
    } else {
        seq![(n % 128 + 128) as u8] + groups_of(n / 128)
    }
}

/// The 32 bits of a signed value, read as an unsigned number.
pub open spec fn unsigned_bits(value: i32) -> nat {
    if value >= 0 {
        value as nat
    } else {
        (value + 0x1_0000_0000) as nat
    }
}

/// The shortest bytes that decode to `value`.
pub open spec fn varint_encoding(value: i32) -> Seq<u8> {
    groups_of(unsigned_bits(value))
}

proof fn lemma_groups_shape(n: nat, limit: nat)
    requires
        limit >= 1,
        n < group_weight(limit),
    ensures
        1 <= groups_of(n).len() <= limit,
        forall|i: int| 0 <= i < groups_of(n).len() - 1 ==> continues(#[trigger] groups_of(n)[i]),
        !continues(groups_of(n)[groups_of(n).len() - 1]),
    decreases n,
{
    if n >= 128 {
        let rest = groups_of(n / 128);
        let first = (n % 128 + 128) as u8;
        assert(limit >= 2) by {
            reveal_with_fuel(group_weight, 2);
        }
        assert(n / 128 < group_weight((limit - 1) as nat));
        lemma_groups_shape(n / 128, (limit - 1) as nat);
        let all = seq![first] + rest;
        assert(all[0] == first);
        assert forall|i: int| 0 <= i < all.len() - 1 implies continues(#[trigger] all[i]) by {
            if i > 0 {
                assert(all[i] == rest[i - 1]);
            }
        }
        assert(all[all.len() - 1] == rest[rest.len() - 1]);
    }
}

proof fn lemma_single_group(s: Seq<u8>)
    ensures
        groups_value(s, 1) == payload(s[0]),
{
    reveal_with_fuel(groups_value, 2);
    let p = payload(s[0]);
    let w = group_weight(0);
    assert(p * w == p) by (nonlinear_arith)
        requires
            w == 1,
    ;
}

proof fn lemma_groups_value_behind_first(first: u8, rest: Seq<u8>, count: nat)
    requires
        count <= rest.len(),
    ensures
        groups_value(seq![first] + rest, count + 1) == payload(first) + 128 * groups_value(
            rest,
            count,
        ),
    decreases count,
{
    let all = seq![first] + rest;
    assert(all[0] == first);
    if count == 0 {
        lemma_single_group(all);
    } else {
        lemma_groups_value_behind_first(first, rest, (count - 1) as nat);
        assert(all[count as int] == rest[count - 1]);
        let p = payload(rest[count - 1]);
        let w = group_weight((count - 1) as nat);
        let heavier = group_weight(count);
        assert(p * heavier == 128 * (p * w)) by (nonlinear_arith)
            requires
                heavier == 128 * w,
        ;
        assert(groups_value(all, count + 1) == groups_value(all, count) + p * heavier);
        assert(groups_value(rest, count) == groups_value(rest, (count - 1) as nat) + p * w);
    }
}

proof fn lemma_groups_spell(n: nat)
    ensures
        groups_value(groups_of(n), groups_of(n).len()) == n,
    decreases n,
{
    if n < 128 {
        lemma_single_group(groups_of(n));
    } else {
        let rest = groups_of(n / 128);
        let first = (n % 128 + 128) as u8;
        lemma_groups_spell(n / 128);
        lemma_groups_value_behind_first(first, rest, rest.len());
        assert((seq![first] + rest).len() == rest.len() + 1);
        assert(payload(first) == n % 128);
    }
}

/// Every 32-bit value has an encoding of at most five bytes, and reading that
/// encoding gives the value back and uses up all of it.
pub proof fn lemma_varint_round_trip(value: i32)
    ensures
        varint(varint_encoding(value)) == Ok::<i32, DecodeError>(value),
        varint_consumed(varint_encoding(value)) == varint_encoding(value).len(),
        1 <= varint_encoding(value).len() <= VARINT_MAX_BYTES,
{
    let n = unsigned_bits(value);
    let bytes = groups_of(n);
    lemma_group_weights();
    lemma_groups_shape(n, 5);
    lemma_groups_spell(n);
    let last = (bytes.len() - 1) as nat;
    lemma_width_after_continuations(bytes, last);
    assert(varint_width(bytes) == Ok::<nat, DecodeError>(bytes.len()));
}

/// An input whose first five bytes all announce a successor is rejected as
/// oversized, whatever follows them.
pub proof fn lemma_five_continuations_are_too_big(s: Seq<u8>)
    requires
        s.len() >= VARINT_MAX_BYTES,
        forall|i: int| 0 <= i < VARINT_MAX_BYTES ==> continues(#[trigger] s[i]),
    ensures
        varint(s) == Err::<i32, DecodeError>(DecodeError::VarIntTooBig),
{
    lemma_width_after_continuations(s, 4);
    assert(continues(s[4]));
}

/// An input of fewer than five bytes, each of which announces a successor, is
/// rejected as incomplete. The empty input is one of them.
pub proof fn lemma_truncated_is_incomplete(s: Seq<u8>)
    requires
        s.len() < VARINT_MAX_BYTES,
        forall|i: int| 0 <= i < s.len() ==> continues(#[trigger] s[i]),
    ensures
        varint(s) == Err::<i32, DecodeError>(DecodeError::VarIntIncomplete),
{
    lemma_width_after_continuations(s, s.len());
}

/// A string whose declared length is more than the bytes behind the prefix is
/// rejected; one whose body is there decodes to exactly the text that the body
/// encodes, or is rejected when the body encodes none.
pub proof fn lemma_string_cases(s: Seq<u8>, len: i32)
    requires
        varint(s) == Ok::<i32, DecodeError>(len),
    ensures
        after_varint(s).len() < len ==> string_field(s) == Err::<Seq<char>, DecodeError>(
            DecodeError::StringLengthMismatch,
        ),
        0 <= len <= after_varint(s).len() && valid_utf8(after_varint(s).take(len as int))
            ==> string_field(s) == Ok::<Seq<char>, DecodeError>(
            decode_utf8(after_varint(s).take(len as int)),
        ),
        0 <= len <= after_varint(s).len() && !valid_utf8(after_varint(s).take(len as int))
            ==> string_field(s) == Err::<Seq<char>, DecodeError>(DecodeError::InvalidUtf8),
{
}

} // verus!
