//! The proxy-protocol header, version 2: the block that a proxy may put in
//! front of a stream to tell the receiver where the stream really comes from.
//!
//! The header is a signature of twelve bytes, a byte with the version and the
//! command, a byte with the address family and the transport, the length of
//! what follows as two big-endian bytes, and then that many bytes of
//! addresses.

use crate::mc::copy_to_vec;
use crate::mc::remaining;
use crate::mc::unread;
use crate::proxy::loadbalancer::Endpoint;
use tokio_util::bytes::Bytes;
use vstd::prelude::*;

verus! {

/// The length of the part that every header has.
pub const FIXED_LEN: usize = 16;

/// Why the front of a stream is no header.
#[derive(Clone, Copy, Debug, PartialEq, Eq, Structural)]
pub enum HeaderError {
    /// The input ends before the header does.
    Truncated,
    /// The first twelve bytes are not the signature.
    BadSignature,
    /// The version is not 2.
    BadVersion,
}

impl HeaderError {
    /// A short text for the error, one per variant.
    pub fn message(self) -> (r: &'static str)
        ensures
            r@ == match self {
                HeaderError::Truncated => "proxy header incomplete"@,
                HeaderError::BadSignature => "not a proxy header"@,
                HeaderError::BadVersion => "proxy header of another version"@,
            },
    {
        match self {
            HeaderError::Truncated => "proxy header incomplete",
            HeaderError::BadSignature => "not a proxy header",
            HeaderError::BadVersion => "proxy header of another version",
        }
    }
}

/// The twelve bytes that every header starts with.
pub open spec fn signature() -> Seq<u8> {
    seq![0x0D, 0x0A, 0x0D, 0x0A, 0x00, 0x0D, 0x0A, 0x51, 0x55, 0x49, 0x54, 0x0A]
}

/// True when `bytes` starts with the signature.
pub open spec fn has_signature(bytes: Seq<u8>) -> bool {
    bytes.len() >= 12 && bytes.take(12) == signature()
}

/// The length of the header at the front of `bytes`, fixed part and
/// addresses together.
pub open spec fn header_len_of(bytes: Seq<u8>) -> Result<nat, HeaderError> {
    if bytes.len() < FIXED_LEN {
        Err(HeaderError::Truncated)
    } else if !has_signature(bytes) {
        Err(HeaderError::BadSignature)
    } else if bytes[12] / 16 != 2 {
        Err(HeaderError::BadVersion)
    } else if bytes.len() < FIXED_LEN + bytes[14] * 256 + bytes[15] {
        Err(HeaderError::Truncated)
    } else {
        Ok((FIXED_LEN + bytes[14] * 256 + bytes[15]) as nat)
    }
}

/// How many bytes reading the header at the front of `bytes` uses up: the
/// header where there is one, nothing of an input shorter than the fixed part,
/// and the fixed part otherwise.
pub open spec fn header_consumed(bytes: Seq<u8>) -> nat {
    match header_len_of(bytes) {
        Ok(len) => len,
        Err(_) => if bytes.len() < FIXED_LEN {
            0
        } else {
            FIXED_LEN as nat
        },
    }
}

/// Reads the header at the front of `src` and moves the cursor past it.
///
/// Returns the length of the header. Fails when the input is shorter than
/// the header says or than any header is, when it does not start with the
/// signature, and when the version is not 2.
pub fn read_header(src: &mut Bytes) -> (r: Result<usize, HeaderError>)
    ensures
        match r {
            Ok(len) => header_len_of(unread(*old(src))) == Ok::<nat, HeaderError>(len as nat),
            Err(e) => header_len_of(unread(*old(src))) == Err::<nat, HeaderError>(e),
        },
        unread(*final(src)) == unread(*old(src)).skip(header_consumed(unread(*old(src))) as int),
{
    let ghost input = unread(*src);
    if remaining(src) < FIXED_LEN {
        assert(input.skip(0) == input);
        return Err(HeaderError::Truncated);
    }
    let fixed = copy_to_vec(src, FIXED_LEN);
    assert(forall|i: int| 0 <= i < 16 ==> fixed@[i] == input[i]);
    let signed = fixed[0] == 0x0D && fixed[1] == 0x0A && fixed[2] == 0x0D && fixed[3] == 0x0A
        && fixed[4] == 0x00 && fixed[5] == 0x0D && fixed[6] == 0x0A && fixed[7] == 0x51
        && fixed[8] == 0x55 && fixed[9] == 0x49 && fixed[10] == 0x54 && fixed[11] == 0x0A;
    proof {
        if signed {
            assert(input.take(12) =~= signature());
        } else {
            assert(input.take(12)[0] == input[0]);
            assert(input.take(12)[1] == input[1]);
            assert(input.take(12)[2] == input[2]);
            assert(input.take(12)[3] == input[3]);
            assert(input.take(12)[4] == input[4]);
            assert(input.take(12)[5] == input[5]);
            assert(input.take(12)[6] == input[6]);
            assert(input.take(12)[7] == input[7]);
            assert(input.take(12)[8] == input[8]);
            assert(input.take(12)[9] == input[9]);
            assert(input.take(12)[10] == input[10]);
            assert(input.take(12)[11] == input[11]);
        }
    }
    if !signed {
        return Err(HeaderError::BadSignature);
    }
    if fixed[12] / 16 != 2 {
        return Err(HeaderError::BadVersion);
    }
    let high: usize = fixed[14] as usize;
    let low: usize = fixed[15] as usize;
    let addresses: usize = high * 256 + low;
    if remaining(src) < addresses {
        return Err(HeaderError::Truncated);
    }
    let _ = copy_to_vec(src, addresses);
    assert(input.skip(16).skip(addresses as int) == input.skip(16 + addresses));
    Ok(FIXED_LEN + addresses)
}

/// The `width` lowest bytes of `value`, highest byte first.
pub open spec fn be_bytes(value: nat, width: nat) -> Seq<u8>
    decreases width,
{
    if width == 0 {
        Seq::<u8>::empty()
    } else {
        be_bytes(value / 256, (width - 1) as nat).push((value % 256) as u8)
    }
}

/// The header that tells of a stream from `source` to `destination`.
///
/// Two IPv4 addresses give a header with the addresses and ports of an IPv4
/// stream, two IPv6 addresses one of an IPv6 stream. A pair of different
/// families cannot be told in one header: it gives the header of a connection
/// without addresses.
pub open spec fn header_for(source: Endpoint, destination: Endpoint) -> Seq<u8> {
    match (source, destination) {
        (Endpoint::V4 { ip: from, port: from_port }, Endpoint::V4 { ip: to, port: to_port }) => {
            signature() + seq![0x21u8, 0x11u8, 0x00u8, 0x0Cu8] + be_bytes(from as nat, 4)
                + be_bytes(to as nat, 4) + be_bytes(from_port as nat, 2) + be_bytes(
                to_port as nat,
                2,
            )
        },
        (
            Endpoint::V6 { ip: from, port: from_port, .. },
            Endpoint::V6 { ip: to, port: to_port, .. },
        ) => {
            signature() + seq![0x21u8, 0x21u8, 0x00u8, 0x24u8] + be_bytes(from as nat, 16)
                + be_bytes(to as nat, 16) + be_bytes(from_port as nat, 2) + be_bytes(
                to_port as nat,
                2,
            )
        },
        _ => signature() + seq![0x20u8, 0x00u8, 0x00u8, 0x00u8],
    }
}

/// Appends the `width` lowest bytes of `value`, highest byte first.
fn push_be(out: &mut Vec<u8>, value: u128, width: usize)
    requires
        width <= 16,
    ensures
        final(out)@ == old(out)@ + be_bytes(value as nat, width as nat),
{
    let ghost before = out@;
    let mut digits: Vec<u8> = Vec::new();
    let mut rest = value;
    let mut done: usize = 0;
    while done < width
        invariant
            done <= width,
            digits@.len() == done,
            forall|k: nat|
                #![trigger be_bytes(rest as nat, k)]
                be_bytes(value as nat, (done + k) as nat) == be_bytes(rest as nat, k) + digits@.reverse(),
        decreases width - done,
    {
        let ghost old_rest = rest;
        let ghost old_digits = digits@;
        let digit = (rest % 256) as u8;
        digits.push(digit);
        rest = rest / 256;
        done = done + 1;
        proof {
            assert forall|k: nat|
                #![trigger be_bytes(rest as nat, k)]
                be_bytes(value as nat, (done + k) as nat) == be_bytes(rest as nat, k)
                    + digits@.reverse() by {
                assert(be_bytes(old_rest as nat, (k + 1) as nat) == be_bytes(rest as nat, k).push(digit));
                assert(digits@.reverse() =~= seq![digit] + old_digits.reverse());
                assert(be_bytes(rest as nat, k).push(digit) + old_digits.reverse() =~= be_bytes(
                    rest as nat,
                    k,
                ) + digits@.reverse());
                assert(done + k == (done - 1) + (k + 1));
            }
        }
    }
    proof {
        assert(be_bytes(rest as nat, 0) + digits@.reverse() =~= digits@.reverse());
    }
    let mut left: usize = width;
    while left > 0
        invariant
            left <= width,
            digits@.len() == width,
            out@ == before + digits@.reverse().take(width - left),
        decreases left,
    {
        left = left - 1;
        out.push(digits[left]);
        proof {
            let turned = digits@.reverse();
            assert(turned[width - left - 1] == digits@[left as int]);
            assert(turned.take(width - left) =~= turned.take(width - left - 1).push(
                digits@[left as int],
            ));
        }
    }
    proof {
        assert(digits@.reverse().take(width as int) =~= digits@.reverse());
    }
}

/// Appends the signature.
fn push_signature(out: &mut Vec<u8>)
    ensures
        final(out)@ == old(out)@ + signature(),
{
    let ghost before = out@;
    out.push(0x0D);
    out.push(0x0A);
    out.push(0x0D);
    out.push(0x0A);
    out.push(0x00);
    out.push(0x0D);
    out.push(0x0A);
    out.push(0x51);
    out.push(0x55);
    out.push(0x49);
    out.push(0x54);
    out.push(0x0A);
    assert(out@ =~= before + signature());
}

/// Builds the header that tells of a stream from `source` to `destination`
/// (`header_for`).
pub fn build_header(source: Endpoint, destination: Endpoint) -> (r: Vec<u8>)
    ensures
        r@ == header_for(source, destination),
{
    let mut out: Vec<u8> = Vec::new();
    push_signature(&mut out);
    assert(out@ =~= signature());
    match (source, destination) {
        (Endpoint::V4 { ip: from, port: from_port }, Endpoint::V4 { ip: to, port: to_port }) => {
            out.push(0x21);
            out.push(0x11);
            out.push(0x00);
            out.push(0x0C);
            assert(out@ =~= signature() + seq![0x21u8, 0x11u8, 0x00u8, 0x0Cu8]);
            push_be(&mut out, from as u128, 4);
            push_be(&mut out, to as u128, 4);
            push_be(&mut out, from_port as u128, 2);
            push_be(&mut out, to_port as u128, 2);
        },
        (
            Endpoint::V6 { ip: from, port: from_port, .. },
            Endpoint::V6 { ip: to, port: to_port, .. },
        ) => {
            out.push(0x21);
            out.push(0x21);
            out.push(0x00);
            out.push(0x24);
            assert(out@ =~= signature() + seq![0x21u8, 0x21u8, 0x00u8, 0x24u8]);
            push_be(&mut out, from, 16);
            push_be(&mut out, to, 16);
            push_be(&mut out, from_port as u128, 2);
            push_be(&mut out, to_port as u128, 2);
        },
        _ => {
            out.push(0x20);
            out.push(0x00);
            out.push(0x00);
            out.push(0x00);
            assert(out@ =~= signature() + seq![0x20u8, 0x00u8, 0x00u8, 0x00u8]);
        },
    }
    out
}

proof fn lemma_be_bytes_len(value: nat, width: nat)
    ensures
        be_bytes(value, width).len() == width,
    decreases width,
{
    if width > 0 {
        lemma_be_bytes_len(value / 256, (width - 1) as nat);
    }
}

/// A header that was built is a header: whatever follows it, reading finds
/// exactly the built bytes and stops behind them.
pub proof fn lemma_built_header_is_read_back(source: Endpoint, destination: Endpoint, rest: Seq<u8>)
    ensures
        header_len_of(header_for(source, destination) + rest) == Ok::<nat, HeaderError>(
            header_for(source, destination).len(),
        ),
        (header_for(source, destination) + rest).skip(
            header_consumed(header_for(source, destination) + rest) as int,
        ) == rest,
{
    let header = header_for(source, destination);
    let all = header + rest;
    lemma_be_bytes_len(0, 0);
    match (source, destination) {
        (Endpoint::V4 { ip: from, port: from_port }, Endpoint::V4 { ip: to, port: to_port }) => {
            lemma_be_bytes_len(from as nat, 4);
            lemma_be_bytes_len(to as nat, 4);
            lemma_be_bytes_len(from_port as nat, 2);
            lemma_be_bytes_len(to_port as nat, 2);
            assert(header.len() == 28);
        },
        (
            Endpoint::V6 { ip: from, port: from_port, .. },
            Endpoint::V6 { ip: to, port: to_port, .. },
        ) => {
            lemma_be_bytes_len(from as nat, 16);
            lemma_be_bytes_len(to as nat, 16);
            lemma_be_bytes_len(from_port as nat, 2);
            lemma_be_bytes_len(to_port as nat, 2);
            assert(header.len() == 52);
        },
        _ => {
            assert(header.len() == 16);
        },
    }
    assert(all.take(12) =~= signature());
    assert(all[12] == header[12] && all[14] == header[14] && all[15] == header[15]);
    assert(all.skip(header.len() as int) =~= rest);
}

} // verus!
