//! The handshake frame: the first frame a client sends, which names the
//! virtual host it wants.

use crate::mc::after_varint;
use crate::mc::big_endian_u16;
use crate::mc::get_u16;
use crate::mc::lemma_varint_consumed_in_bounds;
use crate::mc::lemma_varint_prefix;
use crate::mc::read_string;
use crate::mc::read_varint;
use crate::mc::remaining;
use crate::mc::string_consumed;
use crate::mc::string_field;
use crate::mc::unread;
use crate::mc::varint;
use crate::mc::DecodeError;
use tokio_util::bytes::Bytes;
use vstd::prelude::*;

verus! {

/// A decoded handshake.
#[derive(Debug)]
pub struct Handshake {
    pub protocol_version: i32,
    pub server_address: String,
    pub server_port: u16,
    pub next_state: i32,
}

/// What a handshake says, with the address as plain text.
pub struct HandshakeFields {
    pub protocol_version: i32,
    pub server_address: Seq<char>,
    pub server_port: u16,
    pub next_state: i32,
}

impl View for Handshake {
    type V = HandshakeFields;

    open spec fn view(&self) -> HandshakeFields {
        HandshakeFields {
            protocol_version: self.protocol_version,
            server_address: self.server_address@,
            server_port: self.server_port,
            next_state: self.next_state,
        }
    }
}

/// The packet id that marks a handshake.
pub const HANDSHAKE_PACKET_ID: i32 = 0;

/// The frame behind its length prefix: where the packet id starts.
pub open spec fn at_packet_id(frame: Seq<u8>) -> Seq<u8> {
    after_varint(frame)
}

/// Where the protocol version starts.
pub open spec fn at_protocol_version(frame: Seq<u8>) -> Seq<u8> {
    after_varint(at_packet_id(frame))
}

/// Where the server address starts.
pub open spec fn at_server_address(frame: Seq<u8>) -> Seq<u8> {
    after_varint(at_protocol_version(frame))
}

/// Where the port starts.
pub open spec fn at_server_port(frame: Seq<u8>) -> Seq<u8> {
    at_server_address(frame).skip(string_consumed(at_server_address(frame)) as int)
}

/// Where the next state starts.
pub open spec fn at_next_state(frame: Seq<u8>) -> Seq<u8> {
    at_server_port(frame).skip(2)
}

/// The handshake that a frame holds, or the first thing wrong with it.
///
/// Field by field: a length (read and not used), a packet id that must be
/// zero, the protocol version, the server address as a string, the port as two
/// big-endian bytes, the next state. What follows the next state is not looked
/// at.
pub open spec fn handshake_of(frame: Seq<u8>) -> Result<HandshakeFields, DecodeError> {
    if varint(frame) is Err {
        Err(varint(frame)->Err_0)
    } else if varint(at_packet_id(frame)) is Err {
        Err(varint(at_packet_id(frame))->Err_0)
    } else if varint(at_packet_id(frame)) != Ok::<i32, DecodeError>(HANDSHAKE_PACKET_ID) {
        Err(DecodeError::NotHandshake)
    } else if varint(at_protocol_version(frame)) is Err {
        Err(varint(at_protocol_version(frame))->Err_0)
    } else if string_field(at_server_address(frame)) is Err {
        Err(string_field(at_server_address(frame))->Err_0)
    } else if at_server_port(frame).len() < 2 {
        Err(DecodeError::MissingPort)
    } else if varint(at_next_state(frame)) is Err {
        Err(varint(at_next_state(frame))->Err_0)
    } else {
        Ok(
            HandshakeFields {
                protocol_version: varint(at_protocol_version(frame))->Ok_0,
                server_address: string_field(at_server_address(frame))->Ok_0,
                server_port: big_endian_u16(at_server_port(frame)),
                next_state: varint(at_next_state(frame))->Ok_0,
            },
        )
    }
}

impl Handshake {
    /// Decodes the handshake at the front of `data`.
    ///
    /// Succeeds exactly on the frames that `handshake_of` accepts, with the
    /// fields it gives; fails with the error it gives on all others.
    pub fn parse_handshake(data: Bytes) -> (r: Result<Handshake, DecodeError>)
        ensures
            match r {
                Ok(h) => handshake_of(unread(data)) == Ok::<HandshakeFields, DecodeError>(h@),
                Err(e) => handshake_of(unread(data)) == Err::<HandshakeFields, DecodeError>(e),
            },
    {
        let mut data = data;
        let ghost frame = unread(data);
        match read_varint(&mut data) {
            Ok(_) => {},
            Err(e) => {
                return Err(e);
            },
        }
        let packet_id = match read_varint(&mut data) {
            Ok(id) => id,
            Err(e) => {
                return Err(e);
            },
        };
        if packet_id != HANDSHAKE_PACKET_ID {
            return Err(DecodeError::NotHandshake);
        }
        let protocol_version = match read_varint(&mut data) {
            Ok(v) => v,
            Err(e) => {
                return Err(e);
            },
        };
        let server_address = match read_string(&mut data) {
            Ok(s) => s,
            Err(e) => {
                return Err(e);
            },
        };
        if remaining(&data) < 2 {
            return Err(DecodeError::MissingPort);
        }
        let server_port = get_u16(&mut data);
        let next_state = match read_varint(&mut data) {
            Ok(v) => v,
            Err(e) => {
                return Err(e);
            },
        };
        Ok(Handshake { protocol_version, server_address, server_port, next_state })
    }
}

/// A frame whose packet id is not zero is no handshake, whatever stands behind
/// the packet id.
pub proof fn lemma_nonzero_packet_id_is_rejected(frame: Seq<u8>, packet_id: i32)
    requires
        varint(frame) is Ok,
        varint(at_packet_id(frame)) == Ok::<i32, DecodeError>(packet_id),
        packet_id != HANDSHAKE_PACKET_ID,
    ensures
        handshake_of(frame) == Err::<HandshakeFields, DecodeError>(DecodeError::NotHandshake),
{
}

/// What a frame decodes to depends only on the bytes up to the end of its
/// next-state field: bytes appended behind a frame that decodes change nothing.
pub proof fn lemma_trailing_bytes_are_ignored(frame: Seq<u8>, extra: Seq<u8>)
    requires
        handshake_of(frame) is Ok,
    ensures
        handshake_of(frame + extra) == handshake_of(frame),
{
    lemma_varint_prefix(frame, extra);
    let a = at_packet_id(frame);
    assert(at_packet_id(frame + extra) == a + extra);
    lemma_varint_prefix(a, extra);
    let b = at_protocol_version(frame);
    assert(at_protocol_version(frame + extra) == b + extra);
    lemma_varint_prefix(b, extra);
    let c = at_server_address(frame);
    assert(at_server_address(frame + extra) == c + extra);
    lemma_string_extend(c, extra);
    let d = at_server_port(frame);
    assert(at_server_port(frame + extra) == d + extra);
    assert(big_endian_u16(d + extra) == big_endian_u16(d));
    let e = at_next_state(frame);
    assert(at_next_state(frame + extra) == e + extra);
    lemma_varint_prefix(e, extra);
}

proof fn lemma_string_extend(s: Seq<u8>, extra: Seq<u8>)
    requires
        string_field(s) is Ok,
    ensures
        string_field(s + extra) == string_field(s),
        (s + extra).skip(string_consumed(s + extra) as int) == s.skip(string_consumed(s) as int)
            + extra,
{
    lemma_varint_prefix(s, extra);
    let len = varint(s)->Ok_0;
    let body = after_varint(s);
    assert((body + extra).take(len as int) == body.take(len as int));
    lemma_varint_consumed_in_bounds(s);
    assert(after_varint(s + extra).len() == body.len() + extra.len());
    assert(string_consumed(s + extra) == string_consumed(s));
    assert(string_consumed(s) <= s.len());
    assert((s + extra).skip(string_consumed(s) as int) == s.skip(string_consumed(s) as int)
        + extra);
}

} // verus!
