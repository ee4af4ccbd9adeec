//! Framing and the outbound packets: a frame is a payload behind its own
//! length as a variable-length integer, and a status query sends two such
//! frames back to back, the handshake and the empty status request.

use crate::varint::lemma_varint_minimal;
use crate::varint::var_int_encode;
use crate::varint::varint_bytes;
use vstd::prelude::*;
use vstd::slice::slice_to_vec;
use vstd::string::StringSliceAdditionalSpecFns;

verus! {

/// A payload framed behind its byte length.
pub open spec fn packed_bytes(data: Seq<u8>) -> Seq<u8> {
    varint_bytes(data.len() as u32) + data
}

/// The handshake frame body: packet id, protocol version zero, the framed
/// server address, the port in two big-endian bytes, and the status intent.
pub open spec fn handshake_body(host: Seq<u8>, port: u16) -> Seq<u8> {
    seq![0x00u8, 0x00u8] + packed_bytes(host) + seq![
        (port / 0x100) as u8,
        (port % 0x100) as u8,
        0x01u8,
    ]
}

/// Both outbound frames: the framed handshake, then the framed one-byte
/// status request.
pub open spec fn status_request_bytes(host: Seq<u8>, port: u16) -> Seq<u8> {
    packed_bytes(handshake_body(host, port)) + packed_bytes(seq![0x00u8])
}

/// Frames a payload behind its length, so the peer knows how many bytes
/// follow.
pub fn var_int_pack(data: Vec<u8>) -> (r: Vec<u8>)
    requires
        data@.len() <= 0x7FFF_FFFF,
    ensures
        r@ == packed_bytes(data@),
{
    let ghost d: Seq<u8> = data@;
    let len: i32 = data.len() as i32;
    let mut packed = var_int_encode(len);
    let mut rest = data;
    packed.append(&mut rest);
    proof {
        assert(packed@ =~= packed_bytes(d));
    }
    packed
}

/// Frame pack round trip: the frame of a payload opens with an encoding of
/// the payload's exact length, and that many bytes after the encoding give
/// the payload back.
pub proof fn lemma_pack_round_trip(data: Seq<u8>)
    requires
        data.len() <= 0x7FFF_FFFF,
    ensures
        ({
            let prefix = varint_bytes(data.len() as u32);
            &&& packed_bytes(data).take(prefix.len() as int) == prefix
            &&& packed_bytes(data).skip(prefix.len() as int) == data
            &&& prefix.len() as int + data.len() == packed_bytes(data).len()
        }),
{
    let prefix = varint_bytes(data.len() as u32);
    assert(packed_bytes(data).take(prefix.len() as int) =~= prefix);
    assert(packed_bytes(data).skip(prefix.len() as int) =~= data);
}

/// Builds the two request frames for a status query of `hostname:port`. A
/// pure function of its inputs: the same name and port always yield the same
/// bytes.
pub fn status_packet_builder(hostname: &str, port: u16) -> (r: Vec<u8>)
    requires
        hostname.spec_bytes().len() + 10 <= 0x7FFF_FFFF,
    ensures
        r@ == status_request_bytes(hostname.spec_bytes(), port),
{
    proof {
        lemma_varint_minimal(hostname.spec_bytes().len() as u32);
    }
    let host_bytes: &[u8] = hostname.as_bytes();
    let host_vec: Vec<u8> = slice_to_vec(host_bytes);
    let mut packed_host = var_int_pack(host_vec);
    let mut body: Vec<u8> = Vec::new();
    body.push(0x00);
    body.push(0x00);
    body.append(&mut packed_host);
    body.push((port / 0x100) as u8);
    body.push((port % 0x100) as u8);
    body.push(0x01);
    proof {
        assert(body@ =~= handshake_body(hostname.spec_bytes(), port));
    }
    let mut request = var_int_pack(body);
    let mut status_body: Vec<u8> = Vec::new();
    status_body.push(0x00);
    proof {
        assert(status_body@ =~= seq![0x00u8]);
    }
    let mut status_frame = var_int_pack(status_body);
    request.append(&mut status_frame);
    proof {
        assert(request@ =~= status_request_bytes(hostname.spec_bytes(), port));
    }
    request
}

} // verus!
