//! The inbound response frame: a frame length, a packet id, the declared
//! byte length of the JSON text, and that many bytes of UTF-8. The declared
//! length is held to a fixed ceiling before any of the text is taken, so a
//! misbehaving peer cannot demand an enormous allocation.

use crate::status::StatusError;
use crate::varint::lemma_varint_size_le;
use crate::varint::var_int_decode;
use crate::varint::varint_decoded;
use crate::varint::varint_size;
use crate::varint::varint_terminates;
use vstd::prelude::*;
use vstd::slice::slice_subrange;
use vstd::slice::slice_to_vec;
use vstd::utf8::decode_utf8;
use vstd::utf8::valid_utf8;

verus! {

/// The largest JSON payload a response may declare, in bytes.
pub const MAX_PACKET_SIZE: u32 = 1024 * 1024 * 50;

/// What a read of one response frame from the front of a byte stream gives.
pub enum FrameOutcome {
    /// The declared number of payload bytes, in full.
    Payload(Seq<u8>),
    /// A length field ran past the five-byte cap of a variable-length integer.
    Malformed,
    /// The declared payload length stands over the accepted ceiling.
    TooLarge,
    /// The stream ended before the frame was complete.
    ShortRead,
}

/// Reads the three leading variable-length integers — frame length, packet
/// id, and payload length — and then the declared number of payload bytes.
/// The frame length is taken as informational only: the payload's own length
/// field alone decides how many bytes are consumed.
pub open spec fn parse_frame(s: Seq<u8>) -> FrameOutcome {
    if varint_terminates(s) {
        let s1 = s.skip(varint_size(s));
        if varint_terminates(s1) {
            let s2 = s1.skip(varint_size(s1));
            if varint_terminates(s2) {
                let n = varint_decoded(s2);
                let s3 = s2.skip(varint_size(s2));
                if n > MAX_PACKET_SIZE {
                    FrameOutcome::TooLarge
                } else if s3.len() < n {
                    FrameOutcome::ShortRead
                } else {
                    FrameOutcome::Payload(s3.take(n as int))
                }
            } else if s2.len() >= 6 {
                FrameOutcome::Malformed
            } else {
                FrameOutcome::ShortRead
            }
        } else if s1.len() >= 6 {
            FrameOutcome::Malformed
        } else {
            FrameOutcome::ShortRead
        }
    } else if s.len() >= 6 {
        FrameOutcome::Malformed
    } else {
        FrameOutcome::ShortRead
    }
}

/// How many more bytes a reader should fetch when the frame is still short:
/// one at a time while a length field is open, then the missing remainder of
/// the payload at one stroke.
pub open spec fn frame_needed(s: Seq<u8>) -> int {
    if !varint_terminates(s) {
        1
    } else {
        let s1 = s.skip(varint_size(s));
        if !varint_terminates(s1) {
            1
        } else {
            let s2 = s1.skip(varint_size(s1));
            if !varint_terminates(s2) {
                1
            } else {
                let s3 = s2.skip(varint_size(s2));
                varint_decoded(s2) - s3.len()
            }
        }
    }
}

/// Relies on String::from_utf8: it succeeds exactly on valid UTF-8, and the
/// returned string holds the decoded characters of the input bytes.
#[verifier::external_body]
fn bytes_to_string(bytes: Vec<u8>) -> (r: Result<String, StatusError>)
    ensures
        r is Ok <==> valid_utf8(bytes@),
        r matches Ok(j) ==> j@ == decode_utf8(bytes@),
        r matches Err(e) ==> e == StatusError::Encoding,
{
    match String::from_utf8(bytes) {
        Ok(s) => Ok(s),
        Err(_) => Err(StatusError::Encoding),
    }
}

/// Reads the JSON text out of a complete response frame: three length
/// fields, the size ceiling, the payload bytes, and their UTF-8 decoding,
/// each failure surfacing as its own error.
pub fn read_status_json(response: &Vec<u8>) -> (r: Result<String, StatusError>)
    ensures
        ({
            let o = parse_frame(response@);
            match r {
                Ok(j) => {
                    &&& o matches FrameOutcome::Payload(p) && valid_utf8(p) && j@ == decode_utf8(p)
                },
                Err(e) => match e {
                    StatusError::Protocol => o is Malformed,
                    StatusError::PayloadTooLarge => o is TooLarge,
                    StatusError::Io => o is ShortRead,
                    StatusError::Encoding => o matches FrameOutcome::Payload(p) && !valid_utf8(p),
                    _ => false,
                },
            }
        }),
{
    let ghost s: Seq<u8> = response@;
    proof {
        assert(s.skip(0) =~= s);
    }
    let p1: usize = match var_int_decode(response, 0) {
        Ok(p) => p.1,
        Err(e) => {
            return Err(e);
        },
    };
    proof {
        lemma_varint_size_le(s);
        assert(s.skip(varint_size(s)) =~= response@.skip(p1 as int));
    }
    let ghost s1: Seq<u8> = s.skip(varint_size(s));
    let p2: usize = match var_int_decode(response, p1) {
        Ok(p) => p.1,
        Err(e) => {
            return Err(e);
        },
    };
    proof {
        lemma_varint_size_le(s1);
        assert(s1.skip(varint_size(s1)) =~= response@.skip(p2 as int));
    }
    let ghost s2: Seq<u8> = s1.skip(varint_size(s1));
    let (len_value, p3): (i32, usize) = match var_int_decode(response, p2) {
        Ok(p) => p,
        Err(e) => {
            return Err(e);
        },
    };
    proof {
        lemma_varint_size_le(s2);
        assert(s2.skip(varint_size(s2)) =~= response@.skip(p3 as int));
    }
    let ghost s3: Seq<u8> = s2.skip(varint_size(s2));
    let n: u32 = len_value as u32;
    if n > MAX_PACKET_SIZE {
        return Err(StatusError::PayloadTooLarge);
    }
    if response.len() - p3 < n as usize {
        return Err(StatusError::Io);
    }
    let end: usize = p3 + n as usize;
    let payload: Vec<u8> = slice_to_vec(slice_subrange(response.as_slice(), p3, end));
    proof {
        assert(payload@ =~= s3.take(n as int));
    }
    bytes_to_string(payload)
}

/// Says how a reader that is filling a buffer should go on: how many more
/// bytes to fetch when the frame is still short, zero when the frame is
/// complete, and the terminal error when no amount of further bytes can
/// mend it.
pub fn response_needed(buf: &Vec<u8>) -> (r: Result<usize, StatusError>)
    ensures
        ({
            let o = parse_frame(buf@);
            match r {
                Ok(k) => {
                    if k == 0 {
                        o is Payload
                    } else {
                        o is ShortRead && k == frame_needed(buf@)
                    }
                },
                Err(e) => match e {
                    StatusError::Protocol => o is Malformed,
                    StatusError::PayloadTooLarge => o is TooLarge,
                    _ => false,
                },
            }
        }),
{
    let ghost s: Seq<u8> = buf@;
    proof {
        assert(s.skip(0) =~= s);
    }
    let p1: usize = match var_int_decode(buf, 0) {
        Ok(p) => p.1,
        Err(StatusError::Protocol) => {
            return Err(StatusError::Protocol);
        },
        Err(_) => {
            return Ok(1);
        },
    };
    proof {
        lemma_varint_size_le(s);
        assert(s.skip(varint_size(s)) =~= buf@.skip(p1 as int));
    }
    let ghost s1: Seq<u8> = s.skip(varint_size(s));
    let p2: usize = match var_int_decode(buf, p1) {
        Ok(p) => p.1,
        Err(StatusError::Protocol) => {
            return Err(StatusError::Protocol);
        },
        Err(_) => {
            return Ok(1);
        },
    };
    proof {
        lemma_varint_size_le(s1);
        assert(s1.skip(varint_size(s1)) =~= buf@.skip(p2 as int));
    }
    let ghost s2: Seq<u8> = s1.skip(varint_size(s1));
    let (len_value, p3): (i32, usize) = match var_int_decode(buf, p2) {
        Ok(p) => p,
        Err(StatusError::Protocol) => {
            return Err(StatusError::Protocol);
        },
        Err(_) => {
            return Ok(1);
        },
    };
    proof {
        lemma_varint_size_le(s2);
        assert(s2.skip(varint_size(s2)) =~= buf@.skip(p3 as int));
    }
    let n: u32 = len_value as u32;
    if n > MAX_PACKET_SIZE {
        return Err(StatusError::PayloadTooLarge);
    }
    let have: usize = buf.len() - p3;
    if have < n as usize {
        Ok(n as usize - have)
    } else {
        Ok(0)
    }
}

} // verus!
