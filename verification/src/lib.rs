//! Wire-protocol layer for querying a game server's public status over its
//! length-prefixed binary protocol: a base-128 variable-length integer codec,
//! a frame packer, a request-packet builder, a response-frame reader, and the
//! mapping of the response's JSON payload into a typed status record.
//!
//! Address resolution and the socket itself stay outside: the functions here
//! take and return plain bytes, so a caller owns the connection and hands the
//! response bytes in as they arrive.

use vstd::prelude::*;

pub mod json;
pub mod packet;
pub mod response;
pub mod status;
pub mod varint;

pub use json::parse_json;
pub use json::JsonValue;
pub use packet::status_packet_builder;
pub use packet::var_int_pack;
pub use response::read_status_json;
pub use response::response_needed;
pub use response::FrameOutcome;
pub use response::MAX_PACKET_SIZE;
pub use status::status_from_fields;
pub use status::Description;
pub use status::Field;
pub use status::Players;
pub use status::RawStatus;
pub use status::Sample;
pub use status::ServerStatus;
pub use status::StatusError;
pub use status::Version;
pub use varint::var_int_decode;
pub use varint::var_int_encode;

verus! {

use crate::json::json_of;
use crate::json::json_wf;
use crate::json::status_accepted;
use crate::json::status_matches;
use crate::response::parse_frame;
use vstd::utf8::decode_utf8;
use vstd::utf8::valid_utf8;

/// Decodes one complete response frame into the status record. Success is
/// owed exactly when the frame carries its declared payload, the payload is
/// UTF-8, its text is JSON, and the tree holds the required fields; the
/// record is then the tree's, and each earlier failure surfaces as its own
/// error.
pub fn server_status(response: &Vec<u8>) -> (r: Result<ServerStatus, StatusError>)
    ensures
        ({
            let o = parse_frame(response@);
            match r {
                Ok(st) => {
                    &&& o matches FrameOutcome::Payload(p) && valid_utf8(p) && json_wf(
                        decode_utf8(p),
                    ) && status_accepted(json_of(decode_utf8(p))) && status_matches(
                        json_of(decode_utf8(p)),
                        st,
                    )
                },
                Err(e) => match e {
                    StatusError::Protocol => o is Malformed,
                    StatusError::PayloadTooLarge => o is TooLarge,
                    StatusError::Io => o is ShortRead,
                    StatusError::Encoding => o matches FrameOutcome::Payload(p) && !valid_utf8(p),
                    StatusError::Deserialization => o matches FrameOutcome::Payload(p)
                        && valid_utf8(p) && !(json_wf(decode_utf8(p)) && status_accepted(
                        json_of(decode_utf8(p)),
                    )),
                    _ => false,
                },
            }
        }),
{
    let text = match read_status_json(response) {
        Ok(t) => t,
        Err(e) => {
            return Err(e);
        },
    };
    parse_json(text.as_str())
}

} // verus!
