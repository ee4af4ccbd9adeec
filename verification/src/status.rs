//! The typed status record a query yields, and the errors a query can surface.

use vstd::prelude::*;

verus! {

/// One failure class per step of a query: every error surfaces to the caller
/// untouched, and nothing is retried.
#[derive(Clone, Copy, Debug, PartialEq, Eq, Structural)]
pub enum StatusError {
    /// The hostname and port resolved to no usable endpoint.
    AddressResolution,
    /// The connection could not be opened within the timeout.
    Connection,
    /// A read or write on the stream failed or ended early.
    Io,
    /// A variable-length integer ran past its five-byte cap.
    Protocol,
    /// The response declared a JSON payload over the accepted ceiling.
    PayloadTooLarge,
    /// The JSON payload was not valid UTF-8.
    Encoding,
    /// The payload was not JSON, or a required field was absent or mistyped.
    Deserialization,
}

/// The free-form server description, reduced to its text field.
#[derive(Debug)]
pub struct Description {
    pub text: String,
}

/// One entry of the player sample list.
#[derive(Debug)]
pub struct Sample {
    pub id: String,
    pub name: String,
}

/// Player counts and the optional sample of who is online.
#[derive(Debug)]
pub struct Players {
    pub max: i64,
    pub online: i64,
    pub sample: Vec<Sample>,
}

/// The server software's name and protocol number.
#[derive(Debug)]
pub struct Version {
    pub name: String,
    pub protocol: i64,
}

/// The parsed server status: built once per query from the response's JSON
/// payload, immutable thereafter, and owned by the caller alone.
#[derive(Debug)]
pub struct ServerStatus {
    pub description: Description,
    pub favicon: String,
    pub players: Players,
    pub version: Version,
}

/// How one field stood in the response's JSON: missing altogether, present
/// under the wrong type, or present with its value.
pub enum Field<T> {
    Absent,
    Mistyped,
    Present(T),
}

/// Every field of the status record as it stood in the JSON, before the
/// required/optional policy is applied.
pub struct RawStatus {
    pub description_text: Field<String>,
    pub favicon: Field<String>,
    pub players_max: Field<i64>,
    pub players_online: Field<i64>,
    pub sample: Field<Vec<Sample>>,
    pub version_name: Field<String>,
    pub version_protocol: Field<i64>,
}

/// Whether the fields make a status record: the required ones are present,
/// and the optional ones are at worst absent, never mistyped.
pub open spec fn fields_accepted(raw: RawStatus) -> bool {
    &&& raw.description_text is Present
    &&& raw.players_max is Present
    &&& raw.players_online is Present
    &&& raw.version_name is Present
    &&& raw.version_protocol is Present
    &&& !(raw.favicon is Mistyped)
    &&& !(raw.sample is Mistyped)
}

/// Applies the field policy: every required field must be present, the
/// optional favicon falls back to the empty string, and the optional sample
/// list falls back to empty; anything else is a deserialization error.
pub fn status_from_fields(raw: RawStatus) -> (r: Result<ServerStatus, StatusError>)
    ensures
        r is Ok <==> fields_accepted(raw),
        r matches Ok(st) ==> {
            &&& st.description.text == raw.description_text->Present_0
            &&& st.players.max == raw.players_max->Present_0
            &&& st.players.online == raw.players_online->Present_0
            &&& st.version.name == raw.version_name->Present_0
            &&& st.version.protocol == raw.version_protocol->Present_0
            &&& raw.favicon is Present ==> st.favicon == raw.favicon->Present_0
            &&& !(raw.favicon is Present) ==> st.favicon@ == Seq::<char>::empty()
            &&& raw.sample is Present ==> st.players.sample == raw.sample->Present_0
            &&& !(raw.sample is Present) ==> st.players.sample@ == Seq::<Sample>::empty()
        },
        r matches Err(e) ==> e == StatusError::Deserialization,
{
    let text = match raw.description_text {
        Field::Present(t) => t,
        _ => {
            return Err(StatusError::Deserialization);
        },
    };
    let max = match raw.players_max {
        Field::Present(m) => m,
        _ => {
            return Err(StatusError::Deserialization);
        },
    };
    let online = match raw.players_online {
        Field::Present(o) => o,
        _ => {
            return Err(StatusError::Deserialization);
        },
    };
    let version_name = match raw.version_name {
        Field::Present(n) => n,
        _ => {
            return Err(StatusError::Deserialization);
        },
    };
    let protocol = match raw.version_protocol {
        Field::Present(p) => p,
        _ => {
            return Err(StatusError::Deserialization);
        },
    };
    let favicon = match raw.favicon {
        Field::Present(f) => f,
        Field::Absent => String::new(),
        Field::Mistyped => {
            return Err(StatusError::Deserialization);
        },
    };
    let sample = match raw.sample {
        Field::Present(s) => s,
        Field::Absent => Vec::new(),
        Field::Mistyped => {
            return Err(StatusError::Deserialization);
        },
    };
    Ok(
        ServerStatus {
            description: Description { text },
            favicon,
            players: Players { max, online, sample },
            version: Version { name: version_name, protocol },
        },
    )
}

} // verus!
