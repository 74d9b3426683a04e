use vstd::prelude::*;

verus! {

/// `std::io::Error`, carried through opaquely.
#[verifier::external_type_specification]
#[verifier::external_body]
pub struct ExIoError(std::io::Error);

/// Errors reported by the RemoteDesk library.
///
/// Each variant carries a human-readable message.  Errors that come from
/// I/O or from protobuf decoding carry the message of the underlying error.
#[derive(Debug, Clone, PartialEq, Eq)]
pub enum Error {
    Io(String),
    Serialization(String),
    Protobuf(String),
    Config(String),
    Network(String),
    Capture(String),
    Codec(String),
    Input(String),
    NotImplemented(String),
    Other(String),
}

/// How an error is displayed: its kind, then its message.
pub open spec fn spec_error_text(e: Error) -> Seq<char> {
    match e {
        Error::Io(m) => "I/O error: "@ + m@,
        Error::Serialization(m) => "Serialization error: "@ + m@,
        Error::Protobuf(m) => "Protobuf error: "@ + m@,
        Error::Config(m) => "Configuration error: "@ + m@,
        Error::Network(m) => "Network error: "@ + m@,
        Error::Capture(m) => "Capture error: "@ + m@,
        Error::Codec(m) => "Codec error: "@ + m@,
        Error::Input(m) => "Input error: "@ + m@,
        Error::NotImplemented(m) => "Not implemented: "@ + m@,
        Error::Other(m) => m@,
    }
}

impl Error {
    /// The error as it is displayed to the user.
    pub fn to_string(&self) -> (res: String)
        ensures
            res@ == spec_error_text(*self),
    {
        match self {
            Error::Io(m) => join_message("I/O error: ", m.as_str()),
            Error::Serialization(m) => join_message("Serialization error: ", m.as_str()),
            Error::Protobuf(m) => join_message("Protobuf error: ", m.as_str()),
            Error::Config(m) => join_message("Configuration error: ", m.as_str()),
            Error::Network(m) => join_message("Network error: ", m.as_str()),
            Error::Capture(m) => join_message("Capture error: ", m.as_str()),
            Error::Codec(m) => join_message("Codec error: ", m.as_str()),
            Error::Input(m) => join_message("Input error: ", m.as_str()),
            Error::NotImplemented(m) => join_message("Not implemented: ", m.as_str()),
            Error::Other(m) => m.clone(),
        }
    }
}

/// Builds the string `prefix ++ rest`.
pub fn join_message(prefix: &str, rest: &str) -> (res: String)
    ensures
        res@ == prefix@ + rest@,
{
    let s = String::from_str(prefix);
    s.concat(rest)
}

/// A network error whose message is `msg`.
pub fn network_error(msg: &str) -> (res: Error)
    ensures
        res matches Error::Network(m) && m@ == msg@,
{
    Error::Network(String::from_str(msg))
}

} // verus!
