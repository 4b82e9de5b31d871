//! Error kinds surfaced by the bridge.
use vstd::prelude::*;
use vstd::string::StringExecFns;

verus! {

/// Errors of the bridge, each carrying a human-readable detail.
#[derive(Debug, Clone)]
pub enum SignalBridgeError {
    Storage(String),
    Protocol(String),
    Serialization(String),
    InvalidInput(String),
    SessionNotFound(String),
    KeyDerivation(String),
    SchemaVersionTooOld,
}

/// The text shown for an error: a kind prefix followed by its detail.
pub open spec fn error_text(e: SignalBridgeError) -> Seq<char> {
    match e {
        SignalBridgeError::Storage(s) => "Storage error: "@ + s@,
        SignalBridgeError::Protocol(s) => "Signal Protocol error: "@ + s@,
        SignalBridgeError::Serialization(s) => "Serialization error: "@ + s@,
        SignalBridgeError::InvalidInput(s) => "Invalid input: "@ + s@,
        SignalBridgeError::SessionNotFound(s) => s@,
        SignalBridgeError::KeyDerivation(s) => "Key derivation error: "@ + s@,
        SignalBridgeError::SchemaVersionTooOld => "Update your database to a newer schema version"@,
    }
}

fn prefixed(prefix: &str, detail: &String) -> (r: String)
    ensures
        r@ == prefix@ + detail@,
{
    let mut s = String::from_str(prefix);
    s.append(detail.as_str());
    s
}

impl SignalBridgeError {
    /// The text of the error, as its display form would show it.
    pub fn to_string(&self) -> (r: String)
        ensures
            r@ == error_text(*self),
    {
        match self {
            SignalBridgeError::Storage(s) => prefixed("Storage error: ", s),
            SignalBridgeError::Protocol(s) => prefixed("Signal Protocol error: ", s),
            SignalBridgeError::Serialization(s) => prefixed("Serialization error: ", s),
            SignalBridgeError::InvalidInput(s) => prefixed("Invalid input: ", s),
            SignalBridgeError::SessionNotFound(s) => s.clone(),
            SignalBridgeError::KeyDerivation(s) => prefixed("Key derivation error: ", s),
            SignalBridgeError::SchemaVersionTooOld => String::from_str(
                "Update your database to a newer schema version",
            ),
        }
    }
}

/// Errors of the database key handling.
#[derive(Debug, Clone)]
pub enum DbEncryptionError {
    KeyStorage(String),
}

impl DbEncryptionError {
    /// The text of the error, as its display form would show it.
    pub fn to_string(&self) -> (r: String)
        ensures
            r@ == (match *self {
                DbEncryptionError::KeyStorage(s) => "Key storage error: "@ + s@,
            }),
    {
        match self {
            DbEncryptionError::KeyStorage(s) => prefixed("Key storage error: ", s),
        }
    }
}

} // verus!
