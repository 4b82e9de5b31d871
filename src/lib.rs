pub mod bridge;
pub mod bundle;
pub mod bytes;
pub mod contacts;
pub mod db_encryption;
pub mod error;
pub mod identity;
pub mod key_rotation;
pub mod keys;
pub mod message_history;
pub mod primitives;
pub mod storage;
pub mod table;

pub use bridge::SignalBridge;
pub use contacts::{ContactInfo, ContactManager};
pub use error::SignalBridgeError;
pub use identity::NostrIdentity;
use vstd::prelude::*;
use vstd::string::StringExecFns;

verus! {

/// A greeting, to check that the library links.
pub fn hello_world() -> (r: String)
    ensures
        r@ == "Hello World from Rust via CXX bridge!"@,
{
    String::from_str("Hello World from Rust via CXX bridge!")
}

/// Sum of two 32-bit integers.
pub fn add_numbers(a: i32, b: i32) -> (r: i32)
    requires
        i32::MIN <= a + b <= i32::MAX,
    ensures
        r == a + b,
{
    a + b
}

} // verus!
