//! A typed model of the JSON:API document format.
//!
//! The crate models the wire form as a plain JSON value tree, validates it
//! into a typed `Document`, and encodes a typed `Document` back into the
//! tree.  Validation enforces the format's structural invariants: member
//! names must follow the allowed-character grammar, `data` and `errors` are
//! mutually exclusive, `included` requires `data`, and compound documents
//! must be fully linked.

pub mod decode;
pub mod encode;
pub mod error;
pub mod json;
pub mod linkage;
pub mod model;
pub mod name;

pub use decode::decode;
pub use encode::encode;
pub use error::DocError;
pub use error::ErrorKind;
pub use json::JsonValue;
pub use name::Name;
