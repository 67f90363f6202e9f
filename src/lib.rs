//! A gateway protocol core: Cap'n Proto framed requests are decoded, dispatched
//! to the login handler, and answered with an encoded response.
//!
//! Schema of the two top-level messages (unions are a 16-bit discriminant at the
//! start of the data section, overlapping members share pointer slot 0):
//!
//! ```text
//! struct Request     { union { login @0 :Login; logout @1 :Void; } }
//! struct Login       { union { credentials @0 :Credentials; token @1 :Text; } }
//! struct Credentials { username @0 :Text; password @1 :Text; }
//! struct Response    { union { login :group { token @0 :Text; }
//!                              error :group { description @1 :Text; } } }
//! ```

pub mod auth;
pub mod connection;
pub mod dispatch;
pub mod schema;
pub mod wire;

pub use auth::{login_with_credentials, renew_token};
pub use connection::{Action, Frame, WebSocket};
pub use dispatch::dispatch;
pub use schema::{DecodeError, LoginRequest, Request, RequestModel, Response, ResponseModel, ServerError};
pub use wire::{decode, decode_segments, encode, response_segment};
