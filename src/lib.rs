//! Request-time bearer-token authentication: the `Authorization` header is
//! parsed, the token is handed to an OpenID Connect validator, and the
//! validated claims are wrapped for the request handler; every failure maps
//! to one `401` challenge.
pub mod claims;
pub mod credential;
pub mod error;
pub mod gate;

pub use claims::Claims;
pub use credential::{bearer_token, MALFORMED_HEADER, MISSING_HEADER};
pub use error::{escape_description, AuthError, Unauthorized, REALM};
pub use gate::claims_from_outcome;
