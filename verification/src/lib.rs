//! Multi-tenant session storage: apps (tenants) hold JSON session documents,
//! every access gated by credential checks that keep tenants isolated.

pub mod auth;
pub mod error;
pub mod health;
pub mod json;
pub mod store;

pub use auth::{Token, TokenClaims, TokenParseError, TokenService};
pub use error::{Error, SessionError, TokenError};
pub use health::{HealthCheckResponse, HealthStatus};
pub use json::JsonValue;
pub use store::{App, Context, Session};
