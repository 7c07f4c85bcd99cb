//! Cross-Site Request Forgery protection built on the double-submit-cookie
//! pattern: a random secret is kept in a cookie, a derived authenticity token
//! is embedded in outgoing forms, and incoming state-changing requests must
//! present the authenticity token so it can be checked against the cookie's
//! secret.
//!
//! The token lifecycle lives here: secret generation, cookie storage
//! (optionally encrypted in a private jar), authenticity-token derivation by
//! HMAC-SHA256 over a server-side salt, and constant-time verification.
//! The HTTP plumbing that drives this per request lives outside the library.

mod config;
mod cookies;
mod error;
mod text;
mod token;
mod trusted;

pub use config::CsrfConfig;
pub use config::SameSite;
pub use cookies::CookieEntry;
pub use cookies::CookieJar;
pub use cookies::build_set_cookie;
pub use cookies::get_cookies;
pub use cookies::set_cookies;
pub use error::CsrfError;
pub use token::CsrfToken;
pub use token::get_token;
