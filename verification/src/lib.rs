//! Core of an HTTP gateway: bearer-token credentials, a keyed token-bucket
//! rate limiter, the ordered request pipeline, and the shutdown lifecycle.
//!
//! Everything here is plain data and decisions. The surrounding server hands
//! in header values, body sizes and clock readings, and carries the verdicts
//! back out to the wire.

pub mod error;
pub mod handlers;
pub mod lifecycle;
pub mod pipeline;
pub mod ratelimit;
pub mod scores;
pub mod secret;
pub mod time;
pub mod token;

pub use error::JwtError;
pub use error::ServerError;
pub use handlers::LoginRequest;
pub use handlers::LoginResponse;
pub use handlers::User;
pub use handlers::login;
pub use handlers::validate_user;
pub use lifecycle::LifecycleCoordinator;
pub use lifecycle::LifecyclePhase;
pub use pipeline::GateOutcome;
pub use pipeline::GatewayRequest;
pub use pipeline::RouteClass;
pub use pipeline::apply_security_headers;
pub use pipeline::gate_request;
pub use ratelimit::RateLimiter;
pub use ratelimit::TokenBucket;
pub use scores::PlayerScore;
pub use scores::check_if_record_worthy;
pub use secret::JwtConfig;
pub use secret::generate_secret;
pub use time::MockTime;
pub use time::RealTime;
pub use time::TimeProvider;
pub use token::Claims;
pub use token::JwtKeyExtractor;
pub use token::authenticate;
pub use token::generate_jwt;
pub use token::issue;
pub use token::verify;
