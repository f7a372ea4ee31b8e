//! Time-based one-time passwords: a shared secret and a point in time give a
//! six-digit code, by way of a 30-second step counter, HMAC-SHA-1 and dynamic
//! truncation.

pub mod code;
pub mod counter;
pub mod hotp;
pub mod secret;

pub use code::{decimal, format_code, get_code};
pub use counter::{counter_from_reading, get_time, time_step_counter, ClockError};
pub use hotp::{create_hash, hotp_code, reduce, truncate};
pub use secret::{decode, encode, generate_secret, DecodeError};
