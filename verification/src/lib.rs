//! The Luhn checksum on strings of ASCII digits and spaces.
//!
//! [`luhn_check`] decides whether a number carries a correct check digit and
//! [`luhn_digit`] computes the check digit for a number that has none yet.
//! Both read the string once through [`luhn_sum`] and need no heap.
//!
//! The contracts are stated over the mathematical model in [`model`];
//! [`laws`] proves what follows from them for callers.

pub mod check;
pub mod decimal;
pub mod error;
pub mod laws;
pub mod model;
pub mod scan;

pub use check::{luhn_check, luhn_digit};
pub use decimal::{decimal_char, decimal_value, doubled};
pub use error::LuhnError;
pub use scan::luhn_sum;
