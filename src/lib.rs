//! Binary data as a hexadecimal value, with two interchangeable wire
//! strategies (hex text or unsigned number) for five field shapes.
pub mod error;
pub mod hex;
pub mod wire;
pub mod as_str;
pub mod as_num;
