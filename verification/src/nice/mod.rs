//! Nice number formatting: integers with thousands separators, clock-like
//! and list-like durations, floats and percentages.

pub mod separator;
pub mod wrapper;
pub mod nice_u8;
pub mod nice_uint;
pub mod time;
pub mod clock;
pub mod elapsed;
pub mod float;
pub mod percent;
pub mod digiter;
