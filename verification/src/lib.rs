//! Fast, verified stringification and parsing of integers: numbers with
//! thousands separators, clock-like and list-like durations, floats and
//! percentages, along with byte-slice integer parsing and a pass-through
//! hasher for integer keys.

pub mod decimal;
pub mod gcd;
pub mod gt_zero;
pub mod hash;
pub mod laws;
pub mod nice;
pub mod traits;

pub use gt_zero::GreaterThanZero;
pub use hash::{NoHash, NoHasher};
pub use nice::clock::NiceClock;
pub use nice::digiter::Digiter;
pub use nice::elapsed::NiceElapsed;
pub use nice::float::{FloatKind, NiceFloat};
pub use nice::nice_u8::NiceU8;
pub use nice::nice_uint::{NiceU16, NiceU32, NiceU64};
pub use nice::percent::NicePercent;
pub use nice::separator::NiceSeparator;
pub use nice::wrapper::NiceWrapper;
