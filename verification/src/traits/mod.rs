//! Parsing and conversion traits for the primitive integers.

pub mod btoi;
pub mod btou;
pub mod gt_zero;
pub mod hex;
pub mod inflect;
pub mod laws;
pub mod saturating;

pub use btoi::BytesToSigned;
pub use btou::BytesToUnsigned;
pub use gt_zero::GtZero;
pub use hex::{HexToSigned, HexToUnsigned};
pub use inflect::{Inflection, NiceInflected, NiceInflection};
pub use saturating::SaturatingFrom;
