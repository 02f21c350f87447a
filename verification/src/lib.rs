//! A reader for containers made of header/data units: a header of fixed-size
//! text cards, then a block of raw data whose size and element type the header
//! declares.
pub mod error;
pub mod hdu;
