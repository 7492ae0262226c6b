//! Common Math is a library providing some common math functions
//! not provided by the standard library.
//!
//! It offers rounding of the fixed-width integer kinds to a power-of-ten
//! position ("zeros") or to a number of significant figures, each under
//! three policies: nearest with ties away from zero, toward positive
//! infinity, and toward negative infinity. Every function is a pure
//! computation whose result is pinned down by its contract.

pub mod rounding;
