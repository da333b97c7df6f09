//! C-style enumerations backed by a primitive integer type.
//!
//! An enumeration is written as a compact token description
//!
//! ```text
//! MyEnum u16 ;
//!     A,
//!     B,
//!     D = 500,
//!     E,
//! ```
//!
//! which this library reads into an [`parse::EnumDef`], resolves to the value
//! of every variant, and expands into the tokens of a `#[repr]` enum together
//! with the lookup functions `from`, `from_name` and `list`. The same lookups
//! are available at run time on an [`table::EnumTable`].
//!
//! The token model of [`token`] mirrors the compiler's token trees, so that a
//! procedural macro front end only has to convert between the two.

pub mod token;
pub mod parse;
pub mod resolve;
pub mod expand;
pub mod table;
