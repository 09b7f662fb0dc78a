//! Turn a lower-case, word-separated identifier (words joined by `_` or `-`)
//! into the equivalent capitalized, separator-free identifier: each word's
//! first character is ASCII-upper-cased and the words are concatenated.
//!
//! The conversion itself lives in [`convert`]; [`ident`] exposes it over
//! borrowed text, owned text and `proc_macro2` identifiers, and can pair the
//! converted name with a caller-supplied span.

pub mod convert;
pub mod ident;

pub use convert::capitalize_first_letter;
pub use convert::to_pascal_case;
pub use ident::ToTypeName;
