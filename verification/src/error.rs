//! The library's error type.
//!
//! The core reports very little: a missing fallback bundle and a theme
//! name that is not configured.  Every other problem degrades to a
//! sentinel value or to the English text by design.

use vstd::prelude::*;

verus! {

/// Errors the localized core can produce.
#[derive(Clone, Debug, PartialEq, Eq)]
pub enum RextTuiError {
    /// The English fallback bundle was not available; nothing can be
    /// resolved without it.
    FallbackUnavailable,
    /// The named theme has no entry in the configuration.
    ThemeNotFound(String),
}

} // verus!
