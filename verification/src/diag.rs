//! Where a non-exhaustive `match` is, as its diagnostic points at it.
use vstd::prelude::*;

use crate::diagnostics::Span;

verus! {

/// A `match` in its source file: what a rendered diagnostic underlines.
pub struct MatchSite<'a> {
    pub source: &'a str,
    pub path: &'a str,
    /// Span of the whole `match` expression.
    pub span: Span,
    /// Span of the scrutinee, so the diagnostic can point at what is being
    /// matched.
    pub scrutinee_span: Option<Span>,
}

} // verus!
