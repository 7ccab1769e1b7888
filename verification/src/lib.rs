use vstd::prelude::*;

pub mod backend;
pub mod diagnostics;
pub mod findings;
pub mod text;
pub mod binding;
pub mod boundary;
pub mod capability;
pub mod check;
pub mod contexts;
pub mod contract;
pub mod diag;
pub mod codes;
pub mod hir;
pub mod ordered;
pub mod privacy;
pub mod signatures;
pub mod templates;

verus! {

} // verus!
