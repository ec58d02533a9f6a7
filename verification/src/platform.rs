//! The platforms that programs run on.
use vstd::prelude::*;

verus! {

/// The platform a program runs on.
#[derive(Debug, Clone, Copy, PartialEq, Eq, Structural)]
pub enum Platform {
    MacOs,
    Ios,
    Linux,
    Windows,
    Other,
}

} // verus!
