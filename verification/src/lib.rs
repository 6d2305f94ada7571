use vstd::prelude::*;

verus! {

/// Exact sum of two numbers that is known not to overflow.
pub fn add(left: u64, right: u64) -> (r: u64)
    requires
        left + right <= u64::MAX,
    ensures
        r == left + right,
{
    left + right
}

} // verus!

pub mod catalog;
pub mod composer;
pub mod config;
pub mod error;
pub mod paths;
pub mod platform;
pub mod recipe;
pub mod reconcile;
pub mod render;
pub mod runtime;
pub mod store;
pub mod strutil;
pub mod version;
pub mod web_service;
