//! The numbers of the shim for what the framework reported.
use vstd::prelude::*;

verus! {

pub const AVAILABLE: i32 = 1;

pub const LOST: i32 = 2;

pub const LOSING: i32 = 3;

pub const IPV6_CHANGED: i32 = 4;

pub const BLOCKED_CHANGED: i32 = 5;

pub const VALIDATION_CHANGED: i32 = 6;

pub const DNS_CHANGED: i32 = 7;

} // verus!
