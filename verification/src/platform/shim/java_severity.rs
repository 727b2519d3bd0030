//! The numbers of the shim for how much an event matters.
use vstd::prelude::*;

verus! {

pub const INFO: i32 = 1;

pub const NOTICE: i32 = 2;

pub const WARNING: i32 = 3;

} // verus!
