//! A pool of reusable objects. A checkout hands out an instance in its
//! canonical state, wrapped in a guard; releasing the guard resets the
//! instance and keeps it for the next checkout.
use vstd::prelude::*;

pub mod item;
pub mod pool;

pub use item::{Counter, PoolItem};
pub use pool::{Pool, PoolGuard};

verus! {

} // verus!
