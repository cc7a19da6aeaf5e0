use vstd::prelude::*;

pub mod home;
pub mod task;

verus! {
}
