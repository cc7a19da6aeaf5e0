use vstd::prelude::*;

pub mod category;
pub mod task;
pub mod todo;

verus! {
}
