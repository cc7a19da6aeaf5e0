use vstd::prelude::*;

pub mod page;
pub mod router;

verus! {
}
