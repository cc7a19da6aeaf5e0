use vstd::prelude::*;

pub mod clock;
pub mod column;
pub mod error;
pub mod ident;
pub mod query;
pub mod record;
pub mod repository;
pub mod schema;
pub mod value;

verus! {
}
