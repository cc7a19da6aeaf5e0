use vstd::prelude::*;

pub mod bmp;
pub mod dump;
pub mod dump_order;
pub mod elements;
pub mod fonction;
pub mod image;
pub mod menu;
pub mod packed;
pub mod rgba;

verus! {
}
