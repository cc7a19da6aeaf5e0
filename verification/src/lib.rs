#![allow(non_snake_case)]

use vstd::prelude::*;

pub mod database;
pub mod home;
pub mod ia;
pub mod navigation;
pub mod pixel;
pub mod storage;
pub mod text;
pub mod todo;

pub use database::clock::now;

verus! {
}
