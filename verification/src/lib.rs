//! A small task organizer built around one durable store: tasks,
//! projects and areas with soft deletion and cascades, fuzzy name
//! resolution, sequential user-facing task numbers, and a file-backed
//! document format with schema migration and backup retention. Every
//! rule of the store is stated in contracts and machine-checked.

use vstd::prelude::*;

pub mod area;
pub mod codec;
pub mod context;
pub mod areas;
pub mod dates;
pub mod ext;
pub mod json;
pub mod migrations;
pub mod project;
pub mod projects;
pub mod resolve;
pub mod storage;
pub mod store;
pub mod task;
pub mod tasks;
pub mod text;

verus! {

} // verus!
