//! Verified core of a declarative cloud-resource deployment tool.
use vstd::prelude::*;

pub mod text;
pub mod varmap;
pub mod fatal;
pub mod condition;
pub mod templating;
pub mod query;
pub mod runner;
pub mod exports;
pub mod manifest;
pub mod server;
pub mod settings;
pub mod display;
pub mod engine;
pub mod patterns;
pub mod render;
pub mod filters;
pub mod logging;
pub mod download;
pub mod options;
pub mod outputs;
pub mod teardown;
pub mod deploy;
pub mod info;
pub mod callback;
pub mod context;
pub mod json;

verus! {

} // verus!
