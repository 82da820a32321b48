//! Verified core of the Lenso host runtime.
pub mod authoring;
pub mod bundle;
pub mod canonical;
pub mod catalog;
pub mod controller;
pub mod decode;
pub mod digest;
pub mod distribution;
pub mod driver;
pub mod durable;
pub mod durable_supervisor;
pub mod dylib;
pub mod edge;
pub mod error;
pub mod failure;
pub mod generation;
pub mod guest;
pub mod json;
pub mod kernel;
pub mod laws;
pub mod lifecycle;
pub mod model;
pub mod native;
pub mod paths;
pub mod plan;
pub mod portable;
pub mod resolver;
pub mod selection;
pub mod store;
pub mod supervisor;
pub mod text;
pub mod text_map;
