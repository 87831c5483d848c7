//! The verified core of the caliban operator: the rules that turn `Workspace` and `CalibanTask`
//! objects into child objects, statuses, events and requeue decisions.

pub mod config;
pub mod controller;
pub mod crd;
pub mod env;
pub mod error;
pub mod events;
pub mod ip;
pub mod json;
pub mod objects;
pub mod order;
pub mod path;
pub mod reconcile;
pub mod resources;
pub mod sandbox;
pub mod shell;
pub mod storage;
pub mod string_map;
pub mod text;
pub mod wire;
pub mod workspace;
pub mod workspace_controller;

pub use crd::{CalibanTask, CalibanTaskSpec, CalibanTaskStatus, Phase};
