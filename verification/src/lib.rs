//! Verified core of the ZapCode modules: the value bridge, the script
//! declaration rules, and the routing of host calls.

pub mod bridge;
pub mod configs;
pub mod declaration;
pub mod describe;
pub mod entries;
pub mod error;
pub mod evaluate;
pub mod exchange;
pub mod fence;
pub mod host;
pub mod json;
pub mod limits;
pub mod names;
pub mod node;
pub mod pictures;
pub mod runner;
pub mod shape;
pub mod stale;
pub mod text;
pub mod tool;
pub mod toolcall;
pub mod value;
pub mod vm;
pub mod zap;
