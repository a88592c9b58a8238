//! Performance control for Linux hosts.

pub mod api;
pub mod cpuset;
pub mod daemon;
pub mod gui;
pub mod linux;
pub mod model;
pub mod number;
pub mod order;
pub mod paths;
pub mod platform;
pub mod probe;
pub mod table;
pub mod testkit;
pub mod text;
