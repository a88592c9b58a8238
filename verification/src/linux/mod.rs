//! The Linux adapter: kernel file formats, scheduling, systemd and touch input.

pub mod controls;
pub mod devices;
pub mod discovery;
pub mod environment;
pub mod formats;
pub mod gestures;
pub mod hotplug;
pub mod input;
pub mod procfs;
pub mod readings;
pub mod scheduler;
pub mod shown;
pub mod sources;
pub mod survey;
pub mod sysfs;
pub mod systemd;
pub mod touch;
pub mod transaction;
