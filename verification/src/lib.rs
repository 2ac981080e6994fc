//! Verified core of a COSMIC panel applet that shows CPU, memory, GPU, disk
//! and network readings.
//!
//! The library holds everything the applet decides or computes from plain
//! values: the settings and how the popup toggles them, the panel's state
//! machine, the parsing of sysfs files, the choice of sensors and disks, and
//! the exact text of every integer or fixed-point figure the panel shows.
pub mod applet;
pub mod config;
pub mod fluent;
pub mod i18n;
pub mod panel;
pub mod sensors;
pub mod sysfs;
pub mod text;
