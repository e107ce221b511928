//! CPU identification: turns the raw text that an operating system exposes
//! about its processors into one normalized record.
pub mod text;
pub mod cache;
pub mod cpuinfo;
pub mod vendor;
pub mod record;
pub mod linux;
pub mod logos;
pub mod cla;
pub mod macos;
pub mod layout;
pub mod windows;
