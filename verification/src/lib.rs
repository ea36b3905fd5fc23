//! Verified core of BOREAL, a local organizer for Rclone-backed inventories.
use vstd::prelude::*;

pub mod checksum;
pub mod config;
pub mod database;
pub mod desktop;
pub mod explorer;
pub mod format;
pub mod forms;
pub mod github;
pub mod json;
pub mod logging;
pub mod keeper;
pub mod local_files;
pub mod metadata;
pub mod migrations;
pub mod rclone;
pub mod s3;
pub mod reports;
pub mod setup;
pub mod shared_drives;
pub mod status;
pub mod text;
pub mod views;
pub mod xlsx;

verus! {
} // verus!
