//! BOREAL's private Rclone: its remotes, downloads and Google lookups.
use vstd::prelude::*;

pub mod command;
pub mod download;
pub mod gui;
pub mod identity;
pub mod install;
pub mod inventory;
pub mod migration;
pub mod remotes;

verus! {

/// The installed Rclone and the version it reports.
#[derive(Debug, Clone)]
pub struct RcloneStatus {
    pub path: String,
    pub version: String,
    /// Where the Rclone web GUI answers, once it runs.
    pub gui_url: Option<String>,
}

} // verus!
