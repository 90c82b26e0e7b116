//! Records shared by the providers, the library and the session tracker.
use vstd::prelude::*;

verus! {

/// A game of the library.
#[derive(Debug, Clone)]
pub struct Game {
    pub id: String,
    pub title: String,
    pub platform: String,
    pub source: String,
    pub executable: Option<String>,
    pub favorite: bool,
    pub status: String,
    pub total_seconds: i64,
}

/// A play session measured by Ludex.
#[derive(Debug, Clone)]
pub struct PlaySession {
    pub id: String,
    pub game_id: String,
    pub started_at: String,
    pub ended_at: Option<String>,
    pub duration_seconds: i64,
    pub device: String,
}

/// An emulator as configured by the user.
#[derive(Debug, Clone)]
pub struct EmulatorConfig {
    pub id: String,
    pub name: String,
    pub platform: String,
    pub executable: String,
    pub arguments_template: String,
    pub rom_directory: Option<String>,
    pub bios_directory: Option<String>,
    pub saves_directory: Option<String>,
}

/// A playable copy of a game found by a launcher provider.
#[derive(Debug, Clone)]
pub struct ScannedInstallation {
    pub provider: String,
    pub external_id: String,
    pub title: String,
    pub platform: String,
    pub install_dir: Option<String>,
    pub executable: Option<String>,
    pub installed: bool,
    pub size_bytes: Option<i64>,
    pub last_updated: Option<i64>,
}

/// The content of a `ScannedInstallation`, as text.
pub struct InstallationView {
    pub provider: Seq<char>,
    pub external_id: Seq<char>,
    pub title: Seq<char>,
    pub platform: Seq<char>,
    pub install_dir: Option<Seq<char>>,
    pub executable: Option<Seq<char>>,
    pub installed: bool,
    pub size_bytes: Option<i64>,
    pub last_updated: Option<i64>,
}

pub open spec fn opt_view(o: Option<String>) -> Option<Seq<char>> {
    match o {
        Some(s) => Some(s@),
        None => None,
    }
}

impl View for ScannedInstallation {
    type V = InstallationView;

    open spec fn view(&self) -> InstallationView {
        InstallationView {
            provider: self.provider@,
            external_id: self.external_id@,
            title: self.title@,
            platform: self.platform@,
            install_dir: opt_view(self.install_dir),
            executable: opt_view(self.executable),
            installed: self.installed,
            size_bytes: self.size_bytes,
            last_updated: self.last_updated,
        }
    }
}

/// The contents of a list of installations.
pub open spec fn installations_view(v: Seq<ScannedInstallation>) -> Seq<InstallationView> {
    v.map_values(|i: ScannedInstallation| i@)
}

/// A stored installation, as the launcher and the session tracker read it.
#[derive(Debug, Clone)]
pub struct Installation {
    pub id: String,
    pub game_id: String,
    pub provider: String,
    pub external_id: Option<String>,
    pub executable: Option<String>,
    pub install_dir: Option<String>,
    pub working_dir: Option<String>,
    pub launch_args: Option<String>,
}

} // verus!
