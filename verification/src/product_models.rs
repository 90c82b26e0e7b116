//! Records of the library database as the pages read them.
use vstd::prelude::*;

verus! {

/// Descriptive metadata and artwork of a game.
#[derive(Debug, Clone)]
pub struct MetadataRecord {
    pub game_id: String,
    pub description: Option<String>,
    pub developer: Option<String>,
    pub publisher: Option<String>,
    pub release_date: Option<String>,
    pub genres: Option<String>,
    pub cover: Option<String>,
    pub hero: Option<String>,
    pub source: String,
    pub manual: bool,
    pub updated_at: String,
}

/// A collection with the number of games in it.
#[derive(Debug, Clone)]
pub struct CollectionRecord {
    pub id: String,
    pub name: String,
    pub kind: String,
    pub filter_json: Option<String>,
    pub game_count: i64,
}

/// Whether a game belongs to a collection.
#[derive(Debug, Clone)]
pub struct CollectionMembership {
    pub id: String,
    pub name: String,
    pub included: bool,
}

/// A configured emulator.
#[derive(Debug, Clone)]
pub struct EmulatorRecord {
    pub id: String,
    pub name: String,
    pub platform: String,
    pub executable: String,
    pub arguments_template: String,
    pub rom_directory: Option<String>,
    pub bios_directory: Option<String>,
    pub saves_directory: Option<String>,
    pub extensions: String,
    pub core: Option<String>,
    pub enabled: bool,
}

/// An imported ROM.
#[derive(Debug, Clone)]
pub struct RomRecord {
    pub id: String,
    pub game_id: String,
    pub title: String,
    pub platform: String,
    pub path: String,
    pub emulator_id: Option<String>,
    pub hash_sha256: Option<String>,
    pub size_bytes: Option<i64>,
    pub launch_args: Option<String>,
    pub core: Option<String>,
}

/// Seconds played in a period.
#[derive(Debug, Clone)]
pub struct TimeBucket {
    pub label: String,
    pub seconds: i64,
}

/// Seconds played under a name (a provider, a platform or a game).
#[derive(Debug, Clone)]
pub struct NamedTime {
    pub name: String,
    pub seconds: i64,
}

/// The statistics page.
#[derive(Debug, Clone)]
pub struct LibraryStats {
    pub library_games: i64,
    pub installed_games: i64,
    pub never_played: i64,
    pub tracked_seconds: i64,
    pub imported_seconds: i64,
    pub last_14_seconds: i64,
    pub last_30_seconds: i64,
    pub average_daily_seconds_30d: i64,
    pub average_weekly_seconds_12w: i64,
    pub by_provider: Vec<NamedTime>,
    pub by_platform: Vec<NamedTime>,
    pub top_games: Vec<NamedTime>,
    pub monthly: Vec<TimeBucket>,
    pub yearly: Vec<TimeBucket>,
}

/// A line of the diagnostics page.
#[derive(Debug, Clone)]
pub struct DiagnosticItem {
    pub level: String,
    pub area: String,
    pub message: String,
}

/// The counts of a ROM folder scan.
#[derive(Debug, Clone)]
pub struct RomScanResult {
    pub scanned_files: usize,
    pub imported: usize,
    pub duplicates: usize,
    pub ignored: usize,
}

/// The counts of an import of a sync file.
#[derive(Debug, Clone, Copy, PartialEq, Eq)]
pub struct SyncSummary {
    pub inserted: usize,
    pub updated: usize,
    pub skipped: usize,
}

/// A saved copy of an emulator save.
#[derive(Debug, Clone)]
pub struct SaveBackupRecord {
    pub id: String,
    pub emulator_id: Option<String>,
    pub source_path: String,
    pub backup_path: String,
    pub created_at: String,
}

} // verus!
