use vstd::prelude::*;

verus! {

/// The whole server configuration.
pub struct Config {
    pub general: GeneralConfig,
    pub download: DownloadConfig,
    pub servers: Vec<ServerConfig>,
    pub news: NewsConfig,
}

/// The `[general]` section: listening port and the client version announced.
pub struct GeneralConfig {
    pub listen_port: u16,
    pub last_version: i16,
}

/// The `[download]` section: where patches are fetched from.
pub struct DownloadConfig {
    pub ftp_url: String,
    pub ftp_path: String,
}

/// One `[[servers]]` entry.
pub struct ServerConfig {
    pub ip: String,
    pub name: String,
    pub user_limit: i16,
}

/// The `[news]` section shown on the login screen.
pub struct NewsConfig {
    pub title: String,
    pub message: String,
}

/// A game server as listed to clients, with its current population.
pub struct ServerState {
    pub ip: String,
    pub name: String,
    pub user_count: i16,
    pub user_limit: i16,
}

/// A patch that clients older than `version` download: the archive's file
/// name on the patch server.
pub struct PatchFile {
    pub version: i16,
    pub file_name: String,
}

/// What the account store holds of an account: its password and its
/// authority level (`BANNED_AUTHORITY` marks a banned account).
pub struct AccountRecord {
    pub password: String,
    pub authority: u8,
}

} // verus!
