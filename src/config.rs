use vstd::prelude::*;

verus! {

/// Where the monitored server is and what to check on it.
pub struct Plex {
    pub domain: String,
    pub ssl: bool,
    pub port: u16,
    pub plex_token: String,
    pub certificate_uuid: String,
    pub libraries: Vec<String>,
}

/// The chat bot that receives the alerts.
pub struct DiscordBot {
    pub bot_token: String,
    pub msg_channel_id: u64,
    pub ping_user_id: Option<u64>,
}

/// The monitor's whole configuration; the two intervals are in seconds.
pub struct Config {
    pub plex: Plex,
    pub discord_bot: DiscordBot,
    pub pinger_interval_seconds: u64,
    pub pinger_reminder_seconds: u64,
}

} // verus!
