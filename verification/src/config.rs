//! The parameters of a deployment: where the snapshot is kept, how often it is
//! written, and where the service listens.

use vstd::prelude::*;

verus! {

/// Seconds between two snapshots unless configured otherwise.
pub const DEFAULT_PERSIST_SECS: u64 = 10;

/// The port the service listens on unless configured otherwise.
pub const DEFAULT_PORT: u16 = 3030;

/// The parameters of a deployment.
#[derive(Debug, Clone, PartialEq, Eq)]
pub struct Config {
    /// The file that holds the snapshot.
    pub snapshot_path: String,
    /// Seconds between two snapshots.
    pub persist_secs: u64,
    /// The address to listen on, as the four bytes of an IPv4 address.
    pub listen_ip: [u8; 4],
    /// The port to listen on.
    pub listen_port: u16,
}

impl Default for Config {
    /// The reference deployment: `db.json`, every 10 seconds, on `0.0.0.0:3030`.
    fn default() -> (config: Config)
        ensures
            config.snapshot_path@ == "db.json"@,
            config.persist_secs == DEFAULT_PERSIST_SECS,
            config.listen_ip@ == seq![0u8, 0u8, 0u8, 0u8],
            config.listen_port == DEFAULT_PORT,
    {
        let listen_ip: [u8; 4] = [0, 0, 0, 0];
        Config {
            snapshot_path: "db.json".to_owned(),
            persist_secs: DEFAULT_PERSIST_SECS,
            listen_ip,
            listen_port: DEFAULT_PORT,
        }
    }
}

} // verus!
