use vstd::prelude::*;

verus! {

/// A message the bot writes on standard output, one per line.
pub enum StdoutEvent {
    /// The bot has spawned in the world.
    Spawn {},
    /// The server closed the connection.
    Disconnect { reason: String },
    /// A chunk at these chunk coordinates has loaded.
    Chunk { x: i32, z: i32 },
}

/// The bot's command-line settings.
pub struct Args {
    pub username: String,
    pub host: String,
    pub port: u16,
    pub view_distance: u8,
}

} // verus!
