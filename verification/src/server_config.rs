//! The server's settings and the choice of the message of the day.
use vstd::prelude::*;
use crate::random::random_below;

verus! {

/// How players are authenticated.
#[derive(Clone, Copy, Debug, PartialEq, Eq, Structural)]
pub enum ConnectionMode {
    /// Players are checked against the session service.
    Online { prevent_proxy_connections: bool },
    /// Players are taken at their word.
    Offline,
}

/// Where players spawn and how much terrain is made around it.
#[derive(Clone, Copy, Debug, PartialEq, Eq, Structural)]
pub struct SpawnConfig {
    pub x: i32,
    pub y: i32,
    pub z: i32,
    pub terrain_radius: i32,
}

impl Default for SpawnConfig {
    fn default() -> (c: SpawnConfig)
        ensures
            c == (SpawnConfig { x: 0, y: 64, z: 0, terrain_radius: 50 }),
    {
        SpawnConfig { x: 0, y: 64, z: 0, terrain_radius: 50 }
    }
}

/// The server's settings.
#[derive(Clone, Debug)]
pub struct ServerConfig {
    pub host: String,
    pub port: u16,
    /// Messages of the day, one shown at a time.
    pub motd: Vec<String>,
    pub max_players: u32,
    pub online_mode: bool,
    pub whitelist: bool,
    pub chunk_render_distance: u32,
    pub default_gamemode: String,
    pub network_compression_threshold: i32,
    pub compression_enabled: bool,
    pub world: String,
    pub spawn: SpawnConfig,
}

impl Default for ServerConfig {
    fn default() -> (c: ServerConfig)
        ensures
            c.host@ == "0.0.0.0"@,
            c.port == 25565,
            c.motd@.len() == 2,
            c.motd@[0]@ == "Welcome to Mili-rust!"@,
            c.motd@[1]@ == "A Minecraft Server in Rust"@,
            c.max_players == 20,
            !c.online_mode,
            !c.whitelist,
            c.chunk_render_distance == 5,
            c.default_gamemode@ == "survival"@,
            c.network_compression_threshold == -1,
            !c.compression_enabled,
            c.world@ == "world"@,
            c.spawn == (SpawnConfig { x: 0, y: 64, z: 0, terrain_radius: 50 }),
    {
        let motd = vec!["Welcome to Mili-rust!".to_owned(), "A Minecraft Server in Rust".to_owned()];
        ServerConfig {
            host: "0.0.0.0".to_owned(),
            port: 25565,
            motd,
            max_players: 20,
            online_mode: false,
            whitelist: false,
            chunk_render_distance: 5,
            default_gamemode: "survival".to_owned(),
            network_compression_threshold: -1,
            compression_enabled: false,
            world: "world".to_owned(),
            spawn: SpawnConfig::default(),
        }
    }
}

impl ServerConfig {
    /// The packet compression threshold the server runs with: the
    /// configured one when compression is on, -1 (no compression) when off.
    pub fn compression_threshold(&self) -> (t: i32)
        ensures
            t == if self.compression_enabled {
                self.network_compression_threshold
            } else {
                -1i32
            },
    {
        if self.compression_enabled {
            self.network_compression_threshold
        } else {
            -1
        }
    }

    /// Online mode without blocking proxies when `online_mode` is set,
    /// offline otherwise.
    pub fn connection_mode(&self) -> (m: ConnectionMode)
        ensures
            m == if self.online_mode {
                ConnectionMode::Online { prevent_proxy_connections: false }
            } else {
                ConnectionMode::Offline
            },
    {
        if self.online_mode {
            ConnectionMode::Online { prevent_proxy_connections: false }
        } else {
            ConnectionMode::Offline
        }
    }
}

/// What the server list ping shows: the messages of the day and the
/// player limit.
#[derive(Clone, Debug)]
pub struct MiliCallbacks {
    pub motd: Vec<String>,
    pub max_players: u32,
}

impl MiliCallbacks {
    /// The messages of the day and the player limit of the settings.
    pub fn from_config(config: &ServerConfig) -> (c: MiliCallbacks)
        ensures
            c.motd@.len() == config.motd@.len(),
            forall|i: int| 0 <= i < c.motd@.len() ==> #[trigger] c.motd@[i]@ == config.motd@[i]@,
            c.max_players == config.max_players,
    {
        let mut motd: Vec<String> = Vec::new();
        let mut i: usize = 0;
        while i < config.motd.len()
            invariant
                i <= config.motd@.len(),
                motd@.len() == i,
                forall|j: int| 0 <= j < i ==> #[trigger] motd@[j]@ == config.motd@[j]@,
            decreases config.motd@.len() - i,
        {
            motd.push(config.motd[i].clone());
            i = i + 1;
        }
        MiliCallbacks { motd, max_players: config.max_players }
    }
}

/// The message shown when there is none.
pub open spec fn default_motd() -> Seq<char> {
    "Mili-rust Server"@
}

/// A message of the day: the default when there are none, the only one
/// when there is one, and one drawn evenly when there are more.
pub fn pick_motd(motd: &[String]) -> (s: &str)
    ensures
        motd@.len() == 0 ==> s@ == default_motd(),
        motd@.len() == 1 ==> s@ == motd@[0]@,
        motd@.len() > 1 ==> exists|i: int| 0 <= i < motd@.len() && s@ == #[trigger] motd@[i]@,
{
    if motd.len() == 0 {
        "Mili-rust Server"
    } else if motd.len() == 1 {
        motd[0].as_str()
    } else {
        let idx = random_below(motd.len() as u64) as usize;
        let s = motd[idx].as_str();
        assert(s@ == motd@[idx as int]@);
        s
    }
}

} // verus!
