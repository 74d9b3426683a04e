//! Application configuration and its defaults.
//!
//! Reading and writing `config.toml` happens outside the library; this
//! module holds the configuration's shape, its defaults, where the file
//! lives and peer-id generation.
use vstd::prelude::*;

use crate::error::join_message;
use rand::Rng;

verus! {

/// Main configuration for the RemoteDesk application.
#[derive(Debug, Clone)]
pub struct Config {
    /// Unique peer ID.
    pub id: String,
    /// Server connection settings.
    pub server: ServerConfig,
    /// Video capture settings.
    pub video: VideoConfig,
    /// Security settings.
    pub security: SecurityConfig,
}

/// Rendezvous and relay server settings.
#[derive(Debug, Clone)]
pub struct ServerConfig {
    /// Rendezvous server address (host:port).
    pub rendezvous_server: String,
    /// Relay server address (host:port).
    pub relay_server: String,
    /// API server for token-based auth.
    pub api_server: Option<String>,
}

/// Video settings.
#[derive(Debug, Clone)]
pub struct VideoConfig {
    /// Maximum frames per second.
    pub max_fps: u32,
    /// Preferred codec (h264, h265, vp9).
    pub codec: String,
    /// Quality preset (0-100).
    pub quality: u32,
    /// Bitrate in kbps.
    pub bitrate: u32,
}

/// Security settings.
#[derive(Debug, Clone)]
pub struct SecurityConfig {
    /// Password for peer authentication.
    pub password: Option<String>,
    /// Key pair for NaCl encryption.
    pub key_pair: Option<KeyPair>,
    /// Allowed permissions.
    pub permissions: Permissions,
}

/// A stored key pair.
#[derive(Debug, Clone)]
pub struct KeyPair {
    pub public_key: Vec<u8>,
    pub secret_key: Vec<u8>,
}

/// What a connected peer may do.
#[derive(Debug, Clone, Copy, PartialEq, Eq)]
pub struct Permissions {
    pub keyboard: bool,
    pub mouse: bool,
    pub clipboard: bool,
    pub file_transfer: bool,
    pub audio: bool,
}

impl Default for Permissions {
    fn default() -> (res: Self)
        ensures
            res.keyboard && res.mouse && res.clipboard && res.file_transfer && !res.audio,
    {
        Permissions { keyboard: true, mouse: true, clipboard: true, file_transfer: true, audio: false }
    }
}

impl Default for SecurityConfig {
    fn default() -> (res: Self)
        ensures
            res.password is None,
            res.key_pair is None,
            res.permissions == (Permissions {
                keyboard: true,
                mouse: true,
                clipboard: true,
                file_transfer: true,
                audio: false,
            }),
    {
        SecurityConfig { password: None, key_pair: None, permissions: Permissions::default() }
    }
}

impl Default for VideoConfig {
    fn default() -> (res: Self)
        ensures
            res.max_fps == 30,
            res.codec@ == "h264"@,
            res.quality == 75,
            res.bitrate == 5000,
    {
        VideoConfig { max_fps: 30, codec: String::from_str("h264"), quality: 75, bitrate: 5000 }
    }
}

impl Default for ServerConfig {
    fn default() -> (res: Self)
        ensures
            res.rendezvous_server@ == Seq::<char>::empty(),
            res.relay_server@ == Seq::<char>::empty(),
            res.api_server is None,
    {
        ServerConfig { rendezvous_server: String::new(), relay_server: String::new(), api_server: None }
    }
}

impl Default for Config {
    fn default() -> (res: Self)
        ensures
            res.id@ == Seq::<char>::empty(),
            res.server.rendezvous_server@ == Seq::<char>::empty(),
            res.server.relay_server@ == Seq::<char>::empty(),
            res.server.api_server is None,
            res.video.max_fps == 30,
            res.video.codec@ == "h264"@,
            res.video.quality == 75,
            res.video.bitrate == 5000,
            res.security.password is None,
            res.security.key_pair is None,
            res.security.permissions == (Permissions {
                keyboard: true,
                mouse: true,
                clipboard: true,
                file_transfer: true,
                audio: false,
            }),
    {
        Config {
            id: String::new(),
            server: ServerConfig::default(),
            video: VideoConfig::default(),
            security: SecurityConfig::default(),
        }
    }
}

/// An ASCII letter or digit.
pub open spec fn is_ascii_alphanumeric(c: char) -> bool {
    ('A' <= c <= 'Z') || ('a' <= c <= 'z') || ('0' <= c <= '9')
}

/// Draws `n` characters from `rand::distr::Alphanumeric` with the thread
/// RNG.  The distribution's source samples from `A-Z`, `a-z` and `0-9`; the
/// contract states the length and that alphabet, nothing of which
/// characters come.
#[verifier::external_body]
fn random_alphanumeric(n: usize) -> (res: String)
    ensures
        res@.len() == n,
        forall|i: int| 0 <= i < n ==> is_ascii_alphanumeric(#[trigger] res@[i]),
{
    rand::rng().sample_iter(&rand::distr::Alphanumeric).take(n).map(char::from).collect()
}

/// The shape of a generated peer id: `rd-` and twelve ASCII letters or
/// digits.
pub open spec fn is_generated_peer_id(id: Seq<char>) -> bool {
    &&& id.len() == 15
    &&& id.take(3) == "rd-"@
    &&& forall|i: int| 3 <= i < 15 ==> is_ascii_alphanumeric(#[trigger] id[i])
}

/// The path of the configuration directory, component by component: the
/// platform's configuration directory (`.` when it has none), then
/// `RemoteDesk`.
pub open spec fn spec_config_dir(platform_config_dir: Option<Seq<char>>) -> Seq<Seq<char>> {
    seq![
        match platform_config_dir {
            Some(d) => d,
            None => "."@,
        },
        "RemoteDesk"@,
    ]
}

/// The path of `config.toml`, component by component.
pub open spec fn spec_config_path(platform_config_dir: Option<Seq<char>>) -> Seq<Seq<char>> {
    spec_config_dir(platform_config_dir).push("config.toml"@)
}

impl Config {
    /// The configuration directory for the platform whose configuration
    /// directory is `platform_config_dir` (as the `dirs` crate reports it):
    /// the path's components, to be joined in order.
    pub fn config_dir(platform_config_dir: Option<String>) -> (res: Vec<String>)
        ensures
            res@.len() == spec_config_dir(
                match platform_config_dir {
                    Some(d) => Some(d@),
                    None => None,
                },
            ).len(),
            forall|i: int|
                0 <= i < res@.len() ==> #[trigger] res@[i]@ == spec_config_dir(
                    match platform_config_dir {
                        Some(d) => Some(d@),
                        None => None,
                    },
                )[i],
    {
        let base = match platform_config_dir {
            Some(d) => d,
            None => String::from_str("."),
        };
        let mut parts: Vec<String> = Vec::new();
        parts.push(base);
        parts.push(String::from_str("RemoteDesk"));
        parts
    }

    /// Full path to `config.toml`: the configuration directory's components
    /// followed by `config.toml`.
    pub fn config_path(platform_config_dir: Option<String>) -> (res: Vec<String>)
        ensures
            res@.len() == spec_config_path(
                match platform_config_dir {
                    Some(d) => Some(d@),
                    None => None,
                },
            ).len(),
            forall|i: int|
                0 <= i < res@.len() ==> #[trigger] res@[i]@ == spec_config_path(
                    match platform_config_dir {
                        Some(d) => Some(d@),
                        None => None,
                    },
                )[i],
    {
        let mut parts = Self::config_dir(platform_config_dir);
        parts.push(String::from_str("config.toml"));
        parts
    }

    /// Generate a new random peer ID (`rd-` followed by twelve random ASCII
    /// letters and digits); the rest of the configuration is kept.
    pub fn generate_id(&mut self)
        ensures
            is_generated_peer_id(final(self).id@),
            final(self).server == old(self).server,
            final(self).video == old(self).video,
            final(self).security == old(self).security,
    {
        let suffix = random_alphanumeric(12);
        proof {
            reveal_strlit("rd-");
        }
        let id = join_message("rd-", suffix.as_str());
        assert(id@.take(3) =~= "rd-"@);
        assert forall|i: int| 3 <= i < 15 implies is_ascii_alphanumeric(#[trigger] id@[i]) by {
            assert(id@[i] == suffix@[i - 3]);
        }
        self.id = id;
    }
}

} // verus!
