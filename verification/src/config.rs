//! Configuration: the settings, their defaults, the environment overrides
//! and the view of the settings that the API may show.  Reading the TOML
//! file and the environment is done by the application.  The default gain
//! in dB is a floating-point setting kept by the application.

use vstd::prelude::*;

use crate::text::{chars_of, parse_unsigned, parse_unsigned_spec, push_str};

verus! {

/// HTTP Basic authentication settings.
#[derive(Clone, Debug)]
pub struct AuthConfig {
    pub enabled: bool,
    pub username: String,
    pub password: String,
}

/// ALSA output settings.
#[derive(Clone, Debug)]
pub struct AlsaConfig {
    /// Write the `pcm.inferno_iradio_N` blocks to `asoundrc_path` on startup.
    pub setup_alsa: bool,
    pub asoundrc_path: String,
    pub sample_rate: u32,
    pub buffer_frames: u32,
}

/// RadioBrowser client settings.
#[derive(Clone, Debug)]
pub struct RadioBrowserConfig {
    /// Empty: resolve the API server through DNS.
    pub api_url: String,
    pub request_timeout_secs: u64,
}

/// Audio chain settings (the paths; see the module note on the gain).
#[derive(Clone, Debug)]
pub struct AudioConfig {
    pub gains_path: String,
}

/// WebSocket push settings.
#[derive(Clone, Copy, Debug)]
pub struct WebSocketConfig {
    pub vu_fps: u32,
}

/// The bridge settings.
#[derive(Clone, Debug)]
pub struct Config {
    pub port: u16,
    pub max_players: usize,
    pub favourites_path: String,
    /// Path to persist per-slot default volumes.
    pub volumes_path: String,
    pub auth: AuthConfig,
    pub alsa: AlsaConfig,
    pub radiobrowser: RadioBrowserConfig,
    pub audio: AudioConfig,
    pub websocket: WebSocketConfig,
}

/// `base` joined with the relative path `rel` as `Path::join` does on Unix:
/// `rel` itself when it is absolute or `base` is empty; `base` and `rel`
/// with one `/` between them otherwise.
pub open spec fn path_join_spec(base: Seq<char>, rel: Seq<char>) -> Seq<char> {
    if rel.len() > 0 && rel[0] == '/' {
        rel
    } else if base.len() == 0 {
        rel
    } else if base.last() == '/' {
        base + rel
    } else {
        base + "/"@ + rel
    }
}

/// Joins two paths (see `path_join_spec`).
pub fn path_join(base: &str, rel: &str) -> (r: String)
    ensures
        r@ == path_join_spec(base@, rel@),
{
    let b = chars_of(base);
    let rc = chars_of(rel);
    let mut r = String::new();
    if rc.len() > 0 && rc[0] == '/' {
        push_str(&mut r, rel);
    } else if b.len() == 0 {
        push_str(&mut r, rel);
    } else if b[b.len() - 1] == '/' {
        push_str(&mut r, base);
        push_str(&mut r, rel);
    } else {
        push_str(&mut r, base);
        push_str(&mut r, "/");
        push_str(&mut r, rel);
    }
    r
}

fn owned(s: &str) -> (r: String)
    ensures
        r@ == s@,
{
    let mut r = String::new();
    push_str(&mut r, s);
    r
}

/// The data directory: `$HOME/.local/share/iradio`, or
/// `/var/home/core/.local/share/iradio` without `HOME`.
pub open spec fn data_dir_spec(home: Option<Seq<char>>) -> Seq<char> {
    match home {
        Some(h) => path_join_spec(h, ".local/share/iradio"@),
        None => "/var/home/core/.local/share/iradio"@,
    }
}

/// The ALSA configuration file: `$HOME/.asoundrc`, or
/// `/var/home/core/.asoundrc` without `HOME`.
pub open spec fn asoundrc_spec(home: Option<Seq<char>>) -> Seq<char> {
    match home {
        Some(h) => path_join_spec(h, ".asoundrc"@),
        None => "/var/home/core/.asoundrc"@,
    }
}

impl AuthConfig {
    /// Authentication off, no credentials.
    pub fn default_settings() -> (c: Self)
        ensures
            !c.enabled,
            c.username@ == Seq::<char>::empty(),
            c.password@ == Seq::<char>::empty(),
    {
        AuthConfig { enabled: false, username: String::new(), password: String::new() }
    }
}

impl AlsaConfig {
    /// No automatic setup, `$HOME/.asoundrc`, 48 kHz, 4096-frame buffer.
    pub fn default_settings(home: Option<&str>) -> (c: Self)
        ensures
            !c.setup_alsa,
            c.asoundrc_path@ == asoundrc_spec(
                match home {
                    Some(h) => Some(h@),
                    None => None,
                },
            ),
            c.sample_rate == 48000,
            c.buffer_frames == 4096,
    {
        let asoundrc_path = match home {
            Some(h) => path_join(h, ".asoundrc"),
            None => owned("/var/home/core/.asoundrc"),
        };
        AlsaConfig { setup_alsa: false, asoundrc_path, sample_rate: 48000, buffer_frames: 4096 }
    }
}

impl RadioBrowserConfig {
    /// Resolve the server through DNS; 10 s request timeout.
    pub fn default_settings() -> (c: Self)
        ensures
            c.api_url@ == Seq::<char>::empty(),
            c.request_timeout_secs == 10,
    {
        RadioBrowserConfig { api_url: String::new(), request_timeout_secs: 10 }
    }
}

impl AudioConfig {
    /// Gains persisted to `/var/lib/iradio/gains.json`.
    pub fn default_settings() -> (c: Self)
        ensures
            c.gains_path@ == "/var/lib/iradio/gains.json"@,
    {
        AudioConfig { gains_path: owned("/var/lib/iradio/gains.json") }
    }
}

impl WebSocketConfig {
    /// 20 VU updates per second.
    pub fn default_settings() -> (c: Self)
        ensures
            c.vu_fps == 20,
    {
        WebSocketConfig { vu_fps: 20 }
    }
}

impl Config {
    /// The defaults, given the value of `HOME`: port 8765, four players,
    /// favourites and volumes in the data directory, and the defaults of
    /// each section.
    pub fn default_settings(home: Option<&str>) -> (c: Self)
        ensures
            ({
                let h = match home {
                    Some(h) => Some(h@),
                    None => None,
                };
                &&& c.port == 8765
                &&& c.max_players == 4
                &&& c.favourites_path@ == path_join_spec(data_dir_spec(h), "favourites.json"@)
                &&& c.volumes_path@ == path_join_spec(data_dir_spec(h), "volumes.json"@)
                &&& !c.auth.enabled && c.auth.username@.len() == 0 && c.auth.password@.len() == 0
                &&& !c.alsa.setup_alsa && c.alsa.asoundrc_path@ == asoundrc_spec(h)
                &&& c.alsa.sample_rate == 48000 && c.alsa.buffer_frames == 4096
                &&& c.radiobrowser.api_url@.len() == 0 && c.radiobrowser.request_timeout_secs == 10
                &&& c.audio.gains_path@ == "/var/lib/iradio/gains.json"@
                &&& c.websocket.vu_fps == 20
            }),
    {
        let base = match home {
            Some(h) => path_join(h, ".local/share/iradio"),
            None => owned("/var/home/core/.local/share/iradio"),
        };
        Config {
            port: 8765,
            max_players: 4,
            favourites_path: path_join(base.as_str(), "favourites.json"),
            volumes_path: path_join(base.as_str(), "volumes.json"),
            auth: AuthConfig::default_settings(),
            alsa: AlsaConfig::default_settings(home),
            radiobrowser: RadioBrowserConfig::default_settings(),
            audio: AudioConfig::default_settings(),
            websocket: WebSocketConfig::default_settings(),
        }
    }
}

/// Why the configuration could not be taken.
#[derive(PartialEq, Eq, Structural, Debug, Clone, Copy)]
pub enum ConfigError {
    /// `IRADIO_PORT` is not a port number.
    InvalidPort,
}

/// The settings after the environment overrides: `IRADIO_PORT` sets the
/// port; `IRADIO_AUTH_USER` sets the user name and turns authentication on
/// exactly when it is not empty; `IRADIO_AUTH_PASS` sets the password.
pub fn apply_env_overrides(
    cfg: &mut Config,
    port: Option<&str>,
    auth_user: Option<String>,
    auth_pass: Option<String>,
) -> (r: Result<(), ConfigError>)
    ensures
        match port {
            Some(p) => (parse_unsigned_spec(p@, 65535) is None) == (r is Err),
            None => r is Ok,
        },
        r is Err ==> r == Err::<(), ConfigError>(ConfigError::InvalidPort),
        r is Ok ==> {
            &&& final(cfg).port == (match port {
                Some(p) => parse_unsigned_spec(p@, 65535)->0 as u16,
                None => old(cfg).port,
            })
            &&& final(cfg).auth.username@ == (match auth_user {
                Some(u) => u@,
                None => old(cfg).auth.username@,
            })
            &&& final(cfg).auth.enabled == (match auth_user {
                Some(u) => u@.len() > 0,
                None => old(cfg).auth.enabled,
            })
            &&& final(cfg).auth.password@ == (match auth_pass {
                Some(p) => p@,
                None => old(cfg).auth.password@,
            })
            &&& final(cfg).max_players == old(cfg).max_players
            &&& final(cfg).favourites_path == old(cfg).favourites_path
            &&& final(cfg).volumes_path == old(cfg).volumes_path
            &&& final(cfg).alsa == old(cfg).alsa
            &&& final(cfg).radiobrowser == old(cfg).radiobrowser
            &&& final(cfg).audio == old(cfg).audio
            &&& final(cfg).websocket == old(cfg).websocket
        },
{
    if let Some(p) = port {
        match parse_unsigned(p, 65535) {
            Some(v) => {
                cfg.port = v as u16;
            },
            None => {
                return Err(ConfigError::InvalidPort);
            },
        }
    }
    if let Some(u) = auth_user {
        let enabled = !u.as_str().is_empty();
        cfg.auth.username = u;
        cfg.auth.enabled = enabled;
    }
    if let Some(p) = auth_pass {
        cfg.auth.password = p;
    }
    Ok(())
}

/// The settings the API may show: no credentials.
#[derive(Clone, Debug)]
pub struct SanitisedConfig {
    pub port: u16,
    pub max_players: usize,
    pub auth_enabled: bool,
    pub setup_alsa: bool,
    pub asoundrc_path: String,
    pub sample_rate: u32,
    pub buffer_frames: u32,
    pub request_timeout_secs: u64,
}

impl Config {
    /// A copy safe to expose through the API: the user name and password are
    /// left out.
    pub fn sanitised(&self) -> (s: SanitisedConfig)
        ensures
            s.port == self.port,
            s.max_players == self.max_players,
            s.auth_enabled == self.auth.enabled,
            s.setup_alsa == self.alsa.setup_alsa,
            s.asoundrc_path@ == self.alsa.asoundrc_path@,
            s.sample_rate == self.alsa.sample_rate,
            s.buffer_frames == self.alsa.buffer_frames,
            s.request_timeout_secs == self.radiobrowser.request_timeout_secs,
    {
        SanitisedConfig {
            port: self.port,
            max_players: self.max_players,
            auth_enabled: self.auth.enabled,
            setup_alsa: self.alsa.setup_alsa,
            asoundrc_path: self.alsa.asoundrc_path.clone(),
            sample_rate: self.alsa.sample_rate,
            buffer_frames: self.alsa.buffer_frames,
            request_timeout_secs: self.radiobrowser.request_timeout_secs,
        }
    }
}

} // verus!
