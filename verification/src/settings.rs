//! The tool's own settings (`config.toml` under the user's configuration
//! directory) and the paths derived from the home directory.
use vstd::prelude::*;
use crate::config::opt_view;
use crate::text::{
    has_prefix, lowercase, push_str, starts_with, str_eq, to_lowercase, to_string, trim, trimmed,
};

verus! {

/// Which builds updates come from.
#[derive(PartialEq, Eq, Structural, Clone, Copy, Debug)]
pub enum ReleaseChannel {
    Stable,
    Experimental,
}

impl Default for ReleaseChannel {
    /// The channel used when none is configured: stable.
    fn default() -> (r: ReleaseChannel)
        ensures
            r == ReleaseChannel::Stable,
    {
        ReleaseChannel::Stable
    }
}

impl ReleaseChannel {
    /// The channel's name as shown to the user.
    pub fn name(&self) -> (r: &'static str)
        ensures
            r@ == (match self {
                ReleaseChannel::Stable => "stable"@,
                ReleaseChannel::Experimental => "experimental"@,
            }),
    {
        match self {
            ReleaseChannel::Stable => "stable",
            ReleaseChannel::Experimental => "experimental",
        }
    }
}

/// The settings file's contents.
#[derive(Debug)]
pub struct HalConfig {
    /// The `.env` file holding host definitions, when one is configured.
    pub env_file_path: Option<String>,
    pub release_channel: ReleaseChannel,
}

impl Default for HalConfig {
    /// Settings with no environment file and the stable channel.
    fn default() -> (r: HalConfig)
        ensures
            r.env_file_path is None,
            r.release_channel == ReleaseChannel::Stable,
    {
        HalConfig { env_file_path: None, release_channel: ReleaseChannel::default() }
    }
}

/// Name of the tool's directory under `~/.config`.
pub open spec fn config_dir_name() -> Seq<char> {
    "halvor"@
}

/// `dir` joined with the relative component `name`, as `Path::join` does on
/// Unix: a separator is inserted unless `dir` is empty or already ends in one.
pub open spec fn join_path(dir: Seq<char>, name: Seq<char>) -> Seq<char> {
    if dir.len() == 0 {
        name
    } else if dir.last() == '/' {
        dir + name
    } else {
        dir + "/"@ + name
    }
}

/// `dir` joined with `name` (a relative component).
pub fn path_join(dir: &str, name: &str) -> (r: String)
    ensures
        r@ == join_path(dir@, name@),
{
    let mut r = to_string(dir);
    let n = dir.unicode_len();
    if n == 0 {
        return to_string(name);
    }
    let last = dir.get_char(n - 1);
    if last != '/' {
        push_str(&mut r, "/");
    }
    push_str(&mut r, name);
    r
}

/// The home directory: `HOME`, or `USERPROFILE` where `HOME` is unset.
pub fn get_home_dir(home: Option<&str>, user_profile: Option<&str>) -> (r: Option<String>)
    ensures
        opt_view(r) == (match home {
            Some(h) => Some(h@),
            None => match user_profile {
                Some(u) => Some(u@),
                None => None,
            },
        }),
{
    match home {
        Some(h) => Some(to_string(h)),
        None => match user_profile {
            Some(u) => Some(to_string(u)),
            None => None,
        },
    }
}

/// The tool's configuration directory: `<home>/.config/halvor`.
pub fn get_config_dir(home: &str) -> (r: String)
    ensures
        r@ == join_path(join_path(home@, ".config"@), config_dir_name()),
{
    let c = path_join(home, ".config");
    path_join(c.as_str(), "halvor")
}

/// The settings file: `config.toml` in the configuration directory.
pub fn get_config_file_path(config_dir: &str) -> (r: String)
    ensures
        r@ == join_path(config_dir@, "config.toml"@),
{
    path_join(config_dir, "config.toml")
}

/// The database file: `halvor.db` in the configuration directory.
pub fn get_db_path(config_dir: &str) -> (r: String)
    ensures
        r@ == join_path(config_dir@, "halvor.db"@),
{
    path_join(config_dir, "halvor.db")
}

/// The encryption key file: `.halvor_key` in the configuration directory.
pub fn key_file_path(config_dir: &str) -> (r: String)
    ensures
        r@ == join_path(config_dir@, ".halvor_key"@),
{
    path_join(config_dir, ".halvor_key")
}

/// The `.env` file looked for by default: `<home>/.env`.
pub fn default_env_path(home: &str) -> (r: String)
    ensures
        r@ == join_path(home@, ".env"@),
{
    path_join(home, ".env")
}

/// The configured environment file, given the settings as loaded (`None`
/// when they could not be loaded).
pub fn get_env_file_path(loaded: Option<HalConfig>) -> (r: Option<String>)
    ensures
        r == (match loaded {
            Some(c) => c.env_file_path,
            None => None,
        }),
{
    match loaded {
        Some(c) => c.env_file_path,
        None => None,
    }
}

/// The configured release channel, given the settings as loaded; settings
/// that could not be loaded count as the defaults.
pub fn get_release_channel(loaded: Option<HalConfig>) -> (r: ReleaseChannel)
    ensures
        r == (match loaded {
            Some(c) => c.release_channel,
            None => ReleaseChannel::Stable,
        }),
{
    match loaded {
        Some(c) => c.release_channel,
        None => ReleaseChannel::default(),
    }
}

/// Settings with the environment file set to `env_path`, everything else as
/// loaded (or the defaults when loading failed).
pub fn set_env_file_path(loaded: Option<HalConfig>, env_path: &str) -> (r: HalConfig)
    ensures
        opt_view(r.env_file_path) == Some(env_path@),
        r.release_channel == (match loaded {
            Some(c) => c.release_channel,
            None => ReleaseChannel::Stable,
        }),
{
    let mut c = match loaded {
        Some(c) => c,
        None => HalConfig::default(),
    };
    c.env_file_path = Some(to_string(env_path));
    c
}

/// Settings with the environment file set to `path` (as the configuration
/// service sets it), everything else as loaded.
pub fn set_env_path(loaded: Option<HalConfig>, path: &str) -> (r: HalConfig)
    ensures
        opt_view(r.env_file_path) == Some(path@),
        r.release_channel == (match loaded {
            Some(c) => c.release_channel,
            None => ReleaseChannel::Stable,
        }),
{
    set_env_file_path(loaded, path)
}

/// Settings with the release channel set to `channel`, everything else as
/// loaded (or the defaults when loading failed).
pub fn set_release_channel(loaded: Option<HalConfig>, channel: ReleaseChannel) -> (r: HalConfig)
    ensures
        r.release_channel == channel,
        r.env_file_path == (match loaded {
            Some(c) => c.env_file_path,
            None => None,
        }),
{
    let mut c = match loaded {
        Some(c) => c,
        None => HalConfig::default(),
    };
    c.release_channel = channel;
    c
}

/// Why a path typed at the prompt was refused before it was resolved.
#[derive(PartialEq, Eq, Structural, Debug)]
pub enum PathInputError {
    Empty,
}

/// What a typed path stands for before it is resolved: the trimmed input,
/// with a leading `~` meaning the home directory (`~/x` is `x` in the home
/// directory; any other text after the `~` is dropped).
pub open spec fn expanded_path(input: Seq<char>, home: Seq<char>) -> Seq<char> {
    let p = trimmed(input);
    if has_prefix(p, "~"@) {
        join_path(home, if has_prefix(p, "~/"@) { p.skip(2) } else { Seq::empty() })
    } else {
        p
    }
}

/// Reads the path typed at the environment-file prompt.
pub fn expand_path_input(input: &str, home: &str) -> (r: Result<String, PathInputError>)
    ensures
        match r {
            Ok(p) => trimmed(input@).len() > 0 && p@ == expanded_path(input@, home@),
            Err(e) => e == PathInputError::Empty && trimmed(input@).len() == 0,
        },
{
    let p = trim(input);
    if p.unicode_len() == 0 {
        return Err(PathInputError::Empty);
    }
    if starts_with(p.as_str(), "~") {
        proof {
            reveal_strlit("~/");
            reveal_strlit("");
        }
        let rest = if starts_with(p.as_str(), "~/") {
            p.as_str().substring_char(2, p.unicode_len())
        } else {
            ""
        };
        proof {
            if has_prefix(p@, "~/"@) {
                assert(rest@ =~= p@.skip(2));
            } else {
                assert(rest@ =~= Seq::<char>::empty());
            }
        }
        Ok(path_join(home, rest))
    } else {
        Ok(p)
    }
}

/// Whether an answer to "Change it? [y/N]" is yes: exactly `y`, ignoring
/// case and surrounding white space.
pub fn confirms_change(answer: &str) -> (r: bool)
    ensures
        r == (lowercase(trimmed(answer@)) == "y"@),
{
    let t = trim(answer);
    let l = to_lowercase(t.as_str());
    str_eq(l.as_str(), "y")
}

/// Whether an answer to "Use this location? [Y/n]" accepts: empty, `y` or
/// `yes`, ignoring case and surrounding white space.
pub fn accepts_default(answer: &str) -> (r: bool)
    ensures
        r == (trimmed(answer@).len() == 0 || lowercase(trimmed(answer@)) == "y"@
            || lowercase(trimmed(answer@)) == "yes"@),
{
    let t = trim(answer);
    if t.unicode_len() == 0 {
        return true;
    }
    let l = to_lowercase(t.as_str());
    str_eq(l.as_str(), "y") || str_eq(l.as_str(), "yes")
}

} // verus!
