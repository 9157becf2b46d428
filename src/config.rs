//! The client's local configuration: the stored credential and the two base
//! URLs, and how environment overrides are merged in when it is read.
use vstd::prelude::*;
use vstd::string::*;

verus! {

/// The URL of the hosted service.
pub open spec fn default_api_url_text() -> Seq<char> {
    seq!['h', 't', 't', 'p', 's', ':', '/', '/', 'd', 'r', 'i', 'f', 't', 'w', 'a', 't', 'c', 'h', '.', 'd', 'e', 'v']
}

/// The RPC URL of a service on this machine.
pub open spec fn default_grpc_url_text() -> Seq<char> {
    seq![
        'h', 't', 't', 'p', ':', '/', '/', 'l', 'o', 'c', 'a', 'l', 'h', 'o', 's', 't', ':', '5', '0', '0', '5', '1',
    ]
}

/// The API base URL used when none is configured.
pub fn default_api_url() -> (r: String)
    ensures
        r@ == default_api_url_text(),
{
    let url = "https://driftwatch.dev";
    proof {
        reveal_strlit("https://driftwatch.dev");
    }
    assert(url@ =~= default_api_url_text());
    String::from_str(url)
}

/// The RPC base URL used when none is configured.
pub fn default_grpc_url() -> (r: String)
    ensures
        r@ == default_grpc_url_text(),
{
    let url = "http://localhost:50051";
    proof {
        reveal_strlit("http://localhost:50051");
    }
    assert(url@ =~= default_grpc_url_text());
    String::from_str(url)
}

/// A text without its trailing `c` characters.
pub open spec fn trim_trailing(s: Seq<char>, c: char) -> Seq<char>
    decreases s.len(),
{
    if s.len() > 0 && s.last() == c {
        trim_trailing(s.drop_last(), c)
    } else {
        s
    }
}

/// A URL without its trailing slashes.
pub fn trim_trailing_slashes(s: &str) -> (r: String)
    ensures
        r@ == trim_trailing(s@, '/'),
{
    let mut k = s.unicode_len();
    assert(s@.subrange(0, k as int) =~= s@);
    while k > 0 && s.get_char(k - 1) == '/'
        invariant
            k <= s@.len(),
            trim_trailing(s@, '/') == trim_trailing(s@.subrange(0, k as int), '/'),
        decreases k,
    {
        assert(s@.subrange(0, k as int).drop_last() =~= s@.subrange(0, k - 1));
        k = k - 1;
    }
    let kept = s.substring_char(0, k);
    proof {
        if k > 0 {
            assert(s@.subrange(0, k as int).last() == s@[k - 1]);
        }
    }
    String::from_str(kept)
}

/// The number of bytes that UTF-8 takes for a character.
pub open spec fn utf8_width(c: char) -> int {
    if (c as u32) < 0x80 {
        1
    } else if (c as u32) < 0x800 {
        2
    } else if (c as u32) < 0x10000 {
        3
    } else {
        4
    }
}

/// The length, in characters, of the longest prefix of `s[i..]` whose UTF-8
/// length fits in `budget` bytes, plus `i`.
pub open spec fn prefix_within(s: Seq<char>, i: int, budget: int) -> int
    decreases s.len() - i,
{
    if i < 0 || i >= s.len() || utf8_width(s[i]) > budget {
        i
    } else {
        prefix_within(s, i + 1, budget - utf8_width(s[i]))
    }
}

fn char_width(c: char) -> (r: usize)
    ensures
        r == utf8_width(c),
{
    let code = c as u32;
    if code < 0x80 {
        1
    } else if code < 0x800 {
        2
    } else if code < 0x10000 {
        3
    } else {
        4
    }
}

/// The start of a credential that is shown in place of it: the longest
/// prefix whose UTF-8 encoding takes at most eight bytes.
pub fn token_preview(token: &str) -> (r: String)
    ensures
        r@ == token@.subrange(0, prefix_within(token@, 0, 8)),
{
    let n = token.unicode_len();
    let mut i: usize = 0;
    let mut budget: usize = 8;
    while i < n
        invariant
            i <= n,
            n == token@.len(),
            budget <= 8,
            prefix_within(token@, i as int, budget as int) == prefix_within(token@, 0, 8),
        ensures
            i <= n,
            prefix_within(token@, i as int, budget as int) == i,
            prefix_within(token@, i as int, budget as int) == prefix_within(token@, 0, 8),
        decreases n - i,
    {
        let w = char_width(token.get_char(i));
        if w > budget {
            assert(prefix_within(token@, i as int, budget as int) == i);
            break;
        }
        budget = budget - w;
        i = i + 1;
    }
    String::from_str(token.substring_char(0, i))
}

/// The client configuration as values.
pub struct ConfigView {
    pub token: Seq<char>,
    pub api_url: Seq<char>,
    pub grpc_url: Seq<char>,
}

/// The client configuration: the credential and the base URLs of the API and
/// of the RPC service.
#[derive(Debug, PartialEq)]
pub struct Config {
    pub token: String,
    pub api_url: String,
    pub grpc_url: String,
}

/// What the configuration file held when it was read.
#[derive(Debug)]
pub enum StoredConfig {
    /// There is no configuration file.
    Missing,
    /// The file does not hold a configuration.
    Malformed,
    /// The file holds this configuration.
    Found(Config),
}

/// Why no configuration could be read.
#[derive(PartialEq, Eq, Structural, Clone, Copy, Debug)]
pub enum ConfigError {
    /// No credential is stored: the user has not logged in.
    NotAuthenticated,
    /// The configuration file is malformed.
    InvalidConfig,
}

/// An override if there is one, else the value.
pub open spec fn overridden(value: Seq<char>, over: Option<String>) -> Seq<char> {
    match over {
        Some(v) => v@,
        None => value,
    }
}

/// The configuration that a command reads: a credential given in the
/// environment replaces the file altogether; otherwise the file's, with the
/// URL overrides of the environment applied.
pub open spec fn resolved_config(
    stored: StoredConfig,
    env_token: Option<String>,
    env_api_url: Option<String>,
    env_grpc_url: Option<String>,
) -> Result<ConfigView, ConfigError> {
    match env_token {
        Some(t) => Ok(
            ConfigView {
                token: t@,
                api_url: overridden(default_api_url_text(), env_api_url),
                grpc_url: overridden(default_grpc_url_text(), env_grpc_url),
            },
        ),
        None => match stored {
            StoredConfig::Missing => Err(ConfigError::NotAuthenticated),
            StoredConfig::Malformed => Err(ConfigError::InvalidConfig),
            StoredConfig::Found(c) => Ok(
                ConfigView {
                    token: c.token@,
                    api_url: overridden(c.api_url@, env_api_url),
                    grpc_url: overridden(c.grpc_url@, env_grpc_url),
                },
            ),
        },
    }
}

/// The view of a read configuration.
pub open spec fn result_view(r: Result<Config, ConfigError>) -> Result<ConfigView, ConfigError> {
    match r {
        Ok(c) => Ok(c@),
        Err(e) => Err(e),
    }
}

impl View for Config {
    type V = ConfigView;

    open spec fn view(&self) -> ConfigView {
        ConfigView { token: self.token@, api_url: self.api_url@, grpc_url: self.grpc_url@ }
    }
}

fn override_with(value: String, over: Option<String>) -> (r: String)
    ensures
        r@ == overridden(value@, over),
{
    match over {
        Some(v) => v,
        None => value,
    }
}

/// The configuration settings with the given URLs replaced (trailing slashes
/// dropped) and the rest kept.
pub open spec fn settings_applied(
    c: ConfigView,
    api_url: Option<Seq<char>>,
    grpc_url: Option<Seq<char>>,
) -> ConfigView {
    ConfigView {
        token: c.token,
        api_url: if api_url is Some {
            trim_trailing(api_url->0, '/')
        } else {
            c.api_url
        },
        grpc_url: if grpc_url is Some {
            trim_trailing(grpc_url->0, '/')
        } else {
            c.grpc_url
        },
    }
}

impl Config {
    /// A configuration with nothing set, the start of a new file.
    pub fn empty() -> (r: Config)
        ensures
            r@.token.len() == 0,
            r@.api_url.len() == 0,
            r@.grpc_url.len() == 0,
    {
        Config { token: String::new(), api_url: String::new(), grpc_url: String::new() }
    }

    /// Merges what the file held with the environment's overrides (the
    /// credential, the API URL and the RPC URL). Nothing here is written back.
    pub fn load(
        stored: StoredConfig,
        env_token: Option<String>,
        env_api_url: Option<String>,
        env_grpc_url: Option<String>,
    ) -> (r: Result<Config, ConfigError>)
        ensures
            result_view(r) == resolved_config(stored, env_token, env_api_url, env_grpc_url),
    {
        match env_token {
            Some(t) => Ok(
                Config {
                    token: t,
                    api_url: override_with(default_api_url(), env_api_url),
                    grpc_url: override_with(default_grpc_url(), env_grpc_url),
                },
            ),
            None => match stored {
                StoredConfig::Missing => Err(ConfigError::NotAuthenticated),
                StoredConfig::Malformed => Err(ConfigError::InvalidConfig),
                StoredConfig::Found(c) => Ok(
                    Config {
                        token: c.token,
                        api_url: override_with(c.api_url, env_api_url),
                        grpc_url: override_with(c.grpc_url, env_grpc_url),
                    },
                ),
            },
        }
    }

    /// Sets the given base URLs, without their trailing slashes.
    pub fn apply_settings(self, api_url: Option<&str>, grpc_url: Option<&str>) -> (r: Config)
        ensures
            r@ == settings_applied(
                self@,
                match api_url {
                    Some(u) => Some(u@),
                    None => None,
                },
                match grpc_url {
                    Some(u) => Some(u@),
                    None => None,
                },
            ),
    {
        let Config { token, api_url: old_api, grpc_url: old_grpc } = self;
        let api = match api_url {
            Some(u) => trim_trailing_slashes(u),
            None => old_api,
        };
        let grpc = match grpc_url {
            Some(u) => trim_trailing_slashes(u),
            None => old_grpc,
        };
        Config { token, api_url: api, grpc_url: grpc }
    }

    /// Whether a credential is stored.
    pub fn has_token(&self) -> (r: bool)
        ensures
            r == (self.token@.len() > 0),
    {
        self.token.as_str().unicode_len() > 0
    }
}

} // verus!
