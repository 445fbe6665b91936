//! Configuration: the settings read from `config.toml`, their defaults, the
//! template written on first start, the location of the file and the
//! resolution of the GitHub token.
use vstd::prelude::*;
use vstd::utf8::{decode_utf8, encode_utf8, valid_utf8};

use crate::api::client::default_api_address;
use crate::paths::{PathError, home_dir, join_text, opt_bytes, path_join, path_of_text};
use crate::text::{chars_of, string_of, trim, trim_chars};

verus! {

/// All settings of the application.
#[derive(Debug)]
pub struct Config {
    pub github: GithubConfig,
    pub project: ProjectConfig,
    pub ui: UiConfig,
    pub filter: FilterConfig,
}

/// The `[github]` section.
#[derive(Debug)]
pub struct GithubConfig {
    pub token: Option<String>,
    pub api_base_url: String,
}

/// The `[project]` section.
#[derive(Debug)]
pub struct ProjectConfig {
    pub owner: String,
    pub number: Option<u32>,
    pub status_field: String,
}

/// The `[ui]` section.
#[derive(Debug)]
pub struct UiConfig {
    pub default_view: Option<String>,
    pub open_command: Option<String>,
    pub date_format: Option<String>,
}

/// The `[filter]` section: filter conditions applied on start.
#[derive(Debug, Clone)]
pub struct FilterConfig {
    pub assignee: Option<String>,
    pub labels: Option<Vec<String>>,
    pub kind: Option<String>,
    pub status: Option<String>,
}

/// `Status`
pub open spec fn status_word() -> Seq<char> {
    seq!['S', 't', 'a', 't', 'u', 's']
}

/// The API address used when none is configured.
pub fn default_api_base_url() -> (s: String)
    ensures
        s@ == default_api_address(),
{
    proof {
        reveal_strlit("https://api.github.com");
        assert("https://api.github.com"@ =~= default_api_address());
    }
    String::from_str("https://api.github.com")
}

/// The name of the status field used when none is configured.
pub fn default_status_field() -> (s: String)
    ensures
        s@ == status_word(),
{
    proof {
        reveal_strlit("Status");
        assert("Status"@ =~= status_word());
    }
    String::from_str("Status")
}

/// The file written on first start, for the user to fill in.
pub const CONFIG_TEMPLATE: &'static str = r#"[github]
# Token resolution order:
#   1. GITHUB_TOKEN environment variable
#   2. `gh auth token` (GitHub CLI)
#   3. This field
# token = "ghp_xxxx"

[project]
owner = "your-org-or-user"
number = 1
status_field = "Status"

# [ui]
# default_view = "board"    # "board" or "list"
# open_command = ""          # custom browser command (empty = OS default)
# date_format = "%Y-%m-%d"

# [filter]
# Default filters applied on startup (Esc to clear)
# assignee = "your-username"
# labels = ["bug"]
# kind = "issue"             # "issue" or "pr"
# status = "In Progress"
"#;

/// Why the configuration cannot be used.
#[derive(Debug, Clone, Copy, PartialEq, Eq, Structural)]
pub enum ConfigError {
    /// No GitHub token was found in any source.
    TokenNotFound,
    /// The home directory of the user is unknown.
    NoHomeDirectory,
}

/// `flowbit`
pub open spec fn app_dir_name() -> Seq<char> {
    seq!['f', 'l', 'o', 'w', 'b', 'i', 't']
}

/// `config.toml`
pub open spec fn config_file_name() -> Seq<char> {
    seq!['c', 'o', 'n', 'f', 'i', 'g', '.', 't', 'o', 'm', 'l']
}

/// `.config`
pub open spec fn dot_config() -> Seq<char> {
    seq!['.', 'c', 'o', 'n', 'f', 'i', 'g']
}

/// The configuration file inside the configuration directory `dir`.
pub open spec fn config_file_in(dir: Seq<u8>) -> Seq<u8> {
    path_join(path_join(dir, encode_utf8(app_dir_name())), encode_utf8(config_file_name()))
}

/// `~/.config` for the home directory `home`.
pub open spec fn home_config_dir(home: Seq<u8>) -> Seq<u8> {
    path_join(home, encode_utf8(dot_config()))
}

/// The configuration file: under `$XDG_CONFIG_HOME` when it is set, else
/// under `~/.config`.
pub open spec fn config_file_for(xdg_config_home: Option<Seq<char>>, home: Option<Seq<u8>>) -> Result<Seq<u8>, PathError> {
    match xdg_config_home {
        Some(x) => Ok(config_file_in(encode_utf8(x))),
        None => match home {
            Some(h) => Ok(config_file_in(home_config_dir(h))),
            None => Err(PathError::NoHomeDirectory),
        },
    }
}

/// A path result in terms of bytes.
pub open spec fn path_result(r: Result<Vec<u8>, ConfigError>) -> Result<Seq<u8>, PathError> {
    match r {
        Ok(p) => Ok(p@),
        Err(_) => Err(PathError::NoHomeDirectory),
    }
}

/// A token that is present and not empty.
pub open spec fn usable_token(t: Option<Seq<char>>) -> bool {
    t matches Some(s) && s.len() > 0
}

/// What `gh auth token` reported: nothing when it failed or its output is
/// not UTF-8, else its output without surrounding white space, when that is
/// not empty.
pub open spec fn cli_token(success: bool, stdout: Seq<u8>) -> Option<Seq<char>> {
    if success && valid_utf8(stdout) && trim(decode_utf8(stdout)).len() > 0 {
        Some(trim(decode_utf8(stdout)))
    } else {
        None
    }
}

/// Calls `String::from_utf8`: the text that the bytes encode, when they are
/// valid UTF-8.
#[verifier::external_body]
fn utf8_text(bytes: Vec<u8>) -> (r: Option<String>)
    ensures
        match r {
            Some(s) => valid_utf8(bytes@) && s@ == decode_utf8(bytes@),
            None => !valid_utf8(bytes@),
        },
{
    match String::from_utf8(bytes) {
        Ok(s) => Some(s),
        Err(_) => None,
    }
}

/// The token that `gh auth token` printed, given whether it succeeded and
/// what it wrote to its standard output.
pub fn token_from_gh_output(success: bool, stdout: Vec<u8>) -> (r: Option<String>)
    ensures
        opt_text(r) == cli_token(success, stdout@),
{
    if !success {
        return None;
    }
    let ghost bytes = stdout@;
    match utf8_text(stdout) {
        None => None,
        Some(text) => {
            let t = trim_chars(&chars_of(text.as_str()));
            if t.len() == 0 {
                None
            } else {
                Some(string_of(&t))
            }
        },
    }
}

/// The characters of an optional string.
pub open spec fn opt_text(o: Option<String>) -> Option<Seq<char>> {
    match o {
        Some(s) => Some(s@),
        None => None,
    }
}

/// The configuration file inside the configuration directory `dir`.
pub fn config_file_under(dir: &[u8]) -> (r: Vec<u8>)
    ensures
        r@ == config_file_in(dir@),
{
    proof {
        reveal_strlit("flowbit");
        reveal_strlit("config.toml");
        assert("flowbit"@ =~= app_dir_name());
        assert("config.toml"@ =~= config_file_name());
    }
    let d = join_text(dir, "flowbit");
    join_text(d.as_slice(), "config.toml")
}

impl Config {
    /// Whether a token taken from the environment can be used as it is.
    pub fn is_usable_token(token: &Option<String>) -> (r: bool)
        ensures
            r == usable_token(opt_text(*token)),
    {
        match token {
            Some(t) => {
                let c = chars_of(t.as_str());
                c.len() > 0
            },
            None => false,
        }
    }

    /// Resolve GitHub token.
    /// Priority: GITHUB_TOKEN env → `gh auth token` → config file.
    /// `env_token` is the value of `GITHUB_TOKEN`, `cli_token` what
    /// `gh auth token` gave (see `token_from_gh_output`).
    pub fn github_token(&self, env_token: Option<String>, cli_token: Option<String>) -> (r: Result<String, ConfigError>)
        ensures
            usable_token(opt_text(env_token)) ==> r == Ok::<String, ConfigError>(env_token.unwrap()),
            !usable_token(opt_text(env_token)) && cli_token is Some ==> r == Ok::<String, ConfigError>(cli_token.unwrap()),
            !usable_token(opt_text(env_token)) && cli_token is None && usable_token(opt_text(self.github.token))
                ==> r == Ok::<String, ConfigError>(self.github.token.unwrap()),
            !usable_token(opt_text(env_token)) && cli_token is None && !usable_token(opt_text(self.github.token))
                ==> r == Err::<String, ConfigError>(ConfigError::TokenNotFound),
    {
        if Self::is_usable_token(&env_token) {
            return Ok(env_token.unwrap());
        }
        if let Some(token) = cli_token {
            return Ok(token);
        }
        if Self::is_usable_token(&self.github.token) {
            return Ok(self.github.token.clone().unwrap());
        }
        Err(ConfigError::TokenNotFound)
    }

    /// The configuration file, given `$XDG_CONFIG_HOME` and the home
    /// directory: `$XDG_CONFIG_HOME/flowbit/config.toml` when the variable
    /// is set, else `~/.config/flowbit/config.toml`.
    pub fn config_path_from(xdg_config_home: Option<String>, home: Option<Vec<u8>>) -> (r: Result<Vec<u8>, ConfigError>)
        ensures
            path_result(r) == config_file_for(opt_text(xdg_config_home), opt_bytes(home)),
            r is Err ==> r == Err::<Vec<u8>, ConfigError>(ConfigError::NoHomeDirectory),
    {
        proof {
            reveal_strlit(".config");
            assert(".config"@ =~= dot_config());
        }
        match xdg_config_home {
            Some(x) => {
                let d = path_of_text(x.as_str());
                Ok(config_file_under(d.as_slice()))
            },
            None => match home {
                Some(h) => {
                    let c = join_text(h.as_slice(), ".config");
                    Ok(config_file_under(c.as_slice()))
                },
                None => Err(ConfigError::NoHomeDirectory),
            },
        }
    }

    /// Return the config file path: ~/.config/flowbit/config.toml
    /// Uses $XDG_CONFIG_HOME if set (`xdg_config_home` is its value),
    /// otherwise ~/.config (not platform-specific).
    pub fn config_path(xdg_config_home: Option<String>) -> (r: Result<Vec<u8>, ConfigError>)
        ensures
            xdg_config_home matches Some(x) ==> r matches Ok(p) && p@ == config_file_in(encode_utf8(x@)),
            xdg_config_home is None ==> match r {
                Ok(p) => exists|h: Seq<u8>| p@ == config_file_in(home_config_dir(h)),
                Err(e) => e == ConfigError::NoHomeDirectory,
            },
    {
        match xdg_config_home {
            Some(x) => Self::config_path_from(Some(x), None),
            None => {
                let home = home_dir();
                let r = Self::config_path_from(None, home);
                proof {
                    if r is Ok {
                        let h = opt_bytes(home).unwrap();
                        assert(r.unwrap()@ == config_file_in(home_config_dir(h)));
                    }
                }
                r
            },
        }
    }
}

} // verus!
