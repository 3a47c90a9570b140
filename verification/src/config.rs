//! The settings of the program and the rules they must meet.

use crate::cli::Cli;
use crate::error::DevRecapError;
use crate::text::texts_of;
use vstd::prelude::*;

verus! {

/// The settings of the program.
#[derive(Debug, Clone)]
pub struct Config {
    /// The author's address to filter by when none is given.
    pub default_author_email: Option<String>,
    /// The key for the summarising service.
    pub claude_api_key: Option<String>,
    /// The base address of the summarising service.
    pub claude_api_base_url: Option<String>,
    /// The model to ask.
    pub claude_model: Option<String>,
    /// How many days to look back when nothing else is given.
    pub default_timespan_days: u32,
    /// Patterns of directory names that the scan leaves out.
    pub exclude_patterns: Vec<String>,
    /// The greatest depth of the scan, where there is one.
    pub max_scan_depth: Option<u32>,
    /// Whether summaries are cached.
    pub cache_enabled: bool,
    /// After how many hours a cached summary is stale.
    pub cache_ttl_hours: u32,
    /// A token for the hosting provider.
    pub github_token: Option<String>,
}

/// The days to look back when nothing is set: two weeks.
pub fn default_timespan() -> (days: u32)
    ensures
        days == 14,
{
    14
}

/// The hours a cached summary stays fresh when nothing is set: one week.
pub fn default_cache_ttl() -> (hours: u32)
    ensures
        hours == 168,
{
    168
}

/// The answer `true`, for settings that are on when nothing is set.
pub fn default_true() -> (on: bool)
    ensures
        on,
{
    true
}

/// The directory names that the scan leaves out when nothing is set.
pub open spec fn default_patterns() -> Seq<Seq<char>> {
    seq![
        "node_modules"@,
        "target"@,
        ".git"@,
        "dist"@,
        "build"@,
        "__pycache__"@,
        ".venv"@,
        "vendor"@,
        ".next"@,
        "out"@,
    ]
}

/// The directory names that the scan leaves out when nothing is set.
pub fn default_exclude_patterns() -> (patterns: Vec<String>)
    ensures
        texts_of(patterns@) == default_patterns(),
{
    let mut patterns: Vec<String> = Vec::new();
    patterns.push("node_modules".to_owned());
    patterns.push("target".to_owned());
    patterns.push(".git".to_owned());
    patterns.push("dist".to_owned());
    patterns.push("build".to_owned());
    patterns.push("__pycache__".to_owned());
    patterns.push(".venv".to_owned());
    patterns.push("vendor".to_owned());
    patterns.push(".next".to_owned());
    patterns.push("out".to_owned());
    proof {
        assert(texts_of(patterns@) =~= default_patterns());
    }
    patterns
}

impl Default for Config {
    fn default() -> (config: Config)
        ensures
            config.default_author_email is None,
            config.claude_api_key is None,
            config.claude_api_base_url is None,
            config.claude_model is None,
            config.default_timespan_days == 14,
            texts_of(config.exclude_patterns@) == default_patterns(),
            config.max_scan_depth is None,
            config.cache_enabled,
            config.cache_ttl_hours == 168,
            config.github_token is None,
    {
        Config {
            default_author_email: None,
            claude_api_key: None,
            claude_api_base_url: None,
            claude_model: None,
            default_timespan_days: default_timespan(),
            exclude_patterns: default_exclude_patterns(),
            max_scan_depth: None,
            cache_enabled: default_true(),
            cache_ttl_hours: default_cache_ttl(),
            github_token: None,
        }
    }
}

/// What is wrong with the settings, as the kind of error and its text;
/// `None` where nothing is. A key that is set but empty comes first, then a
/// look-back of no days, then a cache that is stale at once.
pub open spec fn fault_of(config: Config) -> Option<(bool, Seq<char>)> {
    if config.claude_api_key is Some && config.claude_api_key->0@.len() == 0 {
        Some((true, "claude_api_key cannot be empty"@))
    } else if config.default_timespan_days == 0 {
        Some((false, "default_timespan_days must be > 0"@))
    } else if config.cache_ttl_hours == 0 {
        Some((false, "cache_ttl_hours must be > 0"@))
    } else {
        None
    }
}

/// The settings with what the command line overrides: the author, the days
/// to look back, the cache and the depth of the scan.
pub open spec fn overridden(config: Config, cli: Cli) -> Config {
    Config {
        default_author_email: if cli.author is Some {
            cli.author
        } else {
            config.default_author_email
        },
        default_timespan_days: if cli.days is Some {
            cli.days->0
        } else {
            config.default_timespan_days
        },
        cache_enabled: if cli.no_cache {
            false
        } else {
            config.cache_enabled
        },
        max_scan_depth: if cli.max_depth is Some {
            cli.max_depth
        } else {
            config.max_scan_depth
        },
        ..config
    }
}

impl Config {
    /// The key for the summarising service, or the error that none is set.
    pub fn get_api_key(&self) -> (r: Result<String, DevRecapError>)
        ensures
            match r {
                Ok(key) => self.claude_api_key is Some && key@ == self.claude_api_key->0@,
                Err(e) => self.claude_api_key is None && e is MissingConfig && e->MissingConfig_0@
                    == "claude_api_key is required (set ANTHROPIC_AUTH_TOKEN env var or add to config file)"@,
            },
    {
        match &self.claude_api_key {
            Some(key) => Ok(key.clone()),
            None => Err(
                DevRecapError::MissingConfig(
                    "claude_api_key is required (set ANTHROPIC_AUTH_TOKEN env var or add to config file)".to_owned(),
                ),
            ),
        }
    }

    /// The base address of the summarising service, where one is set.
    pub fn get_base_url(&self) -> (url: Option<String>)
        ensures
            url.deep_view() == self.claude_api_base_url.deep_view(),
    {
        match &self.claude_api_base_url {
            Some(url) => Some(url.clone()),
            None => None,
        }
    }

    /// The model to ask, where one is set.
    pub fn get_model(&self) -> (model: Option<String>)
        ensures
            model.deep_view() == self.claude_model.deep_view(),
    {
        match &self.claude_model {
            Some(model) => Some(model.clone()),
            None => None,
        }
    }

    /// Checks the settings: a key that is set must not be empty, and the
    /// days to look back and the hours of the cache must not be zero.
    pub fn validate(&self) -> (r: Result<(), DevRecapError>)
        ensures
            match r {
                Ok(_) => fault_of(*self) is None,
                Err(DevRecapError::MissingConfig(text)) => fault_of(*self) == Some((true, text@)),
                Err(DevRecapError::Config(text)) => fault_of(*self) == Some((false, text@)),
                Err(_) => false,
            },
    {
        if let Some(key) = &self.claude_api_key {
            if key.as_str().unicode_len() == 0 {
                return Err(DevRecapError::MissingConfig("claude_api_key cannot be empty".to_owned()));
            }
        }
        if self.default_timespan_days == 0 {
            return Err(DevRecapError::Config("default_timespan_days must be > 0".to_owned()));
        }
        if self.cache_ttl_hours == 0 {
            return Err(DevRecapError::Config("cache_ttl_hours must be > 0".to_owned()));
        }
        Ok(())
    }

    /// Puts what the environment sets in place of what the settings hold:
    /// the key and the base address of the summarising service.
    pub fn apply_overrides(&mut self, api_key: Option<String>, base_url: Option<String>)
        ensures
            final(self).claude_api_key == (if api_key is Some {
                api_key
            } else {
                old(self).claude_api_key
            }),
            final(self).claude_api_base_url == (if base_url is Some {
                base_url
            } else {
                old(self).claude_api_base_url
            }),
            final(self).default_author_email == old(self).default_author_email,
            final(self).claude_model == old(self).claude_model,
            final(self).default_timespan_days == old(self).default_timespan_days,
            final(self).exclude_patterns == old(self).exclude_patterns,
            final(self).max_scan_depth == old(self).max_scan_depth,
            final(self).cache_enabled == old(self).cache_enabled,
            final(self).cache_ttl_hours == old(self).cache_ttl_hours,
            final(self).github_token == old(self).github_token,
    {
        if let Some(key) = api_key {
            self.claude_api_key = Some(key);
        }
        if let Some(url) = base_url {
            self.claude_api_base_url = Some(url);
        }
    }
}

/// Puts what the command line sets in place of what the settings hold.
pub fn apply_cli_overrides(config: Config, cli: &Cli) -> (r: Config)
    ensures
        r.default_author_email.deep_view() == overridden(
            config,
            *cli,
        ).default_author_email.deep_view(),
        r.default_timespan_days == overridden(config, *cli).default_timespan_days,
        r.cache_enabled == overridden(config, *cli).cache_enabled,
        r.max_scan_depth == overridden(config, *cli).max_scan_depth,
        r.claude_api_key == config.claude_api_key,
        r.claude_api_base_url == config.claude_api_base_url,
        r.claude_model == config.claude_model,
        r.exclude_patterns == config.exclude_patterns,
        r.cache_ttl_hours == config.cache_ttl_hours,
        r.github_token == config.github_token,
{
    let mut config = config;
    if let Some(author) = &cli.author {
        config.default_author_email = Some(author.clone());
    }
    if let Some(days) = cli.days {
        config.default_timespan_days = days;
    }
    if cli.no_cache {
        config.cache_enabled = false;
    }
    if let Some(depth) = cli.max_depth {
        config.max_scan_depth = Some(depth);
    }
    config
}

} // verus!
