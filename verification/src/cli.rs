//! What the command line asks for, and which combinations it may not hold.

use vstd::prelude::*;

verus! {

/// A request that is no analysis.
#[derive(Debug, Clone, Copy)]
pub enum Commands {
    /// Write a configuration file.
    Init {
        /// Whether a file that is there may be overwritten.
        force: bool,
    },
    /// Show the configuration.
    Config,
    /// Empty the cache.
    ClearCache,
    /// Show how much the cache holds.
    CacheStats,
}

/// What the command line asks for.
#[derive(Debug, Clone)]
pub struct Cli {
    /// The directory to scan.
    pub path: Option<String>,
    /// The author's address to filter by.
    pub author: Option<String>,
    /// How many days to look back.
    pub days: Option<u32>,
    /// The first day of the window.
    pub since: Option<String>,
    /// The last day of the window.
    pub until: Option<String>,
    /// The configuration file.
    pub config: Option<String>,
    /// The file to write the result to.
    pub output: Option<String>,
    /// Whether nothing may be asked of the user.
    pub non_interactive: bool,
    /// Whether the cache is left aside.
    pub no_cache: bool,
    /// Whether the analysis stops before the summarising service is asked.
    pub dry_run: bool,
    /// Whether several authors are analysed.
    pub team: bool,
    /// The authors' addresses, for a team.
    pub authors: Option<Vec<String>>,
    /// The greatest depth of the scan.
    pub max_depth: Option<u32>,
    /// How much is reported.
    pub verbose: u8,
    /// A request that is no analysis.
    pub command: Option<Commands>,
}

impl Cli {
    /// Whether nothing may be asked of the user: that was said, or the result
    /// goes to a file, or the run is dry, or the request is no analysis.
    pub open spec fn spec_non_interactive(self) -> bool {
        self.non_interactive || self.output is Some || self.dry_run || self.command is Some
    }

    /// What is wrong with the request; `None` where nothing is. Days and a
    /// window together come first, then authors without a team, then a team
    /// without authors where nothing may be asked.
    pub open spec fn fault(self) -> Option<Seq<char>> {
        if self.days is Some && (self.since is Some || self.until is Some) {
            Some("Cannot specify both --days and --since/--until. Choose one."@)
        } else if self.authors is Some && !self.team {
            Some("--authors requires --team flag"@)
        } else if self.team && self.spec_non_interactive() && self.authors is None {
            Some("Team mode in non-interactive mode requires --authors"@)
        } else {
            None
        }
    }

    /// A request that sets nothing.
    pub fn empty() -> (cli: Cli)
        ensures
            cli.path is None,
            cli.author is None,
            cli.days is None,
            cli.since is None,
            cli.until is None,
            cli.config is None,
            cli.output is None,
            !cli.non_interactive,
            !cli.no_cache,
            !cli.dry_run,
            !cli.team,
            cli.authors is None,
            cli.max_depth is None,
            cli.verbose == 0,
            cli.command is None,
    {
        Cli {
            path: None,
            author: None,
            days: None,
            since: None,
            until: None,
            config: None,
            output: None,
            non_interactive: false,
            no_cache: false,
            dry_run: false,
            team: false,
            authors: None,
            max_depth: None,
            verbose: 0,
            command: None,
        }
    }

    /// Tests whether nothing may be asked of the user.
    pub fn is_non_interactive(&self) -> (r: bool)
        ensures
            r == self.spec_non_interactive(),
    {
        self.non_interactive || self.output.is_some() || self.dry_run || self.command.is_some()
    }

    /// Checks the request and says what is wrong with it.
    pub fn validate(&self) -> (r: Result<(), String>)
        ensures
            match r {
                Ok(_) => self.fault() is None,
                Err(text) => self.fault() == Some(text@),
            },
    {
        if self.days.is_some() && (self.since.is_some() || self.until.is_some()) {
            return Err("Cannot specify both --days and --since/--until. Choose one.".to_owned());
        }
        if self.authors.is_some() && !self.team {
            return Err("--authors requires --team flag".to_owned());
        }
        if self.team && self.is_non_interactive() && self.authors.is_none() {
            return Err("Team mode in non-interactive mode requires --authors".to_owned());
        }
        Ok(())
    }
}

} // verus!
