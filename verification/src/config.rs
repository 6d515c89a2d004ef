//! The configuration shape the engine is built from, and the precedence
//! rules that fold legacy flat settings into it. Reading the environment
//! itself is the host's concern; the rules applied to what was read are
//! stated and checked here.

use vstd::prelude::*;
use vstd::string::StringExecFns;

use crate::text::{spec_parse_u64, parse_u64};

verus! {

/// The default listen address.
pub fn default_listen() -> (r: String)
    ensures
        r@ == "127.0.0.1:3000"@,
{
    String::from_str("127.0.0.1:3000")
}

/// The default deployment environment name.
pub fn default_environment() -> (r: String)
    ensures
        r@ == "development"@,
{
    String::from_str("development")
}

/// The default for settings that are on unless switched off.
pub fn default_true() -> (r: bool)
    ensures
        r,
{
    true
}

/// The default synchronization interval, in seconds: one hour.
pub fn default_interval() -> (r: u64)
    ensures
        r == 3600,
{
    3600
}

/// Database settings: the connection URL.
#[derive(Debug)]
pub struct DatabaseConfig {
    pub url: String,
}

/// Telemetry settings: an optional collector endpoint and the deployment
/// environment name.
#[derive(Debug)]
pub struct OtelConfig {
    pub endpoint: Option<String>,
    pub environment: String,
}

impl Default for OtelConfig {
    /// No endpoint, and the default environment name.
    fn default() -> (r: Self)
        ensures
            r.endpoint is None,
            r.environment@ == "development"@,
    {
        OtelConfig { endpoint: None, environment: default_environment() }
    }
}

/// Forge synchronization settings: the user whose repositories are listed,
/// and an optional access token.
#[derive(Debug)]
pub struct GitHubConfig {
    pub user: String,
    pub token: Option<String>,
}

/// Crate-registry synchronization settings: the user whose crates are
/// listed.
#[derive(Debug)]
pub struct CratesIoConfig {
    pub user: String,
}

/// Contribution synchronization settings: the user whose contributions are
/// tracked.
#[derive(Debug)]
pub struct ContributionsConfig {
    pub user: String,
}

/// Synchronization settings: the scheduler's switch and cadence, and one
/// optional block per adapter. An absent block means that adapter is simply
/// not constructed — never an error.
#[derive(Debug)]
pub struct SyncConfig {
    pub enabled: bool,
    pub interval_secs: u64,
    pub github: Option<GitHubConfig>,
    pub crates_io: Option<CratesIoConfig>,
    pub contributions: Option<ContributionsConfig>,
}

impl Default for SyncConfig {
    /// Enabled at the default cadence, with no adapter configured.
    fn default() -> (r: Self)
        ensures
            r.enabled,
            r.interval_secs == 3600,
            r.github is None,
            r.crates_io is None,
            r.contributions is None,
    {
        SyncConfig {
            enabled: true,
            interval_secs: 3600,
            github: None,
            crates_io: None,
            contributions: None,
        }
    }
}

/// The whole configuration: where to listen, the optional database, the
/// telemetry settings, and the synchronization settings.
#[derive(Debug)]
pub struct Config {
    pub listen: String,
    pub database: Option<DatabaseConfig>,
    pub otel: OtelConfig,
    pub sync: SyncConfig,
}

impl Config {
    /// Folds the legacy flat settings into the configuration, under the
    /// precedence rules: a structured block already present always wins; an
    /// absent block is filled from the flat user setting when one was read;
    /// and a flat interval setting that parses as a number overrides the
    /// interval.
    pub fn apply_legacy_env_vars(
        &mut self,
        github_user: Option<String>,
        github_token: Option<String>,
        crates_io_user: Option<String>,
        contributions_user: Option<String>,
        sync_interval: Option<String>,
    )
        ensures
            final(self).listen == old(self).listen,
            final(self).database == old(self).database,
            final(self).otel == old(self).otel,
            final(self).sync.enabled == old(self).sync.enabled,
            final(self).sync.github == (if old(self).sync.github is Some {
                old(self).sync.github
            } else {
                match github_user {
                    Some(user) => Some(GitHubConfig { user, token: github_token }),
                    None => None,
                }
            }),
            final(self).sync.crates_io == (if old(self).sync.crates_io is Some {
                old(self).sync.crates_io
            } else {
                match crates_io_user {
                    Some(user) => Some(CratesIoConfig { user }),
                    None => None,
                }
            }),
            final(self).sync.contributions == (if old(self).sync.contributions is Some {
                old(self).sync.contributions
            } else {
                match contributions_user {
                    Some(user) => Some(ContributionsConfig { user }),
                    None => None,
                }
            }),
            final(self).sync.interval_secs == (match sync_interval {
                Some(v) => match spec_parse_u64(v@) {
                    Some(secs) => secs,
                    None => old(self).sync.interval_secs,
                },
                None => old(self).sync.interval_secs,
            }),
    {
        if self.sync.github.is_none() {
            if let Some(user) = github_user {
                self.sync.github = Some(GitHubConfig { user, token: github_token });
            }
        }
        if self.sync.crates_io.is_none() {
            if let Some(user) = crates_io_user {
                self.sync.crates_io = Some(CratesIoConfig { user });
            }
        }
        if self.sync.contributions.is_none() {
            if let Some(user) = contributions_user {
                self.sync.contributions = Some(ContributionsConfig { user });
            }
        }
        if let Some(v) = sync_interval {
            if let Some(secs) = parse_u64(v.as_str()) {
                self.sync.interval_secs = secs;
            }
        }
    }
}

} // verus!
