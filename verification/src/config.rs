//! Client configuration: connection, credentials and organization.

use vstd::prelude::*;

use crate::auth::RefreshToken;
use crate::dirs::{config_dir, xdg_dir, DirsError};
use crate::paths::{join_str, path_join};
use crate::text::{opt_str, opt_view};

verus! {

/// Where the API is.
#[derive(Debug)]
pub struct ConnectionInfo {
    pub uri: String,
}

/// Stored credentials.
#[derive(Debug)]
pub struct AuthInfo {
    pub offline_access: Option<RefreshToken>,
    pub env_token: Option<RefreshToken>,
}

/// A token that is present and not empty.
pub open spec fn usable_token(t: Option<RefreshToken>) -> Option<Seq<char>> {
    match t {
        Some(tok) => if tok.0@.len() > 0 {
            Some(tok.0@)
        } else {
            None
        },
        None => None,
    }
}

impl AuthInfo {
    /// Credentials with a stored refresh token and no environment token.
    pub fn new(offline_access: Option<RefreshToken>) -> (r: Self)
        ensures
            r.offline_access == offline_access,
            r.env_token is None,
    {
        AuthInfo { offline_access, env_token: None }
    }

    /// The refresh token to use: the environment's, else the stored one;
    /// empty tokens count as absent.
    pub fn offline_access(&self) -> (r: Option<&RefreshToken>)
        ensures
            match r {
                Some(t) => t.0@ == match usable_token(self.env_token) {
                    Some(e) => e,
                    None => usable_token(self.offline_access).unwrap(),
                } && (usable_token(self.env_token) is Some || usable_token(
                    self.offline_access,
                ) is Some),
                None => usable_token(self.env_token) is None && usable_token(
                    self.offline_access,
                ) is None,
            },
    {
        if let Some(t) = &self.env_token {
            if t.0.as_str().unicode_len() > 0 {
                return Some(t);
            }
        }
        if let Some(t) = &self.offline_access {
            if t.0.as_str().unicode_len() > 0 {
                return Some(t);
            }
        }
        None
    }

    /// Store a new refresh token.
    pub fn set_offline_access(&mut self, offline_access: RefreshToken)
        ensures
            final(self).offline_access == Some(offline_access),
            final(self).env_token == old(self).env_token,
    {
        self.offline_access = Some(offline_access);
    }
}

/// What became of an API key given in the environment.
#[derive(Debug, PartialEq, Eq, Structural, Clone, Copy)]
pub enum ApiKeyOutcome {
    /// No key was given.
    NotPresent,
    /// An empty key was given and ignored.
    Empty,
    /// The key is used as the environment token.
    Used,
}

/// The client configuration.
#[derive(Debug)]
pub struct Config {
    pub connection: ConnectionInfo,
    pub auth_info: AuthInfo,
    pub last_update: Option<usize>,
    pub path: Option<String>,
    pub ignore_certs_cli: bool,
    pub ignore_certs: bool,
    pub org: Option<String>,
    pub org_cli: Option<String>,
}

impl Default for Config {
    /// The production API, no credentials and no overrides.
    fn default() -> (r: Self)
        ensures
            r.connection.uri@ == "https://api.phylum.io"@,
            r.auth_info.offline_access is None,
            r.auth_info.env_token is None,
            r.last_update is None,
            r.path is None,
            !r.ignore_certs_cli,
            !r.ignore_certs,
            r.org is None,
            r.org_cli is None,
    {
        Config {
            connection: ConnectionInfo { uri: String::from_str("https://api.phylum.io") },
            ignore_certs_cli: false,
            ignore_certs: false,
            last_update: None,
            auth_info: AuthInfo { offline_access: None, env_token: None },
            org_cli: None,
            path: None,
            org: None,
        }
    }
}

/// Whether a look for a newer release is due at `now` (seconds since the
/// Unix epoch): never looked before, or last looked more than a day ago.
pub open spec fn update_check_due(now: usize, last_update: Option<usize>) -> bool {
    match last_update {
        None => true,
        Some(last) => now - last > 24 * 60 * 60,
    }
}

impl Config {
    /// Decides whether to look for a newer release at `now` (seconds since
    /// the Unix epoch), and if so records `now` as the time of the last look.
    /// The look is due at most once a day.
    pub fn note_update_check(&mut self, now: usize) -> (due: bool)
        requires
            old(self).last_update matches Some(last) ==> last <= now,
        ensures
            due == update_check_due(now, old(self).last_update),
            final(self).last_update == (if due {
                Some(now)
            } else {
                old(self).last_update
            }),
            final(self).connection == old(self).connection,
            final(self).auth_info == old(self).auth_info,
            final(self).path == old(self).path,
            final(self).ignore_certs_cli == old(self).ignore_certs_cli,
            final(self).ignore_certs == old(self).ignore_certs,
            final(self).org == old(self).org,
            final(self).org_cli == old(self).org_cli,
    {
        let due = match self.last_update {
            None => true,
            Some(last) => now - last > 24 * 60 * 60,
        };
        if due {
            self.last_update = Some(now);
        }
        due
    }

    /// Check if certificates should be ignored.
    pub fn ignore_certs(&self) -> (b: bool)
        ensures
            b == (self.ignore_certs_cli || self.ignore_certs),
    {
        self.ignore_certs_cli || self.ignore_certs
    }

    /// Set the CLI `--ignore-certs` override value.
    pub fn set_ignore_certs_cli(&mut self, ignore_certs_cli: bool)
        ensures
            final(self).ignore_certs_cli == ignore_certs_cli,
            final(self).ignore_certs == old(self).ignore_certs,
            final(self).org == old(self).org,
            final(self).org_cli == old(self).org_cli,
    {
        self.ignore_certs_cli = ignore_certs_cli;
    }

    /// Check target organization: the CLI override, else the configured one.
    pub fn org(&self) -> (r: Option<&str>)
        ensures
            opt_str(r) == match self.org_cli {
                Some(o) => Some(o@),
                None => opt_view(self.org),
            },
    {
        match &self.org_cli {
            Some(o) => Some(o.as_str()),
            None => match &self.org {
                Some(o) => Some(o.as_str()),
                None => None,
            },
        }
    }

    /// Update the config organization.
    pub fn set_org(&mut self, org: Option<String>)
        ensures
            final(self).org == org,
            final(self).org_cli == old(self).org_cli,
            final(self).ignore_certs == old(self).ignore_certs,
            final(self).ignore_certs_cli == old(self).ignore_certs_cli,
    {
        self.org = org;
    }

    /// Takes the API key given in the environment: a non-empty key becomes
    /// the environment token; an empty one is ignored.
    pub fn use_env_api_key(&mut self, key: Option<String>) -> (r: ApiKeyOutcome)
        ensures
            match key {
                None => r == ApiKeyOutcome::NotPresent && final(self).auth_info.env_token == old(
                    self,
                ).auth_info.env_token,
                Some(k) => if k@.len() > 0 {
                    r == ApiKeyOutcome::Used && final(self).auth_info.env_token == Some(
                        RefreshToken(k),
                    )
                } else {
                    r == ApiKeyOutcome::Empty && final(self).auth_info.env_token == old(
                        self,
                    ).auth_info.env_token
                },
            },
            final(self).auth_info.offline_access == old(self).auth_info.offline_access,
            final(self).org == old(self).org,
    {
        match key {
            None => ApiKeyOutcome::NotPresent,
            Some(k) => if k.as_str().unicode_len() > 0 {
                self.auth_info.env_token = Some(RefreshToken(k));
                ApiKeyOutcome::Used
            } else {
                ApiKeyOutcome::Empty
            },
        }
    }
}

/// The settings file below a config directory.
pub open spec fn settings_file(config: Seq<char>) -> Seq<char> {
    path_join(path_join(config, "phylum"@), "settings.yaml"@)
}

/// The settings file path: `$XDG_CONFIG_HOME/phylum/settings.yaml` (the
/// variable's value is passed in).
pub fn get_home_settings_path(xdg_config_home: Option<String>) -> (r: Result<String, DirsError>)
    ensures
        exists|home: Option<Seq<char>>|
            match #[trigger] xdg_dir(opt_view(xdg_config_home), home, ".config"@) {
                Some(d) => r matches Ok(q) && q@ == settings_file(d),
                None => r is Err,
            },
{
    let ghost env = opt_view(xdg_config_home);
    let dir = config_dir(xdg_config_home);
    let ghost home = choose|home: Option<Seq<char>>|
        match #[trigger] xdg_dir(env, home, ".config"@) {
            Some(p) => dir matches Ok(q) && q@ == p,
            None => dir is Err,
        };
    match dir {
        Ok(d) => {
            let p = join_str(d.as_str(), "phylum");
            let r = join_str(p.as_str(), "settings.yaml");
            assert(match xdg_dir(env, home, ".config"@) {
                Some(dd) => Ok::<String, DirsError>(r) matches Ok(q) && q@ == settings_file(dd),
                None => false,
            });
            Ok(r)
        },
        Err(e) => Err(e),
    }
}

} // verus!
