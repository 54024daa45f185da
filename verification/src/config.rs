//! Resolution of the run's configuration from the environment's values.
//!
//! The binary reads the `TRSO_*` environment variables and the current
//! directory and hands their raw values in; every decision about them is
//! made here. A DSN, when present, wins and implies a remote connection;
//! otherwise `TRSO_LOCAL` selects a local file database (no token needed)
//! or a remote one, which requires both URL and token.

use vstd::prelude::*;

verus! {

use crate::dsn::DsnOutcome;
use crate::dsn::msg_empty_token;
use crate::dsn::msg_missing_base;
use crate::dsn::msg_missing_query;
use crate::dsn::msg_missing_token;
use crate::dsn::parse_dsn;
use crate::dsn::parse_dsn_spec;
use vstd::string::StringExecFns;

/// Everything the binary needs to open the connection and find the
/// migration files.
pub struct Config {
    pub url_or_path: String,
    pub local: bool,
    pub token: String,
    pub migrations_path: String,
}

pub struct ConfigV {
    pub url_or_path: Seq<char>,
    pub local: bool,
    pub token: Seq<char>,
    pub migrations_path: Seq<char>,
}

impl View for Config {
    type V = ConfigV;

    open spec fn view(&self) -> ConfigV {
        ConfigV {
            url_or_path: self.url_or_path@,
            local: self.local,
            token: self.token@,
            migrations_path: self.migrations_path@,
        }
    }
}

/// Why no configuration could be resolved. Each case is fatal: the
/// binary reports it and exits, as the missing value cannot be invented.
#[derive(Debug)]
pub enum ConfigError {
    /// `TRSO_DSN` is set but malformed; carries the parse error.
    BadDsn(String),
    /// `TRSO_LOCAL` is set but neither `true` nor `false`.
    BadLocal,
    /// Without a DSN, `TRSO_PATH_URL` must be set.
    MissingUrl,
    /// A remote connection without `TRSO_TOKEN`.
    MissingToken,
}

pub enum ConfigErrorV {
    BadDsn(Seq<char>),
    BadLocal,
    MissingUrl,
    MissingToken,
}

impl View for ConfigError {
    type V = ConfigErrorV;

    open spec fn view(&self) -> ConfigErrorV {
        match self {
            ConfigError::BadDsn(m) => ConfigErrorV::BadDsn(m@),
            ConfigError::BadLocal => ConfigErrorV::BadLocal,
            ConfigError::MissingUrl => ConfigErrorV::MissingUrl,
            ConfigError::MissingToken => ConfigErrorV::MissingToken,
        }
    }
}

/// `true`/`false`, exactly; anything else is no boolean.
pub open spec fn bool_of_str(s: Seq<char>) -> Option<bool> {
    if s == "true"@ {
        Some(true)
    } else if s == "false"@ {
        Some(false)
    } else {
        None
    }
}

/// Where the migration files live when `TRSO_MIGRATIONS_PATH` is unset:
/// the `migrations` directory under the current one.
pub open spec fn default_migrations_dir(cwd: Seq<char>) -> Seq<char> {
    cwd + "/migrations"@
}

/// Complete model of `resolve_config`.
pub open spec fn resolve_config_spec(
    dsn: Option<Seq<char>>,
    local: Option<Seq<char>>,
    path_url: Option<Seq<char>>,
    token: Option<Seq<char>>,
    migrations_path: Option<Seq<char>>,
    cwd: Seq<char>,
) -> Result<ConfigV, ConfigErrorV> {
    let mp = match migrations_path {
        Some(p) => p,
        None => default_migrations_dir(cwd),
    };
    match dsn {
        Some(d) => match parse_dsn_spec(d) {
            DsnOutcome::Parsed { base, token: t } => Ok(
                ConfigV { url_or_path: base, local: false, token: t, migrations_path: mp },
            ),
            DsnOutcome::MissingBase => Err(ConfigErrorV::BadDsn(msg_missing_base())),
            DsnOutcome::MissingQuery => Err(ConfigErrorV::BadDsn(msg_missing_query())),
            DsnOutcome::EmptyToken => Err(ConfigErrorV::BadDsn(msg_empty_token())),
            DsnOutcome::MissingToken => Err(ConfigErrorV::BadDsn(msg_missing_token())),
        },
        None => {
            let is_local = match local {
                Some(l) => bool_of_str(l),
                None => Some(false),
            };
            match is_local {
                None => Err(ConfigErrorV::BadLocal),
                Some(loc) => match path_url {
                    None => Err(ConfigErrorV::MissingUrl),
                    Some(u) => if loc {
                        Ok(
                            ConfigV {
                                url_or_path: u,
                                local: true,
                                token: Seq::empty(),
                                migrations_path: mp,
                            },
                        )
                    } else {
                        match token {
                            None => Err(ConfigErrorV::MissingToken),
                            Some(t) => Ok(
                                ConfigV {
                                    url_or_path: u,
                                    local: false,
                                    token: t,
                                    migrations_path: mp,
                                },
                            ),
                        }
                    },
                },
            }
        },
    }
}

/// The spec-level value of a resolution result.
pub open spec fn config_result_v(r: Result<Config, ConfigError>) -> Result<
    ConfigV,
    ConfigErrorV,
> {
    match r {
        Ok(c) => Ok(c@),
        Err(e) => Err(e@),
    }
}

/// Resolves the configuration from the environment's raw values, as
/// `resolve_config_spec` describes. `None` stands for an unset variable.
pub fn resolve_config(
    dsn: Option<String>,
    local: Option<String>,
    path_url: Option<String>,
    token: Option<String>,
    migrations_path: Option<String>,
    cwd: String,
) -> (r: Result<Config, ConfigError>)
    ensures
        config_result_v(r) == resolve_config_spec(
            dsn.deep_view(),
            local.deep_view(),
            path_url.deep_view(),
            token.deep_view(),
            migrations_path.deep_view(),
            cwd@,
        ),
{
    let mp: String = match migrations_path {
        Some(p) => p,
        None => cwd.concat("/migrations"),
    };
    match dsn {
        Some(d) => match parse_dsn(d.as_str()) {
            Ok(pair) => Ok(
                Config {
                    url_or_path: pair.0,
                    local: false,
                    token: pair.1,
                    migrations_path: mp,
                },
            ),
            Err(m) => Err(ConfigError::BadDsn(m)),
        },
        None => {
            let loc: Option<bool> = match local {
                Some(l) => {
                    if l == "true".to_owned() {
                        Some(true)
                    } else if l == "false".to_owned() {
                        Some(false)
                    } else {
                        None
                    }
                },
                None => Some(false),
            };
            match loc {
                None => Err(ConfigError::BadLocal),
                Some(is_local) => match path_url {
                    None => Err(ConfigError::MissingUrl),
                    Some(u) => {
                        if is_local {
                            Ok(
                                Config {
                                    url_or_path: u,
                                    local: true,
                                    token: String::new(),
                                    migrations_path: mp,
                                },
                            )
                        } else {
                            match token {
                                None => Err(ConfigError::MissingToken),
                                Some(t) => Ok(
                                    Config {
                                        url_or_path: u,
                                        local: false,
                                        token: t,
                                        migrations_path: mp,
                                    },
                                ),
                            }
                        }
                    },
                },
            }
        },
    }
}

} // verus!
