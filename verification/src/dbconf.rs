//! Selection of the persistence backend's connection settings.

use vstd::prelude::*;

verus! {

use vstd::string::StringExecFns;

/// The store's backend kind and connection string.
pub struct DbConfig {
    pub db_type: String,
    pub url: String,
}

impl DbConfig {
    /// Resolves the configuration: an explicit argument wins, then the
    /// environment's value, then the default (`sqlite`, and the local
    /// database file).
    pub fn from_args(
        db_type: Option<&str>,
        db_url: Option<&str>,
        env_db_type: Option<&str>,
        env_db_url: Option<&str>,
    ) -> (c: DbConfig)
        ensures
            c.db_type@ == (match db_type {
                Some(t) => t@,
                None => match env_db_type {
                    Some(t) => t@,
                    None => "sqlite"@,
                },
            }),
            c.url@ == (match db_url {
                Some(u) => u@,
                None => match env_db_url {
                    Some(u) => u@,
                    None => "sqlite://database/monitor_ai.db"@,
                },
            }),
    {
        let db_type_s = match db_type {
            Some(t) => String::from_str(t),
            None => match env_db_type {
                Some(t) => String::from_str(t),
                None => String::from_str("sqlite"),
            },
        };
        let url_s = match db_url {
            Some(u) => String::from_str(u),
            None => match env_db_url {
                Some(u) => String::from_str(u),
                None => String::from_str("sqlite://database/monitor_ai.db"),
            },
        };
        DbConfig { db_type: db_type_s, url: url_s }
    }
}

} // verus!
