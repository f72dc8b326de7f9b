//! Putting the store together from the process's configuration.

use crate::persistence::{Persistence, ScheduleRecord};
use vstd::prelude::*;

verus! {

/// Why the process cannot start.
#[derive(Clone, Copy, Debug, PartialEq, Eq)]
pub enum ConfigurationError {
    /// No connection string for the database was given or configured.
    MissingDatabaseUrl,
}

/// The store for the database at `database_url`, or, where the caller names
/// none, at `configured_url`, the connection string of the process's
/// configuration. The store's working copy of the audit trail starts empty.
/// Without either connection string there is no store.
pub fn get_persistence_manager(
    database_url: Option<String>,
    configured_url: Option<String>,
) -> (manager: Result<Persistence, ConfigurationError>)
    ensures
        match manager {
            Ok(persistence) => {
                &&& persistence.records@ == Seq::<ScheduleRecord>::empty()
                &&& match database_url {
                    Some(url) => persistence.database_url == url,
                    None => configured_url == Some(persistence.database_url),
                }
            },
            Err(error) => error == ConfigurationError::MissingDatabaseUrl && database_url is None
                && configured_url is None,
        },
{
    let database_url = match database_url {
        Some(url) => Some(url),
        None => configured_url,
    };
    match database_url {
        Some(database_url) => Ok(Persistence { database_url, records: Vec::new() }),
        None => Err(ConfigurationError::MissingDatabaseUrl),
    }
}

} // verus!
