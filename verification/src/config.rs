use vstd::prelude::*;

use crate::text::{trim, trim_str};

verus! {

/// The folder in the user's home that holds the configuration file.
pub const CONFIG_DIR_NAME: &'static str = ".inventory";

/// The name of the configuration file.
pub const CONFIG_FILE_NAME: &'static str = "config.json";

/// The name of the application's database.
pub const DATABASE_NAME: &'static str = "inventory";

/// The address that the database server listens on.
pub const MONGO_HOST: &'static str = "127.0.0.1";

/// The port that the database server listens on.
pub const MONGO_PORT: u16 = 27017;

/// The connection string shown to the user.
pub const MONGO_URI: &'static str = "mongodb://127.0.0.1:27017/inventory";

/// The connection string that the driver uses.
pub const MONGO_DRIVER_URI: &'static str = "mongodb://127.0.0.1:27017/inventory?serverSelectionTimeoutMS=3000";

/// The most documents that a collection listing shows.
pub const DOCUMENT_LIMIT: i64 = 200;

/// The collection of parts.
pub const PARTS_COLLECTION: &'static str = "parts";

/// The collection of rejection reasons.
pub const REJECTIONS_COLLECTION: &'static str = "rejections";

/// The collection of preferences.
pub const PREFERENCES_COLLECTION: &'static str = "preferences";

/// The collection of inspection records.
pub const DATA_ENTRIES_COLLECTION: &'static str = "dataentries";

/// The saved configuration: the folder that holds the database, as the user gave it.
#[derive(Debug, Clone)]
pub struct AppConfig {
    pub db_path: String,
}

impl Default for AppConfig {
    fn default() -> (r: Self)
        ensures
            r.db_path@ == Seq::<char>::empty(),
    {
        AppConfig { db_path: String::new() }
    }
}

/// The state of the database shown to the user.
#[derive(Debug, Clone)]
pub struct MongoStatus {
    /// Whether a usable database folder is configured.
    pub configured: bool,
    /// The configured folder, when it is usable.
    pub db_path: Option<String>,
    /// The folder as it was saved.
    pub saved_db_path: String,
    pub config_path: String,
    /// Whether something listens on the database port.
    pub running: bool,
    pub connection_uri: String,
    pub database: String,
}

/// The saved database folder without surrounding whitespace, when there is one: the
/// path whose kind the caller checks on disk.
pub fn db_path_candidate(config: &AppConfig) -> (r: Option<String>)
    ensures
        r is Some <==> trim(config.db_path@).len() > 0,
        r matches Some(p) ==> p@ == trim(config.db_path@),
{
    let trimmed = trim_str(config.db_path.as_str());
    if trimmed.as_str().is_empty() {
        None
    } else {
        Some(trimmed)
    }
}

/// The configured database folder: the saved path without surrounding whitespace,
/// when it is not empty and `is_absolute_dir` (whether that trimmed path is absolute
/// and names an existing folder) holds.
pub fn configured_db_path(config: &AppConfig, is_absolute_dir: bool) -> (r: Option<String>)
    ensures
        r is Some <==> trim(config.db_path@).len() > 0 && is_absolute_dir,
        r matches Some(p) ==> p@ == trim(config.db_path@),
{
    match db_path_candidate(config) {
        Some(p) => if is_absolute_dir {
            Some(p)
        } else {
            None
        },
        None => None,
    }
}

/// The configuration that saves `db_path` as the database folder.
pub fn write_db_path_config(db_path: &str) -> (r: AppConfig)
    ensures
        r.db_path@ == db_path@,
{
    AppConfig { db_path: db_path.to_owned() }
}

/// The state of the database: `config` was read from `config_path`, `is_absolute_dir`
/// tells whether its trimmed folder is an absolute path of an existing folder, and
/// `running` whether something listens on the database port.
pub fn mongodb_status(config_path: String, config: AppConfig, is_absolute_dir: bool, running: bool) -> (r: MongoStatus)
    ensures
        r.configured <==> trim(config.db_path@).len() > 0 && is_absolute_dir,
        r.configured <==> r.db_path is Some,
        r.db_path matches Some(p) ==> p@ == trim(config.db_path@),
        r.saved_db_path == config.db_path,
        r.config_path == config_path,
        r.running == running,
        r.connection_uri@ == MONGO_URI@,
        r.database@ == DATABASE_NAME@,
{
    let db_path = configured_db_path(&config, is_absolute_dir);
    MongoStatus {
        configured: db_path.is_some(),
        db_path,
        saved_db_path: config.db_path,
        config_path,
        running,
        connection_uri: MONGO_URI.to_owned(),
        database: DATABASE_NAME.to_owned(),
    }
}

/// The database folder that the user chose, without surrounding whitespace; an empty
/// choice is refused.
pub fn chosen_db_folder(path: &str) -> (r: Result<String, String>)
    ensures
        r is Ok <==> trim(path@).len() > 0,
        r matches Ok(p) ==> p@ == trim(path@),
        r matches Err(m) ==> m@ == "Choose a MongoDB database folder"@,
{
    let trimmed = trim_str(path);
    if trimmed.as_str().is_empty() {
        Err("Choose a MongoDB database folder".to_owned())
    } else {
        Ok(trimmed)
    }
}

/// Refuses a chosen database folder that is not an absolute path.
pub fn require_absolute_folder(is_absolute: bool) -> (r: Result<(), String>)
    ensures
        r is Ok <==> is_absolute,
        r matches Err(m) ==> m@ == "MongoDB database folder must be an absolute path"@,
{
    if is_absolute {
        Ok(())
    } else {
        Err("MongoDB database folder must be an absolute path".to_owned())
    }
}

/// The collection that the user chose to list, without surrounding whitespace; an
/// empty choice is refused.
pub fn chosen_collection(collection: &str) -> (r: Result<String, String>)
    ensures
        r is Ok <==> trim(collection@).len() > 0,
        r matches Ok(p) ==> p@ == trim(collection@),
        r matches Err(m) ==> m@ == "Choose a collection"@,
{
    let trimmed = trim_str(collection);
    if trimmed.as_str().is_empty() {
        Err("Choose a collection".to_owned())
    } else {
        Ok(trimmed)
    }
}

/// The file that a report is saved to, without surrounding whitespace; an empty
/// choice is refused.
pub fn chosen_report_path(path: &str) -> (r: Result<String, String>)
    ensures
        r is Ok <==> trim(path@).len() > 0,
        r matches Ok(p) ==> p@ == trim(path@),
        r matches Err(m) ==> m@ == "Choose a file path"@,
{
    let trimmed = trim_str(path);
    if trimmed.as_str().is_empty() {
        Err("Choose a file path".to_owned())
    } else {
        Ok(trimmed)
    }
}

} // verus!
