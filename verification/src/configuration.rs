//! Where the store is kept, and whether it is ready.

use vstd::prelude::*;
use vstd::string::*;
use crate::text::{chars_of, contains, has_part};

verus! {

/// Why the tool cannot start.
#[derive(Debug, Clone, Copy, PartialEq, Eq, Structural)]
pub enum ConfigError {
    /// The store was never set up.
    Uninitialized,
}

impl ConfigError {
    /// The error in words.
    pub fn message(&self) -> (text: &'static str)
        ensures
            text@ == "Dips is not initialized yet"@,
    {
        "Dips is not initialized yet"
    }
}

/// What the tool was built for.
#[derive(Debug, Clone, Copy, PartialEq, Eq, Structural)]
pub enum Environment {
    Development,
    Production,
}

impl Environment {
    /// The environment of a build: development where the build checks its
    /// debug assertions, production where it does not.
    pub fn current(debug_assertions: bool) -> (env: Self)
        ensures
            env == if debug_assertions {
                Environment::Development
            } else {
                Environment::Production
            },
    {
        if debug_assertions {
            Environment::Development
        } else {
            Environment::Production
        }
    }
}

/// What the settings are built from, as it was found around the process.
#[derive(Debug, PartialEq, Eq)]
pub struct Surroundings {
    /// The value of the variable `DEBUG_DB_PATH`, if it is set.
    pub debug_db_path: Option<String>,
    /// The home directory of the user, if it is known.
    pub home_dir: Option<String>,
}

/// A path with one more component behind it, a slash between the two
/// unless the path is empty or ends in one.
pub open spec fn joined(base: Seq<char>, name: Seq<char>) -> Seq<char> {
    if base.len() == 0 || base.last() == '/' {
        base + name
    } else {
        base + seq!['/'] + name
    }
}

/// Where the store is kept: in development at the path that the
/// surroundings name, or in the file `dips.db` of the working directory; in
/// production in the file `dips.db` of the directory `.dips` of the home
/// directory.
pub open spec fn store_path(
    env: Environment,
    debug_db_path: Option<Seq<char>>,
    home_dir: Option<Seq<char>>,
) -> Seq<char> {
    match env {
        Environment::Development => match debug_db_path {
            Some(path) => path,
            None => "dips.db"@,
        },
        Environment::Production => joined(joined(home_dir->Some_0, ".dips"@), "dips.db"@),
    }
}

/// A path with one more component behind it.
pub fn join_path(base: &str, name: &str) -> (path: String)
    ensures
        path@ == joined(base@, name@),
{
    let chars = chars_of(base);
    let mut path = base.to_string();
    if chars.len() > 0 && chars[chars.len() - 1] != '/' {
        path.push('/');
    }
    path.append(name);
    path
}

/// The settings of the store.
#[derive(Debug, PartialEq, Eq)]
pub struct DatabaseSettings {
    /// The path of the file of the store, or `:memory:`.
    pub path: String,
}

impl DatabaseSettings {
    /// The settings of the store for an environment. In production the
    /// home directory has to be known.
    pub fn build(env: &Environment, around: &Surroundings) -> (settings: Self)
        requires
            *env == Environment::Production ==> around.home_dir is Some,
        ensures
            settings.path@ == store_path(
                *env,
                around.debug_db_path.deep_view(),
                around.home_dir.deep_view(),
            ),
    {
        let path = match env {
            Environment::Development => match &around.debug_db_path {
                Some(path) => path.clone(),
                None => "dips.db".to_string(),
            },
            Environment::Production => {
                let home = around.home_dir.as_ref().unwrap();
                let dir = join_path(home.as_str(), ".dips");
                join_path(dir.as_str(), "dips.db")
            },
        };
        Self { path }
    }

    /// The settings of the store for an environment, or nothing where the
    /// environment is production and the home directory is not known.
    pub fn try_build(env: &Environment, around: &Surroundings) -> (settings: Option<Self>)
        ensures
            match settings {
                Some(settings) => {
                    &&& *env == Environment::Production ==> around.home_dir is Some
                    &&& settings.path@ == store_path(
                        *env,
                        around.debug_db_path.deep_view(),
                        around.home_dir.deep_view(),
                    )
                },
                None => *env == Environment::Production && around.home_dir is None,
            },
    {
        match (env, &around.home_dir) {
            (Environment::Production, None) => None,
            _ => Some(DatabaseSettings::build(env, around)),
        }
    }

    /// The address under which the store is opened.
    pub fn connection_string(&self) -> (address: String)
        ensures
            address@ == "sqlite://"@ + self.path@,
    {
        let mut address = "sqlite://".to_string();
        address.append(self.path.as_str());
        address
    }

    /// Whether the store is kept in memory only.
    pub fn in_memory(&self) -> (r: bool)
        ensures
            r == contains(self.path@, ":memory:"@),
    {
        has_part(self.path.as_str(), ":memory:")
    }
}

/// The settings of the tool.
#[derive(Debug, PartialEq, Eq)]
pub struct Settings {
    pub database: DatabaseSettings,
}

impl Settings {
    /// The settings for an environment. In production the home directory
    /// has to be known.
    pub fn build(env: &Environment, around: &Surroundings) -> (settings: Self)
        requires
            *env == Environment::Production ==> around.home_dir is Some,
        ensures
            settings.database.path@ == store_path(
                *env,
                around.debug_db_path.deep_view(),
                around.home_dir.deep_view(),
            ),
    {
        let database = DatabaseSettings::build(env, around);
        Self { database }
    }
}

/// Whether the store can be opened: a store in memory always can, a store
/// in a file only where the file exists.
pub fn ensure_initialized(config: &Settings, file_exists: bool) -> (r: Result<(), ConfigError>)
    ensures
        r is Ok <==> contains(config.database.path@, ":memory:"@) || file_exists,
        r is Err ==> r == Err::<(), ConfigError>(ConfigError::Uninitialized),
{
    if !config.database.in_memory() && !file_exists {
        return Err(ConfigError::Uninitialized);
    }
    Ok(())
}

} // verus!
