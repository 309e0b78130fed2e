//! Where the settings file lives, and what loading it starts with.

use crate::config::app_config::AppConfig;
use crate::text::{push_char, push_str};
use vstd::prelude::*;

verus! {

/// The directory, under the user's configuration directory, that holds the
/// settings.
pub open spec fn app_dir_name() -> Seq<char> {
    "containertyrant"@
}

/// The name of the settings file.
pub open spec fn config_file_name() -> Seq<char> {
    "config.toml"@
}

/// `base` with the relative component `comp` appended, as `Path::join`
/// does: with a `/` between them unless `base` is empty or already ends
/// in `/`.
pub open spec fn path_join(base: Seq<char>, comp: Seq<char>) -> Seq<char> {
    if base.len() == 0 {
        comp
    } else if base.last() == '/' {
        base + comp
    } else {
        base + seq!['/'] + comp
    }
}

/// Knows where the settings are stored.
#[derive(Clone, Debug, PartialEq, Eq)]
pub struct ConfigManager {
    config_dir: String,
    config_path: String,
}

/// What loading the settings starts with.
#[derive(Clone, Debug, PartialEq, Eq)]
pub enum LoadStep {
    /// There is no settings file: these defaults are the settings, and they
    /// are to be written to the file.
    WriteDefaults(AppConfig),
    /// The settings file is to be read and parsed.
    ReadFile,
}

impl ConfigManager {
    /// The directory that holds the settings file.
    pub closed spec fn dir(self) -> Seq<char> {
        self.config_dir@
    }

    /// The path of the settings file.
    pub closed spec fn path(self) -> Seq<char> {
        self.config_path@
    }

    /// Appends `comp` to `base` as a path component.
    fn join(base: &str, comp: &str) -> (r: String)
        ensures
            r@ == path_join(base@, comp@),
    {
        let mut s = String::new();
        push_str(&mut s, base);
        let n = base.unicode_len();
        if n > 0 && base.get_char(n - 1) != '/' {
            push_char(&mut s, '/');
        }
        push_str(&mut s, comp);
        proof {
            if base@.len() > 0 && base@.last() != '/' {
                assert(s@ =~= base@ + seq!['/'] + comp@);
            } else {
                assert(s@ =~= path_join(base@, comp@));
            }
        }
        s
    }

    /// Settings kept in `containertyrant/config.toml` under the user's
    /// configuration directory, or under the working directory `.` when
    /// there is none.
    pub fn new_in(config_home: Option<String>) -> (m: ConfigManager)
        ensures
            m.dir() == path_join(
                match config_home {
                    Some(h) => h@,
                    None => "."@,
                },
                app_dir_name(),
            ),
            m.path() == path_join(m.dir(), config_file_name()),
    {
        let base = match config_home {
            Some(h) => h,
            None => String::from_str("."),
        };
        let config_dir = ConfigManager::join(base.as_str(), "containertyrant");
        let config_path = ConfigManager::join(config_dir.as_str(), "config.toml");
        ConfigManager { config_dir, config_path }
    }

    /// The directory that holds the settings file.
    pub fn config_dir(&self) -> (r: &str)
        ensures
            r@ == self.dir(),
    {
        self.config_dir.as_str()
    }

    /// The path of the settings file.
    pub fn config_path(&self) -> (r: &str)
        ensures
            r@ == self.path(),
    {
        self.config_path.as_str()
    }

    /// How loading goes on: without a settings file, with the defaults,
    /// which are to be saved; with one, by reading it.
    pub fn load_step(&self, file_exists: bool) -> (r: LoadStep)
        ensures
            file_exists ==> r is ReadFile,
            !file_exists ==> (r matches LoadStep::WriteDefaults(c) && c.is_default()),
    {
        if file_exists {
            LoadStep::ReadFile
        } else {
            LoadStep::WriteDefaults(AppConfig::default())
        }
    }
}

} // verus!
