//! The configuration held by the program and where it is stored.

use vstd::prelude::*;
use crate::paths::{join, join_exec};
use crate::text::{opt_view, owned, string_views};
use crate::types::{is_default_config, Config};

verus! {

/// File name of the configuration in the current directory.
pub const LOCAL_CONFIG_FILE: &'static str = "triplewrapper.toml";

/// `<config dir>/triplewrapper/config.toml`.
pub open spec fn user_config_file(config_dir: Seq<char>) -> Seq<char> {
    join(join(config_dir, "triplewrapper"@), "config.toml"@)
}

/// Where a configuration may be found, in order of preference: the user
/// configuration directory (when known), then the current directory.
pub fn config_candidates(config_dir: Option<&str>) -> (r: Vec<String>)
    ensures
        string_views(r@) == match config_dir {
            Some(d) => seq![user_config_file(d@), LOCAL_CONFIG_FILE@],
            None => seq![LOCAL_CONFIG_FILE@],
        },
{
    let mut r: Vec<String> = Vec::new();
    match config_dir {
        Some(d) => {
            let dir = join_exec(d, "triplewrapper");
            r.push(join_exec(dir.as_str(), "config.toml"));
        },
        None => {},
    }
    r.push(owned(LOCAL_CONFIG_FILE));
    proof {
        match config_dir {
            Some(d) => assert(string_views(r@) =~= seq![user_config_file(d@), LOCAL_CONFIG_FILE@]),
            None => assert(string_views(r@) =~= seq![LOCAL_CONFIG_FILE@]),
        }
    }
    r
}

/// The configuration and the file it came from.
pub struct ConfigManager {
    config: Config,
    config_path: Option<String>,
}

impl ConfigManager {
    pub closed spec fn config_spec(&self) -> Config {
        self.config
    }

    pub closed spec fn path_spec(&self) -> Option<Seq<char>> {
        match self.config_path {
            Some(p) => Some(p@),
            None => None,
        }
    }

    /// A manager for a configuration as loaded from `config_path` (`None`
    /// when it came from defaults and the environment only).
    pub fn load(config: Config, config_path: Option<String>) -> (m: Self)
        ensures
            m.config_spec() == config,
            m.path_spec() == match config_path {
                Some(p) => Some(p@),
                None => None::<Seq<char>>,
            },
    {
        ConfigManager { config, config_path }
    }

    /// The current configuration.
    pub fn get(&self) -> (r: &Config)
        ensures
            *r == self.config_spec(),
    {
        &self.config
    }

    /// The current configuration, for changing it in place.
    pub fn get_mut(&mut self) -> (r: &mut Config)
        ensures
            *r == old(self).config_spec(),
            final(self).config_spec() == *final(r),
            final(self).path_spec() == old(self).path_spec(),
    {
        &mut self.config
    }

    /// Back to the default configuration (the file stays the same).
    pub fn reset(&mut self)
        ensures
            is_default_config(final(self).config_spec()),
            final(self).path_spec() == old(self).path_spec(),
    {
        self.config = Config::default();
    }

    /// The file the configuration came from, if any.
    pub fn config_path(&self) -> (r: Option<&str>)
        ensures
            opt_view(r) == self.path_spec(),
    {
        match &self.config_path {
            Some(p) => Some(p.as_str()),
            None => None,
        }
    }

    /// Where `save` writes: the file the configuration came from, else
    /// `<config dir or .>/triplewrapper/config.toml`.
    pub fn save_path(&self, config_dir: Option<&str>) -> (r: String)
        ensures
            r@ == match self.path_spec() {
                Some(p) => p,
                None => user_config_file(
                    match config_dir {
                        Some(d) => d@,
                        None => "."@,
                    },
                ),
            },
    {
        match &self.config_path {
            Some(p) => owned(p.as_str()),
            None => {
                let base = match config_dir {
                    Some(d) => d,
                    None => ".",
                };
                let dir = join_exec(base, "triplewrapper");
                join_exec(dir.as_str(), "config.toml")
            },
        }
    }
}

impl Default for ConfigManager {
    fn default() -> (m: Self)
        ensures
            is_default_config(m.config_spec()),
            m.path_spec() is None,
    {
        ConfigManager { config: Config::default(), config_path: None }
    }
}

} // verus!
