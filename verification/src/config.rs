//! Settings that a configuration file may override.

use vstd::prelude::*;

verus! {

/// The settings of the tool.
#[derive(Clone, Debug, PartialEq, Eq)]
pub struct Config {
    /// Whether progress is reported.
    pub verbose: bool,
    /// Whether the caller's whole environment is taken into the bottle.
    pub preserve_env: bool,
    /// What is appended to the host's name to name the bottle.
    pub suffix: String,
    /// Path of the program that unshares the namespaces.
    pub unshare: String,
    /// Path of the program that puts the init in the background.
    pub daemonize: String,
}

/// A [`Config`] with its texts as sequences of characters.
pub struct ConfigModel {
    pub verbose: bool,
    pub preserve_env: bool,
    pub suffix: Seq<char>,
    pub unshare: Seq<char>,
    pub daemonize: Seq<char>,
}

impl View for Config {
    type V = ConfigModel;

    open spec fn view(&self) -> ConfigModel {
        ConfigModel {
            verbose: self.verbose,
            preserve_env: self.preserve_env,
            suffix: self.suffix@,
            unshare: self.unshare@,
            daemonize: self.daemonize@,
        }
    }
}

/// Where the configuration file lies.
pub open spec fn config_path_model() -> Seq<char> {
    "/etc/djinn.cfg"@
}

/// The path of the configuration file.
pub fn config_path() -> (p: &'static str)
    ensures
        p@ == config_path_model(),
{
    "/etc/djinn.cfg"
}

/// The settings that hold where no configuration file says otherwise.
pub open spec fn default_config() -> ConfigModel {
    ConfigModel {
        verbose: false,
        preserve_env: false,
        suffix: "-wsl"@,
        unshare: "/usr/bin/unshare"@,
        daemonize: "/usr/sbin/daemonize"@,
    }
}

impl Default for Config {
    fn default() -> (c: Config)
        ensures
            c@ == default_config(),
    {
        Config {
            verbose: false,
            preserve_env: false,
            suffix: "-wsl".to_owned(),
            unshare: "/usr/bin/unshare".to_owned(),
            daemonize: "/usr/sbin/daemonize".to_owned(),
        }
    }
}

impl Config {
    /// A copy of these settings.
    pub fn duplicate(&self) -> (c: Config)
        ensures
            c@ == self@,
    {
        Config {
            verbose: self.verbose,
            preserve_env: self.preserve_env,
            suffix: self.suffix.clone(),
            unshare: self.unshare.clone(),
            daemonize: self.daemonize.clone(),
        }
    }
}

} // verus!
