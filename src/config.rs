//! The program's settings and the check that the required ones are present.

use crate::error::Error;
use vstd::prelude::*;

verus! {

/// Name under which the program's configuration is stored.
pub const APP_NAME: &'static str = "oxysound";

/// Name of the configuration file, without its extension.
pub const CONFIG_NAME: &'static str = "config";

/// Where playlists are saved unless configured otherwise.
pub const DEFAULT_SAVE_DIRECTORY: &'static str = "$XDG_DATA_HOME/oxysound/playlists";

/// The program's settings.
#[derive(Debug)]
pub struct Config {
    /// Credential for the metadata provider, e.g. "KiasdlLLkgUUIOOsd-7ASGkdskgT9ka9JlsdgkP".
    pub youtube_api_key: String,
    /// Directory of the saved playlists, e.g. "$XDG_DATA_HOME/oxysound/playlists".
    pub save_directory: String,
}

impl Default for Config {
    fn default() -> (r: Config)
        ensures
            r.youtube_api_key@ == Seq::<char>::empty(),
            r.save_directory@ == DEFAULT_SAVE_DIRECTORY@,
    {
        Config { youtube_api_key: String::new(), save_directory: String::from_str(DEFAULT_SAVE_DIRECTORY) }
    }
}

/// Relies on `confy::get_configuration_file_path`: the path of the configuration file
/// of `app_name` named `config_name`, or the error met while locating it. The path
/// depends on the user's home directory, so nothing is stated of it. It is valid
/// Unicode (confy refuses a directory that is not, and the file name is built from
/// `config_name`), so the conversion to a `String` loses nothing.
#[verifier::external_body]
fn configuration_file_path(app_name: &str, config_name: &str) -> (r: Result<String, confy::ConfyError>) {
    match confy::get_configuration_file_path(app_name, config_name) {
        Ok(path) => Ok(path.to_string_lossy().into_owned()),
        Err(e) => Err(e),
    }
}

/// What checking `config` gives when its configuration file lives at `path`.
pub open spec fn checked(config: Config, path: Seq<char>) -> Option<(Seq<char>, Seq<char>)> {
    if config.youtube_api_key@.len() == 0 {
        Some(("youtube_api_key"@, path))
    } else if config.save_directory@.len() == 0 {
        Some(("save_directory"@, path))
    } else {
        None
    }
}

impl Config {
    /// Returns the settings if every required one is present; otherwise names the first
    /// missing one (the provider credential, then the save directory) together with
    /// `config_file_path`, where it should be configured.
    pub fn check_values(self, config_file_path: String) -> (r: Result<Config, Error>)
        ensures
            checked(self, config_file_path@) is None ==> r == Ok::<Config, Error>(self),
            checked(self, config_file_path@) is Some ==> (r matches Err(Error::MissingConfig(setting, path))
                && (setting@, path@) == checked(self, config_file_path@)->Some_0),
    {
        if self.youtube_api_key.as_str().is_empty() {
            return Err(Error::MissingConfig(String::from_str("youtube_api_key"), config_file_path));
        }
        if self.save_directory.as_str().is_empty() {
            return Err(Error::MissingConfig(String::from_str("save_directory"), config_file_path));
        }
        Ok(self)
    }

    /// Returns the settings after making sure that every required one is present.
    /// The configuration file is located first, to name it in the error; failing to
    /// locate it is an error of its own.
    pub fn assert_values(self) -> (r: Result<Config, Error>)
        ensures
            r is Ok ==> r == Ok::<Config, Error>(self) && checked(self, Seq::empty()) is None,
            r matches Err(Error::MissingConfig(setting, path)) ==> checked(self, path@) == Some((setting@, path@)),
            r is Err ==> (r matches Err(Error::MissingConfig(_, _)) || r matches Err(Error::Config(_))),
            checked(self, Seq::empty()) is Some ==> r is Err,
    {
        match configuration_file_path(APP_NAME, CONFIG_NAME) {
            Ok(path) => self.check_values(path),
            Err(e) => Err(Error::Config(e)),
        }
    }
}

} // verus!
