//! Recognising the directory aliases that may stand in a configured path.

use vstd::prelude::*;

verus! {

/// A user directory that a path component may name by an alias.
#[derive(Debug, Clone, Copy, PartialEq, Eq, Structural)]
pub enum PathAlias {
    /// `$HOME`: the home directory.
    Home,
    /// `$XDG_CACHE_HOME`: the cache directory.
    CacheHome,
    /// `$XDG_CONFIG_HOME`: the configuration directory.
    ConfigHome,
    /// `$XDG_DATA_HOME`: the data directory.
    DataHome,
    /// `$XDG_BIN_HOME`: the directory of user executables (Linux only).
    BinHome,
}

/// The alias that the path component `component` is, if it is one.
pub open spec fn alias_of(component: Seq<char>) -> Option<PathAlias> {
    if component == "$HOME"@ {
        Some(PathAlias::Home)
    } else if component == "$XDG_CACHE_HOME"@ {
        Some(PathAlias::CacheHome)
    } else if component == "$XDG_CONFIG_HOME"@ {
        Some(PathAlias::ConfigHome)
    } else if component == "$XDG_DATA_HOME"@ {
        Some(PathAlias::DataHome)
    } else if component == "$XDG_BIN_HOME"@ {
        Some(PathAlias::BinHome)
    } else {
        None
    }
}

/// The alias that the path component `component` is, if it is one; any other
/// component is kept as it is.
pub fn path_alias(component: &str) -> (r: Option<PathAlias>)
    ensures
        r == alias_of(component@),
{
    let c = component.to_owned();
    if c == String::from_str("$HOME") {
        Some(PathAlias::Home)
    } else if c == String::from_str("$XDG_CACHE_HOME") {
        Some(PathAlias::CacheHome)
    } else if c == String::from_str("$XDG_CONFIG_HOME") {
        Some(PathAlias::ConfigHome)
    } else if c == String::from_str("$XDG_DATA_HOME") {
        Some(PathAlias::DataHome)
    } else if c == String::from_str("$XDG_BIN_HOME") {
        Some(PathAlias::BinHome)
    } else {
        None
    }
}

} // verus!
