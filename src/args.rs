//! The operations a user can ask for, as plain values.

use vstd::prelude::*;

verus! {

/// A parsed command line.
#[derive(Debug)]
pub struct Arguments {
    /// Operation to perform.
    pub operation: Operation,
}

/// The operations on playlists.
#[derive(Debug)]
pub enum Operation {
    /// Create a new playlist.
    Create(CreateArgs),
    /// Add videos to an existing playlist.
    Add(ModifyArgs),
    /// Remove videos from an existing playlist.
    Remove(ModifyArgs),
    /// Print the URL of an existing playlist or of a list of ids.
    Print(PrintArgs),
}

/// What creating a playlist needs.
#[derive(Debug)]
pub struct CreateArgs {
    /// Title of the playlist.
    pub playlist_title: String,
    /// Ids of the videos to start with, if any.
    pub ids: Option<Vec<String>>,
}

/// What adding videos to or removing videos from a playlist needs.
#[derive(Debug)]
pub struct ModifyArgs {
    /// Title of the playlist.
    pub playlist_title: String,
    /// Ids of the videos.
    pub ids: Vec<String>,
}

/// What printing a playlist's URL needs: a title or a list of ids, exactly one of them.
#[derive(Debug)]
pub struct PrintArgs {
    /// Title of a stored playlist.
    pub playlist_title: Option<String>,
    /// Ids of videos that make up an unsaved playlist.
    pub ids: Option<Vec<String>>,
}

/// The playlist whose URL is printed.
#[derive(Debug)]
pub enum PrintSource {
    /// The stored playlist of this title.
    ByTitle(String),
    /// An unsaved playlist of these ids.
    ByIds(Vec<String>),
}

impl PrintArgs {
    /// The playlist to print, when exactly one of title and ids is given.
    pub fn source(self) -> (r: Option<PrintSource>)
        ensures
            (self.playlist_title is Some && self.ids is None) <==> r matches Some(PrintSource::ByTitle(_)),
            (self.playlist_title is None && self.ids is Some) <==> r matches Some(PrintSource::ByIds(_)),
            r matches Some(PrintSource::ByTitle(t)) ==> self.playlist_title == Some(t),
            r matches Some(PrintSource::ByIds(ids)) ==> self.ids == Some(ids),
    {
        match (self.playlist_title, self.ids) {
            (Some(title), None) => Some(PrintSource::ByTitle(title)),
            (None, Some(ids)) => Some(PrintSource::ByIds(ids)),
            _ => None,
        }
    }
}

impl Operation {
    /// Whether the operation's result is saved: creating, adding and removing are,
    /// printing is not.
    pub fn saves_result(&self) -> (r: bool)
        ensures
            r == !(self is Print),
    {
        !matches!(self, Operation::Print(_))
    }

    /// Whether the operation fetches metadata for the videos that lack it: creating and
    /// adding do.
    pub fn fetches_metadata(&self) -> (r: bool)
        ensures
            r == (self is Create || self is Add),
    {
        matches!(self, Operation::Create(_) | Operation::Add(_))
    }
}

} // verus!
