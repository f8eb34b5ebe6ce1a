//! Curates named playlists of video ids, enriches them with fetched metadata
//! and describes how they are persisted.
//!
//! Every operation starts from a playlist that was loaded from storage, if one was
//! stored under the title, and leaves the playlist that is to be shown and saved.

pub mod args;
pub mod config;
pub mod error;
pub mod playlist;
pub mod text;
pub mod utils;
pub mod youtube_api;

use crate::args::PrintSource;
use crate::playlist::{added, empty_playlist, retained, Playlist, PlaylistView};
use crate::text::views_of;
use vstd::prelude::*;

verus! {

/// The state an operation starts from: the stored playlist if there was one,
/// else an empty playlist named `playlist_title`.
pub open spec fn starting_point(loaded: Option<Playlist>, playlist_title: Seq<char>) -> PlaylistView {
    match loaded {
        Some(p) => p@,
        None => empty_playlist(playlist_title),
    }
}

/// The stored playlist if there was one, else an empty playlist named `playlist_title`.
pub fn loaded_or_new(loaded: Option<Playlist>, playlist_title: &str) -> (r: Playlist)
    ensures
        r@ == starting_point(loaded, playlist_title@),
        loaded is Some ==> r == loaded->Some_0,
{
    match loaded {
        Some(playlist) => playlist,
        None => Playlist::new(playlist_title),
    }
}

/// A new playlist named `playlist_title` holding the videos `ids`, if any, each once.
pub fn create(playlist_title: &str, ids: Option<Vec<String>>) -> (r: Playlist)
    ensures
        r@ == empty_playlist(playlist_title@).with_videos(
            added(
                Seq::empty(),
                match ids {
                    Some(v) => views_of(v@),
                    None => Seq::empty(),
                },
            ),
        ),
{
    let mut playlist = Playlist::new(playlist_title);
    let ghost start = playlist@;
    match ids {
        Some(ids) => playlist.add_videos(ids.as_slice()),
        None => {
            proof {
                assert(start.videos =~= added(Seq::empty(), Seq::empty()));
            }
        },
    }
    playlist
}

/// Adds the videos `ids` to the stored playlist, or to a new one named `playlist_title`.
pub fn add(loaded: Option<Playlist>, playlist_title: &str, ids: &[String]) -> (r: Playlist)
    ensures
        r@ == starting_point(loaded, playlist_title@).with_videos(
            added(starting_point(loaded, playlist_title@).videos, views_of(ids@)),
        ),
{
    let mut playlist = loaded_or_new(loaded, playlist_title);
    playlist.add_videos(ids);
    playlist
}

/// Removes the videos `ids` from the stored playlist; with none stored, the result is
/// an empty playlist named `playlist_title`.
pub fn remove(loaded: Option<Playlist>, playlist_title: &str, ids: &[String]) -> (r: Playlist)
    ensures
        r@ == starting_point(loaded, playlist_title@).with_videos(
            retained(starting_point(loaded, playlist_title@).videos, views_of(ids@)),
        ),
{
    let mut playlist = loaded_or_new(loaded, playlist_title);
    playlist.remove_videos(ids);
    playlist
}

/// The playlist whose URL is printed: the stored one (or an empty one of that title),
/// or an untitled playlist of the given ids. `loaded` is only consulted for a title.
pub fn print(source: PrintSource, loaded: Option<Playlist>) -> (r: Playlist)
    ensures
        source matches PrintSource::ByTitle(t) ==> r@ == starting_point(loaded, t@),
        source matches PrintSource::ByIds(ids) ==> r@ == empty_playlist("untitled"@).with_videos(
            added(Seq::empty(), views_of(ids@)),
        ),
{
    match source {
        PrintSource::ByTitle(title) => loaded_or_new(loaded, title.as_str()),
        PrintSource::ByIds(ids) => {
            let mut playlist = Playlist::default();
            playlist.add_videos(ids.as_slice());
            playlist
        },
    }
}

} // verus!
