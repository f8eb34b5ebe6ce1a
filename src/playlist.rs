//! Videos and playlists.

use crate::error::Error;
use crate::text::{before_first_t, date_part, decimal, decimal_text, double_tabs, join, join_with, tabs_doubled, views_of};
use crate::youtube_api::{take_text, text_or_empty, ResponseItem};
use vstd::prelude::*;

verus! {

/// Prefix of the watch URL of a single video.
pub const VIDEO_BASE_URL: &'static str = "https://www.youtube.com/watch?v=";

/// The watch URL of the video with id `id`.
pub open spec fn video_url(id: Seq<char>) -> Seq<char> {
    VIDEO_BASE_URL@ + id
}

/// A video reference together with the metadata fetched for it.
#[derive(Debug)]
pub struct Video {
    pub id: String,
    pub title: String,
    pub published_at: String,
    pub url: String,
    pub fetched: bool,
}

/// The mathematical value of a [`Video`].
pub struct VideoView {
    pub id: Seq<char>,
    pub title: Seq<char>,
    pub published_at: Seq<char>,
    pub url: Seq<char>,
    pub fetched: bool,
}

impl View for Video {
    type V = VideoView;

    open spec fn view(&self) -> VideoView {
        VideoView {
            id: self.id@,
            title: self.title@,
            published_at: self.published_at@,
            url: self.url@,
            fetched: self.fetched,
        }
    }
}

/// A video known only by its id: no metadata yet.
pub open spec fn unfetched_video(id: Seq<char>) -> VideoView {
    VideoView { id, title: Seq::empty(), published_at: Seq::empty(), url: video_url(id), fetched: false }
}

impl Video {
    /// A video known only by its id.
    pub fn unfetched(id: String) -> (r: Video)
        ensures
            r@ == unfetched_video(id@),
    {
        let mut video = Video {
            id,
            title: String::new(),
            published_at: String::new(),
            url: String::new(),
            fetched: false,
        };
        video.update_fields();
        video
    }

    /// Re-derives the fields that depend on others: `url` from `id`.
    pub fn update_fields(&mut self)
        ensures
            final(self)@ == (VideoView { url: video_url(old(self).id@), ..old(self)@ }),
    {
        let mut url = String::from_str(VIDEO_BASE_URL);
        url.append(self.id.as_str());
        self.url = url;
    }
}

impl From<String> for Video {
    fn from(id: String) -> (r: Video)
        ensures
            r@ == unfetched_video(id@),
    {
        Video::unfetched(id)
    }
}

impl vstd::std_specs::convert::FromSpecImpl<String> for Video {
    open spec fn obeys_from_spec() -> bool {
        false
    }

    open spec fn from_spec(id: String) -> Video {
        arbitrary()
    }
}

/// The video that a provider record describes: metadata taken over, absent fields empty.
pub open spec fn fetched_video(item: ResponseItem) -> VideoView {
    VideoView {
        id: item.id@,
        title: text_or_empty(item.snippet.title),
        published_at: text_or_empty(item.snippet.published_at),
        url: video_url(item.id@),
        fetched: true,
    }
}

impl From<ResponseItem> for Video {
    fn from(item: ResponseItem) -> (r: Video)
        ensures
            r@ == fetched_video(item),
    {
        let ResponseItem { kind: _, id, snippet } = item;
        let mut video = Video {
            id,
            title: take_text(snippet.title),
            published_at: take_text(snippet.published_at),
            url: String::new(),
            fetched: true,
        };
        video.update_fields();
        video
    }
}

impl vstd::std_specs::convert::FromSpecImpl<ResponseItem> for Video {
    open spec fn obeys_from_spec() -> bool {
        false
    }

    open spec fn from_spec(item: ResponseItem) -> Video {
        arbitrary()
    }
}

impl Default for Video {
    fn default() -> (r: Video)
        ensures
            r@ == unfetched_video(Seq::empty()),
    {
        Video::unfetched(String::new())
    }
}

/// How a video is shown: title, then id, publication date and URL on indented lines.
pub open spec fn video_text(v: VideoView) -> Seq<char> {
    v.title + "\n\tID: "@ + v.id + "\n\tPublished at: "@ + before_first_t(v.published_at) + "\n\tURL: "@ + v.url
}

impl Video {
    /// The video as shown to a user: its title, then its id, the date part of its
    /// publication time and its URL, each on an indented line.
    pub fn render(&self) -> (r: String)
        ensures
            r@ == video_text(self@),
    {
        let mut text = self.title.clone();
        text.append("\n\tID: ");
        text.append(self.id.as_str());
        text.append("\n\tPublished at: ");
        let date = date_part(self.published_at.as_str());
        text.append(date.as_str());
        text.append("\n\tURL: ");
        text.append(self.url.as_str());
        text
    }
}

/// Two videos are the same entity exactly when their ids agree.
impl PartialEq for Video {
    fn eq(&self, other: &Video) -> (r: bool) {
        self.id == other.id
    }
}

impl vstd::std_specs::cmp::PartialEqSpecImpl for Video {
    open spec fn obeys_eq_spec() -> bool {
        true
    }

    open spec fn eq_spec(&self, other: &Video) -> bool {
        self.id@ == other.id@
    }
}

/// Prefix of a playlist's watch URL; the ids follow, separated by commas.
pub const PLAYLIST_BASE_URL: &'static str = "http://www.youtube.com/watch_videos?video_ids=";

/// The ids of `videos`, in order.
pub open spec fn ids_of(videos: Seq<VideoView>) -> Seq<Seq<char>> {
    videos.map_values(|v: VideoView| v.id)
}

/// The watch URL of a playlist whose videos have the ids `ids`, in this order.
pub open spec fn playlist_url(ids: Seq<Seq<char>>) -> Seq<char> {
    PLAYLIST_BASE_URL@ + join_with(ids, ","@)
}

/// A named, ordered collection of videos with the fields derived from it.
#[derive(Debug)]
pub struct Playlist {
    pub title: String,
    pub num_items: usize,
    pub videos: Vec<Video>,
    pub url: String,
}

/// The mathematical value of a [`Playlist`].
pub struct PlaylistView {
    pub title: Seq<char>,
    pub num_items: nat,
    pub videos: Seq<VideoView>,
    pub url: Seq<char>,
}

impl View for Playlist {
    type V = PlaylistView;

    open spec fn view(&self) -> PlaylistView {
        PlaylistView {
            title: self.title@,
            num_items: self.num_items as nat,
            videos: self.videos@.map_values(|v: Video| v@),
            url: self.url@,
        }
    }
}

impl PlaylistView {
    /// This playlist with `videos` as its videos and the derived fields made to match.
    pub open spec fn with_videos(self, videos: Seq<VideoView>) -> PlaylistView {
        PlaylistView {
            title: self.title,
            num_items: videos.len(),
            videos,
            url: playlist_url(ids_of(videos)),
        }
    }

    /// The item count and the URL are those that the videos determine.
    pub open spec fn derived_consistent(self) -> bool {
        &&& self.num_items == self.videos.len()
        &&& self.url == playlist_url(ids_of(self.videos))
    }

    /// No two videos share an id.
    pub open spec fn ids_unique(self) -> bool {
        ids_of(self.videos).no_duplicates()
    }

    /// Every video's URL is the one its id determines.
    pub open spec fn video_urls_derived(self) -> bool {
        forall|i: int| 0 <= i < self.videos.len() ==> #[trigger] self.videos[i].url == video_url(self.videos[i].id)
    }

    /// All invariants of a playlist hold.
    pub open spec fn wf(self) -> bool {
        &&& self.derived_consistent()
        &&& self.ids_unique()
        &&& self.video_urls_derived()
    }
}

/// A playlist named `title` with no videos.
pub open spec fn empty_playlist(title: Seq<char>) -> PlaylistView {
    PlaylistView { title, num_items: 0, videos: Seq::empty(), url: playlist_url(Seq::empty()) }
}

impl Playlist {
    /// An empty playlist named `title`.
    pub fn new(title: &str) -> (r: Playlist)
        ensures
            r@ == empty_playlist(title@),
    {
        let mut playlist = Playlist {
            title: title.to_owned(),
            num_items: 0,
            videos: Vec::new(),
            url: String::new(),
        };
        playlist.update_fields();
        proof {
            assert(playlist@.videos =~= Seq::<VideoView>::empty());
        }
        playlist
    }

    /// Re-derives the fields that depend on the videos: the item count and the URL.
    pub fn update_fields(&mut self)
        ensures
            final(self).videos == old(self).videos,
            final(self)@ == old(self)@.with_videos(old(self)@.videos),
    {
        self.num_items = self.videos.len();
        self.url = self.compose_playlist_url();
    }

    /// The playlist's watch URL: the base URL followed by the comma-separated ids of its videos.
    pub fn compose_playlist_url(&self) -> (r: String)
        ensures
            r@ == playlist_url(ids_of(self@.videos)),
    {
        let ghost ids = ids_of(self@.videos);
        let mut url = String::from_str(PLAYLIST_BASE_URL);
        let mut i: usize = 0;
        while i < self.videos.len()
            invariant
                i <= self.videos.len(),
                ids == ids_of(self@.videos),
                url@ == PLAYLIST_BASE_URL@ + join_with(ids.subrange(0, i as int), ","@),
            decreases self.videos.len() - i,
        {
            if i > 0 {
                url.append(",");
                proof {
                    reveal_strlit(",");
                }
            }
            url.append(self.videos[i].id.as_str());
            proof {
                let next = ids.subrange(0, i + 1);
                assert(next.drop_last() =~= ids.subrange(0, i as int));
                assert(next.last() == self.videos@[i as int].id@);
                assert(url@ =~= PLAYLIST_BASE_URL@ + join_with(next, ","@));
            }
            i = i + 1;
        }
        proof {
            assert(ids.subrange(0, i as int) =~= ids);
        }
        url
    }
}

/// The ids of `ids` that are neither in `existing` nor repeat an earlier one of `ids`,
/// in their order in `ids`.
pub open spec fn fresh_ids(existing: Seq<Seq<char>>, ids: Seq<Seq<char>>) -> Seq<Seq<char>>
    decreases ids.len(),
{
    if ids.len() == 0 {
        Seq::empty()
    } else {
        let earlier = fresh_ids(existing, ids.drop_last());
        let id = ids.last();
        if existing.contains(id) || earlier.contains(id) {
            earlier
        } else {
            earlier.push(id)
        }
    }
}

/// `videos` followed by an unfetched video for each fresh id of `ids`.
pub open spec fn added(videos: Seq<VideoView>, ids: Seq<Seq<char>>) -> Seq<VideoView> {
    videos + fresh_ids(ids_of(videos), ids).map_values(|id: Seq<char>| unfetched_video(id))
}

/// The videos of `videos` whose id is not in `ids`, in order.
pub open spec fn retained(videos: Seq<VideoView>, ids: Seq<Seq<char>>) -> Seq<VideoView>
    decreases videos.len(),
{
    if videos.len() == 0 {
        Seq::empty()
    } else {
        let earlier = retained(videos.drop_last(), ids);
        if ids.contains(videos.last().id) {
            earlier
        } else {
            earlier.push(videos.last())
        }
    }
}

/// The ids of `videos` followed by unfetched videos are the ids followed by those ids.
pub proof fn lemma_ids_of_appended(videos: Seq<VideoView>, ids: Seq<Seq<char>>)
    ensures
        ids_of(videos + ids.map_values(|id: Seq<char>| unfetched_video(id))) == ids_of(videos) + ids,
{
    assert(ids_of(videos + ids.map_values(|id: Seq<char>| unfetched_video(id))) =~= ids_of(videos) + ids);
}

impl Playlist {
    /// Whether a video of the playlist has the id `id`.
    pub fn contains_id(&self, id: &String) -> (r: bool)
        ensures
            r == ids_of(self@.videos).contains(id@),
    {
        let mut i: usize = 0;
        while i < self.videos.len()
            invariant
                i <= self.videos.len(),
                forall|j: int| 0 <= j < i ==> ids_of(self@.videos)[j] != id@,
            decreases self.videos.len() - i,
        {
            if self.videos[i].id == *id {
                proof {
                    assert(ids_of(self@.videos)[i as int] == id@);
                }
                return true;
            }
            i = i + 1;
        }
        false
    }

    /// Adds an unfetched video for each id not yet in the playlist; an id repeated
    /// in `ids` counts once, at its first place. The new videos follow the old ones.
    pub fn add_videos(&mut self, ids: &[String])
        ensures
            final(self)@ == old(self)@.with_videos(added(old(self)@.videos, views_of(ids@))),
            final(self)@.derived_consistent(),
            old(self)@.wf() ==> final(self)@.wf(),
    {
        proof {
            lemma_with_videos_consistent(old(self)@, added(old(self)@.videos, views_of(ids@)));
            if old(self)@.wf() {
                lemma_add_keeps_wf(old(self)@, views_of(ids@));
            }
        }
        let ghost old_videos = self@.videos;
        let ghost wanted = views_of(ids@);
        let mut i: usize = 0;
        while i < ids.len()
            invariant
                i <= ids.len(),
                wanted == views_of(ids@),
                self@.title == old(self)@.title,
                self@.videos == added(old_videos, wanted.subrange(0, i as int)),
            decreases ids.len() - i,
        {
            let ghost fresh = fresh_ids(ids_of(old_videos), wanted.subrange(0, i as int));
            proof {
                lemma_ids_of_appended(old_videos, fresh);
                let next = wanted.subrange(0, i + 1);
                assert(next.drop_last() =~= wanted.subrange(0, i as int));
                assert(next.last() == ids@[i as int]@);
            }
            if !self.contains_id(&ids[i]) {
                let ghost id = ids@[i as int]@;
                proof {
                    if ids_of(old_videos).contains(id) {
                        let k = choose|k: int| 0 <= k < ids_of(old_videos).len() && ids_of(old_videos)[k] == id;
                        assert((ids_of(old_videos) + fresh)[k] == id);
                    }
                    if fresh.contains(id) {
                        let k = choose|k: int| 0 <= k < fresh.len() && fresh[k] == id;
                        assert((ids_of(old_videos) + fresh)[ids_of(old_videos).len() + k] == id);
                    }
                    assert(fresh_ids(ids_of(old_videos), wanted.subrange(0, i + 1)) == fresh.push(id));
                    assert(fresh.push(id).map_values(|x: Seq<char>| unfetched_video(x)) =~=
                        fresh.map_values(|x: Seq<char>| unfetched_video(x)).push(unfetched_video(id)));
                }
                let video = Video::unfetched(ids[i].clone());
                let ghost before = self@.videos;
                let ghost pushed = video@;
                self.videos.push(video);
                proof {
                    assert(self@.videos =~= before.push(pushed));
                    assert(self@.videos =~= added(old_videos, wanted.subrange(0, i + 1)));
                }
            }
            i = i + 1;
        }
        proof {
            assert(wanted.subrange(0, i as int) =~= wanted);
        }
        self.update_fields();
    }
}

/// Whether one of `ids` equals `id`.
pub fn ids_contain(ids: &[String], id: &String) -> (r: bool)
    ensures
        r == views_of(ids@).contains(id@),
{
    let mut i: usize = 0;
    while i < ids.len()
        invariant
            i <= ids.len(),
            forall|j: int| 0 <= j < i ==> views_of(ids@)[j] != id@,
        decreases ids.len() - i,
    {
        if ids[i] == *id {
            proof {
                assert(views_of(ids@)[i as int] == id@);
            }
            return true;
        }
        i = i + 1;
    }
    false
}

impl Playlist {
    /// Removes every video whose id is among `ids`; the others keep their order.
    /// An id that is not in the playlist changes nothing.
    pub fn remove_videos(&mut self, ids: &[String])
        ensures
            final(self)@ == old(self)@.with_videos(retained(old(self)@.videos, views_of(ids@))),
            final(self)@.derived_consistent(),
            old(self)@.wf() ==> final(self)@.wf(),
    {
        proof {
            lemma_with_videos_consistent(old(self)@, retained(old(self)@.videos, views_of(ids@)));
            if old(self)@.wf() {
                lemma_remove_keeps_wf(old(self)@, views_of(ids@));
            }
        }
        let ghost unwanted = views_of(ids@);
        let mut videos: Vec<Video> = Vec::new();
        std::mem::swap(&mut videos, &mut self.videos);
        let ghost all = videos@.map_values(|v: Video| v@);
        let mut kept: Vec<Video> = Vec::new();
        for video in it: videos
            invariant
                unwanted == views_of(ids@),
                all == it.seq().map_values(|v: Video| v@),
                kept@.map_values(|v: Video| v@) == retained(all.subrange(0, it.index()), unwanted),
        {
            let ghost seen = all.subrange(0, it.index());
            proof {
                assert(all.subrange(0, it.index() + 1).drop_last() =~= seen);
            }
            if !ids_contain(ids, &video.id) {
                let ghost before = kept@.map_values(|v: Video| v@);
                let ghost pushed = video@;
                kept.push(video);
                proof {
                    assert(kept@.map_values(|v: Video| v@) =~= before.push(pushed));
                }
            }
        }
        proof {
            assert(all.subrange(0, all.len() as int) =~= all);
        }
        self.videos = kept;
        self.update_fields();
    }
}

/// The ids of the videos of `videos` that have no metadata yet, in order.
pub open spec fn unfetched_ids_of(videos: Seq<VideoView>) -> Seq<Seq<char>>
    decreases videos.len(),
{
    if videos.len() == 0 {
        Seq::empty()
    } else if videos.last().fetched {
        unfetched_ids_of(videos.drop_last())
    } else {
        unfetched_ids_of(videos.drop_last()).push(videos.last().id)
    }
}

/// The videos of `videos` that already have metadata, in order.
pub open spec fn fetched_of(videos: Seq<VideoView>) -> Seq<VideoView>
    decreases videos.len(),
{
    if videos.len() == 0 {
        Seq::empty()
    } else if videos.last().fetched {
        fetched_of(videos.drop_last()).push(videos.last())
    } else {
        fetched_of(videos.drop_last())
    }
}

/// The videos after a complete answer `items`: those that had metadata, then one
/// video per record in the provider's order.
pub open spec fn reconciled(videos: Seq<VideoView>, items: Seq<ResponseItem>) -> Seq<VideoView> {
    fetched_of(videos) + items.map_values(|item: ResponseItem| fetched_video(item))
}

impl Playlist {
    /// The ids of the videos that still lack metadata, in playlist order:
    /// what a metadata request asks for.
    pub fn pending_ids(&self) -> (r: Vec<String>)
        ensures
            views_of(r@) == unfetched_ids_of(self@.videos),
    {
        let mut ids: Vec<String> = Vec::new();
        let mut i: usize = 0;
        while i < self.videos.len()
            invariant
                i <= self.videos.len(),
                views_of(ids@) == unfetched_ids_of(self@.videos.subrange(0, i as int)),
            decreases self.videos.len() - i,
        {
            proof {
                assert(self@.videos.subrange(0, i + 1).drop_last() =~= self@.videos.subrange(0, i as int));
            }
            if !self.videos[i].fetched {
                let ghost before = views_of(ids@);
                ids.push(self.videos[i].id.clone());
                proof {
                    assert(views_of(ids@) =~= before.push(self@.videos[i as int].id));
                }
            }
            i = i + 1;
        }
        proof {
            assert(self@.videos.subrange(0, i as int) =~= self@.videos);
        }
        ids
    }

    /// The number of videos that still lack metadata.
    pub fn pending_count(&self) -> (r: usize)
        ensures
            r == unfetched_ids_of(self@.videos).len(),
    {
        let mut count: usize = 0;
        let mut i: usize = 0;
        while i < self.videos.len()
            invariant
                i <= self.videos.len(),
                count == unfetched_ids_of(self@.videos.subrange(0, i as int)).len(),
                count <= i,
            decreases self.videos.len() - i,
        {
            proof {
                assert(self@.videos.subrange(0, i + 1).drop_last() =~= self@.videos.subrange(0, i as int));
            }
            if !self.videos[i].fetched {
                count = count + 1;
            }
            i = i + 1;
        }
        proof {
            assert(self@.videos.subrange(0, i as int) =~= self@.videos);
        }
        count
    }

    /// Merges the provider's answer `items` to a request for [`Self::pending_ids`].
    ///
    /// The answer must hold one record per requested id. If it does, the videos become
    /// those that already had metadata followed by one fetched video per record, in the
    /// provider's order. If not, the playlist is left exactly as it was and the error
    /// carries the number requested and the number received.
    pub fn merge_metadata(&mut self, items: Vec<ResponseItem>) -> (r: Result<(), Error>)
        ensures
            items.len() == unfetched_ids_of(old(self)@.videos).len() ==> {
                &&& r is Ok
                &&& final(self)@ == old(self)@.with_videos(reconciled(old(self)@.videos, items@))
            },
            items.len() != unfetched_ids_of(old(self)@.videos).len() ==> {
                &&& r == Err::<(), Error>(
                    Error::NotEnoughResponseItems(unfetched_ids_of(old(self)@.videos).len() as usize, items.len()),
                )
                &&& *final(self) == *old(self)
            },
            old(self)@.derived_consistent() ==> final(self)@.derived_consistent(),
    {
        proof {
            lemma_with_videos_consistent(old(self)@, reconciled(old(self)@.videos, items@));
        }
        let requested = self.pending_count();
        let fetched = items.len();
        if fetched != requested {
            return Err(Error::NotEnoughResponseItems(requested, fetched));
        }
        let mut videos: Vec<Video> = Vec::new();
        std::mem::swap(&mut videos, &mut self.videos);
        let ghost all = videos@.map_values(|v: Video| v@);
        let mut merged: Vec<Video> = Vec::new();
        for video in it: videos
            invariant
                all == it.seq().map_values(|v: Video| v@),
                merged@.map_values(|v: Video| v@) == fetched_of(all.subrange(0, it.index())),
        {
            proof {
                assert(all.subrange(0, it.index() + 1).drop_last() =~= all.subrange(0, it.index()));
            }
            if video.fetched {
                let ghost before = merged@.map_values(|v: Video| v@);
                let ghost pushed = video@;
                merged.push(video);
                proof {
                    assert(merged@.map_values(|v: Video| v@) =~= before.push(pushed));
                }
            }
        }
        proof {
            assert(all.subrange(0, all.len() as int) =~= all);
        }
        let ghost kept = fetched_of(all);
        let ghost records = items@;
        for item in it: items
            invariant
                records == it.seq(),
                merged@.map_values(|v: Video| v@) ==
                    kept + records.subrange(0, it.index()).map_values(|x: ResponseItem| fetched_video(x)),
        {
            let ghost before = merged@.map_values(|v: Video| v@);
            proof {
                assert(records.subrange(0, it.index() + 1).map_values(|x: ResponseItem| fetched_video(x)) =~=
                    records.subrange(0, it.index()).map_values(|x: ResponseItem| fetched_video(x)).push(
                        fetched_video(item)));
            }
            let video = Video::from(item);
            let ghost pushed = video@;
            merged.push(video);
            proof {
                assert(merged@.map_values(|v: Video| v@) =~= before.push(pushed));
            }
        }
        proof {
            assert(records.subrange(0, records.len() as int) =~= records);
        }
        self.videos = merged;
        self.update_fields();
        Ok(())
    }
}

/// How a video is shown inside a playlist: indented one step further.
pub open spec fn video_block(v: VideoView) -> Seq<char> {
    "\t"@ + tabs_doubled(video_text(v))
}

/// How a playlist is shown: title, item count, the videos separated by blank lines,
/// and the playlist URL.
pub open spec fn playlist_text(p: PlaylistView) -> Seq<char> {
    p.title + "\n----------\nlength: "@ + decimal(p.num_items) + "\nvideos: \n"@
        + join_with(p.videos.map_values(|v: VideoView| video_block(v)), "\n\n"@) + "\n\nplaylist URL: "@ + p.url
}

impl Playlist {
    /// The playlist as shown to a user: title, item count, each video, and the URL.
    pub fn render(&self) -> (r: String)
        ensures
            r@ == playlist_text(self@),
    {
        let mut blocks: Vec<String> = Vec::new();
        let mut i: usize = 0;
        while i < self.videos.len()
            invariant
                i <= self.videos.len(),
                views_of(blocks@) == self@.videos.subrange(0, i as int).map_values(|v: VideoView| video_block(v)),
            decreases self.videos.len() - i,
        {
            let shown = self.videos[i].render();
            let mut block = String::from_str("\t");
            let doubled = double_tabs(shown.as_str());
            block.append(doubled.as_str());
            let ghost before = views_of(blocks@);
            blocks.push(block);
            proof {
                assert(views_of(blocks@) =~= before.push(video_block(self@.videos[i as int])));
                assert(self@.videos.subrange(0, i + 1).map_values(|v: VideoView| video_block(v)) =~=
                    self@.videos.subrange(0, i as int).map_values(|v: VideoView| video_block(v)).push(
                        video_block(self@.videos[i as int])));
            }
            i = i + 1;
        }
        proof {
            assert(self@.videos.subrange(0, i as int) =~= self@.videos);
        }
        let mut text = self.title.clone();
        text.append("\n----------\nlength: ");
        let count = decimal_text(self.num_items);
        text.append(count.as_str());
        text.append("\nvideos: \n");
        let videos = join(blocks.as_slice(), "\n\n");
        text.append(videos.as_str());
        text.append("\n\nplaylist URL: ");
        text.append(self.url.as_str());
        text
    }
}

impl Default for Playlist {
    fn default() -> (r: Playlist)
        ensures
            r@ == empty_playlist("untitled"@),
    {
        Playlist::new("untitled")
    }
}

/// Two playlists are equal when title, item count and URL agree and their videos
/// are the same entities, in the same order.
impl PartialEq for Playlist {
    fn eq(&self, other: &Playlist) -> (r: bool) {
        if self.title != other.title || self.num_items != other.num_items || self.url != other.url {
            return false;
        }
        if self.videos.len() != other.videos.len() {
            proof {
                assert(ids_of(self@.videos).len() != ids_of(other@.videos).len());
            }
            return false;
        }
        let mut i: usize = 0;
        while i < self.videos.len()
            invariant
                i <= self.videos.len(),
                self.videos.len() == other.videos.len(),
                forall|j: int| 0 <= j < i ==> ids_of(self@.videos)[j] == ids_of(other@.videos)[j],
            decreases self.videos.len() - i,
        {
            if !self.videos[i].eq(&other.videos[i]) {
                proof {
                    assert(ids_of(self@.videos)[i as int] != ids_of(other@.videos)[i as int]);
                }
                return false;
            }
            i = i + 1;
        }
        proof {
            assert(ids_of(self@.videos) =~= ids_of(other@.videos));
        }
        true
    }
}

impl vstd::std_specs::cmp::PartialEqSpecImpl for Playlist {
    open spec fn obeys_eq_spec() -> bool {
        true
    }

    open spec fn eq_spec(&self, other: &Playlist) -> bool {
        &&& self.title@ == other.title@
        &&& self.num_items == other.num_items
        &&& ids_of(self@.videos) == ids_of(other@.videos)
        &&& self.url@ == other.url@
    }
}

/// Each fresh id occurs in `ids`, none is in `existing`, and none occurs twice;
/// every id of `ids` is in `existing` or among the fresh ones.
pub proof fn lemma_fresh_ids(existing: Seq<Seq<char>>, ids: Seq<Seq<char>>)
    ensures
        fresh_ids(existing, ids).no_duplicates(),
        forall|x: Seq<char>| #[trigger] fresh_ids(existing, ids).contains(x) ==> ids.contains(x) && !existing.contains(x),
        forall|x: Seq<char>| #[trigger] ids.contains(x) ==> existing.contains(x) || fresh_ids(existing, ids).contains(x),
    decreases ids.len(),
{
    if ids.len() > 0 {
        let rest = ids.drop_last();
        lemma_fresh_ids(existing, rest);
        let earlier = fresh_ids(existing, rest);
        let id = ids.last();
        assert forall|x: Seq<char>| #[trigger] ids.contains(x) implies existing.contains(x) || fresh_ids(existing, ids).contains(x) by {
            let k = choose|k: int| 0 <= k < ids.len() && ids[k] == x;
            let now = fresh_ids(existing, ids);
            let grew = !existing.contains(id) && !earlier.contains(id);
            if grew {
                assert(now == earlier.push(id));
                assert(now[earlier.len() as int] == id);
                assert forall|j: int| 0 <= j < earlier.len() implies now[j] == earlier[j] by {}
            } else {
                assert(now == earlier);
            }
            if k < ids.len() - 1 {
                assert(rest[k] == x);
                assert(rest.contains(x));
                if earlier.contains(x) {
                    let j = choose|j: int| 0 <= j < earlier.len() && earlier[j] == x;
                    if grew {
                        assert(now[j] == x);
                    }
                    assert(now.contains(x));
                }
            } else {
                assert(x == id);
                if earlier.contains(x) {
                    assert(now.contains(x));
                } else if !existing.contains(x) {
                    assert(now.contains(x));
                }
            }
        }
        assert forall|x: Seq<char>| #[trigger] fresh_ids(existing, ids).contains(x) implies ids.contains(x) && !existing.contains(x) by {
            if x == id {
                assert(ids[ids.len() - 1] == x);
            } else {
                let j = choose|j: int| 0 <= j < fresh_ids(existing, ids).len() && fresh_ids(existing, ids)[j] == x;
                if !existing.contains(id) && !earlier.contains(id) {
                    assert(earlier[j] == x);
                }
                assert(earlier.contains(x));
                let k = choose|k: int| 0 <= k < rest.len() && rest[k] == x;
                assert(ids[k] == x);
            }
        }
    }
}

/// A video sequence whose ids are unique and whose URLs are derived stays so when
/// fresh ids are added.
pub proof fn lemma_added_wf(videos: Seq<VideoView>, ids: Seq<Seq<char>>)
    requires
        ids_of(videos).no_duplicates(),
        forall|i: int| 0 <= i < videos.len() ==> #[trigger] videos[i].url == video_url(videos[i].id),
    ensures
        ids_of(added(videos, ids)).no_duplicates(),
        forall|i: int| 0 <= i < added(videos, ids).len() ==>
            #[trigger] added(videos, ids)[i].url == video_url(added(videos, ids)[i].id),
{
    let existing = ids_of(videos);
    let fresh = fresh_ids(existing, ids);
    lemma_fresh_ids(existing, ids);
    lemma_ids_of_appended(videos, fresh);
    let all = existing + fresh;
    let e = existing.len() as int;
    assert forall|i: int, j: int| 0 <= i < all.len() && 0 <= j < all.len() && i != j implies all[i] != all[j] by {
        if i < e && j < e {
            assert(all[i] == existing[i] && all[j] == existing[j]);
        } else if i >= e && j >= e {
            assert(all[i] == fresh[i - e] && all[j] == fresh[j - e]);
        } else if i < e {
            assert(all[i] == existing[i] && all[j] == fresh[j - e]);
            assert(fresh.contains(fresh[j - e]));
            assert(existing.contains(existing[i]));
        } else {
            assert(all[j] == existing[j] && all[i] == fresh[i - e]);
            assert(fresh.contains(fresh[i - e]));
            assert(existing.contains(existing[j]));
        }
    }
}

/// The videos kept by a removal are among those it started from.
pub proof fn lemma_retained_among(videos: Seq<VideoView>, ids: Seq<Seq<char>>)
    ensures
        forall|v: VideoView| #[trigger] retained(videos, ids).contains(v) ==> videos.contains(v),
    decreases videos.len(),
{
    if videos.len() > 0 {
        let rest = videos.drop_last();
        lemma_retained_among(rest, ids);
        assert forall|v: VideoView| #[trigger] retained(videos, ids).contains(v) implies videos.contains(v) by {
            let j = choose|j: int| 0 <= j < retained(videos, ids).len() && retained(videos, ids)[j] == v;
            if v == videos.last() {
                assert(videos[videos.len() - 1] == v);
            } else {
                assert(retained(rest, ids)[j] == v);
                assert(retained(rest, ids).contains(v));
                let k = choose|k: int| 0 <= k < rest.len() && rest[k] == v;
                assert(videos[k] == v);
            }
        }
    }
}

/// A video sequence whose ids are unique and whose URLs are derived stays so when
/// videos are removed.
pub proof fn lemma_retained_wf(videos: Seq<VideoView>, ids: Seq<Seq<char>>)
    requires
        ids_of(videos).no_duplicates(),
        forall|i: int| 0 <= i < videos.len() ==> #[trigger] videos[i].url == video_url(videos[i].id),
    ensures
        ids_of(retained(videos, ids)).no_duplicates(),
        forall|i: int| 0 <= i < retained(videos, ids).len() ==>
            #[trigger] retained(videos, ids)[i].url == video_url(retained(videos, ids)[i].id),
    decreases videos.len(),
{
    if videos.len() > 0 {
        let rest = videos.drop_last();
        let last = videos.last();
        assert(ids_of(rest) =~= ids_of(videos).drop_last());
        lemma_retained_wf(rest, ids);
        lemma_retained_among(rest, ids);
        let earlier = retained(rest, ids);
        if !ids.contains(last.id) {
            assert(ids_of(earlier.push(last)) =~= ids_of(earlier).push(last.id));
            assert forall|j: int| 0 <= j < earlier.len() implies ids_of(earlier)[j] != last.id by {
                assert(earlier.contains(earlier[j]));
                let k = choose|k: int| 0 <= k < rest.len() && rest[k] == earlier[j];
                assert(ids_of(videos)[k] == rest[k].id);
                assert(ids_of(videos)[videos.len() - 1] == last.id);
            }
            assert forall|i: int| 0 <= i < earlier.push(last).len() implies
                #[trigger] earlier.push(last)[i].url == video_url(earlier.push(last)[i].id) by {
                if i == earlier.len() {
                    assert(videos[videos.len() - 1] == last);
                } else {
                    assert(earlier[i] == earlier.push(last)[i]);
                }
            }
        }
    }
}

/// Every playlist state reached by adding videos is well formed, given a well-formed start.
pub proof fn lemma_add_keeps_wf(p: PlaylistView, ids: Seq<Seq<char>>)
    requires
        p.wf(),
    ensures
        p.with_videos(added(p.videos, ids)).wf(),
{
    lemma_added_wf(p.videos, ids);
}

/// Every playlist state reached by removing videos is well formed, given a well-formed start.
pub proof fn lemma_remove_keeps_wf(p: PlaylistView, ids: Seq<Seq<char>>)
    requires
        p.wf(),
    ensures
        p.with_videos(retained(p.videos, ids)).wf(),
{
    lemma_retained_wf(p.videos, ids);
}

/// Whatever the videos, the item count and the URL that a change leaves agree with them.
pub proof fn lemma_with_videos_consistent(p: PlaylistView, videos: Seq<VideoView>)
    ensures
        p.with_videos(videos).derived_consistent(),
        p.with_videos(videos).videos == videos,
        p.with_videos(videos).title == p.title,
{
}

/// Adding the same id twice leaves exactly one video with that id: after the first
/// addition the id is present once, and the second addition changes nothing.
pub proof fn lemma_add_same_id_twice(p: PlaylistView, id: Seq<char>)
    requires
        p.wf(),
    ensures
        ({
            let once = p.with_videos(added(p.videos, seq![id]));
            let twice = once.with_videos(added(once.videos, seq![id]));
            &&& twice == once
            &&& ids_of(twice.videos).contains(id)
            &&& ids_of(twice.videos).no_duplicates()
        }),
{
    let once = p.with_videos(added(p.videos, seq![id]));
    lemma_add_keeps_wf(p, seq![id]);
    lemma_fresh_ids(ids_of(p.videos), seq![id]);
    let fresh = fresh_ids(ids_of(p.videos), seq![id]);
    lemma_ids_of_appended(p.videos, fresh);
    assert(seq![id].contains(id)) by {
        assert(seq![id][0] == id);
    }
    let ids1 = ids_of(once.videos);
    assert(ids1.contains(id)) by {
        if ids_of(p.videos).contains(id) {
            let k = choose|k: int| 0 <= k < ids_of(p.videos).len() && ids_of(p.videos)[k] == id;
            assert(ids1[k] == id);
        } else {
            let k = choose|k: int| 0 <= k < fresh.len() && fresh[k] == id;
            assert(ids1[ids_of(p.videos).len() + k] == id);
        }
    }
    assert(seq![id].drop_last() =~= Seq::<Seq<char>>::empty());
    assert(fresh_ids(ids1, seq![id].drop_last()) == Seq::<Seq<char>>::empty());
    assert(seq![id].last() == id);
    assert(fresh_ids(ids1, seq![id]) =~= Seq::<Seq<char>>::empty());
    assert(added(once.videos, seq![id]) =~= once.videos);
}

/// Removing an id that no video has leaves a well-formed playlist unchanged.
pub proof fn lemma_remove_absent_id(p: PlaylistView, id: Seq<char>)
    requires
        p.wf(),
        !ids_of(p.videos).contains(id),
    ensures
        p.with_videos(retained(p.videos, seq![id])) == p,
{
    lemma_retained_absent(p.videos, id);
    assert(p.with_videos(p.videos) == p);
}

/// Removing an id that no video of `videos` has keeps every video.
pub proof fn lemma_retained_absent(videos: Seq<VideoView>, id: Seq<char>)
    requires
        !ids_of(videos).contains(id),
    ensures
        retained(videos, seq![id]) == videos,
    decreases videos.len(),
{
    if videos.len() > 0 {
        let rest = videos.drop_last();
        assert forall|k: int| 0 <= k < ids_of(rest).len() implies ids_of(rest)[k] != id by {
            assert(ids_of(videos)[k] == ids_of(rest)[k]);
        }
        lemma_retained_absent(rest, id);
        assert(ids_of(videos)[videos.len() - 1] == videos.last().id);
        assert(!seq![id].contains(videos.last().id)) by {
            if seq![id].contains(videos.last().id) {
                let k = choose|k: int| 0 <= k < 1 && seq![id][k] == videos.last().id;
                assert(seq![id][k] == id);
            }
        }
        assert(rest.push(videos.last()) =~= videos);
    }
}

} // verus!
