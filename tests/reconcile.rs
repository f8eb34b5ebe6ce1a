use oxysound::error::Error;
use oxysound::playlist::{Playlist, Video};
use oxysound::youtube_api::{create_videos_request, ResponseItem, ResponseSnippet};

fn ids(list: &[&str]) -> Vec<String> {
    list.iter().map(|s| s.to_string()).collect()
}

fn snippet(title: Option<&str>, published_at: Option<&str>) -> ResponseSnippet {
    ResponseSnippet {
        published_at: published_at.map(String::from),
        channel_id: None,
        title: title.map(String::from),
        description: None,
        channel_title: None,
        tags: None,
        category_id: None,
    }
}

fn item(id: &str, title: Option<&str>, published_at: Option<&str>) -> ResponseItem {
    ResponseItem { kind: "youtube#video".into(), id: id.into(), snippet: snippet(title, published_at) }
}

fn sample() -> Playlist {
    let mut playlist = Playlist::new("mix");
    playlist.add_videos(&ids(&["a", "b", "c"]));
    let mut done = Video::from(item("b", Some("Bee"), Some("2020-01-02T03:04:05Z")));
    done.title = "Bee".into();
    playlist.videos[1] = done;
    playlist.update_fields();
    playlist
}

#[test]
fn pending_ids_are_the_unfetched_in_order() {
    let playlist = sample();
    assert_eq!(playlist.pending_ids(), ids(&["a", "c"]));
    assert_eq!(playlist.pending_count(), 2);
}

#[test]
fn short_answer_leaves_playlist_untouched() {
    let mut playlist = sample();
    let result = playlist.merge_metadata(vec![item("a", Some("Ay"), None)]);
    assert!(matches!(result, Err(Error::NotEnoughResponseItems(2, 1))));
    assert_eq!(playlist, sample());
    assert_eq!(playlist.videos[0].title, "");
    assert!(!playlist.videos[0].fetched);
    assert_eq!(playlist.url, "http://www.youtube.com/watch_videos?video_ids=a,b,c");
}

#[test]
fn long_answer_is_refused_too() {
    let mut playlist = sample();
    let result = playlist.merge_metadata(vec![item("a", None, None), item("c", None, None), item("d", None, None)]);
    assert!(matches!(result, Err(Error::NotEnoughResponseItems(2, 3))));
    assert_eq!(playlist, sample());
}

#[test]
fn complete_answer_appends_in_provider_order() {
    let mut playlist = sample();
    let result = playlist.merge_metadata(vec![
        item("c", Some("See"), Some("2021-05-06T07:08:09Z")),
        item("a", None, None),
    ]);
    assert!(result.is_ok());
    let order: Vec<String> = playlist.videos.iter().map(|v| v.id.clone()).collect();
    assert_eq!(order, ids(&["b", "c", "a"]));
    assert!(playlist.videos.iter().all(|v| v.fetched));
    assert_eq!(playlist.videos[0].title, "Bee");
    assert_eq!(playlist.videos[1].title, "See");
    assert_eq!(playlist.videos[1].published_at, "2021-05-06T07:08:09Z");
    assert_eq!(playlist.videos[1].url, "https://www.youtube.com/watch?v=c");
    assert_eq!(playlist.videos[2].title, "");
    assert_eq!(playlist.videos[2].published_at, "");
    assert_eq!(playlist.num_items, 3);
    assert_eq!(playlist.url, "http://www.youtube.com/watch_videos?video_ids=b,c,a");
    assert!(playlist.pending_ids().is_empty());
}

#[test]
fn nothing_pending_and_empty_answer_succeeds() {
    let mut playlist = Playlist::new("none");
    assert!(playlist.pending_ids().is_empty());
    assert!(playlist.merge_metadata(Vec::new()).is_ok());
    assert_eq!(playlist, Playlist::new("none"));
}

#[test]
fn video_from_record() {
    let video = Video::from(item("dQw4w9WgXcQ", Some("Never"), Some("2009-10-25T06:57:33Z")));
    assert_eq!(video.id, "dQw4w9WgXcQ");
    assert_eq!(video.title, "Never");
    assert_eq!(video.published_at, "2009-10-25T06:57:33Z");
    assert_eq!(video.url, "https://www.youtube.com/watch?v=dQw4w9WgXcQ");
    assert!(video.fetched);
}

#[test]
fn request_url_lists_ids_and_key() {
    let request = create_videos_request(&ids(&["dQw4w9WgXcQ"]), "KEY");
    assert_eq!(
        request,
        "https://youtube.googleapis.com/youtube/v3/videos?part=snippet%2CcontentDetails%2Cstatistics&id=dQw4w9WgXcQ&key=KEY"
    );
    let request = create_videos_request(&ids(&["dQw4w9WgXcQ", "y6120QOlsfU"]), "KEY");
    assert!(request.contains("&id=dQw4w9WgXcQ,y6120QOlsfU"));
    assert!(request.ends_with("&key=KEY"));
}
