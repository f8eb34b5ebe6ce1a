use oxysound::playlist::{Playlist, Video};

fn ids(list: &[&str]) -> Vec<String> {
    list.iter().map(|s| s.to_string()).collect()
}

fn video_ids(playlist: &Playlist) -> Vec<String> {
    playlist.videos.iter().map(|v| v.id.clone()).collect()
}

fn assert_derived(playlist: &Playlist) {
    assert_eq!(playlist.num_items, playlist.videos.len());
    assert_eq!(playlist.url, playlist.compose_playlist_url());
    for video in &playlist.videos {
        assert_eq!(video.url, format!("https://www.youtube.com/watch?v={}", video.id));
    }
}

#[test]
fn adding_same_id_twice_keeps_one_entry() {
    let mut playlist = Playlist::new("test");
    playlist.add_videos(&ids(&["x"]));
    playlist.add_videos(&ids(&["x"]));
    assert_eq!(video_ids(&playlist), ids(&["x"]));
    assert_eq!(playlist.num_items, 1);
    assert_eq!(playlist.url, "http://www.youtube.com/watch_videos?video_ids=x");
}

#[test]
fn duplicates_within_one_call_count_once_first_wins() {
    let mut playlist = Playlist::new("test");
    playlist.add_videos(&ids(&["a", "b", "a", "c", "b"]));
    assert_eq!(video_ids(&playlist), ids(&["a", "b", "c"]));
    playlist.add_videos(&ids(&["c", "d", "a"]));
    assert_eq!(video_ids(&playlist), ids(&["a", "b", "c", "d"]));
    assert_eq!(playlist.url, "http://www.youtube.com/watch_videos?video_ids=a,b,c,d");
}

#[test]
fn added_videos_are_unfetched() {
    let mut playlist = Playlist::new("test");
    playlist.add_videos(&ids(&["abc"]));
    let video = &playlist.videos[0];
    assert_eq!(video.title, "");
    assert_eq!(video.published_at, "");
    assert!(!video.fetched);
    assert_eq!(video.url, "https://www.youtube.com/watch?v=abc");
}

#[test]
fn removing_absent_id_changes_nothing() {
    let mut playlist = Playlist::new("test");
    playlist.add_videos(&ids(&["a", "b"]));
    playlist.videos[1].title = "kept title".into();
    playlist.videos[1].fetched = true;
    playlist.remove_videos(&ids(&["zzz"]));
    assert_eq!(playlist.title, "test");
    assert_eq!(video_ids(&playlist), ids(&["a", "b"]));
    assert_eq!(playlist.videos[1].title, "kept title");
    assert!(playlist.videos[1].fetched);
    assert_eq!(playlist.num_items, 2);
    assert_eq!(playlist.url, "http://www.youtube.com/watch_videos?video_ids=a,b");
}

#[test]
fn removing_keeps_order_of_the_rest() {
    let mut playlist = Playlist::new("test");
    playlist.add_videos(&ids(&["a", "b", "c", "d"]));
    playlist.remove_videos(&ids(&["c", "a", "q"]));
    assert_eq!(video_ids(&playlist), ids(&["b", "d"]));
    assert_eq!(playlist.url, "http://www.youtube.com/watch_videos?video_ids=b,d");
}

#[test]
fn url_of_two_and_of_none() {
    let mut playlist = Playlist::new("test");
    assert_eq!(playlist.url, "http://www.youtube.com/watch_videos?video_ids=");
    playlist.add_videos(&ids(&["id_1", "id_2"]));
    assert_eq!(playlist.url, "http://www.youtube.com/watch_videos?video_ids=id_1,id_2");
    playlist.remove_videos(&ids(&["id_1", "id_2"]));
    assert_eq!(playlist.url, "http://www.youtube.com/watch_videos?video_ids=");
}

#[test]
fn derived_fields_follow_every_change() {
    let mut playlist = Playlist::new("walk");
    let mut seed: u64 = 7;
    for step in 0..200 {
        seed = seed.wrapping_mul(6364136223846793005).wrapping_add(1442695040888963407);
        let a = format!("v{}", (seed >> 33) % 9);
        let b = format!("v{}", (seed >> 40) % 9);
        if step % 3 == 2 {
            playlist.remove_videos(&[a, b]);
        } else {
            playlist.add_videos(&[a, b]);
        }
        assert_derived(&playlist);
        let mut seen = video_ids(&playlist);
        seen.sort();
        seen.dedup();
        assert_eq!(seen.len(), playlist.videos.len());
    }
}

#[test]
fn defaults() {
    let video = Video::default();
    assert_eq!(video.id, "");
    assert_eq!(video.url, "https://www.youtube.com/watch?v=");
    assert!(!video.fetched);
    let playlist = Playlist::default();
    assert_eq!(playlist.title, "untitled");
    assert_eq!(playlist.num_items, 0);
    assert!(playlist.videos.is_empty());
    assert_eq!(playlist.url, "http://www.youtube.com/watch_videos?video_ids=");
}

#[test]
fn videos_equal_by_id_only() {
    let mut a = Video::from("same".to_string());
    let b = Video::from("same".to_string());
    a.title = "other".into();
    a.fetched = true;
    assert_eq!(a, b);
    assert_ne!(a, Video::from("different".to_string()));
}

#[test]
fn contains_id_and_ids_contain() {
    let mut playlist = Playlist::new("t");
    playlist.add_videos(&ids(&["a", "b"]));
    assert!(playlist.contains_id(&"b".to_string()));
    assert!(!playlist.contains_id(&"c".to_string()));
    assert!(oxysound::playlist::ids_contain(&ids(&["x", "y"]), &"y".to_string()));
    assert!(!oxysound::playlist::ids_contain(&ids(&["x", "y"]), &"z".to_string()));
}
