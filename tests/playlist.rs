use oxysound::playlist::{Playlist, Video};

#[test]
fn test_video() {
    assert_eq!(
        Video::from("id_1".to_string()),
        Video {
            id: "id_1".into(),
            ..Default::default()
        }
    );
}

#[test]
fn test_update_fields_video() {
    let mut video = Video {
        id: "id_1".into(),
        ..Default::default()
    };
    video.update_fields();

    assert_eq!(
        video.url,
        "https://www.youtube.com/watch?v=id_1".to_string()
    );
    assert_eq!(
        video,
        Video {
            id: "id_1".into(),
            url: "https://www.youtube.com/watch?v=id_1".into(),
            ..Default::default()
        }
    );
}

#[test]
fn test_playlist() {
    let mut playlist_1 = Playlist {
        title: "test".into(),
        ..Default::default()
    };
    playlist_1.update_fields();
    assert_eq!(Playlist::new("test",), playlist_1);

    let mut playlist_2 = Playlist {
        title: "test".into(),
        videos: vec!["id_1".to_string().into(), "id_2".to_string().into()],
        ..Default::default()
    };
    playlist_2.update_fields();
    assert_eq!(
        Playlist {
            title: "test".into(),
            videos: vec!["id_1".to_string().into(), "id_2".to_string().into()],
            num_items: 2,
            url: "http://www.youtube.com/watch_videos?video_ids=id_1,id_2".into()
        },
        playlist_2
    );
}

#[test]
fn test_add_videos() {
    let mut playlist = Playlist {
        title: "test".into(),
        ..Default::default()
    };
    playlist.add_videos(&["id_1".into(), "id_2".into()]);

    assert_eq!(
        playlist,
        Playlist {
            title: "test".into(),
            num_items: 2,
            videos: vec![
                Video {
                    id: "id_1".into(),
                    ..Default::default()
                },
                Video {
                    id: "id_2".into(),
                    ..Default::default()
                }
            ],
            url: "http://www.youtube.com/watch_videos?video_ids=id_1,id_2".into()
        }
    );
}

#[test]
fn test_remove_videos() {
    let mut playlist = Playlist {
        title: "test".into(),
        num_items: 2,
        videos: vec!["id_1".to_string().into(), "id_2".to_string().into()],
        url: "http://www.youtube.com/watch_videos?video_ids=id_1,id_2".into(),
    };
    playlist.remove_videos(&["id_1".into(), "id_2".into()]);

    assert_eq!(
        playlist,
        Playlist {
            title: "test".into(),
            num_items: 0,
            videos: vec![],
            url: "http://www.youtube.com/watch_videos?video_ids=".into()
        }
    );
}

#[test]
fn test_compose_url() {
    let playlist = Playlist {
        title: "test".into(),
        videos: vec!["id_1".to_string().into(), "id_2".to_string().into()],
        ..Default::default()
    };

    assert_eq!(
        playlist.compose_playlist_url(),
        "http://www.youtube.com/watch_videos?video_ids=id_1,id_2".to_string()
    );
}

#[test]
fn test_update_fields_playlist() {
    let mut playlist = Playlist {
        title: "test".into(),
        videos: vec!["id_1".to_string().into(), "id_2".to_string().into()],
        ..Default::default()
    };
    playlist.update_fields();

    assert_eq!(playlist.num_items, 2);
    assert_eq!(
        playlist.url,
        "http://www.youtube.com/watch_videos?video_ids=id_1,id_2".to_string()
    );
    assert_eq!(
        playlist,
        Playlist {
            title: "test".into(),
            num_items: 2,
            videos: vec![
                Video {
                    id: "id_1".into(),
                    ..Default::default()
                },
                Video {
                    id: "id_2".into(),
                    ..Default::default()
                },
            ],
            url: "http://www.youtube.com/watch_videos?video_ids=id_1,id_2".into()
        }
    );
}
