use you_dl::{extract_video_id, YouDlError};

const URLS: [&str; 23] = [
    "//www.youtube-nocookie.com/embed/dQw4w9WgXcQ?rel=0",
    "http://www.youtube.com/user/Scobleizer#p/u/1/dQw4w9WgXcQ",
    "http://www.youtube.com/watch?v=dQw4w9WgXcQ&feature=channel",
    "http://www.youtube.com/watch?v=dQw4w9WgXcQ&playnext_from=TL&videos=osPknwzXEas&feature=sub",
    "http://www.youtube.com/ytscreeningroom?v=dQw4w9WgXcQ",
    "http://www.youtube.com/user/SilkRoadTheatre#p/a/u/2/dQw4w9WgXcQ",
    "http://youtu.be/dQw4w9WgXcQ",
    "http://www.youtube.com/watch?v=dQw4w9WgXcQ&feature=youtu.be",
    "http://youtu.be/dQw4w9WgXcQ",
    "http://www.youtube.com/user/Scobleizer#p/u/1/dQw4w9WgXcQ?rel=0",
    "http://www.youtube.com/watch?v=dQw4w9WgXcQ&feature=channel",
    "http://www.youtube.com/watch?v=dQw4w9WgXcQ&playnext_from=TL&videos=osPknwzXEas&feature=sub",
    "http://www.youtube.com/ytscreeningroom?v=dQw4w9WgXcQ",
    "http://www.youtube.com/embed/dQw4w9WgXcQ?rel=0",
    "http://www.youtube.com/watch?v=dQw4w9WgXcQ",
    "http://youtube.com/v/dQw4w9WgXcQ?feature=youtube_gdata_player",
    "http://youtube.com/vi/dQw4w9WgXcQ?feature=youtube_gdata_player",
    "http://youtube.com/?v=dQw4w9WgXcQ&feature=youtube_gdata_player",
    "http://www.youtube.com/watch?v=dQw4w9WgXcQ&feature=youtube_gdata_player",
    "http://youtube.com/?vi=dQw4w9WgXcQ&feature=youtube_gdata_player",
    "http://youtube.com/watch?v=dQw4w9WgXcQ&feature=youtube_gdata_player",
    "http://youtube.com/watch?vi=dQw4w9WgXcQ&feature=youtube_gdata_player",
    "http://youtu.be/dQw4w9WgXcQ?feature=youtube_gdata_player",
];

#[test]
fn lib_extracts_video_id_from_url() {
    for &url in &URLS {
        let video_id = extract_video_id(url).unwrap();
        assert_eq!(video_id, "dQw4w9WgXcQ");
    }
}

#[test]
fn extract_video_id_extracts_video_id_from_url() {
    for &url in &URLS {
        let video_id = extract_video_id(url).unwrap();
        assert_eq!(video_id, "dQw4w9WgXcQ");
    }
}

#[test]
fn id_from_watch_url() {
    assert_eq!(
        extract_video_id("http://www.youtube.com/watch?v=dQw4w9WgXcQ&feature=channel").unwrap(),
        "dQw4w9WgXcQ"
    );
}

#[test]
fn id_from_short_url() {
    assert_eq!(
        extract_video_id("http://youtu.be/dQw4w9WgXcQ?feature=youtube_gdata_player").unwrap(),
        "dQw4w9WgXcQ"
    );
}

#[test]
fn id_from_user_path_with_word_char() {
    assert_eq!(extract_video_id("https://host/u/a/abc_DEF-12").unwrap(), "abc_DEF-12");
}

#[test]
fn id_runs_to_the_end_of_the_url() {
    assert_eq!(extract_video_id("https://host/embed/xyz").unwrap(), "xyz");
}

#[test]
fn id_stops_at_fragment() {
    assert_eq!(extract_video_id("https://host/v/abc#t=10").unwrap(), "abc");
}

#[test]
fn last_marker_wins() {
    assert_eq!(extract_video_id("https://youtu.be/first?v=second").unwrap(), "second");
}

#[test]
fn marker_after_line_break_is_ignored() {
    assert_eq!(
        extract_video_id("https://host/page\n/embed/abc"),
        Err(YouDlError::InvalidURL("https://host/page\n/embed/abc".to_owned()))
    );
}

#[test]
fn url_without_marker_is_invalid() {
    assert_eq!(
        extract_video_id("https://example.com/nothing-here"),
        Err(YouDlError::InvalidURL("https://example.com/nothing-here".to_owned()))
    );
}

#[test]
fn empty_url_is_invalid() {
    assert_eq!(extract_video_id(""), Err(YouDlError::InvalidURL(String::new())));
}
