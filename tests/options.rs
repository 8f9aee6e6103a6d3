use you_dl::{
    get_file_extension, DownloadOption, DownloadOptions, Format, PlayerResponse, StreamingData,
    VideoDetails,
    YouDlError,
};

fn format(itag: i32, url: Option<&str>, bitrate: i32, duration: &str) -> Format {
    Format {
        itag,
        url: url.map(|u| u.to_owned()),
        quality_label: Some("360p".to_owned()),
        width: 640,
        height: 360,
        mime_type: "video/mp4".to_owned(),
        bitrate,
        approx_duration_ms: duration.to_owned(),
    }
}

fn payload(title: &str, formats: Option<Vec<Format>>) -> PlayerResponse {
    PlayerResponse {
        streaming_data: formats.map(|formats| StreamingData { formats }),
        video_details: VideoDetails { video_id: "XYZ".to_owned(), title: title.to_owned() },
    }
}

#[test]
fn missing_streaming_data_is_undownloadable() {
    let r = DownloadOptions::try_from(payload("Hello+World", None));
    assert_eq!(
        r.unwrap_err(),
        YouDlError::Undownloadable(
            "Hello World".to_owned(),
            "missing value for streaming_data".to_owned()
        )
    );
}

#[test]
fn empty_formats_are_undownloadable() {
    let r = DownloadOptions::try_from(payload("a+b", Some(vec![])));
    assert_eq!(
        r.unwrap_err(),
        YouDlError::Undownloadable("a b".to_owned(), "no options available to download".to_owned())
    );
}

#[test]
fn format_without_url_is_undownloadable() {
    let formats = vec![format(18, Some("http://dl/a"), 800, "1000"), format(22, None, 800, "1000")];
    let r = DownloadOptions::try_from(payload("T", Some(formats)));
    assert_eq!(
        r.unwrap_err(),
        YouDlError::Undownloadable("T".to_owned(), "missing value for url".to_owned())
    );
}

#[test]
fn duration_that_is_not_an_integer_is_invalid() {
    let formats = vec![format(18, Some("http://dl/a"), 800, "12.5")];
    let r = DownloadOptions::try_from(payload("T", Some(formats)));
    assert_eq!(
        r.unwrap_err(),
        YouDlError::InvalidResponse("approx_duration_ms cannot be parsed into integer".to_owned())
    );
}

#[test]
fn first_failing_format_decides_the_error() {
    let formats = vec![format(18, Some("http://dl/a"), 800, "x"), format(22, None, 800, "1000")];
    let r = DownloadOptions::try_from(payload("T", Some(formats)));
    assert_eq!(
        r.unwrap_err(),
        YouDlError::InvalidResponse("approx_duration_ms cannot be parsed into integer".to_owned())
    );
}

#[test]
fn single_format_gives_its_option() {
    let formats = vec![format(18, Some("http://dl/x"), 800000, "120000")];
    let options = DownloadOptions::try_from(payload("My+Video", Some(formats))).unwrap();
    assert_eq!(options.0.len(), 1);
    let o = &options.0[0];
    assert_eq!(o.video_id, "XYZ");
    assert_eq!(o.title, "My Video");
    assert_eq!(o.file_extension, "mp4");
    assert_eq!(o.itag, 18);
    assert_eq!(o.url, "http://dl/x");
    assert_eq!(o.file_size, "11.44 MiB");
    assert_eq!(o.mime_type, "video/mp4");
    assert_eq!((o.width, o.height), (640, 360));
    assert_eq!(o.file_name(), "My Video.mp4");
}

#[test]
fn options_follow_formats_in_order() {
    let formats = vec![
        format(22, Some("http://dl/1"), 1000, "+8000"),
        format(999, Some("http://dl/2"), 2000, "-5000"),
        format(43, Some("http://dl/3"), 16, "999"),
    ];
    let options = DownloadOptions::try_from(payload("T", Some(formats))).unwrap();
    let itags: Vec<i32> = options.0.iter().map(|o| o.itag).collect();
    let urls: Vec<&str> = options.0.iter().map(|o| o.url.as_str()).collect();
    let exts: Vec<&str> = options.0.iter().map(|o| o.file_extension.as_str()).collect();
    let sizes: Vec<&str> = options.0.iter().map(|o| o.file_size.as_str()).collect();
    assert_eq!(itags, vec![22, 999, 43]);
    assert_eq!(urls, vec!["http://dl/1", "http://dl/2", "http://dl/3"]);
    assert_eq!(exts, vec!["mp4", "", "webm"]);
    // 1000 * 8 / 8, 2000 * -5 / 8, 16 * 0 / 8
    assert_eq!(sizes, vec!["1000.00 B", "-1250 B", "0 B"]);
}

#[test]
fn every_option_has_the_normalized_title() {
    let formats = vec![
        format(18, Some("http://dl/1"), 1, "1000"),
        format(22, Some("http://dl/2"), 1, "1000"),
    ];
    let options = DownloadOptions::try_from(payload("a+b++c", Some(formats))).unwrap();
    for o in &options.0 {
        assert_eq!(o.title, "a b  c");
        assert_eq!(o.video_id, "XYZ");
    }
    assert_eq!(options.get_title(), "a b  c");
}

#[test]
fn remove_takes_the_chosen_option() {
    let formats = vec![
        format(18, Some("http://dl/1"), 1, "1000"),
        format(22, Some("http://dl/2"), 1, "1000"),
        format(43, Some("http://dl/3"), 1, "1000"),
    ];
    let mut options = DownloadOptions::try_from(payload("T", Some(formats))).unwrap();
    let chosen = options.remove(1);
    assert_eq!(chosen.itag, 22);
    let rest: Vec<i32> = options.0.iter().map(|o| o.itag).collect();
    assert_eq!(rest, vec![18, 43]);
}

#[test]
fn option_menu_line() {
    let o = DownloadOption {
        video_id: "XYZ".to_owned(),
        title: "T".to_owned(),
        file_extension: "mp4".to_owned(),
        itag: 18,
        url: "http://dl/x".to_owned(),
        file_size: "11.44 MiB".to_owned(),
        mime_type: "video/mp4".to_owned(),
        width: 640,
        height: 360,
    };
    assert_eq!(o.to_line(), "18    mp4     640x360    11.44 MiB      video/mp4");
}

#[test]
fn duration_out_of_i32_range_is_invalid() {
    let formats = vec![format(18, Some("http://dl/a"), 1, "2147483648")];
    assert!(DownloadOptions::try_from(payload("T", Some(formats))).is_err());
    let formats = vec![format(18, Some("http://dl/a"), 8, "-2147483648")];
    let options = DownloadOptions::try_from(payload("T", Some(formats))).unwrap();
    assert_eq!(options.0[0].file_size, "-2147483 B");
}

#[test]
fn itag_table() {
    assert_eq!(get_file_extension(5), Some("flv"));
    assert_eq!(get_file_extension(36), Some("3gp"));
    assert_eq!(get_file_extension(85), Some("mp4"));
    assert_eq!(get_file_extension(102), Some("webm"));
    assert_eq!(get_file_extension(140), None);
}
