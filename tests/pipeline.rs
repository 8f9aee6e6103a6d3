use you_dl::config::{check_wrapper_available, parse_url_list};
use you_dl::download::{check_response_status, progress_length, success_message};
use you_dl::fetch::{is_query_parsable, player_response_json, video_info_url};
use you_dl::{Config, ConfigError, RawCliArgs, YouDlError};

#[test]
fn video_info_address() {
    assert_eq!(
        video_info_url("XYZ"),
        "https://www.youtube.com/get_video_info?video_id=XYZ"
    );
}

#[test]
fn player_response_is_percent_decoded() {
    let body = "status=ok&player_response=%7B%22videoDetails%22%3A1%7D&c=3";
    assert_eq!(player_response_json(body).unwrap(), "{\"videoDetails\":1}");
}

#[test]
fn missing_player_response_is_invalid() {
    assert_eq!(
        player_response_json("status=fail&reason=x"),
        Err(YouDlError::InvalidResponse("missing value for player_response".to_owned()))
    );
}

#[test]
fn malformed_body_is_invalid() {
    assert_eq!(
        player_response_json("é=1"),
        Err(YouDlError::InvalidResponse(
            "malformed query string in the response body".to_owned()
        ))
    );
}

#[test]
fn query_parsability() {
    assert!(is_query_parsable(""));
    assert!(is_query_parsable("a=é"));
    assert!(is_query_parsable("a==é"));
    assert!(!is_query_parsable("é"));
    assert!(!is_query_parsable("?é"));
    assert!(!is_query_parsable("a&é"));
    assert!(!is_query_parsable("==é"));
}

#[test]
fn response_status() {
    assert_eq!(check_response_status(200), Ok(()));
    assert_eq!(check_response_status(204), Ok(()));
    assert_eq!(
        check_response_status(404),
        Err(YouDlError::InvalidResponse("unexpected HTTP status 404".to_owned()))
    );
    assert!(check_response_status(300).is_err());
    assert!(check_response_status(199).is_err());
}

#[test]
fn progress_length_without_content_length() {
    assert_eq!(progress_length(Some(1234)), 1234);
    assert_eq!(progress_length(None), u64::MAX);
}

#[test]
fn success_text() {
    assert_eq!(success_message("My Video"), "Successfully downloaded: My Video");
}

#[test]
fn url_list_skips_blank_and_comment_lines() {
    let contents = "https://a\n\n# comment\n// note\n   \n #kept\nhttps://b\r\n";
    assert_eq!(parse_url_list(contents), vec!["https://a", " #kept", "https://b"]);
    assert_eq!(parse_url_list(""), Vec::<String>::new());
}

fn raw(urls: Option<Vec<&str>>, path: Option<&str>) -> RawCliArgs {
    RawCliArgs {
        help_message: String::new(),
        from_file_path: path.map(|p| p.to_owned()),
        output_dir: "out".to_owned(),
        urls: urls.map(|u| u.into_iter().map(|s| s.to_owned()).collect()),
        use_wrapper: true,
    }
}

#[test]
fn config_without_urls_fails() {
    let e = Config::from_raw_args(raw(None, None), vec![]).unwrap_err();
    assert_eq!(e, ConfigError("no urls to be downloaded".to_owned()));
    assert_eq!(e.message(), "failed to parse program arguments: no urls to be downloaded");
}

#[test]
fn config_gathers_arguments_then_list() {
    let c = Config::from_raw_args(raw(Some(vec!["u1", "u2"]), Some("list")), vec!["u3".to_owned()])
        .unwrap();
    assert_eq!(c.video_urls, vec!["u1", "u2", "u3"]);
    assert_eq!(c.output_dir, "out");
    assert!(c.use_wrapper);
    let c = Config::from_raw_args(raw(None, Some("list")), vec![]).unwrap();
    assert!(c.video_urls.is_empty());
}

#[test]
fn error_messages() {
    assert_eq!(YouDlError::YoutubeDl("  boom \n".to_owned()).message(), "youtube-dl Error: boom");
    assert_eq!(YouDlError::Application("io\n".to_owned()).message(), "Application Error: io");
    assert_eq!(YouDlError::InvalidURL("x ".to_owned()).message(), "Invalid URL Error: x ");
    assert_eq!(
        YouDlError::Undownloadable("T".to_owned(), "r".to_owned()).message(),
        "Undownloadable Error for `T`: r"
    );
    assert_eq!(YouDlError::User("cancelled".to_owned()).message(), "User Error: cancelled");
    assert_eq!(
        YouDlError::InvalidResponse(" bad ".to_owned()).message(),
        "Invalid Response Error: bad"
    );
}

#[test]
fn wrapper_needs_youtube_dl() {
    assert_eq!(check_wrapper_available(false, false), Ok(()));
    assert_eq!(check_wrapper_available(true, true), Ok(()));
    assert_eq!(
        check_wrapper_available(true, false),
        Err(ConfigError("youtube-dl is not available".to_owned()))
    );
}
