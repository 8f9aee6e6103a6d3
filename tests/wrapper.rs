use you_dl::wrapper::{
    check_exit_status, file_formats_from_stdout, is_valid_file_size, output_template,
    title_from_stdout,
};
use you_dl::{FileFormat, YouDlError};

const LISTING: &str = "[youtube] dQw4w9WgXcQ: Downloading webpage
[info] Available formats for dQw4w9WgXcQ:
format code  extension  resolution note
249          webm       audio only tiny   43k , opus @ 50k (48000Hz), 47.46KiB
278          webm       256x144    DASH video   95k , webm_dash container, vp9, 30fps, video only
136          mp4        1280x720   720p 1334k , avc1.4d401f, 30fps, video only, 1.39MiB
";

fn file_format(itag: &str, ext: &str, res: &str, size: &str) -> FileFormat {
    FileFormat {
        itag: itag.to_owned(),
        file_extension: ext.to_owned(),
        video_resolution: res.to_owned(),
        file_size: size.to_owned(),
    }
}

#[test]
fn reads_formats_from_listing() {
    let formats = FileFormat::from_youtube_dl_stdout(LISTING).unwrap();
    assert_eq!(
        formats,
        vec![
            file_format("249", "webm", "audio", "47.46KiB"),
            file_format("278", "webm", "256x144", "unknown"),
            file_format("136", "mp4", "1280x720", "1.39MiB"),
        ]
    );
}

#[test]
fn lines_not_starting_with_a_digit_are_dropped() {
    let stdout = "x 1 2 3\n 12 a b c\n\n-1 a b c\n7 mp4 1x1 2.00KiB\r\n";
    let formats = FileFormat::from_youtube_dl_stdout(stdout).unwrap();
    assert_eq!(formats, vec![file_format("7", "mp4", "1x1", "2.00KiB")]);
}

#[test]
fn non_ascii_numeric_first_character_is_kept() {
    let formats = FileFormat::from_youtube_dl_stdout("٣ mp4 1x1 5MiB").unwrap();
    assert_eq!(formats, vec![file_format("٣", "mp4", "1x1", "5MiB")]);
}

#[test]
fn empty_listing_gives_no_formats() {
    assert_eq!(FileFormat::from_youtube_dl_stdout("").unwrap(), vec![]);
}

#[test]
fn short_format_line_is_an_application_error() {
    let r = FileFormat::from_youtube_dl_stdout("header\n12 mp4 640x360\n13 mp4 1x1 1MiB\n");
    assert_eq!(
        r.unwrap_err(),
        YouDlError::Application("failed to parse file_format".to_owned())
    );
}

#[test]
fn parse_line_takes_first_three_words_and_last() {
    assert_eq!(
        FileFormat::parse_line("18  mp4  640x360  360p 483k , avc1, 1011.71KiB").unwrap(),
        file_format("18", "mp4", "640x360", "1011.71KiB")
    );
    assert_eq!(
        FileFormat::parse_line("22 mp4 1280x720 (best)").unwrap(),
        file_format("22", "mp4", "1280x720", "unknown")
    );
}

#[test]
fn valid_file_sizes() {
    assert!(is_valid_file_size("1.39MiB"));
    assert!(is_valid_file_size("47.46KiB"));
    assert!(is_valid_file_size("2GiB"));
    assert!(is_valid_file_size("B"));
    assert!(!is_valid_file_size("only"));
    assert!(!is_valid_file_size(""));
    assert!(!is_valid_file_size("3.0MiBs"));
}

#[test]
fn file_format_menu_line() {
    let f = file_format("249", "webm", "audio", "47.46KiB");
    assert_eq!(f.to_line(), "249   webm    audio      47.46KiB");
}

#[test]
fn exit_status_success_passes() {
    assert_eq!(check_exit_status(true, b"warning".to_vec()), Ok(()));
}

#[test]
fn exit_status_failure_carries_stderr() {
    assert_eq!(
        check_exit_status(false, b"ERROR: no such video\n".to_vec()),
        Err(YouDlError::YoutubeDl("ERROR: no such video\n".to_owned()))
    );
}

#[test]
fn exit_status_failure_with_invalid_utf8_is_application_error() {
    let r = check_exit_status(false, vec![0xff, 0xfe]);
    assert!(matches!(r, Err(YouDlError::Application(_))));
}

#[test]
fn title_is_trimmed() {
    assert_eq!(title_from_stdout(b"  Never Gonna\n".to_vec()).unwrap(), "Never Gonna");
    assert!(matches!(title_from_stdout(vec![0xc3]), Err(YouDlError::Application(_))));
}

#[test]
fn formats_from_bytes() {
    let formats = file_formats_from_stdout(LISTING.as_bytes().to_vec()).unwrap();
    assert_eq!(formats.len(), 3);
    assert!(matches!(file_formats_from_stdout(vec![0x80]), Err(YouDlError::Application(_))));
}

#[test]
fn output_template_inside_directory() {
    assert_eq!(output_template("/tmp/out"), "/tmp/out/%(title)s.%(ext)s");
}
