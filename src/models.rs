//! The service's video-info payload, and the download options built from it.
use vstd::prelude::*;

use crate::error::{YouDlError, YouDlErrorView};
use crate::extension::{extension_of, get_file_extension};
use crate::file_size::{file_size_text, format_file_size};
use crate::text::{
    chars_of, int_chars, int_text, pad_left, pad_right, parse_i32, parse_i32_of,
    push_padded_left, push_padded_right, string_of,
};

verus! {

/// One encoding variant of a video, as the service describes it.
#[derive(Debug)]
pub struct Format {
    pub itag: i32,
    /// The direct media URL; a format without one cannot be downloaded.
    pub url: Option<String>,
    pub quality_label: Option<String>,
    pub width: i32,
    pub height: i32,
    pub mime_type: String,
    /// Bits per second.
    pub bitrate: i32,
    /// The duration in milliseconds, as decimal text.
    pub approx_duration_ms: String,
}

/// The formats that the service offers, in its own order.
#[derive(Debug)]
pub struct StreamingData {
    pub formats: Vec<Format>,
}

/// The id and title of a video.
#[derive(Debug)]
pub struct VideoDetails {
    pub video_id: String,
    pub title: String,
}

/// The parsed video-info payload; without streaming data the video cannot be downloaded.
#[derive(Debug)]
pub struct PlayerResponse {
    pub streaming_data: Option<StreamingData>,
    pub video_details: VideoDetails,
}

/// A variant of a video that the user can choose, with everything needed to fetch it.
#[derive(Debug)]
pub struct DownloadOption {
    pub video_id: String,
    pub title: String,
    pub file_extension: String,
    pub itag: i32,
    pub url: String,
    /// The estimated size, written for people.
    pub file_size: String,
    pub mime_type: String,
    pub width: i32,
    pub height: i32,
}

/// A `DownloadOption` with its texts as character sequences.
pub struct DownloadOptionView {
    pub video_id: Seq<char>,
    pub title: Seq<char>,
    pub file_extension: Seq<char>,
    pub itag: i32,
    pub url: Seq<char>,
    pub file_size: Seq<char>,
    pub mime_type: Seq<char>,
    pub width: i32,
    pub height: i32,
}

impl View for DownloadOption {
    type V = DownloadOptionView;

    open spec fn view(&self) -> DownloadOptionView {
        DownloadOptionView {
            video_id: self.video_id@,
            title: self.title@,
            file_extension: self.file_extension@,
            itag: self.itag,
            url: self.url@,
            file_size: self.file_size@,
            mime_type: self.mime_type@,
            width: self.width,
            height: self.height,
        }
    }
}

/// The options of one video, in the service's order; built ones are never empty.
#[derive(Debug)]
pub struct DownloadOptions(pub Vec<DownloadOption>);

/// The views of a sequence of options.
pub open spec fn option_views(os: Seq<DownloadOption>) -> Seq<DownloadOptionView> {
    os.map_values(|o: DownloadOption| o@)
}

/// The title with every `+` turned into a space: the payload writes spaces as `+`.
pub open spec fn normalize_title(t: Seq<char>) -> Seq<char> {
    t.map_values(|c: char| if c == '+' { ' ' } else { c })
}

/// Integer division that rounds toward zero, as Rust's `/` does.
pub open spec fn trunc_div(a: int, b: int) -> int
    recommends
        b > 0,
{
    if a >= 0 {
        a / b
    } else {
        -((-a) / b)
    }
}

/// The estimated size in bytes of a stream: `bitrate * (duration_ms / 1000) / 8`.
pub open spec fn estimated_size(bitrate: int, duration_ms: int) -> int {
    trunc_div(bitrate * trunc_div(duration_ms, 1000), 8)
}

/// The option that a format gives, or why it gives none.
pub open spec fn option_of(f: Format, video_id: Seq<char>, title: Seq<char>) -> Result<
    DownloadOptionView,
    YouDlErrorView,
> {
    match f.url {
        None => Err(YouDlErrorView::Undownloadable(title, "missing value for url"@)),
        Some(url) => match parse_i32_of(f.approx_duration_ms@) {
            None => Err(
                YouDlErrorView::InvalidResponse(
                    "approx_duration_ms cannot be parsed into integer"@,
                ),
            ),
            Some(d) => Ok(
                DownloadOptionView {
                    video_id,
                    title,
                    file_extension: match extension_of(f.itag) {
                        Some(e) => e,
                        None => Seq::empty(),
                    },
                    itag: f.itag,
                    url: url@,
                    file_size: file_size_text(estimated_size(f.bitrate as int, d as int)),
                    mime_type: f.mime_type@,
                    width: f.width,
                    height: f.height,
                },
            ),
        },
    }
}

/// The options of a sequence of formats, in order; the first format that gives none decides
/// the error.
pub open spec fn options_of(fs: Seq<Format>, video_id: Seq<char>, title: Seq<char>) -> Result<
    Seq<DownloadOptionView>,
    YouDlErrorView,
>
    decreases fs.len(),
{
    if fs.len() == 0 {
        Ok(Seq::empty())
    } else {
        match options_of(fs.drop_last(), video_id, title) {
            Err(e) => Err(e),
            Ok(prefix) => match option_of(fs.last(), video_id, title) {
                Err(e) => Err(e),
                Ok(o) => Ok(prefix.push(o)),
            },
        }
    }
}

/// The download options of a payload, or why there are none.
pub open spec fn download_options_of(pr: PlayerResponse) -> Result<
    Seq<DownloadOptionView>,
    YouDlErrorView,
> {
    let title = normalize_title(pr.video_details.title@);
    match pr.streaming_data {
        None => Err(YouDlErrorView::Undownloadable(title, "missing value for streaming_data"@)),
        Some(sd) => if sd.formats.len() == 0 {
            Err(YouDlErrorView::Undownloadable(title, "no options available to download"@))
        } else {
            options_of(sd.formats@, pr.video_details.video_id@, title)
        },
    }
}

/// The menu line of an option: itag, extension, `width x height`, size and MIME type in
/// aligned columns.
pub open spec fn option_line(o: DownloadOptionView) -> Seq<char> {
    pad_right(int_text(o.itag as int), 6) + pad_right(o.file_extension, 7) + pad_left(
        int_text(o.width as int),
        4,
    ) + seq!['x'] + pad_right(int_text(o.height as int), 7) + pad_right(o.file_size, 15)
        + o.mime_type
}

proof fn lemma_options_error_persists(
    fs: Seq<Format>,
    k: int,
    video_id: Seq<char>,
    title: Seq<char>,
)
    requires
        0 <= k <= fs.len(),
        options_of(fs.subrange(0, k), video_id, title) is Err,
    ensures
        options_of(fs, video_id, title) == options_of(fs.subrange(0, k), video_id, title),
    decreases fs.len() - k,
{
    if k < fs.len() {
        assert(fs.subrange(0, k + 1).drop_last() =~= fs.subrange(0, k));
        lemma_options_error_persists(fs, k + 1, video_id, title);
    } else {
        assert(fs.subrange(0, k) =~= fs);
    }
}

/// Replaces every `+` of a title with a space.
pub fn normalized_title(title: &str) -> (r: String)
    ensures
        r@ == normalize_title(title@),
{
    let cs = chars_of(title);
    let mut out: Vec<char> = Vec::new();
    let mut i: usize = 0;
    while i < cs.len()
        invariant
            cs@ == title@,
            i <= cs@.len(),
            out@ == normalize_title(title@.subrange(0, i as int)),
        decreases cs@.len() - i,
    {
        let c = cs[i];
        out.push(if c == '+' { ' ' } else { c });
        i += 1;
        assert(out@ =~= normalize_title(title@.subrange(0, i as int)));
    }
    assert(title@.subrange(0, cs@.len() as int) =~= title@);
    string_of(out.as_slice())
}

/// `a / b` rounded toward zero, for a positive `b`.
fn div_toward_zero(a: i64, b: i64) -> (r: i64)
    requires
        b > 0,
        a > i64::MIN,
    ensures
        r == trunc_div(a as int, b as int),
{
    if a >= 0 {
        a / b
    } else {
        -((-a) / b)
    }
}

/// The estimated size in bytes of a stream of the given bitrate and duration.
pub fn estimate_size(bitrate: i32, approx_duration_ms: i32) -> (r: i64)
    ensures
        r == estimated_size(bitrate as int, approx_duration_ms as int),
{
    let secs = div_toward_zero(approx_duration_ms as i64, 1000);
    assert(-2147484 <= secs <= 2147484);
    let b = bitrate as i64;
    assert(-4611689020178432 <= b * secs <= 4611689020178432) by (nonlinear_arith)
        requires
            -2147484 <= secs <= 2147484,
            -2147483648 <= b <= 2147483647,
    ;
    div_toward_zero(b * secs, 8)
}

impl DownloadOption {
    /// Builds the option that a format gives.
    pub fn from_format(format: &Format, video_id: &String, title: &String) -> (r: Result<
        DownloadOption,
        YouDlError,
    >)
        ensures
            match r {
                Ok(o) => option_of(*format, video_id@, title@) == Ok::<
                    DownloadOptionView,
                    YouDlErrorView,
                >(o@),
                Err(e) => option_of(*format, video_id@, title@) == Err::<
                    DownloadOptionView,
                    YouDlErrorView,
                >(e@),
            },
    {
        let file_extension = match get_file_extension(format.itag) {
            Some(e) => e.to_owned(),
            None => String::new(),
        };
        let url = match &format.url {
            Some(u) => u.clone(),
            None => {
                return Err(
                    YouDlError::Undownloadable(title.clone(), "missing value for url".to_owned()),
                );
            },
        };
        let approx_duration_ms = match parse_i32(format.approx_duration_ms.as_str()) {
            Some(d) => d,
            None => {
                return Err(
                    YouDlError::InvalidResponse(
                        "approx_duration_ms cannot be parsed into integer".to_owned(),
                    ),
                );
            },
        };
        let file_size = format_file_size(estimate_size(format.bitrate, approx_duration_ms));
        let o = DownloadOption {
            video_id: video_id.clone(),
            title: title.clone(),
            file_extension,
            itag: format.itag,
            url,
            file_size,
            mime_type: format.mime_type.clone(),
            width: format.width,
            height: format.height,
        };
        Ok(o)
    }

    /// The line that shows this option in a menu.
    pub fn to_line(&self) -> (r: String)
        ensures
            r@ == option_line(self@),
    {
        let mut out: Vec<char> = Vec::new();
        push_padded_right(&mut out, &int_chars(self.itag), 6);
        push_padded_right(&mut out, &chars_of(self.file_extension.as_str()), 7);
        push_padded_left(&mut out, &int_chars(self.width), 4);
        out.push('x');
        push_padded_right(&mut out, &int_chars(self.height), 7);
        push_padded_right(&mut out, &chars_of(self.file_size.as_str()), 15);
        let mut mime = chars_of(self.mime_type.as_str());
        out.append(&mut mime);
        assert(out@ =~= option_line(self@));
        string_of(out.as_slice())
    }
}

impl DownloadOptions {
    /// Builds the options of a payload, one per format and in the service's order.
    pub fn try_from(player_response: PlayerResponse) -> (r: Result<DownloadOptions, YouDlError>)
        ensures
            match r {
                Ok(os) => download_options_of(player_response) == Ok::<
                    Seq<DownloadOptionView>,
                    YouDlErrorView,
                >(option_views(os.0@)),
                Err(e) => download_options_of(player_response) == Err::<
                    Seq<DownloadOptionView>,
                    YouDlErrorView,
                >(e@),
            },
            r matches Ok(os) ==> os.0@.len()
                == player_response.streaming_data->Some_0.formats@.len() > 0,
    {
        let ghost pr = player_response;
        let video_id = player_response.video_details.video_id;
        let title = normalized_title(player_response.video_details.title.as_str());
        let streaming_data = match player_response.streaming_data {
            Some(sd) => sd,
            None => {
                return Err(
                    YouDlError::Undownloadable(
                        title,
                        "missing value for streaming_data".to_owned(),
                    ),
                );
            },
        };
        let formats = streaming_data.formats;
        let n = formats.len();
        if n == 0 {
            return Err(
                YouDlError::Undownloadable(title, "no options available to download".to_owned()),
            );
        }
        let mut options: Vec<DownloadOption> = Vec::new();
        let mut i: usize = 0;
        assert(formats@.subrange(0, 0) =~= Seq::<Format>::empty());
        assert(option_views(options@) =~= Seq::<DownloadOptionView>::empty());
        while i < n
            invariant
                n == formats@.len(),
                i <= n,
                pr == player_response,
                pr.streaming_data == Some(StreamingData { formats }),
                video_id@ == pr.video_details.video_id@,
                title@ == normalize_title(pr.video_details.title@),
                options_of(formats@.subrange(0, i as int), video_id@, title@) == Ok::<
                    Seq<DownloadOptionView>,
                    YouDlErrorView,
                >(option_views(options@)),
            decreases n - i,
        {
            assert(formats@.subrange(0, i + 1).drop_last() =~= formats@.subrange(0, i as int));
            match DownloadOption::from_format(&formats[i], &video_id, &title) {
                Ok(o) => {
                    let ghost before = options@;
                    let ghost ov = o@;
                    options.push(o);
                    assert(option_views(options@) =~= option_views(before).push(ov));
                },
                Err(e) => {
                    proof {
                        assert(options_of(formats@.subrange(0, i + 1), video_id@, title@) == Err::<
                            Seq<DownloadOptionView>,
                            YouDlErrorView,
                        >(e@));
                        lemma_options_error_persists(formats@, i + 1, video_id@, title@);
                    }
                    return Err(e);
                },
            }
            i += 1;
        }
        assert(formats@.subrange(0, n as int) =~= formats@);
        proof {
            lemma_options_of_len(formats@, video_id@, title@);
        }
        Ok(DownloadOptions(options))
    }
}

impl DownloadOptions {
    /// The title shared by the options, taken from the first one.
    pub fn get_title(&self) -> (r: &str)
        requires
            self.0@.len() > 0,
        ensures
            r@ == self.0@[0].title@,
    {
        self.0[0].title.as_str()
    }

    /// Takes the option at `index` out of the sequence; the others keep their order.
    pub fn remove(&mut self, index: usize) -> (r: DownloadOption)
        requires
            index < old(self).0@.len(),
        ensures
            r == old(self).0@[index as int],
            final(self).0@ == old(self).0@.remove(index as int),
    {
        self.0.remove(index)
    }
}

proof fn lemma_options_of_len(fs: Seq<Format>, video_id: Seq<char>, title: Seq<char>)
    ensures
        options_of(fs, video_id, title) is Ok ==> options_of(fs, video_id, title)->Ok_0.len()
            == fs.len(),
    decreases fs.len(),
{
    if fs.len() > 0 {
        lemma_options_of_len(fs.drop_last(), video_id, title);
    }
}

proof fn lemma_options_of_all_usable(fs: Seq<Format>, video_id: Seq<char>, title: Seq<char>)
    requires
        forall|i: int|
            0 <= i < fs.len() ==> (#[trigger] fs[i]).url is Some && parse_i32_of(
                fs[i].approx_duration_ms@,
            ) is Some,
    ensures
        options_of(fs, video_id, title) is Ok,
        options_of(fs, video_id, title)->Ok_0.len() == fs.len(),
        forall|i: int|
            0 <= i < fs.len() ==> options_of(fs, video_id, title)->Ok_0[i] == option_of(
                #[trigger] fs[i],
                video_id,
                title,
            )->Ok_0,
    decreases fs.len(),
{
    if fs.len() > 0 {
        let init = fs.drop_last();
        assert forall|i: int| 0 <= i < init.len() implies (#[trigger] init[i]).url is Some
            && parse_i32_of(init[i].approx_duration_ms@) is Some by {
            assert(init[i] == fs[i]);
        }
        lemma_options_of_all_usable(init, video_id, title);
        assert(fs[fs.len() - 1] == fs.last());
        assert forall|i: int| 0 <= i < fs.len() implies options_of(fs, video_id, title)->Ok_0[i]
            == option_of(#[trigger] fs[i], video_id, title)->Ok_0 by {
            if i < fs.len() - 1 {
                assert(init[i] == fs[i]);
            }
        }
    }
}

/// When the payload has formats and each has a URL and a duration that parses as an
/// integer, there is one option per format, in the formats' order: the option at `i` is the
/// one that format `i` gives, with its itag and URL.
pub proof fn lemma_options_follow_formats(pr: PlayerResponse)
    requires
        pr.streaming_data is Some,
        pr.streaming_data->Some_0.formats@.len() > 0,
        forall|i: int|
            0 <= i < pr.streaming_data->Some_0.formats@.len() ==> (
            #[trigger] pr.streaming_data->Some_0.formats@[i]).url is Some && parse_i32_of(
                pr.streaming_data->Some_0.formats@[i].approx_duration_ms@,
            ) is Some,
    ensures
        download_options_of(pr) is Ok,
        download_options_of(pr)->Ok_0.len() == pr.streaming_data->Some_0.formats@.len(),
        forall|i: int|
            0 <= i < pr.streaming_data->Some_0.formats@.len() ==> {
                let f = #[trigger] pr.streaming_data->Some_0.formats@[i];
                let o = download_options_of(pr)->Ok_0[i];
                &&& o == option_of(
                    f,
                    pr.video_details.video_id@,
                    normalize_title(pr.video_details.title@),
                )->Ok_0
                &&& o.itag == f.itag
                &&& o.url == f.url->Some_0@
            },
{
    let fs = pr.streaming_data->Some_0.formats@;
    lemma_options_of_all_usable(
        fs,
        pr.video_details.video_id@,
        normalize_title(pr.video_details.title@),
    );
}

proof fn lemma_options_of_share(fs: Seq<Format>, video_id: Seq<char>, title: Seq<char>)
    ensures
        options_of(fs, video_id, title) is Ok ==> forall|i: int|
            0 <= i < options_of(fs, video_id, title)->Ok_0.len() ==> {
                let o = #[trigger] options_of(fs, video_id, title)->Ok_0[i];
                o.title == title && o.video_id == video_id
            },
    decreases fs.len(),
{
    if fs.len() > 0 {
        lemma_options_of_share(fs.drop_last(), video_id, title);
    }
}

/// Every option built from a payload carries the payload's title with each `+` turned into
/// a space, and the payload's video id.
pub proof fn lemma_options_share_title(pr: PlayerResponse)
    ensures
        download_options_of(pr) is Ok ==> forall|i: int|
            0 <= i < download_options_of(pr)->Ok_0.len() ==> {
                let o = #[trigger] download_options_of(pr)->Ok_0[i];
                &&& o.title == normalize_title(pr.video_details.title@)
                &&& o.video_id == pr.video_details.video_id@
            },
{
    if let Some(sd) = pr.streaming_data {
        lemma_options_of_share(
            sd.formats@,
            pr.video_details.video_id@,
            normalize_title(pr.video_details.title@),
        );
    }
}

} // verus!
