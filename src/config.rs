//! The configuration of a run, assembled from the command line and a list of URLs.
use vstd::prelude::*;

use crate::error::ConfigError;
use crate::text::{chars_of, seqs_of, split_lines, string_of, text_lines, trim, trimmed};

verus! {

/// The command line as read, before it is checked.
#[derive(Debug)]
pub struct RawCliArgs {
    pub help_message: String,
    pub from_file_path: Option<String>,
    pub output_dir: String,
    pub urls: Option<Vec<String>>,
    pub use_wrapper: bool,
}

/// What a run does: the videos to fetch, where to put them, and with which back-end.
#[derive(Debug)]
pub struct Config {
    pub video_urls: Vec<String>,
    pub output_dir: String,
    pub use_wrapper: bool,
}

/// A line of a URL list that holds a URL: not blank, and not a comment starting with `#`
/// or `//`.
pub open spec fn is_url_line(l: Seq<char>) -> bool {
    trim(l).len() > 0 && !(l.len() >= 1 && l[0] == '#') && !(l.len() >= 2 && l[0] == '/' && l[1]
        == '/')
}

/// The test that picks the lines holding URLs.
pub open spec fn holds_url() -> spec_fn(Seq<char>) -> bool {
    |l: Seq<char>| is_url_line(l)
}

/// The URLs of a URL list, in order.
pub open spec fn url_lines(s: Seq<char>) -> Seq<Seq<char>> {
    text_lines(s).filter(holds_url())
}

/// The texts of a sequence of strings.
pub open spec fn string_views(v: Seq<String>) -> Seq<Seq<char>> {
    v.map_values(|s: String| s@)
}

fn has_content(l: &Vec<char>) -> (r: bool)
    ensures
        r == (trim(l@).len() > 0),
{
    let t = string_of(l.as_slice());
    trimmed(t.as_str()).as_str().unicode_len() > 0
}

/// Reads a URL list: one URL per line; blank lines and lines starting with `#` or `//` are
/// skipped.
pub fn parse_url_list(contents: &str) -> (r: Vec<String>)
    ensures
        string_views(r@) == url_lines(contents@),
{
    let lines = split_lines(&chars_of(contents));
    let ghost all = seqs_of(lines@);
    let n = lines.len();
    let mut urls: Vec<String> = Vec::new();
    let mut i: usize = 0;
    assert(all.subrange(0, 0) =~= Seq::<Seq<char>>::empty());
    assert(string_views(urls@) =~= Seq::<Seq<char>>::empty());
    while i < n
        invariant
            all == seqs_of(lines@),
            all == text_lines(contents@),
            n == all.len(),
            i <= n,
            all.subrange(0, i as int).filter(holds_url()) == string_views(urls@),
        decreases n - i,
    {
        let ghost kept = all.subrange(0, i as int).filter(holds_url());
        let ghost upto = all.subrange(0, i + 1);
        assert(upto.drop_last() =~= all.subrange(0, i as int));
        proof {
            reveal(Seq::filter);
            assert(upto.len() > 0);
            assert(upto.filter(holds_url()) == if is_url_line(all[i as int]) {
                kept.push(all[i as int])
            } else {
                kept
            });
        }
        let line = &lines[i];
        let k = line.len();
        let comment = (k >= 1 && line[0] == '#') || (k >= 2 && line[0] == '/' && line[1] == '/');
        if !comment && has_content(line) {
            let ghost before = urls@;
            let url = string_of(line.as_slice());
            urls.push(url);
            assert(string_views(urls@) =~= string_views(before).push(all[i as int]));
        }
        i += 1;
    }
    assert(all.subrange(0, n as int) =~= all);
    urls
}

/// The wrapper back-end needs the external `youtube-dl`: a run that asks for it fails when
/// the tool is not available.
pub fn check_wrapper_available(use_wrapper: bool, youtube_dl_available: bool) -> (r: Result<
    (),
    ConfigError,
>)
    ensures
        (use_wrapper && !youtube_dl_available) <==> r is Err,
        r matches Err(e) ==> e.0@ == "youtube-dl is not available"@,
{
    if use_wrapper && !youtube_dl_available {
        return Err(ConfigError("youtube-dl is not available".to_owned()));
    }
    Ok(())
}

impl Config {
    /// Checks the command line and gathers the URLs: those given as arguments, then those
    /// read from the URL list. Without arguments and without a list there is nothing to do.
    pub fn from_raw_args(raw: RawCliArgs, urls_from_file: Vec<String>) -> (r: Result<
        Config,
        ConfigError,
    >)
        ensures
            (raw.urls is None && raw.from_file_path is None) <==> r is Err,
            r matches Err(e) ==> e.0@ == "no urls to be downloaded"@,
            r matches Ok(c) ==> {
                &&& c.video_urls@ == match raw.urls {
                    Some(u) => u@,
                    None => Seq::empty(),
                } + urls_from_file@
                &&& c.output_dir == raw.output_dir
                &&& c.use_wrapper == raw.use_wrapper
            },
    {
        if raw.urls.is_none() && raw.from_file_path.is_none() {
            return Err(ConfigError("no urls to be downloaded".to_owned()));
        }
        let mut video_urls: Vec<String> = match raw.urls {
            Some(u) => u,
            None => Vec::new(),
        };
        let mut rest = urls_from_file;
        video_urls.append(&mut rest);
        Ok(Config { video_urls, output_dir: raw.output_dir, use_wrapper: raw.use_wrapper })
    }
}

} // verus!
