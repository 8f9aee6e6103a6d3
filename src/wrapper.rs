//! The back-end that leaves the work to an external `youtube-dl`: reading its output and
//! deciding on its exit status.
use vstd::prelude::*;

use crate::error::{YouDlError, YouDlErrorView};
use crate::file_size::{
    ends_with, ends_with_size_suffix, file_size_suffix, size_suffix, SUFFIX_COUNT,
};
use crate::text::{
    chars_of, pad_right, push_padded_right, push_str, seqs_of, split_lines, split_words,
    string_of, text_lines, text_words, trim, trimmed, utf8_to_string,
};

verus! {

/// Whether a character is numeric: the value of `char::is_numeric`, which depends on the
/// character alone.
pub uninterp spec fn numeric_char(c: char) -> bool;

/// Relies on `char::is_numeric`: whether the character's general category is a number
/// category; in the ASCII range those are exactly the digits.
#[verifier::external_body]
fn is_numeric(c: char) -> (r: bool)
    ensures
        r == numeric_char(c),
        (c as u32) < 128 ==> (r <==> ('0' <= c && c <= '9')),
{
    c.is_numeric()
}

/// One format that the external downloader lists.
#[derive(Debug, PartialEq, Eq)]
pub struct FileFormat {
    pub itag: String,
    pub file_extension: String,
    pub video_resolution: String,
    /// The size as listed, or `unknown` where the line gives none.
    pub file_size: String,
}

/// A `FileFormat` with its texts as character sequences.
pub struct FileFormatView {
    pub itag: Seq<char>,
    pub file_extension: Seq<char>,
    pub video_resolution: Seq<char>,
    pub file_size: Seq<char>,
}

impl View for FileFormat {
    type V = FileFormatView;

    open spec fn view(&self) -> FileFormatView {
        FileFormatView {
            itag: self.itag@,
            file_extension: self.file_extension@,
            video_resolution: self.video_resolution@,
            file_size: self.file_size@,
        }
    }
}

/// The views of a sequence of file formats.
pub open spec fn format_views(fs: Seq<FileFormat>) -> Seq<FileFormatView> {
    fs.map_values(|f: FileFormat| f@)
}

/// A line that begins with a numeric character: one that lists a format.
pub open spec fn starts_numeric(l: Seq<char>) -> bool {
    l.len() > 0 && numeric_char(l[0])
}

/// The test that picks the lines listing formats.
pub open spec fn lists_format() -> spec_fn(Seq<char>) -> bool {
    |l: Seq<char>| starts_numeric(l)
}

/// The lines of the output that list formats, in order.
pub open spec fn format_lines(s: Seq<char>) -> Seq<Seq<char>> {
    text_lines(s).filter(lists_format())
}

/// The error of a format line that has too few words.
pub open spec fn line_error() -> YouDlErrorView {
    YouDlErrorView::Application("failed to parse file_format"@)
}

/// The format that a line lists: its first three words are the itag, the extension and the
/// resolution, and its last word is the size when it ends with a unit suffix, else the size
/// is `unknown`. A line of fewer than four words lists none.
pub open spec fn format_of_line(line: Seq<char>) -> Result<FileFormatView, YouDlErrorView> {
    let w = text_words(line);
    if w.len() >= 4 {
        Ok(
            FileFormatView {
                itag: w[0],
                file_extension: w[1],
                video_resolution: w[2],
                file_size: if ends_with_size_suffix(w.last()) {
                    w.last()
                } else {
                    "unknown"@
                },
            },
        )
    } else {
        Err(line_error())
    }
}

/// The formats of a sequence of lines, in order; the first line that lists none decides the
/// error.
pub open spec fn formats_of_lines(ls: Seq<Seq<char>>) -> Result<
    Seq<FileFormatView>,
    YouDlErrorView,
>
    decreases ls.len(),
{
    if ls.len() == 0 {
        Ok(Seq::empty())
    } else {
        match formats_of_lines(ls.drop_last()) {
            Err(e) => Err(e),
            Ok(prefix) => match format_of_line(ls.last()) {
                Err(e) => Err(e),
                Ok(f) => Ok(prefix.push(f)),
            },
        }
    }
}

/// The formats listed in the output of `youtube-dl -F`.
pub open spec fn file_formats_of(s: Seq<char>) -> Result<Seq<FileFormatView>, YouDlErrorView> {
    formats_of_lines(format_lines(s))
}

/// The menu line of a file format.
pub open spec fn file_format_line(f: FileFormatView) -> Seq<char> {
    pad_right(f.itag, 6) + pad_right(f.file_extension, 8) + pad_right(f.video_resolution, 11)
        + f.file_size
}

proof fn lemma_formats_error_persists(a: Seq<Seq<char>>, b: Seq<Seq<char>>)
    requires
        formats_of_lines(a) is Err,
    ensures
        formats_of_lines(a + b) == formats_of_lines(a),
    decreases b.len(),
{
    if b.len() == 0 {
        assert(a + b =~= a);
    } else {
        lemma_formats_error_persists(a, b.drop_last());
        assert((a + b).drop_last() =~= a + b.drop_last());
    }
}

/// Whether a listed size ends with one of the unit suffixes.
pub fn is_valid_file_size(file_size: &str) -> (r: bool)
    ensures
        r == ends_with_size_suffix(file_size@),
{
    let cs = chars_of(file_size);
    let n = cs.len();
    let mut i: usize = 0;
    while i < SUFFIX_COUNT
        invariant
            cs@ == file_size@,
            n == cs@.len(),
            i <= 6,
            forall|j: int| 0 <= j < i ==> !ends_with(file_size@, #[trigger] size_suffix(j)),
        decreases 6 - i,
    {
        let suffix = chars_of(file_size_suffix(i));
        let m = suffix.len();
        if m <= n {
            let mut k: usize = 0;
            while k < m && cs[n - m + k] == suffix[k]
                invariant
                    m <= n,
                    k <= m,
                    n == cs@.len(),
                    m == suffix@.len(),
                    forall|j: int| 0 <= j < k ==> cs@[n - m + j] == suffix@[j],
                decreases m - k,
            {
                k += 1;
            }
            if k == m {
                assert(file_size@.subrange(n - m, n as int) =~= suffix@);
                return true;
            }
        }
        i += 1;
    }
    false
}

impl FileFormat {
    /// Reads the format that one line of `youtube-dl -F` lists.
    pub fn parse_line(line: &str) -> (r: Result<FileFormat, YouDlError>)
        ensures
            match r {
                Ok(f) => format_of_line(line@) == Ok::<FileFormatView, YouDlErrorView>(f@),
                Err(e) => format_of_line(line@) == Err::<FileFormatView, YouDlErrorView>(e@),
            },
    {
        let words = split_words(&chars_of(line));
        let n = words.len();
        if n < 4 {
            return Err(YouDlError::Application("failed to parse file_format".to_owned()));
        }
        assert(seqs_of(words@)[0] == words@[0]@);
        assert(seqs_of(words@)[1] == words@[1]@);
        assert(seqs_of(words@)[2] == words@[2]@);
        assert(seqs_of(words@).last() == words@[n - 1]@);
        let last = string_of(words[n - 1].as_slice());
        let file_size = if is_valid_file_size(last.as_str()) {
            last
        } else {
            "unknown".to_owned()
        };
        Ok(
            FileFormat {
                itag: string_of(words[0].as_slice()),
                file_extension: string_of(words[1].as_slice()),
                video_resolution: string_of(words[2].as_slice()),
                file_size,
            },
        )
    }

    /// Reads the formats that the output of `youtube-dl -F` lists: one per line that begins
    /// with a numeric character, in order; other lines are dropped.
    pub fn from_youtube_dl_stdout(youtube_dl_stdout: &str) -> (r: Result<
        Vec<FileFormat>,
        YouDlError,
    >)
        ensures
            match r {
                Ok(fs) => file_formats_of(youtube_dl_stdout@) == Ok::<
                    Seq<FileFormatView>,
                    YouDlErrorView,
                >(format_views(fs@)),
                Err(e) => file_formats_of(youtube_dl_stdout@) == Err::<
                    Seq<FileFormatView>,
                    YouDlErrorView,
                >(e@),
            },
    {
        let lines = split_lines(&chars_of(youtube_dl_stdout));
        let ghost all = seqs_of(lines@);
        let n = lines.len();
        let mut formats: Vec<FileFormat> = Vec::new();
        let mut i: usize = 0;
        assert(all.subrange(0, 0) =~= Seq::<Seq<char>>::empty());
        assert(format_views(formats@) =~= Seq::<FileFormatView>::empty());
        while i < n
            invariant
                all == seqs_of(lines@),
                all == text_lines(youtube_dl_stdout@),
                n == all.len(),
                i <= n,
                formats_of_lines(all.subrange(0, i as int).filter(lists_format()))
                    == Ok::<Seq<FileFormatView>, YouDlErrorView>(format_views(formats@)),
            decreases n - i,
        {
            let ghost kept = all.subrange(0, i as int).filter(lists_format());
            assert(all.subrange(0, i + 1).drop_last() =~= all.subrange(0, i as int));
            assert(all[i as int] == lines@[i as int]@);
            let line = &lines[i];
            let ghost upto = all.subrange(0, i + 1);
            proof {
                reveal(Seq::filter);
                assert(upto.len() > 0);
                assert(upto.filter(lists_format()) == if starts_numeric(all[i as int]) {
                    kept.push(all[i as int])
                } else {
                    kept
                });
            }
            if line.len() > 0 && is_numeric(line[0]) {
                let text = string_of(line.as_slice());
                match FileFormat::parse_line(text.as_str()) {
                    Ok(f) => {
                        let ghost before = formats@;
                        let ghost fv = f@;
                        formats.push(f);
                        assert(format_views(formats@) =~= format_views(before).push(fv));
                        assert(kept.push(all[i as int]).drop_last() =~= kept);
                    },
                    Err(e) => {
                        proof {
                            assert(kept.push(all[i as int]).drop_last() =~= kept);
                            let rest = all.subrange(i + 1, n as int);
                            assert(all =~= upto + rest);
                            Seq::filter_distributes_over_add(upto, rest, lists_format());
                            lemma_formats_error_persists(
                                upto.filter(lists_format()),
                                rest.filter(lists_format()),
                            );
                        }
                        return Err(e);
                    },
                }
            }
            i += 1;
        }
        assert(all.subrange(0, n as int) =~= all);
        Ok(formats)
    }

    /// The line that shows this format in a menu.
    pub fn to_line(&self) -> (r: String)
        ensures
            r@ == file_format_line(self@),
    {
        let mut out: Vec<char> = Vec::new();
        push_padded_right(&mut out, &chars_of(self.itag.as_str()), 6);
        push_padded_right(&mut out, &chars_of(self.file_extension.as_str()), 8);
        push_padded_right(&mut out, &chars_of(self.video_resolution.as_str()), 11);
        push_str(&mut out, self.file_size.as_str());
        string_of(out.as_slice())
    }
}

/// Lines that do not begin with a numeric character are dropped: the formats read from an
/// output correspond one for one and in order to the lines that begin with one.
pub proof fn lemma_only_numeric_lines_listed(s: Seq<char>)
    ensures
        forall|k: int|
            0 <= k < format_lines(s).len() ==> starts_numeric(#[trigger] format_lines(s)[k]),
        forall|l: Seq<char>|
            text_lines(s).contains(l) && !starts_numeric(l) ==> !format_lines(s).contains(l),
        file_formats_of(s) is Ok ==> {
            &&& file_formats_of(s)->Ok_0.len() == format_lines(s).len()
            &&& forall|k: int|
                0 <= k < format_lines(s).len() ==> file_formats_of(s)->Ok_0[k] == format_of_line(
                    #[trigger] format_lines(s)[k],
                )->Ok_0
        },
{
    let p = lists_format();
    let ls = text_lines(s);
    assert forall|k: int| 0 <= k < format_lines(s).len() implies starts_numeric(
        #[trigger] format_lines(s)[k],
    ) by {
        ls.lemma_filter_pred(p, k);
    }
    assert forall|l: Seq<char>| ls.contains(l) && !starts_numeric(l) implies !format_lines(
        s,
    ).contains(l) by {
        if format_lines(s).contains(l) {
            let k = choose|k: int| 0 <= k < format_lines(s).len() && format_lines(s)[k] == l;
            ls.lemma_filter_pred(p, k);
        }
    }
    lemma_formats_of_lines_shape(format_lines(s));
}

proof fn lemma_formats_of_lines_shape(ls: Seq<Seq<char>>)
    ensures
        formats_of_lines(ls) is Ok ==> {
            &&& formats_of_lines(ls)->Ok_0.len() == ls.len()
            &&& forall|k: int|
                0 <= k < ls.len() ==> formats_of_lines(ls)->Ok_0[k] == format_of_line(
                    #[trigger] ls[k],
                )->Ok_0
        },
    decreases ls.len(),
{
    if ls.len() > 0 {
        let init = ls.drop_last();
        lemma_formats_of_lines_shape(init);
        if formats_of_lines(ls) is Ok {
            assert forall|k: int| 0 <= k < ls.len() implies formats_of_lines(ls)->Ok_0[k]
                == format_of_line(#[trigger] ls[k])->Ok_0 by {
                if k < ls.len() - 1 {
                    assert(init[k] == ls[k]);
                }
            }
        }
    }
}

/// The decision on a finished run of the external downloader: a success passes; otherwise
/// its error output becomes a `YoutubeDl` error, or an `Application` error where that output
/// is not UTF-8.
pub fn check_exit_status(success: bool, stderr: Vec<u8>) -> (r: Result<(), YouDlError>)
    ensures
        success <==> r is Ok,
        !success && vstd::utf8::valid_utf8(stderr@) ==> (r matches Err(YouDlError::YoutubeDl(m))
            && m@ == vstd::utf8::decode_utf8(stderr@)),
        !success && !vstd::utf8::valid_utf8(stderr@) ==> r matches Err(
            YouDlError::Application(_),
        ),
{
    if success {
        return Ok(());
    }
    match utf8_to_string(stderr) {
        Ok(m) => Err(YouDlError::YoutubeDl(m)),
        Err(m) => Err(YouDlError::Application(m)),
    }
}

/// The title from the output of `youtube-dl --get-title`: the output, trimmed.
pub fn title_from_stdout(stdout: Vec<u8>) -> (r: Result<String, YouDlError>)
    ensures
        vstd::utf8::valid_utf8(stdout@) ==> (r matches Ok(t) && t@ == trim(
            vstd::utf8::decode_utf8(stdout@),
        )),
        !vstd::utf8::valid_utf8(stdout@) ==> r matches Err(YouDlError::Application(_)),
{
    match utf8_to_string(stdout) {
        Ok(s) => Ok(trimmed(s.as_str())),
        Err(m) => Err(YouDlError::Application(m)),
    }
}

/// The formats from the output of `youtube-dl -F`.
pub fn file_formats_from_stdout(stdout: Vec<u8>) -> (r: Result<Vec<FileFormat>, YouDlError>)
    ensures
        vstd::utf8::valid_utf8(stdout@) ==> match r {
            Ok(fs) => file_formats_of(vstd::utf8::decode_utf8(stdout@)) == Ok::<
                Seq<FileFormatView>,
                YouDlErrorView,
            >(format_views(fs@)),
            Err(e) => file_formats_of(vstd::utf8::decode_utf8(stdout@)) == Err::<
                Seq<FileFormatView>,
                YouDlErrorView,
            >(e@),
        },
        !vstd::utf8::valid_utf8(stdout@) ==> r matches Err(YouDlError::Application(_)),
{
    match utf8_to_string(stdout) {
        Ok(s) => FileFormat::from_youtube_dl_stdout(s.as_str()),
        Err(m) => Err(YouDlError::Application(m)),
    }
}

/// The output template handed to `youtube-dl -o`: the title and extension of the video,
/// inside the output directory.
pub fn output_template(output_dir: &str) -> (r: String)
    ensures
        r@ == output_dir@ + "/%(title)s.%(ext)s"@,
{
    let mut out: Vec<char> = Vec::new();
    push_str(&mut out, output_dir);
    push_str(&mut out, "/%(title)s.%(ext)s");
    string_of(out.as_slice())
}

} // verus!
