//! The decisions of the native download step: where the file goes, how progress is
//! measured, and which answers are accepted.
use vstd::prelude::*;

use crate::error::{YouDlError, YouDlErrorView};
use crate::models::DownloadOption;
use crate::text::{int_text, push_int, push_str, string_of};

verus! {

impl DownloadOption {
    /// The name of the file that the option is saved to: `<title>.<extension>`.
    pub fn file_name(&self) -> (r: String)
        ensures
            r@ == self.title@ + seq!['.'] + self.file_extension@,
    {
        let mut out: Vec<char> = Vec::new();
        push_str(&mut out, self.title.as_str());
        out.push('.');
        push_str(&mut out, self.file_extension.as_str());
        string_of(out.as_slice())
    }
}

/// The length that the progress indicator is given: the announced content length, or the
/// largest `u64` where none is announced, which shows as an indeterminate bar.
pub fn progress_length(content_length: Option<u64>) -> (r: u64)
    ensures
        r == match content_length {
            Some(n) => n,
            None => u64::MAX,
        },
{
    match content_length {
        Some(n) => n,
        None => u64::MAX,
    }
}

/// Accepts an HTTP status of the 2xx range; any other is an invalid response.
pub fn check_response_status(status: u16) -> (r: Result<(), YouDlError>)
    ensures
        200 <= status < 300 <==> r is Ok,
        r matches Err(e) ==> e@ == YouDlErrorView::InvalidResponse(
            "unexpected HTTP status "@ + int_text(status as int),
        ),
{
    if 200 <= status && status < 300 {
        return Ok(());
    }
    let mut out: Vec<char> = Vec::new();
    push_str(&mut out, "unexpected HTTP status ");
    push_int(&mut out, status as i128);
    Err(YouDlError::InvalidResponse(string_of(out.as_slice())))
}

/// The message that ends a successful download.
pub fn success_message(title: &str) -> (r: String)
    ensures
        r@ == "Successfully downloaded: "@ + title@,
{
    let mut out: Vec<char> = Vec::new();
    push_str(&mut out, "Successfully downloaded: ");
    push_str(&mut out, title);
    string_of(out.as_slice())
}

} // verus!
