//! The errors that a download pipeline can end with.
use vstd::prelude::*;

use crate::text::{push_str, string_of, trim, trimmed};

verus! {

/// Why a download pipeline failed.
#[derive(Debug, PartialEq, Eq)]
pub enum YouDlError {
    /// The external downloader failed or could not be started.
    YoutubeDl(String),
    /// Local I/O, encoding, or an unexpected failure.
    Application(String),
    /// No video id could be found in the URL.
    InvalidURL(String),
    /// The service offers nothing to download: the title, and why.
    Undownloadable(String, String),
    /// The interactive choice failed or was cancelled.
    User(String),
    /// The HTTP layer or the payload was not as expected.
    InvalidResponse(String),
}

/// A `YouDlError` with its texts as character sequences.
pub enum YouDlErrorView {
    YoutubeDl(Seq<char>),
    Application(Seq<char>),
    InvalidURL(Seq<char>),
    Undownloadable(Seq<char>, Seq<char>),
    User(Seq<char>),
    InvalidResponse(Seq<char>),
}

impl View for YouDlError {
    type V = YouDlErrorView;

    open spec fn view(&self) -> YouDlErrorView {
        match self {
            YouDlError::YoutubeDl(m) => YouDlErrorView::YoutubeDl(m@),
            YouDlError::Application(m) => YouDlErrorView::Application(m@),
            YouDlError::InvalidURL(u) => YouDlErrorView::InvalidURL(u@),
            YouDlError::Undownloadable(t, m) => YouDlErrorView::Undownloadable(t@, m@),
            YouDlError::User(m) => YouDlErrorView::User(m@),
            YouDlError::InvalidResponse(m) => YouDlErrorView::InvalidResponse(m@),
        }
    }
}

/// The one-line text of an error: a category, then the detail, trimmed where it comes
/// from elsewhere.
pub open spec fn error_text(e: YouDlErrorView) -> Seq<char> {
    match e {
        YouDlErrorView::YoutubeDl(m) => "youtube-dl Error: "@ + trim(m),
        YouDlErrorView::Application(m) => "Application Error: "@ + trim(m),
        YouDlErrorView::InvalidURL(u) => "Invalid URL Error: "@ + u,
        YouDlErrorView::Undownloadable(t, m) => "Undownloadable Error for `"@ + t + "`: "@ + m,
        YouDlErrorView::User(m) => "User Error: "@ + trim(m),
        YouDlErrorView::InvalidResponse(m) => "Invalid Response Error: "@ + trim(m),
    }
}

impl YouDlError {
    /// The text shown for this error.
    pub fn message(&self) -> (r: String)
        ensures
            r@ == error_text(self@),
    {
        let mut out: Vec<char> = Vec::new();
        match self {
            YouDlError::YoutubeDl(m) => {
                push_str(&mut out, "youtube-dl Error: ");
                push_str(&mut out, trimmed(m.as_str()).as_str());
            },
            YouDlError::Application(m) => {
                push_str(&mut out, "Application Error: ");
                push_str(&mut out, trimmed(m.as_str()).as_str());
            },
            YouDlError::InvalidURL(u) => {
                push_str(&mut out, "Invalid URL Error: ");
                push_str(&mut out, u.as_str());
            },
            YouDlError::Undownloadable(t, m) => {
                push_str(&mut out, "Undownloadable Error for `");
                push_str(&mut out, t.as_str());
                push_str(&mut out, "`: ");
                push_str(&mut out, m.as_str());
            },
            YouDlError::User(m) => {
                push_str(&mut out, "User Error: ");
                push_str(&mut out, trimmed(m.as_str()).as_str());
            },
            YouDlError::InvalidResponse(m) => {
                push_str(&mut out, "Invalid Response Error: ");
                push_str(&mut out, trimmed(m.as_str()).as_str());
            },
        }
        string_of(out.as_slice())
    }
}

/// A configuration that cannot be used, with the reason.
#[derive(Debug, PartialEq, Eq)]
pub struct ConfigError(pub String);

impl ConfigError {
    /// The text shown for this error.
    pub fn message(&self) -> (r: String)
        ensures
            r@ == "failed to parse program arguments: "@ + self.0@,
    {
        let mut out: Vec<char> = Vec::new();
        push_str(&mut out, "failed to parse program arguments: ");
        push_str(&mut out, self.0.as_str());
        string_of(out.as_slice())
    }
}

} // verus!
