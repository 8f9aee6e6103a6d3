//! The video-info request: where it goes, and how its answer is unpacked.
use vstd::prelude::*;

use crate::error::{YouDlError, YouDlErrorView};
use crate::text::{chars_of, push_str, string_of};

verus! {

/// The value that qstring finds for `name` in a query string: the percent-decoded value of
/// the first pair whose percent-decoded name is `name` (empty for a pair without `=`). It
/// depends on the two texts alone.
pub uninterp spec fn query_value(query: Seq<char>, name: Seq<char>) -> Option<Seq<char>>;

/// A position where qstring's parser starts reading a new pair: the start, the position
/// after a leading `?`, every position after a `&`, and the position after a `=` that
/// itself starts a pair (a pair without a name).
pub open spec fn is_pair_start(s: Seq<char>, i: int) -> bool
    decreases i,
{
    if i < 0 || i >= s.len() {
        false
    } else if i == 0 {
        true
    } else if i == 1 && s[0] == '?' {
        true
    } else if s[i - 1] == '&' {
        true
    } else if s[i - 1] == '=' {
        is_pair_start(s, i - 1)
    } else {
        false
    }
}

/// qstring's parser slices off the first byte of each pair it starts; it does not panic
/// exactly when each of those characters is ASCII.
pub open spec fn query_parsable(s: Seq<char>) -> bool {
    forall|i: int| 0 <= i < s.len() && is_pair_start(s, i) ==> (s[i] as u32) < 128
}

/// Relies on qstring's `QString::from` and `QString::get`: `from` splits the text into
/// pairs and percent-decodes them, `get` returns the value of the first pair with the name.
/// `from` slices off the first byte of each pair it starts, and so panics when that byte
/// begins a character that is not ASCII.
#[verifier::external_body]
fn query_lookup(query: &str, name: &str) -> (r: Option<String>)
    requires
        query_parsable(query@),
    ensures
        match r {
            Some(v) => query_value(query@, name@) == Some(v@),
            None => query_value(query@, name@) is None,
        },
{
    qstring::QString::from(query).get(name).map(|v| v.to_owned())
}

/// Whether qstring can parse the text without panicking.
pub fn is_query_parsable(query: &str) -> (r: bool)
    ensures
        r == query_parsable(query@),
{
    let cs = chars_of(query);
    let n = cs.len();
    let mut i: usize = 0;
    let mut start = true;
    while i < n
        invariant
            cs@ == query@,
            n == cs@.len(),
            i <= n,
            i < n ==> start == is_pair_start(query@, i as int),
            forall|j: int| 0 <= j < i && is_pair_start(query@, j) ==> (query@[j] as u32) < 128,
        decreases n - i,
    {
        let c = cs[i];
        if start && (c as u32) >= 128 {
            return false;
        }
        start = (i == 0 && c == '?') || c == '&' || (c == '=' && start);
        i += 1;
    }
    true
}

/// The address of the video-info request for a video id.
pub fn video_info_url(video_id: &str) -> (r: String)
    ensures
        r@ == "https://www.youtube.com/get_video_info?video_id="@ + video_id@,
{
    let mut out: Vec<char> = Vec::new();
    push_str(&mut out, "https://www.youtube.com/get_video_info?video_id=");
    push_str(&mut out, video_id);
    string_of(out.as_slice())
}

/// The JSON payload inside the body of a video-info answer: the value of its
/// `player_response` pair.
pub fn player_response_json(body: &str) -> (r: Result<String, YouDlError>)
    ensures
        !query_parsable(body@) ==> (r matches Err(e) && e@ == YouDlErrorView::InvalidResponse(
            "malformed query string in the response body"@,
        )),
        query_parsable(body@) ==> match query_value(body@, "player_response"@) {
            Some(v) => (r matches Ok(j) && j@ == v),
            None => (r matches Err(e) && e@ == YouDlErrorView::InvalidResponse(
                "missing value for player_response"@,
            )),
        },
{
    if !is_query_parsable(body) {
        return Err(
            YouDlError::InvalidResponse("malformed query string in the response body".to_owned()),
        );
    }
    match query_lookup(body, "player_response") {
        Some(v) => Ok(v),
        None => Err(YouDlError::InvalidResponse("missing value for player_response".to_owned())),
    }
}

} // verus!
