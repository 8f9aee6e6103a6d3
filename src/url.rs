//! Finding the video id in the many URL shapes that the service uses.
use vstd::prelude::*;

use crate::error::YouDlError;
use crate::text::chars_of;

verus! {

/// A word character of the ASCII range: a letter, a digit or `_`.
pub open spec fn is_word_char(c: char) -> bool {
    ('a' <= c && c <= 'z') || ('A' <= c && c <= 'Z') || ('0' <= c && c <= '9') || c == '_'
}

/// A character that ends a video id.
pub open spec fn is_id_stop(c: char) -> bool {
    c == '#' || c == '&' || c == '?'
}

/// `m` stands in `s` from position `p` on.
pub open spec fn matches_at(s: Seq<char>, p: int, m: Seq<char>) -> bool {
    0 <= p && p + m.len() <= s.len() && forall|k: int| 0 <= k < m.len() ==> s[p + k] == m[k]
}

/// Where the id begins when a marker starts at `p`: after `youtu.be/`, `v/`, `vi/`,
/// `u/<word char>/`, `embed/`, `watch?v=`, `watch?vi=`, `?v=`, `?vi=`, `&v=` or `&vi=`.
pub open spec fn marker_end(s: Seq<char>, p: int) -> Option<int> {
    if matches_at(s, p, seq!['y', 'o', 'u', 't', 'u', '.', 'b', 'e', '/']) {
        Some(p + 9)
    } else if matches_at(s, p, seq!['v', '/']) {
        Some(p + 2)
    } else if matches_at(s, p, seq!['v', 'i', '/']) {
        Some(p + 3)
    } else if matches_at(s, p, seq!['u', '/']) && p + 3 < s.len() && is_word_char(s[p + 2])
        && s[p + 3] == '/' {
        Some(p + 4)
    } else if matches_at(s, p, seq!['e', 'm', 'b', 'e', 'd', '/']) {
        Some(p + 6)
    } else if matches_at(s, p, seq!['w', 'a', 't', 'c', 'h', '?', 'v', 'i', '=']) {
        Some(p + 9)
    } else if matches_at(s, p, seq!['w', 'a', 't', 'c', 'h', '?', 'v', '=']) {
        Some(p + 8)
    } else if matches_at(s, p, seq!['?', 'v', 'i', '=']) {
        Some(p + 4)
    } else if matches_at(s, p, seq!['?', 'v', '=']) {
        Some(p + 3)
    } else if matches_at(s, p, seq!['&', 'v', 'i', '=']) {
        Some(p + 4)
    } else if matches_at(s, p, seq!['&', 'v', '=']) {
        Some(p + 3)
    } else {
        None
    }
}

/// A marker starts at `p`, and no line break comes before it.
pub open spec fn is_marker_pos(s: Seq<char>, p: int) -> bool {
    0 <= p < s.len() && marker_end(s, p) is Some && forall|j: int| 0 <= j < p ==> s[j] != '\n'
}

/// `p` is the last such marker position.
pub open spec fn is_last_marker(s: Seq<char>, p: int) -> bool {
    is_marker_pos(s, p) && forall|q: int| p < q ==> !is_marker_pos(s, q)
}

/// Where the run of id characters that starts at `e` ends.
pub open spec fn run_end(s: Seq<char>, e: int) -> int
    decreases s.len() - e,
{
    if e < 0 || e >= s.len() || is_id_stop(s[e]) {
        e
    } else {
        run_end(s, e + 1)
    }
}

/// The video id of a URL: the longest run of characters other than `#`, `&` and `?` that
/// follows the last marker before the first line break; `None` where there is no marker.
pub open spec fn video_id_of(s: Seq<char>) -> Option<Seq<char>> {
    if exists|p: int| is_last_marker(s, p) {
        let p = choose|p: int| is_last_marker(s, p);
        let e = marker_end(s, p)->Some_0;
        Some(s.subrange(e, run_end(s, e)))
    } else {
        None
    }
}

fn matches_at_exec(cs: &Vec<char>, p: usize, m: &Vec<char>) -> (r: bool)
    ensures
        r == matches_at(cs@, p as int, m@),
{
    if p > cs.len() || m.len() > cs.len() - p {
        return false;
    }
    let mut k: usize = 0;
    while k < m.len()
        invariant
            p + m@.len() <= cs@.len(),
            cs@.len() == cs.len(),
            m@.len() == m.len(),
            k <= m@.len(),
            forall|j: int| 0 <= j < k ==> cs@[p + j] == m@[j],
        decreases m@.len() - k,
    {
        if cs[p + k] != m[k] {
            return false;
        }
        k += 1;
    }
    true
}

fn word_char(c: char) -> (r: bool)
    ensures
        r == is_word_char(c),
{
    ('a' <= c && c <= 'z') || ('A' <= c && c <= 'Z') || ('0' <= c && c <= '9') || c == '_'
}

fn marker_end_exec(cs: &Vec<char>, p: usize) -> (r: Option<usize>)
    ensures
        match r {
            Some(e) => marker_end(cs@, p as int) == Some(e as int),
            None => marker_end(cs@, p as int) is None,
        },
{
    let youtu_be = vec!['y', 'o', 'u', 't', 'u', '.', 'b', 'e', '/'];
    let v = vec!['v', '/'];
    let vi = vec!['v', 'i', '/'];
    let u = vec!['u', '/'];
    let embed = vec!['e', 'm', 'b', 'e', 'd', '/'];
    let watch_vi = vec!['w', 'a', 't', 'c', 'h', '?', 'v', 'i', '='];
    let watch_v = vec!['w', 'a', 't', 'c', 'h', '?', 'v', '='];
    let q_vi = vec!['?', 'v', 'i', '='];
    let q_v = vec!['?', 'v', '='];
    let amp_vi = vec!['&', 'v', 'i', '='];
    let amp_v = vec!['&', 'v', '='];
    let n = cs.len();
    if matches_at_exec(cs, p, &youtu_be) {
        Some(p + 9)
    } else if matches_at_exec(cs, p, &v) {
        Some(p + 2)
    } else if matches_at_exec(cs, p, &vi) {
        Some(p + 3)
    } else if matches_at_exec(cs, p, &u) && n - p > 3 && word_char(cs[p + 2]) && cs[p
        + 3] == '/' {
        Some(p + 4)
    } else if matches_at_exec(cs, p, &embed) {
        Some(p + 6)
    } else if matches_at_exec(cs, p, &watch_vi) {
        Some(p + 9)
    } else if matches_at_exec(cs, p, &watch_v) {
        Some(p + 8)
    } else if matches_at_exec(cs, p, &q_vi) {
        Some(p + 4)
    } else if matches_at_exec(cs, p, &q_v) {
        Some(p + 3)
    } else if matches_at_exec(cs, p, &amp_vi) {
        Some(p + 4)
    } else if matches_at_exec(cs, p, &amp_v) {
        Some(p + 3)
    } else {
        None
    }
}

/// Extracts the video id from a URL of one of the service's shapes.
pub fn extract_video_id(url: &str) -> (r: Result<&str, YouDlError>)
    ensures
        match r {
            Ok(id) => video_id_of(url@) == Some(id@),
            Err(e) => video_id_of(url@) is None && e@ == crate::error::YouDlErrorView::InvalidURL(
                url@,
            ),
        },
{
    let cs = chars_of(url);
    let n = cs.len();
    let mut best: Option<usize> = None;
    let mut i: usize = 0;
    while i < n && cs[i] != '\n'
        invariant
            cs@ == url@,
            n == cs@.len(),
            i <= n,
            forall|j: int| 0 <= j < i ==> cs@[j] != '\n',
            match best {
                Some(p) => p < i && is_marker_pos(url@, p as int) && marker_end(url@, p as int)
                    is Some && forall|q: int| p < q < i ==> !is_marker_pos(url@, q),
                None => forall|q: int| 0 <= q < i ==> !is_marker_pos(url@, q),
            },
        decreases n - i,
    {
        if marker_end_exec(&cs, i).is_some() {
            best = Some(i);
        }
        i += 1;
    }
    assert forall|q: int| i <= q implies !is_marker_pos(url@, q) by {
        if i < n && q > i {
            assert(url@[i as int] == '\n');
        }
    }
    match best {
        None => Err(YouDlError::InvalidURL(url.to_owned())),
        Some(p) => {
            let e = match marker_end_exec(&cs, p) {
                Some(e) => e,
                None => {
                    return Err(YouDlError::InvalidURL(url.to_owned()));
                },
            };
            let mut t: usize = e;
            while t < n && cs[t] != '#' && cs[t] != '&' && cs[t] != '?'
                invariant
                    cs@ == url@,
                    n == cs@.len(),
                    e <= t <= n,
                    run_end(url@, e as int) == run_end(url@, t as int),
                decreases n - t,
            {
                t += 1;
            }
            proof {
                assert(is_last_marker(url@, p as int));
                let pc = choose|pc: int| is_last_marker(url@, pc);
                assert(pc == p as int);
            }
            Ok(url.substring_char(e, t))
        },
    }
}

} // verus!
