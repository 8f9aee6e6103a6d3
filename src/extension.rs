//! The file extension of each itag that the service documents.
use vstd::prelude::*;

verus! {

/// The file extension of a format with the given itag, where the table knows it.
pub open spec fn extension_of(itag: i32) -> Option<Seq<char>> {
    if itag == 5 || itag == 6 || itag == 34 || itag == 35 {
        Some("flv"@)
    } else if itag == 13 || itag == 17 || itag == 36 {
        Some("3gp"@)
    } else if itag == 18 || itag == 22 || itag == 37 || itag == 38 || itag == 59 || itag == 78
        || itag == 82 || itag == 83 || itag == 84 || itag == 85 {
        Some("mp4"@)
    } else if itag == 43 || itag == 44 || itag == 45 || itag == 46 || itag == 100 || itag == 101
        || itag == 102 {
        Some("webm"@)
    } else {
        None
    }
}

/// Looks up the file extension of an itag; `None` for an itag that the table does not hold.
pub fn get_file_extension(itag: i32) -> (r: Option<&'static str>)
    ensures
        match r {
            Some(e) => extension_of(itag) == Some(e@),
            None => extension_of(itag) is None,
        },
{
    if itag == 5 || itag == 6 || itag == 34 || itag == 35 {
        Some("flv")
    } else if itag == 13 || itag == 17 || itag == 36 {
        Some("3gp")
    } else if itag == 18 || itag == 22 || itag == 37 || itag == 38 || itag == 59 || itag == 78
        || itag == 82 || itag == 83 || itag == 84 || itag == 85 {
        Some("mp4")
    } else if itag == 43 || itag == 44 || itag == 45 || itag == 46 || itag == 100 || itag == 101
        || itag == 102 {
        Some("webm")
    } else {
        None
    }
}

} // verus!
