//! Where the database and the files of attachments are.
use vstd::prelude::*;
use vstd::string::*;

use crate::text::cut_at;
use crate::text::same;
use crate::text::trim;
use crate::text::trimmed;
use crate::text::until;

verus! {

/// A path with a name added to it: the name alone where it is absolute, and a slash between them
/// where one is needed.
pub open spec fn path_of(dir: Seq<char>, name: Seq<char>) -> Seq<char> {
    if name.len() > 0 && name[0] == '/' {
        name
    } else if dir.len() == 0 || dir.last() == '/' {
        dir + name
    } else {
        dir + "/"@ + name
    }
}

/// Adds a name to a path.
pub fn join_path(dir: &str, name: &str) -> (r: String)
    ensures
        r@ == path_of(dir@, name@),
{
    let n: usize = name.unicode_len();
    if n > 0 && name.get_char(0) == '/' {
        return name.to_owned();
    }
    let d: usize = dir.unicode_len();
    let mut path = dir.to_owned();
    if d > 0 && dir.get_char(d - 1) != '/' {
        path.append("/");
    }
    path.append(name);
    path
}

/// Where the database is.
pub fn db_path(data_dir: &str) -> (r: String)
    ensures
        r@ == path_of(data_dir@, "tenet.db"@),
{
    join_path(data_dir, "tenet.db")
}

/// Where data is kept: where the user says, or else in `.tenet` in the home directory, or in the
/// current one where no home is known.
pub fn resolve_data_dir(tenet_home: &Option<String>, home: &Option<String>) -> (r: String)
    ensures
        r@ == (match (*tenet_home, *home) {
            (Some(t), _) => t@,
            (None, Some(h)) => path_of(h@, ".tenet"@),
            (None, None) => path_of("."@, ".tenet"@),
        }),
{
    match tenet_home {
        Some(t) => t.clone(),
        None => match home {
            Some(h) => join_path(h.as_str(), ".tenet"),
            None => join_path(".", ".tenet"),
        },
    }
}

/// The file name extension for a media type.
pub open spec fn extension(media: Seq<char>) -> Seq<char> {
    if media == "image/png"@ {
        "png"@
    } else if media == "image/jpeg"@ || media == "image/jpg"@ {
        "jpg"@
    } else if media == "image/gif"@ {
        "gif"@
    } else if media == "image/webp"@ {
        "webp"@
    } else if media == "image/svg+xml"@ {
        "svg"@
    } else if media == "image/bmp"@ {
        "bmp"@
    } else if media == "image/tiff"@ {
        "tiff"@
    } else if media == "application/pdf"@ {
        "pdf"@
    } else if media == "text/plain"@ {
        "txt"@
    } else if media == "text/html"@ {
        "html"@
    } else if media == "text/css"@ {
        "css"@
    } else if media == "application/json"@ {
        "json"@
    } else if media == "video/mp4"@ {
        "mp4"@
    } else if media == "video/webm"@ {
        "webm"@
    } else if media == "audio/mpeg"@ {
        "mp3"@
    } else if media == "audio/ogg"@ {
        "ogg"@
    } else if media == "audio/wav"@ {
        "wav"@
    } else {
        "bin"@
    }
}

/// The media type of a content type: what stands before the parameters.
pub open spec fn media_type(content_type: Seq<char>) -> Seq<char> {
    trimmed(until(content_type, ';'))
}

/// The file name extension for a content type.
pub fn content_type_to_ext(content_type: &str) -> (r: &'static str)
    ensures
        r@ == extension(media_type(content_type@)),
{
    let base = trim(cut_at(content_type, ';'));
    if same(base, "image/png") {
        "png"
    } else if same(base, "image/jpeg") || same(base, "image/jpg") {
        "jpg"
    } else if same(base, "image/gif") {
        "gif"
    } else if same(base, "image/webp") {
        "webp"
    } else if same(base, "image/svg+xml") {
        "svg"
    } else if same(base, "image/bmp") {
        "bmp"
    } else if same(base, "image/tiff") {
        "tiff"
    } else if same(base, "application/pdf") {
        "pdf"
    } else if same(base, "text/plain") {
        "txt"
    } else if same(base, "text/html") {
        "html"
    } else if same(base, "text/css") {
        "css"
    } else if same(base, "application/json") {
        "json"
    } else if same(base, "video/mp4") {
        "mp4"
    } else if same(base, "video/webm") {
        "webm"
    } else if same(base, "audio/mpeg") {
        "mp3"
    } else if same(base, "audio/ogg") {
        "ogg"
    } else if same(base, "audio/wav") {
        "wav"
    } else {
        "bin"
    }
}

/// Whether all characters are ASCII.
pub open spec fn ascii(s: Seq<char>) -> bool {
    forall|i: int| 0 <= i < s.len() ==> (#[trigger] s[i]) < '\u{80}'
}

/// The two directories in which the file of an attachment is: the first two characters of its
/// hash, and the next two. A short hash has a fixed second directory.
pub open spec fn attachment_dirs(hash: Seq<char>) -> (Seq<char>, Seq<char>) {
    if hash.len() >= 4 {
        (hash.subrange(0, 2), hash.subrange(2, 4))
    } else if hash.len() >= 2 {
        (hash.subrange(0, 2), "xx"@)
    } else {
        (hash, "xx"@)
    }
}

/// Where the file of an attachment is.
pub open spec fn attachment_file(
    dir: Seq<char>,
    hash: Seq<char>,
    content_type: Seq<char>,
) -> Seq<char> {
    let (d1, d2) = attachment_dirs(hash);
    path_of(
        path_of(path_of(dir, d1), d2),
        hash + "."@ + extension(media_type(content_type)),
    )
}

/// Where the file of an attachment is. Hashes are made of ASCII characters.
pub fn attachment_path(attachment_dir: &str, content_hash: &str, content_type: &str) -> (r: String)
    requires
        ascii(content_hash@),
    ensures
        r@ == attachment_file(attachment_dir@, content_hash@, content_type@),
{
    let n: usize = content_hash.unicode_len();
    let d1 = if n >= 2 {
        content_hash.substring_char(0, 2)
    } else {
        content_hash
    };
    let d2 = if n >= 4 {
        content_hash.substring_char(2, 4)
    } else {
        "xx"
    };
    let mut name = content_hash.to_owned();
    name.append(".");
    name.append(content_type_to_ext(content_type));
    let first = join_path(attachment_dir, d1);
    let second = join_path(first.as_str(), d2);
    join_path(second.as_str(), name.as_str())
}

} // verus!
