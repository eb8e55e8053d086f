//! What is sent as a file: where it is, what it is called and what kind it is.

use vstd::prelude::*;

use crate::app::words::{dir_len, typed_name};
use crate::text::{
    ascii_lowercase, cat3, cat5, chars_of, decimal, decimal_u64, option_str_view, option_view,
    same_text, strip_text_prefix, text_of, to_ascii_lowercase, without_prefix,
};

verus! {

/// The bytes that may be sent as a file at most.
pub const MAX_UPLOAD_BYTES: u64 = 104_857_600;

/// The bytes of a mebibyte.
pub const MEBIBYTE: u64 = 1_048_576;

// ---------------------------------------------------------------------------
// Paths
// ---------------------------------------------------------------------------

/// The name of the file that a path leads to: its last part, slashes at the end and
/// parts that stay where they are aside. A path that leads upward names no file.
pub open spec fn final_name(path: Seq<char>) -> Option<Seq<char>>
    decreases path.len(),
{
    let name = typed_name(path);
    if name.len() == 0 || name == "."@ {
        let n = dir_len(path);
        if 0 < n <= path.len() {
            final_name(path.take(n - 1))
        } else {
            None
        }
    } else if name == ".."@ {
        None
    } else {
        Some(name)
    }
}

proof fn lemma_dir_len(path: Seq<char>, n: int)
    requires
        0 <= n <= path.len(),
        n > 0 ==> path[n - 1] == '/',
        forall|k: int| n <= k < path.len() ==> path[k] != '/',
    ensures
        dir_len(path) == n,
    decreases path.len(),
{
    if path.len() > n {
        lemma_dir_len(path.drop_last(), n);
    }
}

pub fn file_name(path: &str) -> (out: Option<String>)
    ensures
        option_view(out) == final_name(path@),
{
    let x = chars_of(path);
    let mut end: usize = x.len();
    assert(path@.take(end as int) =~= path@);
    loop
        invariant
            end <= x.len(),
            x@ == path@,
            final_name(path@) == final_name(path@.take(end as int)),
        decreases end,
    {
        let ghost part = path@.take(end as int);
        let mut n: usize = end;
        while n > 0 && x[n - 1] != '/'
            invariant
                n <= end <= x.len(),
                x@ == path@,
                forall|k: int| n <= k < end ==> path@[k] != '/',
            decreases n,
        {
            n = n - 1;
        }
        proof {
            lemma_dir_len(part, n as int);
        }
        let name = text_of(vstd::slice::slice_subrange(x.as_slice(), n, end));
        assert(name@ =~= typed_name(part));
        if name.as_str().is_empty() || same_text(name.as_str(), ".") {
            if n == 0 {
                return None;
            }
            assert(part.take(n - 1) =~= path@.take(n - 1));
            end = n - 1;
        } else if same_text(name.as_str(), "..") {
            return None;
        } else {
            return Some(name);
        }
    }
}

/// The number of characters up to and with the last dot.
pub open spec fn dot_len(name: Seq<char>) -> int
    decreases name.len(),
{
    if name.len() == 0 {
        0
    } else if name.last() == '.' {
        name.len() as int
    } else {
        dot_len(name.drop_last())
    }
}

/// What a file name ends in, behind its last dot. A name whose only dot comes first
/// has no ending.
pub open spec fn ending(name: Seq<char>) -> Option<Seq<char>> {
    if dot_len(name) <= 1 {
        None
    } else {
        Some(name.skip(dot_len(name)))
    }
}

fn name_ending(name: &str) -> (out: Option<String>)
    ensures
        option_view(out) == ending(name@),
{
    let x = chars_of(name);
    let mut n: usize = x.len();
    assert(name@.take(n as int) =~= name@);
    while n > 0 && x[n - 1] != '.'
        invariant
            n <= x.len(),
            x@ == name@,
            dot_len(name@.take(n as int)) == dot_len(name@),
        decreases n,
    {
        assert(name@.take(n as int).drop_last() =~= name@.take(n - 1));
        n = n - 1;
    }
    assert(dot_len(name@) == n);
    if n <= 1 {
        None
    } else {
        let out = text_of(vstd::slice::slice_subrange(x.as_slice(), n, x.len()));
        assert(out@ =~= name@.skip(n as int));
        Some(out)
    }
}

/// The path of a file to send. A tilde stands for the home directory, where that is
/// known.
pub open spec fn expanded(path: Seq<char>, home: Option<Seq<char>>) -> Seq<char> {
    match (without_prefix(path, "~/"@), home) {
        (Some(rest), Some(dir)) => if dir.len() == 0 {
            path
        } else {
            joined_path(dir, rest)
        },
        _ => path,
    }
}

/// A path below a directory. An absolute path is below none.
pub open spec fn joined_path(dir: Seq<char>, rest: Seq<char>) -> Seq<char> {
    if rest.len() > 0 && rest[0] == '/' {
        rest
    } else if dir.len() > 0 && dir.last() == '/' {
        dir + rest
    } else {
        dir + "/"@ + rest
    }
}

pub fn expand_send_path_with_home(path: &str, home: Option<&str>) -> (out: String)
    ensures
        out@ == expanded(path@, option_str_view(home)),
{
    let rest = match strip_text_prefix(path, "~/") {
        Some(rest) => rest,
        None => return path.to_owned(),
    };
    let dir = match home {
        Some(dir) => dir,
        None => return path.to_owned(),
    };
    if dir.is_empty() {
        return path.to_owned();
    }
    let r = chars_of(rest);
    let d = chars_of(dir);
    if r.len() > 0 && r[0] == '/' {
        return rest.to_owned();
    }
    if d.len() > 0 && d[d.len() - 1] == '/' {
        crate::text::cat2(dir, rest)
    } else {
        cat3(dir, "/", rest)
    }
}

// ---------------------------------------------------------------------------
// Kinds
// ---------------------------------------------------------------------------

/// The kind and the type of the content by what a file name ends in.
pub open spec fn kind_of_ending(ext: Seq<char>) -> (Seq<char>, Seq<char>) {
    if ext == "png"@ {
        ("image"@, "image/png"@)
    } else if ext == "jpg"@ || ext == "jpeg"@ {
        ("image"@, "image/jpeg"@)
    } else if ext == "gif"@ {
        ("image"@, "image/gif"@)
    } else if ext == "webp"@ {
        ("image"@, "image/webp"@)
    } else if ext == "bmp"@ {
        ("image"@, "image/bmp"@)
    } else if ext == "tif"@ || ext == "tiff"@ {
        ("image"@, "image/tiff"@)
    } else if ext == "pdf"@ {
        ("file"@, "application/pdf"@)
    } else if ext == "txt"@ {
        ("file"@, "text/plain"@)
    } else if ext == "zip"@ {
        ("file"@, "application/zip"@)
    } else if ext == "mp4"@ {
        ("file"@, "video/mp4"@)
    } else if ext == "mp3"@ {
        ("file"@, "audio/mpeg"@)
    } else {
        ("file"@, "application/octet-stream"@)
    }
}

/// What the name of a file ends in, in small letters.
pub open spec fn small_ending(filename: Seq<char>) -> Seq<char> {
    match final_name(filename) {
        Some(name) => match ending(name) {
            Some(ext) => ascii_lowercase(ext),
            None => Seq::empty(),
        },
        None => Seq::empty(),
    }
}

/// The kind of a file and the type of its content, as its name tells.
pub fn media_kind_and_content_type(filename: &str) -> (out: (&'static str, &'static str))
    ensures
        (out.0@, out.1@) == kind_of_ending(small_ending(filename@)),
{
    let ext: String = match file_name(filename) {
        Some(name) => match name_ending(name.as_str()) {
            Some(ext) => to_ascii_lowercase(ext.as_str()),
            None => String::new(),
        },
        None => String::new(),
    };
    assert(ext@ =~= small_ending(filename@));
    let e = ext.as_str();
    if same_text(e, "png") {
        ("image", "image/png")
    } else if same_text(e, "jpg") || same_text(e, "jpeg") {
        ("image", "image/jpeg")
    } else if same_text(e, "gif") {
        ("image", "image/gif")
    } else if same_text(e, "webp") {
        ("image", "image/webp")
    } else if same_text(e, "bmp") {
        ("image", "image/bmp")
    } else if same_text(e, "tif") || same_text(e, "tiff") {
        ("image", "image/tiff")
    } else if same_text(e, "pdf") {
        ("file", "application/pdf")
    } else if same_text(e, "txt") {
        ("file", "text/plain")
    } else if same_text(e, "zip") {
        ("file", "application/zip")
    } else if same_text(e, "mp4") {
        ("file", "video/mp4")
    } else if same_text(e, "mp3") {
        ("file", "audio/mpeg")
    } else {
        ("file", "application/octet-stream")
    }
}

// ---------------------------------------------------------------------------
// Size
// ---------------------------------------------------------------------------

/// What is said of a file that is too large.
pub open spec fn too_large_text(filename: Seq<char>, size: u64) -> Seq<char> {
    filename + " is "@ + decimal((size / MEBIBYTE) as nat) + " MiB, over the "@ + decimal(
        (MAX_UPLOAD_BYTES / MEBIBYTE) as nat,
    ) + " MiB /send limit"@
}

/// Whether a file may be sent, by its size.
pub fn check_upload_size(filename: &str, size: u64) -> (out: Result<(), String>)
    ensures
        match out {
            Ok(()) => size <= MAX_UPLOAD_BYTES,
            Err(text) => size > MAX_UPLOAD_BYTES && text@ == too_large_text(filename@, size),
        },
{
    if size > MAX_UPLOAD_BYTES {
        let has = decimal_u64(size / MEBIBYTE);
        let most = decimal_u64(MAX_UPLOAD_BYTES / MEBIBYTE);
        let mut text = cat5(
            filename,
            " is ",
            has.as_str(),
            " MiB, over the ",
            most.as_str(),
        );
        text.append(" MiB /send limit");
        Err(text)
    } else {
        Ok(())
    }
}

} // verus!
