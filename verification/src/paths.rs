//! Names that come from outside: which of them may be joined onto a
//! directory, and what kind of file a name stands for.

use vstd::prelude::*;
use crate::text::{chars_of, same_text, slice_of, string_of};

verus! {

/// The character that parts the components of a path.
pub open spec fn is_separator(c: char) -> bool {
    c == '/'
}

/// Whether `segment` is one plain component of a path: not empty, without a
/// separator, and neither `.` nor `..`.
pub open spec fn is_safe_segment(segment: Seq<char>) -> bool {
    &&& segment.len() > 0
    &&& segment != seq!['.']
    &&& segment != seq!['.', '.']
    &&& forall|i: int| 0 <= i < segment.len() ==> !is_separator(#[trigger] segment[i])
}

/// Checks that a name taken from a request is a single path component
/// without traversal: joined onto a directory, it names an entry of that
/// directory and nothing else.
///
/// The empty name, `.`, `..` and every name that holds a separator are
/// refused. Other names pass, those that begin with a dot among them.
pub fn is_safe_path_segment(segment: &str) -> (safe: bool)
    ensures
        safe == is_safe_segment(segment@),
{
    let v = chars_of(segment);
    if v.len() == 0 {
        return false;
    }
    if v.len() == 1 && v[0] == '.' {
        assert(v@ =~= seq!['.']);
        return false;
    }
    if v.len() == 2 && v[0] == '.' && v[1] == '.' {
        assert(v@ =~= seq!['.', '.']);
        return false;
    }
    assert(v@ != seq!['.']) by {
        if v@ == seq!['.'] {
            assert(seq!['.'].len() == 1 && seq!['.'][0] == '.');
        }
    }
    assert(v@ != seq!['.', '.']) by {
        if v@ == seq!['.', '.'] {
            assert(seq!['.', '.'].len() == 2 && seq!['.', '.'][0] == '.' && seq!['.', '.'][1]
                == '.');
        }
    }
    let mut i: usize = 0;
    while i < v.len()
        invariant
            i <= v.len(),
            v@ == segment@,
            forall|k: int| 0 <= k < i ==> !is_separator(#[trigger] v@[k]),
        decreases v.len() - i,
    {
        if v[i] == '/' {
            assert(is_separator(v@[i as int]));
            return false;
        }
        i += 1;
    }
    true
}

/// The empty name, `.` and `..` are no safe segments, nor is any name that
/// holds a separator. Every other name is one: those of length three and
/// more without a separator, and those that begin with a dot and go on with
/// another character.
pub proof fn lemma_safe_segment_cases(segment: Seq<char>)
    ensures
        !is_safe_segment(Seq::empty()),
        !is_safe_segment(seq!['.']),
        !is_safe_segment(seq!['.', '.']),
        (exists|i: int| 0 <= i < segment.len() && is_separator(segment[i])) ==> !is_safe_segment(
            segment,
        ),
        (forall|i: int| 0 <= i < segment.len() ==> !is_separator(segment[i])) && segment.len() >= 3
            ==> is_safe_segment(segment),
        (forall|i: int| 0 <= i < segment.len() ==> !is_separator(segment[i])) && segment.len() >= 2
            && segment[0] == '.' && segment[1] != '.' ==> is_safe_segment(segment),
{
    assert(seq!['.'].len() == 1);
    assert(seq!['.', '.'].len() == 2);
    assert(seq!['.', '.'][1] == '.');
}

/// The position behind the last dot of `name`, or 0 where it holds no dot.
pub open spec fn extension_start(name: Seq<char>) -> int
    decreases name.len(),
{
    if name.len() == 0 {
        0
    } else if name.last() == '.' {
        name.len() as int
    } else {
        extension_start(name.drop_last())
    }
}

/// The extension of a file name: what follows its last dot. A name without a
/// dot has none, nor has a name whose only dot is its first character, nor
/// has `..`.
pub open spec fn extension_of(name: Seq<char>) -> Option<Seq<char>> {
    if extension_start(name) <= 1 || name == seq!['.', '.'] {
        None
    } else {
        Some(name.skip(extension_start(name)))
    }
}

/// The media type under which a file of this name is served: that of JPEG
/// for the extensions `jpg` and `jpeg`, of PNG for `png`, of WebP for `webp`,
/// in small letters; for every other name that of arbitrary bytes.
pub open spec fn media_type(name: Seq<char>) -> Seq<char> {
    match extension_of(name) {
        Some(extension) => if extension == "jpg"@ || extension == "jpeg"@ {
            "image/jpeg"@
        } else if extension == "png"@ {
            "image/png"@
        } else if extension == "webp"@ {
            "image/webp"@
        } else {
            "application/octet-stream"@
        },
        None => "application/octet-stream"@,
    }
}

/// The media type under which the file `filename` is served.
pub fn content_type(filename: &str) -> (media: &'static str)
    ensures
        media@ == media_type(filename@),
{
    let v = chars_of(filename);
    let mut start: usize = v.len();
    assert(v@.take(v.len() as int) =~= v@);
    while start > 0 && v[start - 1] != '.'
        invariant
            start <= v.len(),
            extension_start(v@) == extension_start(v@.take(start as int)),
        decreases start,
    {
        assert(v@.take(start as int).drop_last() =~= v@.take(start - 1));
        start -= 1;
    }
    assert(extension_start(v@) == start) by {
        if start > 0 {
            assert(v@.take(start as int).last() == v@[start - 1]);
        }
    }
    if start <= 1 {
        return "application/octet-stream";
    }
    if v.len() == 2 && v[0] == '.' {
        assert(v@ =~= seq!['.', '.']);
        return "application/octet-stream";
    }
    assert(v@ != seq!['.', '.']) by {
        if v@ == seq!['.', '.'] {
            assert(seq!['.', '.'].len() == 2 && seq!['.', '.'][0] == '.');
        }
    }
    let extension = string_of(&slice_of(&v, start, v.len()));
    if same_text(extension.as_str(), "jpg") || same_text(extension.as_str(), "jpeg") {
        "image/jpeg"
    } else if same_text(extension.as_str(), "png") {
        "image/png"
    } else if same_text(extension.as_str(), "webp") {
        "image/webp"
    } else {
        "application/octet-stream"
    }
}

} // verus!
