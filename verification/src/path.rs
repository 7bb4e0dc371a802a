//! Paths as the system keeps them: bytes that need not be text, joined and compared as the system
//! does.

use std::path::PathBuf;
use vstd::prelude::*;
use vstd::utf8::{
    char_is_scalar, char_u32_cast, decode_utf8, encode_scalar, encode_utf8,
    encode_utf8_first_scalar, valid_utf8,
};

verus! {

/// A path of the system.
#[verifier::external_type_specification]
#[verifier::external_body]
pub struct ExPathBuf(std::path::PathBuf);

/// The bytes that a `PathBuf` holds, as `OsStr::as_encoded_bytes` gives them; text stands in them
/// as UTF-8.
pub uninterp spec fn path_bytes(path: PathBuf) -> Seq<u8>;

/// Whether a `PathBuf` is a path of Windows, which has drives and separates by the backslash too.
/// A value of the type lives on one system, so this is a property of the value.
pub uninterp spec fn on_windows(path: PathBuf) -> bool;

/// The bytes that `Path::join` gives for a path with these bytes and a part, on Windows or
/// elsewhere.
pub uninterp spec fn joined_bytes(windows: bool, bytes: Seq<u8>, part: Seq<char>) -> Seq<u8>;

/// The components by which paths are compared, for a path with these bytes, on Windows or
/// elsewhere: the bytes of each component that `Path::components` gives.
pub uninterp spec fn compared_parts(windows: bool, bytes: Seq<u8>) -> Seq<Seq<u8>>;

/// The model of a path.
#[verifier::ext_equal]
pub struct PathView {
    pub windows: bool,
    pub bytes: Seq<u8>,
}

/// The model of a path.
pub open spec fn path_view(path: PathBuf) -> PathView {
    PathView { windows: on_windows(path), bytes: path_bytes(path) }
}

impl PathView {
    /// `part` below this path.
    pub open spec fn joined(self, part: Seq<char>) -> PathView {
        PathView { windows: self.windows, bytes: joined_bytes(self.windows, self.bytes, part) }
    }

    /// The components by which this path is compared.
    pub open spec fn parts(self) -> Seq<Seq<u8>> {
        compared_parts(self.windows, self.bytes)
    }
}

/// Whether Windows may take a path as it stands, which it does behind two separators, a question
/// mark and a separator.
pub open spec fn is_verbatim(path: PathView) -> bool {
    &&& path.windows
    &&& path.bytes.len() >= 3
    &&& path.bytes[0] == 92 || path.bytes[0] == 47
    &&& path.bytes[1] == 92 || path.bytes[1] == 47
    &&& path.bytes[2] == 63
}

/// A name that is one part of a path on every system: it is not empty, names neither the directory
/// that it stands in nor the one above, and holds no slash, no backslash and no colon.
pub open spec fn is_plain_name(name: Seq<char>) -> bool {
    &&& name.len() > 0
    &&& name != "."@
    &&& name != ".."@
    &&& forall|i: int|
        0 <= i < name.len() ==> #[trigger] name[i] != '/' && name[i] != '\\' && name[i] != ':'
}

/// The bytes of a path and of a part behind it, with a slash between them where the path does not
/// end with one. A part that starts with a slash stands alone.
pub open spec fn slashed(bytes: Seq<u8>, part: Seq<char>) -> Seq<u8> {
    let added = encode_utf8(part);
    if added.len() > 0 && added[0] == 47 {
        added
    } else if bytes.len() == 0 || bytes.last() == 47 {
        bytes + added
    } else {
        bytes.push(47) + added
    }
}

/// What is known of the bytes of a path and a part that were joined. Elsewhere than on Windows the
/// part follows behind a slash. On Windows a plain name follows at once or behind a backslash,
/// unless the path is taken as it stands, which Windows tidies up.
pub open spec fn follows(path: PathView, part: Seq<char>, joined: Seq<u8>) -> bool {
    &&& !path.windows && part.len() > 0 ==> joined == slashed(path.bytes, part)
    &&& path.windows && is_plain_name(part) && !is_verbatim(path) ==> {
        ||| joined == path.bytes + encode_utf8(part)
        ||| joined == path.bytes.push(92) + encode_utf8(part)
    }
}

/// The path that a text names, from `PathBuf::from`: its bytes are those of the text.
#[verifier::external_body]
pub(crate) fn path_of(text: &str) -> (path: PathBuf)
    ensures
        path_bytes(path) == encode_utf8(text@),
{
    PathBuf::from(text)
}

/// A path with a part behind it, from `Path::join`. The bytes depend on the path, the part and the
/// system alone. Elsewhere than on Windows a plain name becomes the last component, behind those of
/// the path. Of parts that are no plain names on Windows, and of paths that Windows takes as they
/// stand, nothing more is said.
#[verifier::external_body]
pub(crate) fn join(path: &PathBuf, part: &str) -> (joined: PathBuf)
    ensures
        on_windows(joined) == on_windows(*path),
        path_bytes(joined) == joined_bytes(on_windows(*path), path_bytes(*path), part@),
        follows(path_view(*path), part@, path_bytes(joined)),
        !on_windows(*path) && is_plain_name(part@) ==> compared_parts(
            on_windows(joined),
            path_bytes(joined),
        ) == compared_parts(on_windows(*path), path_bytes(*path)).push(encode_utf8(part@)),
{
    path.join(part)
}

/// Whether a path is one of Windows, from `std::path::is_separator`: the backslash separates the
/// parts of paths there and nowhere else.
#[verifier::external_body]
pub(crate) fn separates_by_backslash(path: &PathBuf) -> (answer: bool)
    ensures
        answer == on_windows(*path),
{
    let _ = path;
    std::path::is_separator('\\')
}

/// Whether two paths are the same, from `==`, which compares component by component.
#[verifier::external_body]
pub(crate) fn same_path(left: &PathBuf, right: &PathBuf) -> (answer: bool)
    ensures
        answer == (compared_parts(on_windows(*left), path_bytes(*left)) == compared_parts(
            on_windows(*right),
            path_bytes(*right),
        )),
{
    left == right
}

/// A copy of a path, from `PathBuf::clone`: the same bytes.
#[verifier::external_body]
pub(crate) fn copy_path(path: &PathBuf) -> (copy: PathBuf)
    ensures
        on_windows(copy) == on_windows(*path),
        path_bytes(copy) == path_bytes(*path),
{
    path.clone()
}

/// The text of a path, from `Path::to_str`: there is one where the bytes are UTF-8.
#[verifier::external_body]
pub(crate) fn text_of_path(path: &PathBuf) -> (text: Option<String>)
    ensures
        match text {
            Some(words) => valid_utf8(path_bytes(*path)) && words@ == decode_utf8(
                path_bytes(*path),
            ),
            None => !valid_utf8(path_bytes(*path)),
        },
{
    path.to_str().map(str::to_owned)
}

/// Bytes below 128 of an encoded text are the characters that they stand for.
proof fn lemma_small_bytes_are_characters(text: Seq<char>, at: int)
    requires
        0 <= at < encode_utf8(text).len(),
        encode_utf8(text)[at] < 128,
    ensures
        exists|i: int| 0 <= i < text.len() && #[trigger] text[i] as u32 == encode_utf8(text)[at],
    decreases text.len(),
{
    if text.len() > 0 {
        let bytes = encode_utf8(text);
        let first = encode_scalar(text[0] as u32);
        let rest = text.drop_first();
        encode_utf8_first_scalar(text);
        char_is_scalar(text[0]);
        if at < first.len() {
            assert(first.len() == 1);
            assert(bytes[0] == bytes[at]);
            let byte = bytes[0];
            assert(byte < 128 ==> (byte & 0x7f) as u32 == byte) by (bit_vector);
            assert(text[0] as u32 == bytes[at]);
        } else {
            lemma_small_bytes_are_characters(rest, at - first.len());
            let i = choose|i: int|
                0 <= i < rest.len() && #[trigger] rest[i] as u32 == encode_utf8(rest)[at
                    - first.len()];
            assert(text[i + 1] as u32 == bytes[at]);
        }
    }
}

/// Whether bytes are those of a path with a plain name behind it: between them stands at most one
/// separator.
pub open spec fn stands_below(path: Seq<u8>, name: Seq<char>, bytes: Seq<u8>) -> bool {
    ||| bytes == path + encode_utf8(name)
    ||| bytes == path.push(47) + encode_utf8(name)
    ||| bytes == path.push(92) + encode_utf8(name)
}

/// A plain name holds no separator, and a part that is one stands below the path that it was joined
/// to.
pub proof fn law_plain_names_stay_below(path: PathView, name: Seq<char>)
    requires
        is_plain_name(name),
        !is_verbatim(path),
        follows(path, name, path.joined(name).bytes),
    ensures
        stands_below(path.bytes, name, path.joined(name).bytes),
        encode_utf8(name).len() > 0,
        forall|i: int|
            0 <= i < encode_utf8(name).len() ==> #[trigger] encode_utf8(name)[i] != 47
                && encode_utf8(name)[i] != 92,
{
    let bytes = encode_utf8(name);
    encode_utf8_first_scalar(name);
    assert forall|i: int| 0 <= i < bytes.len() implies #[trigger] bytes[i] != 47 && bytes[i]
        != 92 by {
        if bytes[i] < 128 {
            lemma_small_bytes_are_characters(name, i);
            let j = choose|j: int|
                0 <= j < name.len() && #[trigger] name[j] as u32 == encode_utf8(name)[i];
            char_is_scalar(name[j]);
            char_u32_cast(name[j], bytes[i] as u32);
            assert(name[j] != '/' && name[j] != '\\' && name[j] != ':');
        }
    }
}

} // verus!
