//! Names of sessions and namespaces, and where the daemon of a session listens.

use std::path::PathBuf;
use vstd::prelude::*;
use vstd::utf8::{encode_utf8, encode_utf8_decode_utf8, is_ascii_chars, is_ascii_chars_encode_utf8};
use crate::json::optional_text;
use crate::path::{
    is_plain_name, is_verbatim, join, law_plain_names_stay_below, on_windows, path_bytes, path_of,
    path_view, slashed, stands_below, PathView,
};
use crate::text::{
    ascii_lowercase, char_is_alphanumeric, char_is_whitespace, char_lowercase, chars_of, decimal,
    digit_char, is_ascii_alphanumeric, is_blank_text, law_decimal_reads_back,
    law_outer_space_is_cut, lowercase, parse_unsigned, parsed_unsigned, string_of, trim,
    trimmed_end, without_outer_space,
};

verus! {

// ---------------------------------------------------------------------------
// Names
// ---------------------------------------------------------------------------

/// The characters of session names.
pub open spec fn is_session_char(c: char) -> bool {
    char_is_alphanumeric(c) || c == '-' || c == '_'
}

/// The names that a session may have.
pub open spec fn is_session_name(name: Seq<char>) -> bool {
    &&& name.len() > 0
    &&& forall|i: int| 0 <= i < name.len() ==> is_session_char(#[trigger] name[i])
}

/// Whether the ASCII characters of `name` are letters, digits, hyphens and underscores only, so
/// that the name is one component of a path: it holds no slash, no backslash, no dot and no colon.
pub open spec fn is_file_safe(name: Seq<char>) -> bool {
    forall|i: int|
        0 <= i < name.len() && (#[trigger] name[i] as u32) < 128 ==> is_ascii_alphanumeric(name[i])
            || is_separator(name[i])
}

/// Whether `session` may name a session. A name that may is safe as a file name.
pub fn is_valid_session(session: &str) -> (answer: bool)
    ensures
        answer == is_session_name(session@),
        answer ==> is_file_safe(session@),
{
    let chars = chars_of(session);
    if chars.len() == 0 {
        return false;
    }
    let mut i: usize = 0;
    while i < chars.len()
        invariant
            i <= chars@.len(),
            chars@ == session@,
            forall|j: int| 0 <= j < i ==> is_session_char(#[trigger] session@[j]),
            is_file_safe(session@.take(i as int)),
        decreases chars@.len() - i,
    {
        let c = chars[i];
        if !(c.is_alphanumeric() || c == '-' || c == '_') {
            assert(!is_session_char(session@[i as int]));
            return false;
        }
        assert(session@.take(i + 1) =~= session@.take(i as int).push(c));
        i += 1;
    }
    assert(session@.take(i as int) =~= session@);
    true
}

/// The characters that separate words.
pub open spec fn is_separator(c: char) -> bool {
    c == '-' || c == '_'
}

/// What a character other than a letter or digit becomes between two words.
pub open spec fn separator_for(c: char) -> char {
    if c == '-' || c == '_' {
        c
    } else {
        '-'
    }
}

/// The words of `name` in small letters, each run of other characters behind a word turned into
/// one separator, which the first character of the run picks.
pub open spec fn joined_words(name: Seq<char>) -> Seq<char>
    decreases name.len(),
{
    if name.len() == 0 {
        Seq::empty()
    } else {
        let before = joined_words(name.drop_last());
        let c = name.last();
        if char_is_alphanumeric(c) {
            before + char_lowercase(c)
        } else if before.len() > 0 && char_is_alphanumeric(name[name.len() - 2]) {
            before.push(separator_for(c))
        } else {
            before
        }
    }
}

/// The directory name that a namespace gets: its words, without a separator at the end.
pub open spec fn sanitized(name: Seq<char>) -> Seq<char> {
    trimmed_end(joined_words(name), |c: char| is_separator(c))
}

/// Whether `name` is made of words of ASCII small letters and digits with single separators
/// between them, as directory names of namespaces are.
pub open spec fn is_slug(name: Seq<char>) -> bool {
    &&& has_slug_letters(name)
    &&& name.len() > 0 ==> !is_separator(name.last())
}

/// A slug, but perhaps with a separator at the end.
pub open spec fn has_slug_letters(name: Seq<char>) -> bool {
    &&& forall|i: int|
        0 <= i < name.len() ==> 'a' <= #[trigger] name[i] <= 'z' || '0' <= name[i] <= '9'
            || is_separator(name[i])
    &&& name.len() > 0 ==> !is_separator(name[0])
    &&& forall|i: int|
        0 < i < name.len() && is_separator(#[trigger] name[i]) ==> !is_separator(name[i - 1])
}

/// A directory name never ends with a separator.
pub proof fn law_sanitized_ends_with_a_word(name: Seq<char>)
    ensures
        sanitized(name).len() > 0 ==> !is_separator(sanitized(name).last()),
{
    lemma_trimmed_end_last(joined_words(name));
}

proof fn lemma_trimmed_end_last(text: Seq<char>)
    ensures
        ({
            let trimmed = trimmed_end(text, |c: char| is_separator(c));
            &&& trimmed.len() <= text.len()
            &&& trimmed == text.take(trimmed.len() as int)
            &&& trimmed.len() > 0 ==> !is_separator(trimmed.last())
        }),
    decreases text.len(),
{
    if text.len() > 0 && is_separator(text.last()) {
        lemma_trimmed_end_last(text.drop_last());
        let trimmed = trimmed_end(text.drop_last(), |c: char| is_separator(c));
        assert(text.drop_last().take(trimmed.len() as int) =~= text.take(trimmed.len() as int));
    } else {
        assert(text.take(text.len() as int) =~= text);
    }
}

/// The directory name that a namespace gets. The name of an ASCII namespace is a slug, and a slug
/// is left as it is.
pub fn sanitize_component(value: &str) -> (output: String)
    ensures
        output@ == sanitized(value@),
        is_ascii_chars(value@) ==> is_slug(output@),
        is_slug(value@) ==> output@ == value@,
{
    let chars = chars_of(value);
    let mut joined = String::new();
    let mut separator: bool = false;
    let mut i: usize = 0;
    assert(value@.take(0) =~= Seq::<char>::empty());
    while i < chars.len()
        invariant
            i <= chars@.len(),
            chars@ == value@,
            joined@ == joined_words(value@.take(i as int)),
            separator ==> i > 0 && !char_is_alphanumeric(value@[i - 1]),
            !separator && joined@.len() > 0 ==> i > 0 && char_is_alphanumeric(value@[i - 1]),
            is_ascii_chars(value@) ==> has_slug_letters(joined@),
            is_ascii_chars(value@) && joined@.len() > 0 ==> separator == is_separator(
                joined@.last(),
            ),
            is_slug(value@) ==> joined@ == value@.take(i as int),
            is_slug(value@) ==> separator == (i > 0 && is_separator(value@[i - 1])),
        decreases chars@.len() - i,
    {
        let c = chars[i];
        let ghost upto = value@.take(i + 1);
        let ghost before = joined@;
        proof {
            assert(upto.drop_last() =~= value@.take(i as int));
            assert(upto.last() == c);
            if i > 0 {
                assert(upto[upto.len() - 2] == value@[i - 1]);
            }
        }
        if c.is_alphanumeric() {
            joined.append(lowercase(c).as_str());
            separator = false;
            proof {
                if is_ascii_chars(value@) || is_slug(value@) {
                    assert((c as u32) < 128);
                    assert(joined@ =~= before.push(ascii_lowercase(c)));
                }
            }
        } else if !joined.as_str().is_empty() && !separator {
            joined.push(
                if c == '-' || c == '_' {
                    c
                } else {
                    '-'
                },
            );
            separator = true;
        }
        assert(is_slug(value@) ==> upto =~= value@.take(i as int).push(c));
        i += 1;
    }
    assert(value@.take(i as int) =~= value@);
    let words = chars_of(joined.as_str());
    let ghost mark = |c: char| is_separator(c);
    let mut end: usize = words.len();
    assert(words@.take(end as int) =~= words@);
    while end > 0 && (words[end - 1] == '-' || words[end - 1] == '_')
        invariant
            end <= words@.len(),
            mark == (|c: char| is_separator(c)),
            trimmed_end(words@.take(end as int), mark) == trimmed_end(words@, mark),
        decreases end,
    {
        assert(words@.take(end as int).drop_last() =~= words@.take(end - 1));
        end -= 1;
    }
    proof {
        lemma_trimmed_end_last(words@);
    }
    string_of(&words, 0, end)
}

// ---------------------------------------------------------------------------
// Directories
// ---------------------------------------------------------------------------

/// The directory of sockets of a namespace below `base`; `base` itself without a namespace.
pub open spec fn namespaced_dir(base: PathView, namespace: Option<Seq<char>>) -> PathView {
    match namespace {
        Some(name) if name.len() > 0 => base.joined("namespaces"@).joined(name).joined("run"@),
        _ => base,
    }
}

/// The components of the directory of sockets of a namespace, behind those of `base`.
pub open spec fn namespace_parts(base: PathView, name: Seq<char>) -> Seq<Seq<u8>> {
    base.parts().push(encode_utf8("namespaces"@)).push(encode_utf8(name)).push(encode_utf8("run"@))
}

/// The components by which the directory of sockets of a namespace is compared.
pub open spec fn namespaced_parts(base: PathView, namespace: Option<Seq<char>>) -> Seq<Seq<u8>> {
    match namespace {
        Some(name) if !base.windows && is_plain_name(name) => namespace_parts(base, name),
        _ => namespaced_dir(base, namespace).parts(),
    }
}

/// Two namespaces that are compared by the components of their directories are the same only where
/// their names are, and none is the same as the directory that they all lie below.
pub proof fn law_namespaces_keep_apart(base: PathView, left: Seq<char>, right: Seq<char>)
    ensures
        namespace_parts(base, left) == namespace_parts(base, right) <==> left == right,
        namespace_parts(base, left) != base.parts(),
{
    let count = base.parts().len() as int;
    if namespace_parts(base, left) == namespace_parts(base, right) {
        assert(namespace_parts(base, left)[count + 1] == encode_utf8(left));
        assert(namespace_parts(base, right)[count + 1] == encode_utf8(right));
        encode_utf8_decode_utf8(left);
        encode_utf8_decode_utf8(right);
    }
    assert(namespace_parts(base, left).len() == count + 3);
}

/// Whether bytes are those of the path `namespaces`, `name` and `run` below `base`, with at most
/// one separator before each part.
pub open spec fn is_namespace_path(base: Seq<u8>, name: Seq<char>, bytes: Seq<u8>) -> bool {
    exists|all: Seq<u8>, own: Seq<u8>| #[trigger]
        stands_below(base, "namespaces"@, all) && #[trigger] stands_below(all, name, own)
            && stands_below(own, "run"@, bytes)
}

/// The directory of sockets of a namespace below `base`. Elsewhere than on Windows its parts stand
/// behind slashes. A namespace that is a plain name stays below `base` on every system, unless
/// Windows takes `base` as it stands.
pub fn namespaced_socket_dir(base: PathBuf, namespace: Option<&str>) -> (dir: PathBuf)
    ensures
        path_view(dir) == namespaced_dir(path_view(base), optional_text(namespace)),
        path_view(dir).parts() == namespaced_parts(path_view(base), optional_text(namespace)),
        match namespace {
            Some(name) => {
                &&& !on_windows(base) && name@.len() > 0 ==> path_bytes(dir) == slashed(
                    slashed(slashed(path_bytes(base), "namespaces"@), name@),
                    "run"@,
                )
                &&& is_plain_name(name@) && !is_verbatim(path_view(base)) ==> is_namespace_path(
                    path_bytes(base),
                    name@,
                    path_bytes(dir),
                )
            },
            None => true,
        },
{
    match namespace {
        Some(name) => {
            if name.is_empty() {
                base
            } else {
                let all = join(&base, "namespaces");
                let own = join(&all, name);
                let dir = join(&own, "run");
                proof {
                    reveal_strlit("namespaces");
                    reveal_strlit("run");
                    reveal_strlit(".");
                    reveal_strlit("..");
                    assert("namespaces"@.len() == 10 && "run"@.len() == 3 && "."@.len() == 1
                        && ".."@.len() == 2);
                    if is_plain_name(name@) && !is_verbatim(path_view(base)) {
                        is_ascii_chars_encode_utf8("namespaces"@);
                        law_plain_names_stay_below(path_view(base), "namespaces"@);
                        assert(encode_utf8("namespaces"@)[0] == 110);
                        assert(encode_utf8("namespaces"@)[1] == 97);
                        assert(encode_utf8("namespaces"@)[2] == 109);
                        assert(stands_below(path_bytes(base), "namespaces"@, path_bytes(all)));
                        lemma_not_verbatim(path_view(base), "namespaces"@, path_view(all));
                        law_plain_names_stay_below(path_view(all), name@);
                        assert(stands_below(path_bytes(all), name@, path_bytes(own)));
                        lemma_not_verbatim(path_view(all), name@, path_view(own));
                        law_plain_names_stay_below(path_view(own), "run"@);
                    }
                }
                dir
            }
        },
        None => base,
    }
}

/// A path does not come to be taken as it stands by a part behind it, where the path is long or the
/// part starts with letters.
proof fn lemma_not_verbatim(path: PathView, part: Seq<char>, joined: PathView)
    requires
        !is_verbatim(path),
        path.windows == joined.windows,
        stands_below(path.bytes, part, joined.bytes),
        path.bytes.len() >= 3 || {
            &&& encode_utf8(part).len() >= 3
            &&& encode_utf8(part)[0] == 110
            &&& encode_utf8(part)[1] == 97
            &&& encode_utf8(part)[2] == 109
        },
    ensures
        !is_verbatim(joined),
        joined.bytes.len() >= path.bytes.len() + encode_utf8(part).len(),
{
}

/// A namespace that is a slug leads nowhere else.
pub proof fn lemma_slugs_are_plain(name: Seq<char>)
    requires
        is_slug(name),
        name.len() > 0,
    ensures
        is_plain_name(name),
{
    reveal_strlit(".");
    reveal_strlit("..");
    assert("."@[0] == '.' && ".."@[0] == '.');
}

/// Whether the small letters of a character hold none of the marks that paths are made with.
pub open spec fn lowers_to_letters(c: char) -> bool {
    forall|i: int|
        0 <= i < char_lowercase(c).len() ==> !is_path_mark(#[trigger] char_lowercase(c)[i])
}

/// The marks that paths are made with.
pub open spec fn is_path_mark(c: char) -> bool {
    c == '/' || c == '\\' || c == ':' || c == '.'
}

proof fn lemma_words_hold_no_path_marks(name: Seq<char>)
    requires
        forall|i: int|
            0 <= i < name.len() && char_is_alphanumeric(#[trigger] name[i]) ==> lowers_to_letters(
                name[i],
            ),
    ensures
        forall|i: int|
            0 <= i < joined_words(name).len() ==> !is_path_mark(#[trigger] joined_words(name)[i]),
    decreases name.len(),
{
    if name.len() > 0 {
        let before = joined_words(name.drop_last());
        let c = name.last();
        assert forall|i: int|
            0 <= i < name.drop_last().len() && char_is_alphanumeric(
                #[trigger] name.drop_last()[i],
            ) implies lowers_to_letters(name.drop_last()[i]) by {
            assert(name.drop_last()[i] == name[i]);
        }
        lemma_words_hold_no_path_marks(name.drop_last());
        assert(c == name[name.len() - 1]);
        assert forall|i: int| 0 <= i < joined_words(name).len() implies !is_path_mark(
            #[trigger] joined_words(name)[i],
        ) by {
            if i < before.len() {
                assert(joined_words(name)[i] == before[i]);
            } else if char_is_alphanumeric(c) {
                assert(joined_words(name)[i] == char_lowercase(c)[i - before.len()]);
            }
        }
    }
}

/// Whatever a namespace holds besides letters and digits, slashes and dots among it, the directory
/// that it gets is one plain name. This asks of its letters that their small letters are no marks
/// of paths.
pub proof fn law_namespace_never_escapes(namespace: Seq<char>)
    requires
        forall|i: int|
            0 <= i < namespace.len() && char_is_alphanumeric(#[trigger] namespace[i])
                ==> lowers_to_letters(namespace[i]),
        sanitized(namespace).len() > 0,
    ensures
        is_plain_name(sanitized(namespace)),
{
    let name = sanitized(namespace);
    lemma_words_hold_no_path_marks(namespace);
    lemma_trimmed_end_last(joined_words(namespace));
    reveal_strlit(".");
    reveal_strlit("..");
    assert("."@[0] == '.' && ".."@[0] == '.');
    assert forall|i: int| 0 <= i < name.len() implies !is_path_mark(#[trigger] name[i]) by {
        assert(name[i] == joined_words(namespace)[i]);
    }
}

/// Where the sockets of all sessions live: the directory that was asked for, else one below the
/// runtime directory of the user, else one below the home directory, else one below the directory
/// for temporary files.
pub open spec fn base_dir(
    windows: bool,
    asked: Option<Seq<char>>,
    runtime: Option<Seq<char>>,
    home: Option<Seq<u8>>,
    temporary: Seq<u8>,
) -> PathView {
    if asked is Some && asked->0.len() > 0 {
        PathView { windows, bytes: encode_utf8(asked->0) }
    } else if runtime is Some && runtime->0.len() > 0 {
        PathView { windows, bytes: encode_utf8(runtime->0) }.joined("agent-browser"@)
    } else {
        match home {
            Some(dir) => PathView { windows, bytes: dir }.joined(".agent-browser"@),
            None => PathView { windows, bytes: temporary }.joined("agent-browser"@),
        }
    }
}

/// The same where parts stand behind slashes.
pub open spec fn slashed_base_dir(
    asked: Option<Seq<char>>,
    runtime: Option<Seq<char>>,
    home: Option<Seq<u8>>,
    temporary: Seq<u8>,
) -> Seq<u8> {
    if asked is Some && asked->0.len() > 0 {
        encode_utf8(asked->0)
    } else if runtime is Some && runtime->0.len() > 0 {
        slashed(encode_utf8(runtime->0), "agent-browser"@)
    } else {
        match home {
            Some(dir) => slashed(dir, ".agent-browser"@),
            None => slashed(temporary, "agent-browser"@),
        }
    }
}

/// The bytes of a path that may be missing.
pub open spec fn optional_bytes(path: Option<PathBuf>) -> Option<Seq<u8>> {
    match path {
        Some(found) => Some(path_bytes(found)),
        None => None,
    }
}

/// Where the sockets of all sessions live, for a known home directory.
pub fn choose_base_dir(
    asked: Option<&str>,
    runtime: Option<&str>,
    home: Option<PathBuf>,
    temporary: &PathBuf,
) -> (dir: PathBuf)
    ensures
        path_view(dir) == base_dir(
            on_windows(dir),
            optional_text(asked),
            optional_text(runtime),
            optional_bytes(home),
            path_bytes(*temporary),
        ),
        !on_windows(dir) ==> path_bytes(dir) == slashed_base_dir(
            optional_text(asked),
            optional_text(runtime),
            optional_bytes(home),
            path_bytes(*temporary),
        ),
{
    proof {
        reveal_strlit("agent-browser");
        reveal_strlit(".agent-browser");
        assert("agent-browser"@.len() == 13 && ".agent-browser"@.len() == 14);
    }
    match (asked, runtime, home) {
        (Some(dir), _, _) if !dir.is_empty() => path_of(dir),
        (_, Some(dir), _) if !dir.is_empty() => join(&path_of(dir), "agent-browser"),
        (_, _, Some(dir)) => join(&dir, ".agent-browser"),
        (_, _, None) => join(temporary, "agent-browser"),
    }
}

/// Whether the environment names a directory here.
fn is_given(dir: Option<&str>) -> (answer: bool)
    ensures
        answer == (dir is Some && dir->0@.len() > 0),
{
    match dir {
        Some(text) => !text.is_empty(),
        None => false,
    }
}

/// The home directory of the user, from `dirs::home_dir`. It depends on the environment, so nothing
/// is said of it.
#[verifier::external_body]
fn home_directory() -> Option<PathBuf> {
    dirs::home_dir()
}

/// Where the sockets of all sessions live. `asked` and `runtime` are what the environment names,
/// `temporary` is the directory for temporary files. Which home directory is found is not said.
pub fn socket_base_dir(asked: Option<&str>, runtime: Option<&str>, temporary: &PathBuf) -> (dir:
    PathBuf)
    ensures
        exists|home: Option<Seq<u8>>|
            {
                &&& path_view(dir) == #[trigger] base_dir(
                    on_windows(dir),
                    optional_text(asked),
                    optional_text(runtime),
                    home,
                    path_bytes(*temporary),
                )
                &&& !on_windows(dir) ==> path_bytes(dir) == slashed_base_dir(
                    optional_text(asked),
                    optional_text(runtime),
                    home,
                    path_bytes(*temporary),
                )
            },
{
    if is_given(asked) || is_given(runtime) {
        return choose_base_dir(asked, runtime, None, temporary);
    }
    choose_base_dir(asked, runtime, home_directory(), temporary)
}

// ---------------------------------------------------------------------------
// Ports
// ---------------------------------------------------------------------------

/// The hash of an identity: each character is added to 31 times the hash so far, in 32 bits.
pub open spec fn identity_hash(identity: Seq<char>) -> nat
    decreases identity.len(),
{
    if identity.len() == 0 {
        0
    } else {
        ((31 * identity_hash(identity.drop_last()) + (identity.last() as u32)) % 0x1_0000_0000) as nat
    }
}

/// The distance from zero of a 32-bit pattern that is read with a sign.
pub open spec fn signed_magnitude(pattern: nat) -> nat {
    if pattern < 0x8000_0000 {
        pattern
    } else {
        (0x1_0000_0000 - pattern) as nat
    }
}

/// The port of the daemon with this identity: one of the private ports, picked by the hash.
pub open spec fn identity_port(identity: Seq<char>) -> nat {
    49_152 + signed_magnitude(identity_hash(identity)) % 16_383
}

/// The port of the daemon with this identity.
pub fn port_for_identity(identity: &str) -> (port: u16)
    ensures
        port == identity_port(identity@),
{
    let chars = chars_of(identity);
    let mut hash: u64 = 0;
    let mut i: usize = 0;
    assert(identity@.take(0) =~= Seq::<char>::empty());
    while i < chars.len()
        invariant
            i <= chars@.len(),
            chars@ == identity@,
            hash < 0x1_0000_0000,
            hash == identity_hash(identity@.take(i as int)),
        decreases chars@.len() - i,
    {
        assert(identity@.take(i + 1).drop_last() =~= identity@.take(i as int));
        let code: u32 = chars[i] as u32;
        hash = (31 * hash + code as u64) % 0x1_0000_0000;
        i += 1;
    }
    assert(identity@.take(i as int) =~= identity@);
    let magnitude: u64 = if hash < 0x8000_0000 {
        hash
    } else {
        0x1_0000_0000 - hash
    };
    49_152u16 + (magnitude % 16_383) as u16
}

/// The port that a port file announces; without a usable file, the port of the identity.
pub open spec fn announced_port(file: Option<Seq<char>>, identity: Seq<char>) -> nat {
    match file {
        Some(text) => match parsed_unsigned(without_outer_space(text), 65_535) {
            Some(port) => port,
            None => identity_port(identity),
        },
        None => identity_port(identity),
    }
}

/// The port that a port file announces; without a usable file, the port of the identity.
pub fn choose_port(file: Option<&str>, identity: &str) -> (port: u16)
    ensures
        port == announced_port(optional_text(file), identity@),
{
    match file {
        Some(text) => {
            let trimmed = trim(text);
            match parse_unsigned(trimmed.as_str(), 65_535) {
                Some(port) => port as u16,
                None => port_for_identity(identity),
            }
        },
        None => port_for_identity(identity),
    }
}

// ---------------------------------------------------------------------------
// Laws
// ---------------------------------------------------------------------------

/// A session may have any name of letters, digits, hyphens and underscores that is not empty, and
/// no other.
pub proof fn law_session_names(name: Seq<char>, c: char)
    ensures
        !is_session_name(Seq::empty()),
        is_session_name(seq![c]) <==> char_is_alphanumeric(c) || c == '-' || c == '_',
        name.len() > 0 ==> (is_session_name(name.push(c)) <==> is_session_name(name) && (
        char_is_alphanumeric(c) || c == '-' || c == '_')),
{
    let one = seq![c];
    assert(one[0] == c);
    if name.len() > 0 {
        let more = name.push(c);
        assert(more[name.len() as int] == c);
        if is_session_name(more) {
            assert forall|i: int| 0 <= i < name.len() implies is_session_char(
                #[trigger] name[i],
            ) by {
                assert(more[i] == name[i]);
            }
        }
        if is_session_name(name) && is_session_char(c) {
            assert forall|i: int| 0 <= i < more.len() implies is_session_char(
                #[trigger] more[i],
            ) by {
                if i < name.len() {
                    assert(more[i] == name[i]);
                }
            }
        }
    }
}

/// The directory name of a namespace is put together from left to right: a letter or digit is added
/// in small letters, any other character adds one separator behind a word and nothing elsewhere,
/// and a hyphen or an underscore stays what it is while everything else becomes a hyphen.
/// Separators at the end are cut off.
pub proof fn law_namespaces_become_words(
    name: Seq<char>,
    c: char,
    words: Seq<char>,
    tail: Seq<char>,
)
    ensures
        joined_words(Seq::empty()) == Seq::<char>::empty(),
        char_is_alphanumeric(c) ==> joined_words(name.push(c)) == joined_words(name)
            + char_lowercase(c),
        !char_is_alphanumeric(c) && joined_words(name).len() > 0 && char_is_alphanumeric(
            name.last(),
        ) ==> joined_words(name.push(c)) == joined_words(name).push(
            if c == '_' {
                '_'
            } else {
                '-'
            },
        ),
        !char_is_alphanumeric(c) && (joined_words(name).len() == 0 || !char_is_alphanumeric(
            name.last(),
        )) ==> joined_words(name.push(c)) == joined_words(name),
        joined_words(name) == words + tail && (forall|i: int|
            0 <= i < tail.len() ==> #[trigger] tail[i] == '-' || tail[i] == '_') && (words.len() > 0
            ==> words.last() != '-' && words.last() != '_') ==> sanitized(name) == words,
{
    let more = name.push(c);
    assert(more.drop_last() =~= name);
    if name.len() > 0 {
        assert(more[more.len() - 2] == name.last());
    } else {
        assert(joined_words(name).len() == 0);
    }
    if joined_words(name) == words + tail && (forall|i: int|
        0 <= i < tail.len() ==> #[trigger] tail[i] == '-' || tail[i] == '_') && (words.len() > 0
        ==> words.last() != '-' && words.last() != '_') {
        lemma_separators_are_cut(words, tail);
    }
}

proof fn lemma_separators_are_cut(words: Seq<char>, tail: Seq<char>)
    requires
        forall|i: int| 0 <= i < tail.len() ==> #[trigger] tail[i] == '-' || tail[i] == '_',
        words.len() > 0 ==> words.last() != '-' && words.last() != '_',
    ensures
        trimmed_end(words + tail, |c: char| is_separator(c)) == words,
    decreases tail.len(),
{
    if tail.len() > 0 {
        assert((words + tail).last() == tail[tail.len() - 1]);
        assert((words + tail).drop_last() =~= words + tail.drop_last());
        lemma_separators_are_cut(words, tail.drop_last());
    } else {
        assert(words + tail =~= words);
    }
}

/// The sockets of a namespace lie in `run` below its name below `namespaces` below the directory of
/// all, and without a namespace in that directory itself.
pub proof fn law_namespaces_have_their_directory(base: PathView, name: Seq<char>)
    ensures
        name.len() > 0 ==> namespaced_dir(base, Some(name)) == base.joined("namespaces"@).joined(
            name,
        ).joined("run"@),
        name.len() == 0 ==> namespaced_dir(base, Some(name)) == base,
        namespaced_dir(base, None) == base,
{
}

/// The directory of all sockets is the one that is asked for; without one it is `agent-browser` in
/// the runtime directory; without that `.agent-browser` in the home directory; and without that
/// `agent-browser` in the directory for temporary files. A directory without a name counts as none.
pub proof fn law_base_directory_is_chosen_in_order(
    windows: bool,
    asked: Seq<char>,
    runtime: Seq<char>,
    home: Seq<u8>,
    temporary: Seq<u8>,
    any_runtime: Option<Seq<char>>,
    any_home: Option<Seq<u8>>,
)
    ensures
        asked.len() > 0 ==> base_dir(windows, Some(asked), any_runtime, any_home, temporary) == (
        PathView { windows, bytes: encode_utf8(asked) }),
        asked.len() == 0 ==> base_dir(windows, Some(asked), any_runtime, any_home, temporary)
            == base_dir(windows, None, any_runtime, any_home, temporary),
        runtime.len() > 0 ==> base_dir(windows, None, Some(runtime), any_home, temporary) == (
        PathView { windows, bytes: encode_utf8(runtime) }).joined("agent-browser"@),
        runtime.len() == 0 ==> base_dir(windows, None, Some(runtime), any_home, temporary)
            == base_dir(windows, None, None, any_home, temporary),
        base_dir(windows, None, None, Some(home), temporary) == (PathView {
            windows,
            bytes: home,
        }).joined(".agent-browser"@),
        base_dir(windows, None, None, None, temporary) == (PathView {
            windows,
            bytes: temporary,
        }).joined("agent-browser"@),
{
}

/// The hash of an identity grows by one character as 31 times the hash before and the character, in
/// 32 bits. Read with a sign, its distance from zero picks one of the private ports from 49152 on.
pub proof fn law_ports_are_picked_by_the_hash(identity: Seq<char>, c: char)
    ensures
        identity_hash(Seq::empty()) == 0,
        identity_hash(identity.push(c)) == (31 * identity_hash(identity) + (c as u32))
            % 4_294_967_296,
        identity_hash(identity) < 2_147_483_648 ==> identity_port(identity) == 49_152
            + identity_hash(identity) % 16_383,
        2_147_483_648 <= identity_hash(identity) < 4_294_967_296 ==> identity_port(identity)
            == 49_152 + (4_294_967_296 - identity_hash(identity)) % 16_383,
{
    assert(identity.push(c).drop_last() =~= identity);
}

/// A port file announces the port whose decimal number it holds, whatever whitespace stands around
/// it. A file that holds no number of a port, or no file, leaves the port of the identity.
pub proof fn law_port_files_announce_their_port(
    head: Seq<char>,
    port: nat,
    tail: Seq<char>,
    text: Seq<char>,
    identity: Seq<char>,
)
    ensures
        is_blank_text(head) && is_blank_text(tail) && port <= 65_535 ==> announced_port(
            Some(head + decimal(port) + tail),
            identity,
        ) == port,
        parsed_unsigned(without_outer_space(text), 65_535) is None ==> announced_port(
            Some(text),
            identity,
        ) == identity_port(identity),
        announced_port(None, identity) == identity_port(identity),
{
    if is_blank_text(head) && is_blank_text(tail) && port <= 65_535 {
        let number = decimal(port);
        lemma_decimal_is_solid(port);
        law_outer_space_is_cut(head, number, tail);
        law_decimal_reads_back(port, 65_535);
    }
}

proof fn lemma_decimal_is_solid(n: nat)
    ensures
        decimal(n).len() > 0,
        !char_is_whitespace(decimal(n)[0]),
        !char_is_whitespace(decimal(n).last()),
    decreases n,
{
    if n >= 10 {
        lemma_decimal_is_solid(n / 10);
        assert(digit_char(n % 10) as nat == 48 + n % 10);
    } else {
        assert(digit_char(n) as nat == 48 + n);
    }
}

} // verus!
