//! Host paths and the container directories they are mounted on.
//!
//! Paths follow the rule of the Unix hosts that the launcher runs on: `/` is
//! the only separator. Splitting an output path and naming a mount point are
//! this crate's own rules and are proved here. Taking a path apart into its
//! parent and its last component is left to `std::path`, whose results are
//! only named: on a Unix host they depend on the text of the path alone.

use vstd::prelude::*;

verus! {

/// The directory under which every host directory is mounted.
pub const VOLUME_PREFIX: &'static str = "/volumes/";

/// The directory that stands for "here" when an output path names none.
pub const CURRENT_DIR: &'static str = ".";

/// Whether `c` separates the components of a path.
pub open spec fn is_separator(c: char) -> bool {
    c == '/'
}

/// Whether `c` separates the components of a path.
pub fn char_is_separator(c: char) -> (b: bool)
    ensures
        b == is_separator(c),
{
    c == '/'
}

/// The position of the last separator in `s`, or -1 when it holds none.
pub open spec fn last_separator(s: Seq<char>) -> int
    decreases s.len(),
{
    if s.len() == 0 {
        -1
    } else if is_separator(s.last()) {
        s.len() - 1
    } else {
        last_separator(s.drop_last())
    }
}

/// The directory portion of an output path: what stands before the last
/// separator, or the current directory when there is no separator.
pub open spec fn output_dirname(s: Seq<char>) -> Seq<char> {
    let at = last_separator(s);
    if at < 0 {
        CURRENT_DIR@
    } else {
        s.take(at)
    }
}

/// The final component of an output path: what stands after the last
/// separator, or all of it when there is no separator.
pub open spec fn output_basename(s: Seq<char>) -> Seq<char> {
    s.skip(last_separator(s) + 1)
}

/// The last separator is a separator, nothing after it is one, and without
/// one the text holds no separator at all.
pub proof fn lemma_last_separator(s: Seq<char>)
    ensures
        -1 <= last_separator(s) < s.len(),
        last_separator(s) >= 0 ==> is_separator(s[last_separator(s)]),
        forall|j: int| last_separator(s) < j < s.len() ==> !is_separator(#[trigger] s[j]),
    decreases s.len(),
{
    if s.len() > 0 && !is_separator(s.last()) {
        lemma_last_separator(s.drop_last());
        assert forall|j: int| last_separator(s) < j < s.len() implies !is_separator(
            #[trigger] s[j],
        ) by {
            if j < s.len() - 1 {
                assert(s[j] == s.drop_last()[j]);
            }
        }
    }
}

/// The two portions of an output path put the path back together: with a
/// separator between them when the path had one, and the final component
/// never holds a separator.
pub proof fn lemma_output_path_parts(s: Seq<char>)
    ensures
        last_separator(s) >= 0 ==> s == output_dirname(s).push('/') + output_basename(s),
        last_separator(s) < 0 ==> s == output_basename(s),
        forall|j: int|
            0 <= j < output_basename(s).len() ==> !is_separator(#[trigger] output_basename(s)[j]),
{
    lemma_last_separator(s);
    let at = last_separator(s);
    if at >= 0 {
        assert(s =~= s.take(at).push('/') + s.skip(at + 1));
    } else {
        assert(s =~= s.skip(0));
    }
    assert forall|j: int| 0 <= j < output_basename(s).len() implies !is_separator(
        #[trigger] output_basename(s)[j],
    ) by {
        assert(output_basename(s)[j] == s[at + 1 + j]);
    }
}

/// Splits an output path into its directory portion and its final component.
///
/// The final component is not looked up on disk: the file need not exist.
pub fn split_output_path(text: &str) -> (parts: (String, String))
    ensures
        parts.0@ == output_dirname(text@),
        parts.1@ == output_basename(text@),
{
    let mut dir = String::new();
    let mut base = String::new();
    let mut seen = false;
    for c in iter: text.chars()
        invariant
            iter.seq() == text@,
            seen == (last_separator(text@.take(iter.index())) >= 0),
            seen ==> dir@ == text@.take(iter.index()).take(
                last_separator(text@.take(iter.index())),
            ),
            base@ == text@.take(iter.index()).skip(last_separator(text@.take(iter.index())) + 1),
    {
        let ghost before = text@.take(iter.index());
        let ghost after = text@.take(iter.index() + 1);
        proof {
            lemma_last_separator(before);
            assert(after == before.push(c));
            assert(after.drop_last() == before);
        }
        if char_is_separator(c) {
            if seen {
                proof {
                    assert(before == dir@.push('/') + base@);
                }
                dir.push('/');
                dir.append(base.as_str());
            } else {
                proof {
                    assert(before == base@);
                }
                dir = base;
            }
            base = String::new();
            seen = true;
            proof {
                assert(after.take(iter.index()) == before);
                assert(after.skip(iter.index() + 1) == Seq::<char>::empty());
            }
        } else {
            base.push(c);
            proof {
                let at = last_separator(before);
                if at >= 0 {
                    assert(after.take(at) == before.take(at));
                }
                assert(after.skip(at + 1) == before.skip(at + 1).push(c));
            }
        }
    }
    proof {
        assert(text@.take(text@.len() as int) == text@);
    }
    if seen {
        (dir, base)
    } else {
        (CURRENT_DIR.to_owned(), base)
    }
}

/// The path that `std::path::PathBuf::push` makes of the path `dir` and one
/// more component `name`.
pub uninterp spec fn path_joined(dir: Seq<char>, name: Seq<char>) -> Seq<char>;

/// What `std::path::PathBuf::pop` leaves of `path`: its parent, or the path
/// itself when it has none.
pub uninterp spec fn path_parent(path: Seq<char>) -> Seq<char>;

/// The final component of `path` as `std::path::Path::file_name` gives it,
/// or `None` when the path has none.
pub uninterp spec fn path_file_name(path: Seq<char>) -> Option<Seq<char>>;

/// Whether `char::is_alphanumeric` holds of `c`.
pub uninterp spec fn char_alphanumeric(c: char) -> bool;

/// Calls `PathBuf::push` with `name` on the path `dir` and hands the path
/// back as text. The path is made of two Unicode texts, so it is Unicode
/// text itself and the conversion changes nothing. The contract claims one
/// thing: the result is a function of the two texts, named `path_joined`.
#[verifier::external_body]
pub(crate) fn join_path(dir: &str, name: &str) -> (joined: String)
    ensures
        joined@ == path_joined(dir@, name@),
{
    let mut path = std::path::PathBuf::from(dir);
    path.push(name);
    path.to_string_lossy().into_owned()
}

/// Calls `PathBuf::pop` on `path` and hands back what is left, which is the
/// path itself when it has no parent. What is left is a part of a Unicode
/// text, so the conversion changes nothing. The contract claims one thing:
/// the result is a function of the text, named `path_parent`.
#[verifier::external_body]
pub(crate) fn parent_path(path: &str) -> (parent: String)
    ensures
        parent@ == path_parent(path@),
{
    let mut owned = std::path::PathBuf::from(path);
    owned.pop();
    owned.to_string_lossy().into_owned()
}

/// Calls `Path::file_name` on `path` and hands back the final component,
/// if there is one. The component is a part of a Unicode text, so the
/// conversion changes nothing. The contract claims one thing: whether there
/// is a component, and which, is a function of the text, named
/// `path_file_name`.
#[verifier::external_body]
pub(crate) fn file_name_of(path: &str) -> (name: Option<String>)
    ensures
        name is Some == path_file_name(path@) is Some,
        name is Some ==> path_file_name(path@) == Some(name->0@),
{
    match std::path::Path::new(path).file_name() {
        Some(name) => Some(name.to_string_lossy().into_owned()),
        None => None,
    }
}

/// Calls `char::is_alphanumeric`, which says whether Unicode classes the
/// character as a letter or a number. The contract claims one thing: the
/// answer is a function of the character, named `char_alphanumeric`.
#[verifier::external_body]
pub(crate) fn is_alphanumeric(c: char) -> (b: bool)
    ensures
        b == char_alphanumeric(c),
{
    c.is_alphanumeric()
}

/// The character that stands for `c` in the name of a mount point, given
/// whether `c` is alphanumeric: `c` itself when it is, and is no separator,
/// else an underscore.
pub open spec fn mount_name_char(c: char, alphanumeric: bool) -> char {
    if alphanumeric && !is_separator(c) {
        c
    } else {
        '_'
    }
}

/// The character that stands for `c` in the name of a mount point.
pub fn mount_name_char_for(c: char, alphanumeric: bool) -> (out: char)
    ensures
        out == mount_name_char(c, alphanumeric),
{
    if alphanumeric && !char_is_separator(c) {
        c
    } else {
        '_'
    }
}

/// The host directory with every separator and every other character that is
/// not alphanumeric replaced by an underscore.
pub open spec fn mount_name(host_dir: Seq<char>) -> Seq<char> {
    host_dir.map_values(|c: char| mount_name_char(c, char_alphanumeric(c)))
}

/// The container directory on which `host_dir` is mounted: the volume prefix
/// followed by the mount name of the host directory.
pub open spec fn container_dir_of(host_dir: Seq<char>) -> Seq<char> {
    VOLUME_PREFIX@ + mount_name(host_dir)
}

/// The path inside the container of the file `file_name` in `container_dir`.
pub open spec fn container_path_of(container_dir: Seq<char>, file_name: Seq<char>) -> Seq<char> {
    container_dir.push('/') + file_name
}

/// Computes the container directory on which `host_dir` is mounted.
///
/// The result depends on the host directory alone, so that every reference
/// to one directory names the same mount point.
pub fn container_dir_for(host_dir: &str) -> (dir: String)
    ensures
        dir@ == container_dir_of(host_dir@),
{
    let mut dir = VOLUME_PREFIX.to_owned();
    for c in iter: host_dir.chars()
        invariant
            iter.seq() == host_dir@,
            dir@ == VOLUME_PREFIX@ + mount_name(host_dir@.take(iter.index())),
    {
        let out = mount_name_char_for(c, is_alphanumeric(c));
        proof {
            assert(host_dir@.take(iter.index() + 1) == host_dir@.take(iter.index()).push(c));
            assert(mount_name(host_dir@.take(iter.index()).push(c)) == mount_name(
                host_dir@.take(iter.index()),
            ).push(out));
        }
        dir.push(out);
    }
    proof {
        assert(host_dir@.take(host_dir@.len() as int) == host_dir@);
    }
    dir
}

/// Computes the path inside the container of `file_name` in `container_dir`.
pub fn container_path_for(container_dir: &str, file_name: &str) -> (path: String)
    ensures
        path@ == container_path_of(container_dir@, file_name@),
{
    let mut path = container_dir.to_owned();
    path.push('/');
    path.append(file_name);
    path
}

/// Two host directories that differ only in a separator where the other has
/// an underscore are mounted on the same container directory: the naming
/// rule is not injective.
pub proof fn lemma_mount_name_collision(before: Seq<char>, after: Seq<char>)
    ensures
        container_dir_of(before.push('/') + after) == container_dir_of(before.push('_') + after),
{
    let a = before.push('/') + after;
    let b = before.push('_') + after;
    assert(mount_name(a) =~= mount_name(b)) by {
        assert forall|i: int| 0 <= i < a.len() implies mount_name(a)[i] == mount_name(b)[i] by {
            if i != before.len() {
                assert(a[i] == b[i]);
            }
        }
    }
}

} // verus!
