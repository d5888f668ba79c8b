//! Where the project lies on the file system that is rooted at the root
//! directory.

use vstd::prelude::*;

use crate::error::AppStructureError;
use crate::fs_path::{spec_normalize_path, to_chars, FsPath};

verus! {

/// `s` with every `from` replaced by `to`.
pub open spec fn replace_char(s: Seq<char>, from: char, to: char) -> Seq<char> {
    s.map_values(|c: char| if c == from { to } else { c })
}

/// The project directory relative to the root directory: `project` without
/// the prefix `root` and without one separator after it, with every
/// separator turned into `/`.
pub open spec fn spec_project_relative(root: Seq<char>, project: Seq<char>, separator: char) -> Seq<char> {
    let rest = project.skip(root.len() as int);
    let rest = if rest.len() > 0 && rest[0] == separator {
        rest.skip(1)
    } else {
        rest
    };
    replace_char(rest, separator, '/')
}

/// `root` is a prefix of `project`.
pub open spec fn is_prefix(root: Seq<char>, project: Seq<char>) -> bool {
    root.len() <= project.len() && project.take(root.len() as int) == root
}

/// The project directory relative to the root directory, with `/` between
/// its segments; `separator` is the platform's path separator.
pub fn project_relative_path(root_dir: &str, project_dir: &str, separator: char) -> (r: String)
    requires
        is_prefix(root_dir@, project_dir@),
    ensures
        r@ == spec_project_relative(root_dir@, project_dir@, separator),
{
    let cs = to_chars(project_dir);
    let n = cs.len();
    let mut start = root_dir.unicode_len();
    if start < n && cs[start] == separator {
        start = start + 1;
    }
    let ghost first = start as int;
    let ghost target = spec_project_relative(root_dir@, project_dir@, separator);
    assert(target =~= replace_char(project_dir@.subrange(first, n as int), separator, '/'));
    let mut r = String::new();
    let mut seg_start = start;
    let mut i = start;
    assert(replace_char(project_dir@.subrange(first, first), separator, '/') =~= r@);
    while i < n
        invariant
            cs@ == project_dir@,
            n == cs.len(),
            0 <= first <= seg_start <= i <= n,
            r@ == replace_char(project_dir@.subrange(first, seg_start as int), separator, '/'),
            forall|j: int| seg_start <= j < i ==> project_dir@[j] != separator,
        decreases n - i,
    {
        if cs[i] == separator {
            let seg = project_dir.substring_char(seg_start, i);
            r.append(seg);
            proof {
                reveal_strlit("/");
            }
            r.append("/");
            let ghost done = project_dir@.subrange(first, seg_start as int);
            let ghost piece = project_dir@.subrange(seg_start as int, i as int);
            assert(replace_char(piece, separator, '/') =~= piece);
            assert(project_dir@.subrange(first, i + 1) =~= done + piece + seq![separator]);
            assert(replace_char(done + piece + seq![separator], separator, '/') =~= replace_char(
                done,
                separator,
                '/',
            ) + piece + seq!['/']);
            assert(r@ =~= replace_char(project_dir@.subrange(first, i + 1), separator, '/'));
            seg_start = i + 1;
        }
        i = i + 1;
    }
    let seg = project_dir.substring_char(seg_start, n);
    r.append(seg);
    let ghost done = project_dir@.subrange(first, seg_start as int);
    let ghost piece = project_dir@.subrange(seg_start as int, n as int);
    assert(replace_char(piece, separator, '/') =~= piece);
    assert(project_dir@.subrange(first, n as int) =~= done + piece);
    assert(replace_char(done + piece, separator, '/') =~= replace_char(done, separator, '/') + piece);
    assert(r@ =~= replace_char(project_dir@.subrange(first, n as int), separator, '/'));
    r
}

/// The project directory as a path on the file system `fs`, named
/// `fs_name`, that is rooted at `root_dir`: the relative path joined onto the root and normalized; an
/// error where it would leave the root.
pub fn project_path(fs: u64, fs_name: &str, root_dir: &str, project_dir: &str, separator: char) -> (r: Result<
    FsPath,
    AppStructureError,
>)
    requires
        is_prefix(root_dir@, project_dir@),
    ensures
        match r {
            Ok(p) => p@.fs == fs && p@.fs_name == fs_name@ && spec_normalize_path(
                spec_project_relative(root_dir@, project_dir@, separator),
            ) == Some(p@.path) && p@.wf(),
            Err(e) => spec_normalize_path(spec_project_relative(root_dir@, project_dir@, separator))
                is None && (e matches AppStructureError::JoinLeavesRoot { base, join } && base@.len()
                == 0 && join@ == spec_project_relative(root_dir@, project_dir@, separator)),
        },
{
    let relative = project_relative_path(root_dir, project_dir, separator);
    FsPath::root(fs, fs_name).join(relative.as_str())
}

} // verus!
