use vstd::prelude::*;

use crate::error::AppStructureError;
use crate::laws::{join_undoes_path_to, normalize_path_gives_normal_form, relative_path_is_normalized};

verus! {

/// A path on a file system: `fs` identifies the file system and `fs_name`
/// is its name; `path` is the `/`-separated path from its root, the empty
/// string for the root itself, always in normal form.
#[derive(Debug, PartialEq, Eq)]
pub struct FsPath {
    fs: u64,
    fs_name: String,
    path: String,
}

/// The mathematical value of an [`FsPath`].
pub struct FsPathView {
    pub fs: u64,
    pub fs_name: Seq<char>,
    pub path: Seq<char>,
}

impl FsPathView {
    /// A well-formed path is in normal form, as the path of every [`FsPath`]
    /// is.
    pub open spec fn wf(self) -> bool {
        is_normalized(self.path)
    }
}

impl Clone for FsPath {
    fn clone(&self) -> (r: Self)
        ensures
            r@ == self@,
    {
        self.copy()
    }
}

impl View for FsPath {
    type V = FsPathView;

    closed spec fn view(&self) -> FsPathView {
        FsPathView { fs: self.fs, fs_name: self.fs_name@, path: self.path@ }
    }
}

impl FsPath {
    /// The path is in normal form.
    #[verifier::type_invariant]
    pub closed spec fn well_formed(self) -> bool {
        is_normalized(self.path@)
    }

    /// What the type invariant says of the view.
    pub proof fn lemma_well_formed(self)
        requires
            self.well_formed(),
        ensures
            self@.wf(),
    {
    }

    /// The identity of the file system.
    pub fn fs(&self) -> (r: u64)
        ensures
            r == self@.fs,
    {
        self.fs
    }

    /// The name of the file system.
    pub fn fs_name(&self) -> (r: &str)
        ensures
            r@ == self@.fs_name,
    {
        self.fs_name.as_str()
    }

    /// The path from the root of the file system.
    pub fn path(&self) -> (r: &str)
        ensures
            r@ == self@.path,
            is_normalized(r@),
    {
        proof {
            use_type_invariant(self);
        }
        self.path.as_str()
    }

    /// The path `path` on the file system `fs` named `fs_name`: `path` joined
    /// onto the root and normalized; an error where it would leave the root.
    pub fn new(fs: u64, fs_name: &str, path: &str) -> (r: Result<FsPath, AppStructureError>)
        ensures
            match r {
                Ok(p) => p@.fs == fs && p@.fs_name == fs_name@ && spec_normalize_path(path@) == Some(
                    p@.path,
                ),
                Err(e) => spec_normalize_path(path@) is None && (e matches
                AppStructureError::JoinLeavesRoot { base, join } && base@.len() == 0 && join@
                    == path@),
            },
    {
        FsPath::root(fs, fs_name).join(path)
    }

    /// The same path.
    pub fn copy(&self) -> (r: FsPath)
        ensures
            r@ == self@,
    {
        proof {
            use_type_invariant(self);
        }
        FsPath { fs: self.fs, fs_name: self.fs_name.clone(), path: self.path.clone() }
    }
}

/// Splits `s` at every `/`, as `str::split('/')` does: the result always has
/// at least one element, and `k` slashes give `k + 1` segments.
pub open spec fn split_slash(s: Seq<char>) -> Seq<Seq<char>>
    decreases s.len(),
{
    if s.len() == 0 {
        seq![Seq::<char>::empty()]
    } else {
        let prev = split_slash(s.drop_last());
        if s.last() == '/' {
            prev.push(Seq::<char>::empty())
        } else {
            prev.update(prev.len() - 1, prev.last().push(s.last()))
        }
    }
}

/// The segment `.`.
pub open spec fn dot() -> Seq<char> {
    seq!['.']
}

/// The segment `..`.
pub open spec fn dot_dot() -> Seq<char> {
    seq!['.', '.']
}

/// One step of path normalization: an empty or `.` segment is dropped, `..`
/// removes the last kept segment (and fails when there is none), any other
/// segment is kept.
pub open spec fn normalize_step(acc: Option<Seq<Seq<char>>>, seg: Seq<char>) -> Option<Seq<Seq<char>>> {
    match acc {
        None => None,
        Some(a) => if seg.len() == 0 || seg == dot() {
            Some(a)
        } else if seg == dot_dot() {
            if a.len() == 0 {
                None
            } else {
                Some(a.drop_last())
            }
        } else {
            Some(a.push(seg))
        },
    }
}

/// A segment that normalization keeps: not empty, not `.` and not `..`.
pub open spec fn is_proper_segment(seg: Seq<char>) -> bool {
    seg.len() > 0 && seg != dot() && seg != dot_dot()
}

/// A path in normal form: empty, or made of proper segments only.
pub open spec fn is_normalized(s: Seq<char>) -> bool {
    s.len() == 0 || forall|i: int|
        0 <= i < split_slash(s).len() ==> #[trigger] is_proper_segment(split_slash(s)[i])
}

/// The segments that remain after normalizing `segs` from left to right.
pub open spec fn normalize_segments(segs: Seq<Seq<char>>) -> Option<Seq<Seq<char>>>
    decreases segs.len(),
{
    if segs.len() == 0 {
        Some(Seq::empty())
    } else {
        normalize_step(normalize_segments(segs.drop_last()), segs.last())
    }
}

/// The segments joined by `/`.
pub open spec fn join_slash(segs: Seq<Seq<char>>) -> Seq<char>
    decreases segs.len(),
{
    if segs.len() == 0 {
        Seq::empty()
    } else if segs.len() == 1 {
        segs[0]
    } else {
        join_slash(segs.drop_last()) + seq!['/'] + segs.last()
    }
}

/// The normal form of a `/`-separated path: no leading, trailing or doubled
/// `/`, no `.` and no `..` segment; `None` where a `..` would climb above the
/// start of the path.
pub open spec fn spec_normalize_path(s: Seq<char>) -> Option<Seq<char>> {
    match normalize_segments(split_slash(s)) {
        Some(segs) => Some(join_slash(segs)),
        None => None,
    }
}

/// The views of a sequence of string slices.
pub open spec fn strs_view(v: Seq<&str>) -> Seq<Seq<char>> {
    v.map_values(|x: &str| x@)
}

/// The view of an optional string.
pub open spec fn opt_string_view(o: Option<String>) -> Option<Seq<char>> {
    match o {
        Some(s) => Some(s@),
        None => None,
    }
}

proof fn lemma_split_take_step(s: Seq<char>, i: int)
    requires
        0 <= i < s.len(),
    ensures
        split_slash(s.take(i + 1)) == (if s[i] == '/' {
            split_slash(s.take(i)).push(Seq::<char>::empty())
        } else {
            let prev = split_slash(s.take(i));
            prev.update(prev.len() - 1, prev.last().push(s[i]))
        }),
{
    assert(s.take(i + 1).drop_last() =~= s.take(i));
}

/// The characters of `s`, in order.
pub fn to_chars(s: &str) -> (v: Vec<char>)
    ensures
        v@ == s@,
{
    let mut v: Vec<char> = Vec::new();
    for c in it: s.chars()
        invariant
            v@ == it.seq().take(it.index() as int),
    {
        v.push(c);
    }
    v
}

/// Applies one normalization step for `seg` to the stack of kept segments;
/// `false` where a `..` finds the stack empty.
fn apply_segment<'a>(stack: &mut Vec<&'a str>, seg: &'a str) -> (ok: bool)
    ensures
        normalize_step(Some(strs_view(old(stack)@)), seg@) == (if ok {
            Some(strs_view(final(stack)@))
        } else {
            None::<Seq<Seq<char>>>
        }),
{
    let len = seg.unicode_len();
    if len == 0 {
        return true;
    }
    if len == 1 && seg.get_char(0) == '.' {
        assert(seg@ =~= dot());
        return true;
    }
    if len == 2 && seg.get_char(0) == '.' && seg.get_char(1) == '.' {
        assert(seg@ =~= dot_dot());
        if stack.len() == 0 {
            return false;
        }
        let ghost before = stack@;
        stack.pop();
        assert(strs_view(stack@) =~= strs_view(before).drop_last());
        return true;
    }
    assert(seg@ != dot()) by {
        if len == 1 { assert(seg@[0] != dot()[0]); }
    }
    assert(seg@ != dot_dot()) by {
        if len == 2 { assert(seg@[0] != dot_dot()[0] || seg@[1] != dot_dot()[1]); }
    }
    let ghost before = stack@;
    stack.push(seg);
    assert(strs_view(stack@) =~= strs_view(before).push(seg@));
    true
}

/// The segments joined by `/`.
fn join_segments(stack: &Vec<&str>) -> (r: String)
    ensures
        r@ == join_slash(strs_view(stack@)),
{
    let mut r = String::new();
    let n = stack.len();
    for k in 0..n
        invariant
            n == stack.len(),
            r@ == join_slash(strs_view(stack@).take(k as int)),
    {
        let ghost segs = strs_view(stack@);
        assert(segs.take(k + 1).drop_last() =~= segs.take(k as int));
        if k > 0 {
            proof {
                reveal_strlit("/");
            }
            r.append("/");
        }
        r.append(stack[k]);
        assert(r@ =~= join_slash(segs.take(k + 1)));
    }
    assert(strs_view(stack@).take(n as int) =~= strs_view(stack@));
    r
}

/// Normalizes a `/`-separated path: drops empty and `.` segments, resolves
/// `..` against the segment before it, and joins what remains with `/`.
/// `None` where a `..` would leave the start of the path.
pub fn normalize_path(s: &str) -> (r: Option<String>)
    ensures
        opt_string_view(r) == spec_normalize_path(s@),
        r matches Some(x) ==> is_normalized(x@),
{
    proof {
        normalize_path_gives_normal_form(s@);
    }
    let cs = to_chars(s);
    let n = cs.len();
    let mut stack: Vec<&str> = Vec::new();
    let ghost mut done: Seq<Seq<char>> = Seq::empty();
    let mut failed = false;
    let mut start: usize = 0;
    let mut i: usize = 0;
    assert(s@.take(0) =~= Seq::<char>::empty());
    assert(s@.subrange(0, 0) =~= Seq::<char>::empty());
    assert(split_slash(Seq::<char>::empty()) =~= done.push(Seq::<char>::empty()));
    while i < n
        invariant
            cs@ == s@,
            n == cs.len(),
            start <= i <= n,
            split_slash(s@.take(i as int)) == done.push(s@.subrange(start as int, i as int)),
            failed ==> normalize_segments(done) is None,
            !failed ==> normalize_segments(done) == Some(strs_view(stack@)),
        decreases n - i,
    {
        proof {
            lemma_split_take_step(s@, i as int);
        }
        if cs[i] == '/' {
            let seg = s.substring_char(start, i);
            let ghost new_done = done.push(seg@);
            assert(new_done.drop_last() =~= done);
            if !failed {
                let ok = apply_segment(&mut stack, seg);
                if !ok {
                    failed = true;
                }
            }
            proof {
                done = new_done;
            }
            start = i + 1;
            assert(s@.subrange(start as int, start as int) =~= Seq::<char>::empty());
        } else {
            assert(s@.subrange(start as int, i + 1) =~= s@.subrange(start as int, i as int).push(s@[i as int]));
            assert(done.push(s@.subrange(start as int, i + 1)) =~= done.push(s@.subrange(start as int, i as int)).update(done.len() as int, s@.subrange(start as int, i as int).push(s@[i as int])));
        }
        i += 1;
    }
    assert(s@.take(n as int) =~= s@);
    let seg = s.substring_char(start, n);
    let ghost all = done.push(seg@);
    assert(all.drop_last() =~= done);
    if !failed {
        let ok = apply_segment(&mut stack, seg);
        if !ok {
            failed = true;
        }
    }
    if failed {
        None
    } else {
        Some(join_segments(&stack))
    }
}

/// `base` and `join` joined by `/` and normalized; `base` or `join` alone
/// where the other is empty.
pub open spec fn spec_join_path(base: Seq<char>, join: Seq<char>) -> Option<Seq<char>> {
    if base.len() == 0 {
        spec_normalize_path(join)
    } else if join.len() == 0 {
        spec_normalize_path(base)
    } else {
        spec_normalize_path(base + seq!['/'] + join)
    }
}

/// The path of `inner` relative to `base`, without a leading `/`: all of
/// `inner` where `base` is the root, the empty path where both are equal,
/// and `None` where `inner` does not lie at or below `base`.
pub open spec fn spec_path_to(base: Seq<char>, inner: Seq<char>) -> Option<Seq<char>> {
    if base.len() == 0 {
        Some(inner)
    } else if base.len() <= inner.len() && inner.take(base.len() as int) == base {
        if inner.len() == base.len() {
            Some(Seq::<char>::empty())
        } else if inner[base.len() as int] == '/' {
            Some(inner.skip(base.len() as int + 1))
        } else {
            None
        }
    } else {
        None
    }
}

/// [`spec_path_to`] for two paths on the same file system; `None` across
/// file systems.
pub open spec fn spec_get_path_to(base: FsPathView, inner: FsPathView) -> Option<Seq<char>> {
    if base.fs != inner.fs {
        None
    } else {
        spec_path_to(base.path, inner.path)
    }
}

/// Joins `join` onto `fs_path` with `/` and normalizes the result; `None`
/// where the result would leave the root.
pub fn join_path(fs_path: &str, join: &str) -> (r: Option<String>)
    ensures
        opt_string_view(r) == spec_join_path(fs_path@, join@),
        r matches Some(x) ==> is_normalized(x@),
{
    if fs_path.is_empty() {
        normalize_path(join)
    } else if join.is_empty() {
        normalize_path(fs_path)
    } else {
        let mut whole = String::new();
        whole.append(fs_path);
        proof {
            reveal_strlit("/");
        }
        whole.append("/");
        whole.append(join);
        assert(whole@ =~= fs_path@ + seq!['/'] + join@);
        normalize_path(whole.as_str())
    }
}

/// Whether `p` is a prefix of `s`.
fn chars_start_with(s: &Vec<char>, p: &Vec<char>) -> (r: bool)
    ensures
        r == (p@.len() <= s@.len() && s@.take(p@.len() as int) == p@),
{
    if p.len() > s.len() {
        return false;
    }
    let n = p.len();
    for k in 0..n
        invariant
            n == p.len(),
            n <= s.len(),
            forall|j: int| 0 <= j < k ==> s@[j] == p@[j],
    {
        if s[k] != p[k] {
            assert(s@.take(n as int)[k as int] != p@[k as int]);
            return false;
        }
    }
    assert(s@.take(n as int) =~= p@);
    true
}

impl FsPath {
    /// The root of the file system `fs`.
    pub fn root(fs: u64, fs_name: &str) -> (r: FsPath)
        ensures
            r@ == (FsPathView { fs, fs_name: fs_name@, path: Seq::<char>::empty() }),
            r@.wf(),
    {
        let path = String::new();
        assert(is_normalized(path@));
        FsPath { fs, fs_name: fs_name.to_owned(), path }
    }

    /// This path with `path` joined onto it and normalized; an error where
    /// the result would leave the root of the file system.
    pub fn join(&self, path: &str) -> (r: Result<FsPath, AppStructureError>)
        ensures
            match r {
                Ok(p) => p@.fs == self@.fs && p@.fs_name == self@.fs_name && spec_join_path(
                    self@.path,
                    path@,
                ) == Some(p@.path) && p@.wf(),
                Err(e) => spec_join_path(self@.path, path@) is None && (e matches
                AppStructureError::JoinLeavesRoot { base, join } && base@ == self@.path && join@
                    == path@),
            },
    {
        match join_path(self.path.as_str(), path) {
            Some(joined) => Ok(FsPath { fs: self.fs, fs_name: self.fs_name.clone(), path: joined }),
            None => Err(AppStructureError::JoinLeavesRoot { base: self.path.clone(), join: path.to_owned() }),
        }
    }

    /// The path of `inner` relative to this path, without a leading `/`;
    /// `None` where `inner` lies on another file system or not at or below
    /// this path.
    pub fn get_path_to(&self, inner: &FsPath) -> (r: Option<String>)
        ensures
            opt_string_view(r) == spec_get_path_to(self@, inner@),
            r matches Some(rel) ==> is_normalized(rel@) && spec_join_path(self@.path, rel@) == Some(
                inner@.path,
            ),
    {
        proof {
            use_type_invariant(self);
            use_type_invariant(inner);
            relative_path_is_normalized(self@.path, inner@.path);
            join_undoes_path_to(self@.path, inner@.path);
        }
        if self.fs != inner.fs {
            return None;
        }
        let path = inner.path.as_str();
        if self.path.as_str().is_empty() {
            return Some(path.to_owned());
        }
        let ps = to_chars(path);
        let bs = to_chars(self.path.as_str());
        if chars_start_with(&ps, &bs) {
            if ps.len() == bs.len() {
                return Some(String::new());
            }
            if ps[bs.len()] == '/' {
                let rest = path.substring_char(bs.len() + 1, ps.len());
                assert(rest@ =~= path@.skip(bs.len() + 1));
                return Some(rest.to_owned());
            }
        }
        None
    }
}

/// How a path reads: the name of the file system in brackets, then the
/// path.
pub open spec fn spec_describe(p: FsPathView) -> Seq<char> {
    "["@ + p.fs_name + "]/"@ + p.path
}

impl FsPath {
    /// How this path reads: the file system in brackets, then the path.
    pub fn describe(&self) -> (r: String)
        ensures
            r@ == spec_describe(self@),
    {
        let mut r = String::new();
        r.append("[");
        r.append(self.fs_name.as_str());
        r.append("]/");
        r.append(self.path.as_str());
        r
    }
}

} // verus!
