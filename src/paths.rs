//! Where the output for each input file goes: a file below the input root
//! keeps its place below the output root, or is rewritten in place.
use vstd::prelude::*;
use crate::text::{chars_of, tail};

verus! {

/// Position `i` starts a segment of `s`.
pub open spec fn starts_segment(s: Seq<char>, i: int) -> bool {
    i == 0 || s[i - 1] == '/'
}

/// Position `j` ends a segment of `s`.
pub open spec fn ends_segment(s: Seq<char>, j: int) -> bool {
    j == s.len() || s[j] == '/'
}

/// At position `i` of `s` stands a leading, trailing or doubled separator,
/// or a segment `.` or `..`.
pub open spec fn flaw_at(s: Seq<char>, i: int) -> bool {
    ||| s[i] == '/' && (i == 0 || i == s.len() - 1 || s[i + 1] == '/')
    ||| s[i] == '.' && starts_segment(s, i) && ends_segment(s, i + 1)
    ||| s[i] == '.' && starts_segment(s, i) && i + 1 < s.len() && s[i + 1] == '.'
        && ends_segment(s, i + 2)
}

/// A relative path made of plain, non-empty segments joined by single
/// separators.
pub open spec fn clean_relative(s: Seq<char>) -> bool {
    &&& s.len() > 0
    &&& forall|i: int| 0 <= i < s.len() ==> !#[trigger] flaw_at(s, i)
}

/// The file-system root `/`.
pub open spec fn is_fs_root(b: Seq<char>) -> bool {
    b == seq!['/']
}

/// A root directory: `/`, a clean relative path, or one behind a leading
/// `/`.
pub open spec fn clean_root(b: Seq<char>) -> bool {
    ||| is_fs_root(b)
    ||| clean_relative(b)
    ||| (b.len() > 1 && b[0] == '/' && clean_relative(b.drop_first()))
}

/// What precedes a path below `root`: `/` for the file-system root, else
/// `root` and a separator.
pub open spec fn dir_prefix(root: Seq<char>) -> Seq<char> {
    if is_fs_root(root) {
        root
    } else {
        root.push('/')
    }
}

/// `p` lies strictly below the clean root `root`, along plain segments.
pub open spec fn is_under(p: Seq<char>, root: Seq<char>) -> bool {
    &&& clean_root(root)
    &&& dir_prefix(root).len() < p.len()
    &&& p.take(dir_prefix(root).len() as int) == dir_prefix(root)
    &&& clean_relative(p.skip(dir_prefix(root).len() as int))
}

/// The part of `p` after `root` and its separator.
pub open spec fn relative_part(p: Seq<char>, root: Seq<char>) -> Seq<char> {
    p.skip(dir_prefix(root).len() as int)
}

/// `rel` placed below `root`.
pub open spec fn joined(root: Seq<char>, rel: Seq<char>) -> Seq<char> {
    dir_prefix(root) + rel
}

/// The output path of `input`: the input itself without an output root,
/// else the output root joined with the input's path relative to `root`.
pub open spec fn mapped_path(input: Seq<char>, root: Seq<char>, output_root: Option<Seq<char>>) -> Seq<char> {
    match output_root {
        None => input,
        Some(out) => joined(out, relative_part(input, root)),
    }
}

/// The input path does not lie below the input root.
#[derive(Clone, Copy, Debug, PartialEq, Eq, Structural)]
pub struct PathRelationError;

/// Relies on pathdiff::diff_paths: on targets whose path separator is `/`,
/// for a path that lies below `base` along plain segments, the result is
/// the segments that follow `base`, joined by `/`.
#[verifier::external_body]
fn diff_paths(path: &str, base: &str) -> (r: Option<String>)
    ensures
        is_under(path@, base@) ==> (r is Some && r->0@ == relative_part(path@, base@)),
{
    pathdiff::diff_paths(path, base).map(|p| p.to_string_lossy().into_owned())
}

/// Tells whether `s` is a clean relative path.
pub fn is_clean_relative(s: &Vec<char>) -> (r: bool)
    ensures
        r == clean_relative(s@),
{
    let n = s.len();
    if n == 0 {
        return false;
    }
    let mut i: usize = 0;
    while i < n
        invariant
            0 <= i <= n,
            n == s.len(),
            forall|k: int| 0 <= k < i ==> !#[trigger] flaw_at(s@, k),
        decreases n - i,
    {
        let c = s[i];
        let starts = i == 0 || s[i - 1] == '/';
        if c == '/' {
            if i == 0 || i == n - 1 || s[i + 1] == '/' {
                assert(flaw_at(s@, i as int));
                return false;
            }
        } else if c == '.' && starts {
            if i + 1 == n || s[i + 1] == '/' {
                assert(flaw_at(s@, i as int));
                return false;
            }
            if s[i + 1] == '.' && (i + 2 == n || s[i + 2] == '/') {
                assert(flaw_at(s@, i as int));
                return false;
            }
        }
        i += 1;
    }
    true
}

/// Tells whether `root` is the file-system root `/`.
fn is_fs_root_exec(root: &Vec<char>) -> (r: bool)
    ensures
        r == is_fs_root(root@),
{
    let r = root.len() == 1 && root[0] == '/';
    assert(r ==> root@ =~= seq!['/']);
    r
}

/// Tells whether `root` is a clean root.
pub fn is_clean_root(root: &Vec<char>) -> (r: bool)
    ensures
        r == clean_root(root@),
{
    if is_fs_root_exec(root) || is_clean_relative(root) {
        return true;
    }
    if root.len() > 1 && root[0] == '/' {
        let rest = tail(root, 1);
        assert(rest@ =~= root@.drop_first());
        is_clean_relative(&rest)
    } else {
        false
    }
}

/// Tells whether `p` lies below `root`.
pub fn path_is_under(p: &str, root: &str) -> (r: bool)
    ensures
        r == is_under(p@, root@),
{
    let pv = chars_of(p);
    let rv = chars_of(root);
    if !is_clean_root(&rv) {
        return false;
    }
    let mut pre = rv.clone();
    if !is_fs_root_exec(&rv) {
        pre.push('/');
    }
    assert(pre@ == dir_prefix(root@));
    let n = pre.len();
    if n >= pv.len() {
        return false;
    }
    let mut i: usize = 0;
    while i < n
        invariant
            0 <= i <= n,
            n == pre.len(),
            n < pv.len(),
            pv@ == p@,
            pre@ == dir_prefix(root@),
            clean_root(root@),
            forall|k: int| 0 <= k < i ==> pv@[k] == pre@[k],
        decreases n - i,
    {
        if pv[i] != pre[i] {
            assert(pv@.take(n as int)[i as int] != pre@[i as int]);
            assert(pv@.take(n as int) != pre@);
            return false;
        }
        i += 1;
    }
    assert(pv@.take(n as int) =~= pre@);
    let rest = tail(&pv, n);
    is_clean_relative(&rest)
}

/// The output path for `input_path`, found below `input_root`: itself when
/// there is no output root, else the output root joined with its path
/// relative to `input_root`. Fails when an output root is given and the
/// input does not lie below `input_root`.
pub fn map_output_path(input_path: &str, input_root: &str, output_root: Option<&str>) -> (r: Result<String, PathRelationError>)
    ensures
        r is Ok <==> (output_root is None || is_under(input_path@, input_root@)),
        r is Ok ==> r->Ok_0@ == mapped_path(
            input_path@,
            input_root@,
            match output_root {
                Some(o) => Some(o@),
                None => None,
            },
        ),
{
    match output_root {
        None => Ok(String::from_str(input_path)),
        Some(out) => {
            if !path_is_under(input_path, input_root) {
                return Err(PathRelationError);
            }
            match diff_paths(input_path, input_root) {
                Some(rel) => {
                    let mut s = String::from_str(out);
                    if !is_fs_root_exec(&chars_of(out)) {
                        let sep = "/";
                        proof {
                            reveal_strlit("/");
                        }
                        s.append(sep);
                    }
                    s.append(rel.as_str());
                    proof {
                        assert(s@ =~= joined(out@, rel@));
                    }
                    Ok(s)
                },
                None => Err(PathRelationError),
            }
        },
    }
}

/// A file mapped from the input root into a clean output root keeps its
/// place: the output lies below the output root, and its path relative to
/// the output root is the input's path relative to the input root.
pub proof fn lemma_output_mirrors_input(input: Seq<char>, input_root: Seq<char>, output_root: Seq<char>)
    requires
        is_under(input, input_root),
        clean_root(output_root),
    ensures
        is_under(mapped_path(input, input_root, Some(output_root)), output_root),
        relative_part(mapped_path(input, input_root, Some(output_root)), output_root)
            == relative_part(input, input_root),
{
    let rel = relative_part(input, input_root);
    let out = joined(output_root, rel);
    let n = dir_prefix(output_root).len() as int;
    assert(out.take(n) =~= dir_prefix(output_root));
    assert(out.skip(n) =~= rel);
}

/// Distinct files below one input root get distinct output paths below an
/// output root, so that no two jobs write the same file.
pub proof fn lemma_distinct_outputs(a: Seq<char>, b: Seq<char>, input_root: Seq<char>, output_root: Seq<char>)
    requires
        is_under(a, input_root),
        is_under(b, input_root),
        a != b,
    ensures
        mapped_path(a, input_root, Some(output_root)) != mapped_path(b, input_root, Some(output_root)),
{
    let ra = relative_part(a, input_root);
    let rb = relative_part(b, input_root);
    let n = dir_prefix(input_root).len() as int;
    assert(a =~= a.take(n) + ra);
    assert(b =~= b.take(n) + rb);
    let m = dir_prefix(output_root).len() as int;
    assert(joined(output_root, ra).skip(m) =~= ra);
    assert(joined(output_root, rb).skip(m) =~= rb);
}

} // verus!
