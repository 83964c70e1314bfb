//! Which files of a walked tree are candidates for interlacing.
use vstd::prelude::*;
use crate::text::{ascii_lower, chars_of, string_views, tail};

verus! {

/// One entry met while walking the input tree.
#[derive(Clone, Debug)]
pub struct WalkEntry {
    pub path: String,
    pub is_dir: bool,
}

/// The index of the last `c` in `s`, or -1.
pub open spec fn last_index(s: Seq<char>, c: char) -> int
    decreases s.len(),
{
    if s.len() == 0 {
        -1
    } else if s.last() == c {
        s.len() - 1
    } else {
        last_index(s.drop_last(), c)
    }
}

/// The last segment of a path.
pub open spec fn file_name(p: Seq<char>) -> Seq<char> {
    p.skip(last_index(p, '/') + 1)
}

/// What follows the last `.` of the file name, unless that `.` is its first
/// character or there is none.
pub open spec fn extension(p: Seq<char>) -> Option<Seq<char>> {
    let name = file_name(p);
    let dot = last_index(name, '.');
    if dot > 0 {
        Some(name.skip(dot + 1))
    } else {
        None
    }
}

/// `a` and `b` are equal but for the case of ASCII letters.
pub open spec fn same_ignoring_case(a: Seq<char>, b: Seq<char>) -> bool {
    a.len() == b.len() && forall|i: int| 0 <= i < a.len() ==> ascii_lower(#[trigger] a[i]) == ascii_lower(b[i])
}

/// The extensions that are processed: `jpg`, `jpeg` and `png`, and `gif`
/// when GIF support is on, in any case.
pub open spec fn allowed_extension(e: Seq<char>, allow_gif: bool) -> bool {
    ||| same_ignoring_case(e, "jpg"@)
    ||| same_ignoring_case(e, "jpeg"@)
    ||| same_ignoring_case(e, "png"@)
    ||| allow_gif && same_ignoring_case(e, "gif"@)
}

/// A path whose extension is processed.
pub open spec fn is_candidate_path(p: Seq<char>, allow_gif: bool) -> bool {
    match extension(p) {
        Some(e) => allowed_extension(e, allow_gif),
        None => false,
    }
}

/// The walked entries that are kept: those that are not directories and
/// carry a processed extension, as paths, in walk order.
pub open spec fn candidates_of(entries: Seq<WalkEntry>, allow_gif: bool) -> Seq<Seq<char>>
    decreases entries.len(),
{
    if entries.len() == 0 {
        seq![]
    } else {
        let rest = candidates_of(entries.drop_last(), allow_gif);
        let e = entries.last();
        if !e.is_dir && is_candidate_path(e.path@, allow_gif) {
            rest.push(e.path@)
        } else {
            rest
        }
    }
}

fn lower_char(c: char) -> (r: char)
    ensures
        r == ascii_lower(c),
{
    if 'A' <= c && c <= 'Z' {
        ((c as u8) + 32) as char
    } else {
        c
    }
}

/// The index of the last `c` in `v`.
fn find_last(v: &Vec<char>, c: char) -> (r: Option<usize>)
    ensures
        match r {
            Some(k) => k == last_index(v@, c) && k < v.len(),
            None => last_index(v@, c) == -1,
        },
{
    let mut i: usize = v.len();
    assert(v@.take(i as int) =~= v@);
    while i > 0
        invariant
            i <= v.len(),
            last_index(v@, c) == last_index(v@.take(i as int), c),
        decreases i,
    {
        assert(v@.take(i as int).drop_last() =~= v@.take(i - 1));
        if v[i - 1] == c {
            return Some(i - 1);
        }
        i -= 1;
    }
    None
}

/// Tells whether `a` equals the literal `b` but for the case of ASCII
/// letters.
fn equals_ignoring_case(a: &Vec<char>, b: &str) -> (r: bool)
    ensures
        r == same_ignoring_case(a@, b@),
{
    let bv = chars_of(b);
    if a.len() != bv.len() {
        return false;
    }
    let mut i: usize = 0;
    while i < a.len()
        invariant
            i <= a.len(),
            a.len() == bv.len(),
            bv@ == b@,
            forall|k: int| 0 <= k < i ==> ascii_lower(#[trigger] a@[k]) == ascii_lower(bv@[k]),
        decreases a.len() - i,
    {
        if lower_char(a[i]) != lower_char(bv[i]) {
            return false;
        }
        i += 1;
    }
    true
}

/// Tells whether the extension of `path` is processed.
pub fn is_candidate(path: &str, allow_gif: bool) -> (r: bool)
    ensures
        r == is_candidate_path(path@, allow_gif),
{
    let p = chars_of(path);
    let start = match find_last(&p, '/') {
        Some(k) => k + 1,
        None => 0,
    };
    let name = tail(&p, start);
    match find_last(&name, '.') {
        Some(dot) => {
            if dot == 0 {
                return false;
            }
            let e = tail(&name, dot + 1);
            equals_ignoring_case(&e, "jpg") || equals_ignoring_case(&e, "jpeg")
                || equals_ignoring_case(&e, "png") || (allow_gif && equals_ignoring_case(&e, "gif"))
        },
        None => false,
    }
}

/// Keeps the walked entries that are candidates.
pub fn select_candidates(entries: &Vec<WalkEntry>, allow_gif: bool) -> (r: Vec<String>)
    ensures
        string_views(r@) == candidates_of(entries@, allow_gif),
{
    let mut r: Vec<String> = Vec::new();
    let mut i: usize = 0;
    while i < entries.len()
        invariant
            i <= entries.len(),
            string_views(r@) == candidates_of(entries@.take(i as int), allow_gif),
        decreases entries.len() - i,
    {
        let e = &entries[i];
        assert(entries@.take(i + 1).drop_last() =~= entries@.take(i as int));
        if !e.is_dir && is_candidate(e.path.as_str(), allow_gif) {
            r.push(e.path.clone());
            assert(string_views(r@) =~= candidates_of(entries@.take(i + 1), allow_gif));
        } else {
            assert(string_views(r@) =~= candidates_of(entries@.take(i + 1), allow_gif));
        }
        i += 1;
    }
    assert(entries@.take(entries.len() as int) =~= entries@);
    r
}

/// The files of a run: the root itself when it is a single file, whatever
/// its extension; else the candidates among the entries walked below it.
pub fn scan_candidates(root: &str, is_single_file: bool, entries: &Vec<WalkEntry>, allow_gif: bool) -> (r: Vec<String>)
    ensures
        is_single_file ==> string_views(r@) == seq![root@],
        !is_single_file ==> string_views(r@) == candidates_of(entries@, allow_gif),
{
    if is_single_file {
        let r = vec![String::from_str(root)];
        assert(string_views(r@) =~= seq![root@]);
        r
    } else {
        select_candidates(entries, allow_gif)
    }
}

/// Without GIF support no `.gif` file is a candidate, whatever the case of
/// its extension.
pub proof fn lemma_gif_not_candidate(p: Seq<char>)
    requires
        extension(p) matches Some(e) && same_ignoring_case(e, "gif"@),
    ensures
        !is_candidate_path(p, false),
{
    reveal_strlit("gif");
    reveal_strlit("jpg");
    reveal_strlit("jpeg");
    reveal_strlit("png");
    let e = extension(p)->0;
    assert(ascii_lower(e[0]) == 'g');
    assert(e.len() == 3);
    assert(!same_ignoring_case(e, "jpeg"@));
    assert(ascii_lower(e[0]) != ascii_lower("jpg"@[0]));
    assert(ascii_lower(e[0]) != ascii_lower("png"@[0]));
}

} // verus!
