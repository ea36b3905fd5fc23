//! Local folder inventory: which folders may be scanned, which entries a
//! scan skips, and wildcard patterns over relative paths.
//!
//! Paths are Unix paths held as text; walking the disk and hashing files is
//! done by the caller, which hands the results to these functions.
use vstd::prelude::*;
use vstd::string::StringSliceAdditionalSpecFns;

use crate::database::local_files::CachedChecksum;
use crate::text::{
    chars_of,
    slice_range,
    split_char,
    split_chars,
    starts_with,
    string_of,
    trim,
    trim_chars,
};

verus! {

// ---------------------------------------------------------------------------
// Wildcard patterns
// ---------------------------------------------------------------------------

/// Whether `p[i..]` matches `t[j..]`, where `*` matches any run of bytes
/// (the empty one too) and `?` exactly one byte.
pub open spec fn glob_at(p: Seq<u8>, t: Seq<u8>, i: int, j: int) -> bool
    decreases p.len() - i, t.len() - j,
{
    if i < 0 || j < 0 || i >= p.len() {
        i >= p.len() && j >= t.len()
    } else if p[i] == 42u8 {
        glob_at(p, t, i + 1, j) || (j < t.len() && glob_at(p, t, i, j + 1))
    } else {
        j < t.len() && (p[i] == 63u8 || p[i] == t[j]) && glob_at(p, t, i + 1, j + 1)
    }
}

/// The whole of `t` matches the whole pattern `p`.
pub open spec fn glob_matches(p: Seq<u8>, t: Seq<u8>) -> bool {
    glob_at(p, t, 0, 0)
}

/// Whether `text` matches `pattern`, byte by byte: `*` stands for any run of
/// bytes and `?` for one byte; every other byte stands for itself.
pub fn wildcard_match(pattern: &str, text: &str) -> (result: bool)
    ensures
        result == glob_matches(pattern.spec_bytes(), text.spec_bytes()),
{
    let p = pattern.as_bytes();
    let t = text.as_bytes();
    let n = p.len();
    let m = t.len();
    // `next[j]` answers whether p[i + 1..] matches t[j..].
    let mut next: Vec<bool> = Vec::new();
    let mut k: usize = 0;
    while k < m
        invariant
            k <= m,
            m == t@.len(),
            n == p@.len(),
            next@.len() == k,
            forall|q: int| 0 <= q < k ==> #[trigger] next@[q] == glob_at(p@, t@, n as int, q),
        decreases m - k,
    {
        next.push(false);
        k = k + 1;
    }
    next.push(true);
    assert(glob_at(p@, t@, n as int, m as int));
    let mut i: usize = n;
    while i > 0
        invariant
            i <= n,
            m == t@.len(),
            n == p@.len(),
            next@.len() == m + 1,
            forall|q: int| 0 <= q <= m ==> #[trigger] next@[q] == glob_at(p@, t@, i as int, q),
        decreases i,
    {
        let row: usize = i - 1;
        let mut cur: Vec<bool> = next.clone();
        let mut j: usize = m;
        let star = p[row] == 42u8;
        let any = p[row] == 63u8;
        loop
            invariant
                row < n,
                j <= m,
                m == t@.len(),
                n == p@.len(),
                star == (p@[row as int] == 42u8),
                any == (p@[row as int] == 63u8),
                next@.len() == m + 1,
                cur@.len() == m + 1,
                forall|q: int| 0 <= q <= m ==> #[trigger] next@[q] == glob_at(p@, t@, row + 1, q),
                forall|q: int| j < q <= m ==> #[trigger] cur@[q] == glob_at(p@, t@, row as int, q),
            ensures
                cur@.len() == m + 1,
                forall|q: int| 0 <= q <= m ==> #[trigger] cur@[q] == glob_at(p@, t@, row as int, q),
            decreases j,
        {
            let value = if star {
                next[j] || (j < m && cur[j + 1])
            } else {
                j < m && (any || p[row] == t[j]) && next[j + 1]
            };
            assert(value == glob_at(p@, t@, row as int, j as int));
            cur.set(j, value);
            if j == 0 {
                break;
            }
            j = j - 1;
        }
        next = cur;
        i = row;
    }
    next[0]
}

// ---------------------------------------------------------------------------
// Paths
// ---------------------------------------------------------------------------

/// A path segment that names something: not empty and not `.`.
pub open spec fn is_named_part(part: Seq<char>) -> bool {
    part.len() > 0 && part != seq!['.']
}

pub open spec fn named_parts(parts: Seq<Seq<char>>) -> Seq<Seq<char>>
    decreases parts.len(),
{
    if parts.len() == 0 {
        seq![]
    } else if is_named_part(parts.last()) {
        named_parts(parts.drop_last()).push(parts.last())
    } else {
        named_parts(parts.drop_last())
    }
}

/// The normal components of a Unix path, as `Path::components` yields them
/// after the root: empty and `.` segments are dropped.
pub open spec fn path_components(path: Seq<char>) -> Seq<Seq<char>> {
    named_parts(split_char(path, '/'))
}

/// A Unix path is absolute when it starts at the root.
pub open spec fn is_absolute(path: Seq<char>) -> bool {
    path.len() > 0 && path[0] == '/'
}

/// Two paths name the same place when `Path` compares them equal.
pub open spec fn same_path(a: Seq<char>, b: Seq<char>) -> bool {
    is_absolute(a) == is_absolute(b) && path_components(a) == path_components(b)
}

pub fn components(path: &[char]) -> (result: Vec<Vec<char>>)
    ensures
        result@.len() == path_components(path@).len(),
        forall|i: int|
            0 <= i < result@.len() ==> #[trigger] result@[i]@ == path_components(path@)[i],
{
    let pieces = split_chars(path, '/');
    let ghost parts = split_char(path@, '/');
    let mut out: Vec<Vec<char>> = Vec::new();
    let mut i: usize = 0;
    while i < pieces.len()
        invariant
            i <= pieces@.len(),
            pieces@.len() == parts.len(),
            forall|k: int| 0 <= k < pieces@.len() ==> #[trigger] pieces@[k]@ == parts[k],
            out@.len() == named_parts(parts.subrange(0, i as int)).len(),
            forall|k: int|
                0 <= k < out@.len() ==> #[trigger] out@[k]@ == named_parts(
                    parts.subrange(0, i as int),
                )[k],
        decreases pieces@.len() - i,
    {
        let piece = &pieces[i];
        assert(parts.subrange(0, i + 1).drop_last() =~= parts.subrange(0, i as int));
        assert(pieces@[i as int]@ == parts[i as int]);
        let named = piece.len() > 0 && !(piece.len() == 1 && piece[0] == '.');
        assert(named == is_named_part(parts[i as int])) by {
            if piece.len() == 1 && piece[0] != '.' {
                assert(parts[i as int] != seq!['.']) by {
                    assert(parts[i as int][0] != seq!['.'][0]);
                }
            }
            if piece.len() == 1 && piece[0] == '.' {
                assert(parts[i as int] =~= seq!['.']);
            }
        }
        if named {
            out.push(piece.clone());
        }
        i = i + 1;
    }
    assert(parts.subrange(0, pieces@.len() as int) =~= parts);
    out
}

fn same_components(a: &Vec<Vec<char>>, b: &Vec<Vec<char>>) -> (result: bool)
    ensures
        result == (a@.map_values(|v: Vec<char>| v@) == b@.map_values(|v: Vec<char>| v@)),
{
    let ghost av = a@.map_values(|v: Vec<char>| v@);
    let ghost bv = b@.map_values(|v: Vec<char>| v@);
    if a.len() != b.len() {
        assert(av.len() != bv.len());
        return false;
    }
    let mut i: usize = 0;
    while i < a.len()
        invariant
            i <= a@.len(),
            a@.len() == b@.len(),
            av == a@.map_values(|v: Vec<char>| v@),
            bv == b@.map_values(|v: Vec<char>| v@),
            forall|k: int| 0 <= k < i ==> av[k] == bv[k],
        decreases a@.len() - i,
    {
        if !crate::text::chars_equal(a[i].as_slice(), b[i].as_slice()) {
            assert(av[i as int] != bv[i as int]);
            return false;
        }
        i = i + 1;
    }
    assert(av =~= bv);
    true
}

/// Whether two paths name the same place.
pub fn paths_equal(a: &str, b: &str) -> (result: bool)
    ensures
        result == same_path(a@, b@),
{
    let ac = chars_of(a);
    let bc = chars_of(b);
    let a_abs = ac.len() > 0 && ac[0] == '/';
    let b_abs = bc.len() > 0 && bc[0] == '/';
    if a_abs != b_abs {
        return false;
    }
    let x = components(ac.as_slice());
    let y = components(bc.as_slice());
    let r = same_components(&x, &y);
    proof {
        let xv = x@.map_values(|v: Vec<char>| v@);
        let yv = y@.map_values(|v: Vec<char>| v@);
        assert(xv =~= path_components(a@));
        assert(yv =~= path_components(b@));
    }
    r
}

// ---------------------------------------------------------------------------
// Root folders
// ---------------------------------------------------------------------------

/// One configured root folder, with what the disk said of it.
#[derive(Debug, Clone)]
pub struct LocalRoot {
    pub path: String,
    pub is_directory: bool,
}

/// What is wrong with a list of root folders.
#[derive(Debug, Clone, Copy, PartialEq, Eq, Structural)]
pub enum RootProblem {
    Empty,
    NotAbsolute,
    NotDirectory,
    Duplicate,
}

/// A rejected root list: the problem and the folder it concerns (empty for
/// an empty list).
#[derive(Debug, Clone)]
pub struct RootError {
    pub problem: RootProblem,
    pub path: String,
}

/// The message for a rejected root list.
pub open spec fn root_error_text(problem: RootProblem, path: Seq<char>) -> Seq<char> {
    match problem {
        RootProblem::Empty => "Add at least one local folder"@,
        RootProblem::NotAbsolute => "Local folder must be an absolute path: "@ + path,
        RootProblem::NotDirectory => "Local folder does not exist or is not a directory: "@ + path,
        RootProblem::Duplicate => "Local folder is listed more than once: "@ + path,
    }
}

impl RootError {
    pub fn message(&self) -> (result: String)
        ensures
            result@ == root_error_text(self.problem, self.path@),
    {
        let mut text: Vec<char> = Vec::new();
        match self.problem {
            RootProblem::Empty => {
                crate::text::push_str(&mut text, "Add at least one local folder");
                assert(text@ =~= root_error_text(self.problem, self.path@));
                return string_of(text.as_slice());
            },
            RootProblem::NotAbsolute => crate::text::push_str(
                &mut text,
                "Local folder must be an absolute path: ",
            ),
            RootProblem::NotDirectory => crate::text::push_str(
                &mut text,
                "Local folder does not exist or is not a directory: ",
            ),
            RootProblem::Duplicate => crate::text::push_str(
                &mut text,
                "Local folder is listed more than once: ",
            ),
        }
        crate::text::push_str(&mut text, self.path.as_str());
        assert(text@ =~= root_error_text(self.problem, self.path@));
        string_of(text.as_slice())
    }
}

/// The first problem with root `i`, given the roots before it.
pub open spec fn root_problem(roots: Seq<LocalRoot>, i: int) -> Option<RootProblem> {
    let r = roots[i];
    if !is_absolute(r.path@) {
        Some(RootProblem::NotAbsolute)
    } else if !r.is_directory {
        Some(RootProblem::NotDirectory)
    } else if exists|k: int| 0 <= k < i && same_path(#[trigger] roots[k].path@, r.path@) {
        Some(RootProblem::Duplicate)
    } else {
        None
    }
}

/// Roots are acceptable when there is at least one and none has a problem.
pub open spec fn roots_valid(roots: Seq<LocalRoot>) -> bool {
    roots.len() > 0 && forall|i: int| 0 <= i < roots.len() ==> #[trigger] root_problem(roots, i) is None
}

/// Accepts a non-empty list of absolute, existing, distinct folders; else
/// reports the first folder at fault, checked in order.
pub fn validate_roots(roots: &[LocalRoot]) -> (result: Result<(), RootError>)
    ensures
        result is Ok <==> roots_valid(roots@),
        result matches Err(e) ==> {
            ||| roots@.len() == 0 && e.problem == RootProblem::Empty
            ||| exists|i: int|
                0 <= i < roots@.len() && (forall|k: int| 0 <= k < i ==> #[trigger] root_problem(
                    roots@,
                    k,
                ) is None) && root_problem(roots@, i) == Some(e.problem) && e.path@
                    == roots@[i].path@
        },
{
    if roots.len() == 0 {
        return Err(RootError { problem: RootProblem::Empty, path: String::new() });
    }
    let mut i: usize = 0;
    while i < roots.len()
        invariant
            i <= roots@.len(),
            forall|k: int| 0 <= k < i ==> #[trigger] root_problem(roots@, k) is None,
        decreases roots@.len() - i,
    {
        let path = roots[i].path.as_str();
        let chars = chars_of(path);
        if !(chars.len() > 0 && chars[0] == '/') {
            return Err(RootError { problem: RootProblem::NotAbsolute, path: roots[i].path.clone() });
        }
        if !roots[i].is_directory {
            return Err(RootError { problem: RootProblem::NotDirectory, path: roots[i].path.clone() });
        }
        let mut k: usize = 0;
        while k < i
            invariant
                k <= i < roots@.len(),
                path@ == roots@[i as int].path@,
                is_absolute(roots@[i as int].path@),
                roots@[i as int].is_directory,
                forall|q: int| 0 <= q < i ==> #[trigger] root_problem(roots@, q) is None,
                forall|q: int| 0 <= q < k ==> !same_path(#[trigger] roots@[q].path@, roots@[i as int].path@),
            decreases i - k,
        {
            if paths_equal(roots[k].path.as_str(), path) {
                assert(same_path(roots@[k as int].path@, roots@[i as int].path@));
                assert(root_problem(roots@, i as int) == Some(RootProblem::Duplicate));
                let duplicate = roots[i].path.clone();
                assert(duplicate@ == roots@[i as int].path@);
                return Err(RootError { problem: RootProblem::Duplicate, path: duplicate });
            }
            k = k + 1;
        }
        assert(root_problem(roots@, i as int) is None);
        i = i + 1;
    }
    Ok(())
}

/// `base` joined with the relative text `rest`, as `Path::join` does for a
/// relative `rest`.
pub open spec fn join_path(base: Seq<char>, rest: Seq<char>) -> Seq<char> {
    if is_absolute(rest) || base.len() == 0 {
        rest
    } else if base.last() == '/' {
        base + rest
    } else {
        base + seq!['/'] + rest
    }
}

/// One line of the roots setting, trimmed and with `~` expanded.
pub open spec fn expand_root(line: Seq<char>, home: Seq<char>) -> Seq<char> {
    let v = trim(line);
    if v == seq!['~'] {
        home
    } else if starts_with(v, seq!['~', '/']) {
        join_path(home, v.subrange(2, v.len() as int))
    } else {
        v
    }
}

/// The lines of a text as `str::lines` yields them: split at `\n`, a `\r`
/// before it dropped, and no empty last line for a final `\n`.
pub open spec fn text_lines(s: Seq<char>) -> Seq<Seq<char>> {
    let pieces = split_char(s, '\n');
    let kept = if pieces.last().len() == 0 { pieces.drop_last() } else { pieces };
    kept.map_values(|l: Seq<char>| if l.len() > 0 && l.last() == '\r' { l.drop_last() } else { l })
}

pub open spec fn expanded_roots(lines: Seq<Seq<char>>, home: Seq<char>) -> Seq<Seq<char>>
    decreases lines.len(),
{
    if lines.len() == 0 {
        seq![]
    } else if trim(lines.last()).len() == 0 {
        expanded_roots(lines.drop_last(), home)
    } else {
        expanded_roots(lines.drop_last(), home).push(expand_root(lines.last(), home))
    }
}

fn expand_root_exec(line: &[char], home: &str) -> (result: Vec<char>)
    ensures
        result@ == expand_root(line@, home@),
{
    let v = trim_chars(line);
    if v.len() == 1 && v[0] == '~' {
        assert(v@ =~= seq!['~']);
        return chars_of(home);
    }
    if v.len() >= 2 && v[0] == '~' && v[1] == '/' {
        assert(v@.subrange(0, 2) =~= seq!['~', '/']);
        assert(starts_with(v@, seq!['~', '/']));
        let rest = slice_range(v.as_slice(), 2, v.len());
        let base = chars_of(home);
        let rest_absolute = rest.len() > 0 && rest[0] == '/';
        if rest_absolute || base.len() == 0 {
            return rest;
        }
        let mut out = base.clone();
        if base[base.len() - 1] != '/' {
            out.push('/');
        }
        crate::text::push_chars(&mut out, rest.as_slice());
        assert(out@ =~= join_path(home@, v@.subrange(2, v@.len() as int)));
        return out;
    }
    proof {
        if v@ == seq!['~'] {
            assert(v@.len() == 1);
        }
        if starts_with(v@, seq!['~', '/']) {
            assert(v@[0] == seq!['~', '/'][0] && v@[1] == seq!['~', '/'][1]);
        }
    }
    v
}

/// The folders named by the roots setting, one per non-blank line, with a
/// leading `~` standing for `home`.
pub fn parse_roots(value: &str, home: &str) -> (result: Vec<String>)
    ensures
        result@.len() == expanded_roots(text_lines(value@), home@).len(),
        forall|i: int|
            0 <= i < result@.len() ==> #[trigger] result@[i]@ == expanded_roots(
                text_lines(value@),
                home@,
            )[i],
{
    let chars = chars_of(value);
    let pieces = split_chars(chars.as_slice(), '\n');
    let ghost sp = split_char(value@, '\n');
    proof {
        crate::text::lemma_split_nonempty(value@, '\n');
    }
    let count = if pieces[pieces.len() - 1].len() == 0 { pieces.len() - 1 } else { pieces.len() };
    let ghost kept = if sp.last().len() == 0 { sp.drop_last() } else { sp };
    let ghost lines = text_lines(value@);
    assert(lines.len() == count);
    let mut out: Vec<String> = Vec::new();
    let mut i: usize = 0;
    while i < count
        invariant
            i <= count <= pieces@.len(),
            pieces@.len() == sp.len(),
            forall|k: int| 0 <= k < pieces@.len() ==> #[trigger] pieces@[k]@ == sp[k],
            lines.len() == count,
            forall|k: int| 0 <= k < count ==> #[trigger] lines[k] == (if sp[k].len() > 0 && sp[k].last() == '\r' { sp[k].drop_last() } else { sp[k] }),
            out@.len() == expanded_roots(lines.subrange(0, i as int), home@).len(),
            forall|k: int|
                0 <= k < out@.len() ==> #[trigger] out@[k]@ == expanded_roots(
                    lines.subrange(0, i as int),
                    home@,
                )[k],
        decreases count - i,
    {
        let piece = &pieces[i];
        let line = if piece.len() > 0 && piece[piece.len() - 1] == '\r' {
            slice_range(piece.as_slice(), 0, piece.len() - 1)
        } else {
            piece.clone()
        };
        assert(line@ == lines[i as int]) by {
            assert(pieces@[i as int]@ == sp[i as int]);
            if piece@.len() > 0 && piece@.last() == '\r' {
                assert(piece@.subrange(0, piece@.len() - 1) =~= sp[i as int].drop_last());
            }
        }
        assert(lines.subrange(0, i + 1).drop_last() =~= lines.subrange(0, i as int));
        let trimmed = trim_chars(line.as_slice());
        if trimmed.len() > 0 {
            let root = expand_root_exec(line.as_slice(), home);
            out.push(string_of(root.as_slice()));
        }
        i = i + 1;
    }
    assert(lines.subrange(0, count as int) =~= lines);
    out
}

// ---------------------------------------------------------------------------
// Exclusions
// ---------------------------------------------------------------------------

/// Which entries a scan leaves out.
#[derive(Debug, Clone)]
pub struct ExclusionOptions {
    pub exclude_hidden: bool,
    pub exclude_caches: bool,
    pub exclude_temporary: bool,
    pub exclude_patterns: Vec<String>,
}

pub open spec fn cache_names() -> Seq<Seq<char>> {
    seq![
        seq!['c', 'a', 'c', 'h', 'e'],
        seq!['c', 'a', 'c', 'h', 'e', 's'],
        seq!['.', 'c', 'a', 'c', 'h', 'e'],
        seq!['n', 'o', 'd', 'e', '_', 'm', 'o', 'd', 'u', 'l', 'e', 's'],
        seq!['t', 'a', 'r', 'g', 'e', 't'],
        seq!['_', '_', 'p', 'y', 'c', 'a', 'c', 'h', 'e', '_', '_'],
    ]
}

pub open spec fn temporary_names() -> Seq<Seq<char>> {
    seq![
        seq!['t', 'm', 'p'],
        seq!['t', 'e', 'm', 'p'],
        seq!['.', 't', 'r', 'a', 's', 'h'],
        seq!['.', 't', 'r', 'a', 's', 'h', 'e', 's'],
        seq!['$', 'r', 'e', 'c', 'y', 'c', 'l', 'e', '.', 'b', 'i', 'n'],
    ]
}

/// A pattern with `\` written as `/`.
pub open spec fn slashed(p: Seq<char>) -> Seq<char> {
    p.map_values(|c: char| if c == '\\' { '/' } else { c })
}


/// `path` lies at or under `base`, comparing whole components as
/// `Path::starts_with` does.
pub open spec fn path_under(path: Seq<char>, base: Seq<char>) -> bool {
    let pc = path_components(path);
    let bc = path_components(base);
    is_absolute(path) == is_absolute(base) && bc.len() <= pc.len() && pc.subrange(0, bc.len() as int) == bc
}

pub fn path_starts_with(path: &str, base: &str) -> (result: bool)
    ensures
        result == path_under(path@, base@),
{
    let pcs = chars_of(path);
    let bcs = chars_of(base);
    let p_abs = pcs.len() > 0 && pcs[0] == '/';
    let b_abs = bcs.len() > 0 && bcs[0] == '/';
    let pc = components(pcs.as_slice());
    let bc = components(bcs.as_slice());
    let ghost pv = path_components(path@);
    let ghost bv = path_components(base@);
    if p_abs != b_abs || bc.len() > pc.len() {
        return false;
    }
    let mut i: usize = 0;
    while i < bc.len()
        invariant
            i <= bc@.len() <= pc@.len(),
            pv == path_components(path@),
            bv == path_components(base@),
            pc@.len() == pv.len(),
            bc@.len() == bv.len(),
            forall|k: int| 0 <= k < pc@.len() ==> #[trigger] pc@[k]@ == pv[k],
            forall|k: int| 0 <= k < bc@.len() ==> #[trigger] bc@[k]@ == bv[k],
            forall|k: int| 0 <= k < i ==> pv[k] == bv[k],
        decreases bc@.len() - i,
    {
        if !crate::text::chars_equal(pc[i].as_slice(), bc[i].as_slice()) {
            assert(pv.subrange(0, bv.len() as int)[i as int] != bv[i as int]);
            assert(pv.subrange(0, bv.len() as int) != bv);
            return false;
        }
        i = i + 1;
    }
    assert(pv.subrange(0, bv.len() as int) =~= bv);
    true
}

fn slash_pattern(p: &str) -> (result: String)
    ensures
        result@ == slashed(p@),
{
    let chars = chars_of(p);
    let mut out: Vec<char> = Vec::new();
    let mut i: usize = 0;
    while i < chars.len()
        invariant
            i <= chars@.len(),
            chars@ == p@,
            out@ == slashed(p@.subrange(0, i as int)),
        decreases chars@.len() - i,
    {
        let c = chars[i];
        out.push(if c == '\\' { '/' } else { c });
        i = i + 1;
        assert(out@ =~= slashed(p@.subrange(0, i as int)));
    }
    assert(p@.subrange(0, p@.len() as int) =~= p@);
    string_of(out.as_slice())
}

/// Whether a scan leaves out the entry `name` at `relative` (from its root).
/// `under_home` says whether the entry lies in BOREAL's own home folder,
/// which is never inventoried.
pub open spec fn excluded_entry(
    under_home: bool,
    relative: Seq<char>,
    name: Seq<char>,
    o: ExclusionOptions,
) -> bool {
    let lower = crate::text::lower_seq(name);
    ||| under_home
    ||| (o.exclude_hidden && name.len() > 0 && name[0] == '.')
    ||| (o.exclude_caches && cache_names().contains(lower))
    ||| (o.exclude_temporary && temporary_names().contains(lower))
    ||| exists|k: int|
        0 <= k < o.exclude_patterns@.len() && glob_matches(
            vstd::utf8::encode_utf8(slashed(#[trigger] o.exclude_patterns@[k]@)),
            vstd::utf8::encode_utf8(relative),
        )
}

fn in_names(name: &[char], names: &Vec<&str>) -> (result: bool)
    ensures
        result == names@.map_values(|s: &str| s@).contains(name@),
{
    let ghost nv = names@.map_values(|s: &str| s@);
    let mut i: usize = 0;
    while i < names.len()
        invariant
            i <= names@.len(),
            nv == names@.map_values(|s: &str| s@),
            forall|k: int| 0 <= k < i ==> nv[k] != name@,
        decreases names@.len() - i,
    {
        if crate::text::equals_str(name, names[i]) {
            assert(nv[i as int] == name@);
            return true;
        }
        i = i + 1;
    }
    false
}

pub fn is_excluded(under_home: bool, relative: &str, name: &str, o: &ExclusionOptions) -> (result:
    bool)
    ensures
        result == excluded_entry(under_home, relative@, name@, *o),
{
    if under_home {
        return true;
    }
    let name_chars = chars_of(name);
    if o.exclude_hidden && name_chars.len() > 0 && name_chars[0] == '.' {
        return true;
    }
    let lower = crate::text::to_ascii_lower(name_chars.as_slice());
    let caches: Vec<&str> = vec!["cache", "caches", ".cache", "node_modules", "target", "__pycache__"];
    let temporary: Vec<&str> = vec!["tmp", "temp", ".trash", ".trashes", "$recycle.bin"];
    proof {
        reveal_strlit("cache");
        reveal_strlit("caches");
        reveal_strlit(".cache");
        reveal_strlit("node_modules");
        reveal_strlit("target");
        reveal_strlit("__pycache__");
        reveal_strlit("tmp");
        reveal_strlit("temp");
        reveal_strlit(".trash");
        reveal_strlit(".trashes");
        reveal_strlit("$recycle.bin");
        assert(caches@.map_values(|s: &str| s@) =~~= cache_names());
        assert(temporary@.map_values(|s: &str| s@) =~~= temporary_names());
    }
    if o.exclude_caches && in_names(lower.as_slice(), &caches) {
        return true;
    }
    if o.exclude_temporary && in_names(lower.as_slice(), &temporary) {
        return true;
    }
    let mut k: usize = 0;
    while k < o.exclude_patterns.len()
        invariant
            k <= o.exclude_patterns@.len(),
            forall|q: int|
                0 <= q < k ==> !glob_matches(
                    vstd::utf8::encode_utf8(slashed(#[trigger] o.exclude_patterns@[q]@)),
                    vstd::utf8::encode_utf8(relative@),
                ),
        decreases o.exclude_patterns@.len() - k,
    {
        let pattern = slash_pattern(o.exclude_patterns[k].as_str());
        if wildcard_match(pattern.as_str(), relative) {
            return true;
        }
        k = k + 1;
    }
    false
}


/// The lines of a text, as `str::lines` yields them.
pub fn lines_of(value: &str) -> (result: Vec<Vec<char>>)
    ensures
        result@.len() == text_lines(value@).len(),
        forall|i: int| 0 <= i < result@.len() ==> #[trigger] result@[i]@ == text_lines(value@)[i],
{
    let chars = chars_of(value);
    let pieces = split_chars(chars.as_slice(), '\n');
    let ghost sp = split_char(value@, '\n');
    proof {
        crate::text::lemma_split_nonempty(value@, '\n');
    }
    let count = if pieces[pieces.len() - 1].len() == 0 { pieces.len() - 1 } else { pieces.len() };
    let ghost lines = text_lines(value@);
    let mut out: Vec<Vec<char>> = Vec::new();
    let mut i: usize = 0;
    while i < count
        invariant
            i <= count <= pieces@.len(),
            pieces@.len() == sp.len(),
            forall|k: int| 0 <= k < pieces@.len() ==> #[trigger] pieces@[k]@ == sp[k],
            lines.len() == count,
            forall|k: int| 0 <= k < count ==> #[trigger] lines[k] == (if sp[k].len() > 0 && sp[k].last() == '\r' { sp[k].drop_last() } else { sp[k] }),
            out@.len() == i,
            forall|k: int| 0 <= k < i ==> #[trigger] out@[k]@ == lines[k],
        decreases count - i,
    {
        let piece = &pieces[i];
        let line = if piece.len() > 0 && piece[piece.len() - 1] == '\r' {
            slice_range(piece.as_slice(), 0, piece.len() - 1)
        } else {
            piece.clone()
        };
        assert(line@ == lines[i as int]) by {
            assert(pieces@[i as int]@ == sp[i as int]);
            if piece@.len() > 0 && piece@.last() == '\r' {
                assert(piece@.subrange(0, piece@.len() - 1) =~= sp[i as int].drop_last());
            }
        }
        out.push(line);
        i = i + 1;
    }
    out
}


// ---------------------------------------------------------------------------
// Scans
// ---------------------------------------------------------------------------

/// One file or folder found under a root.
#[derive(Debug, Clone)]
pub struct Item {
    pub root_path: String,
    pub relative_path: String,
    pub name: String,
    pub extension: String,
    pub is_directory: bool,
    pub size_bytes: u64,
    pub modified_unix: i64,
    pub checksum_sha256: String,
}

/// What a scan covers and leaves out.
#[derive(Debug, Clone)]
pub struct ScanOptions {
    pub roots: Vec<String>,
    pub exclude_hidden: bool,
    pub exclude_caches: bool,
    pub exclude_temporary: bool,
    pub exclude_patterns: Vec<String>,
    pub boreal_home: String,
}

/// What a scan found, how many entries it skipped, and why some failed.
#[derive(Debug, Clone)]
pub struct ScanResult {
    pub items: Vec<Item>,
    pub skipped: u64,
    pub errors: Vec<String>,
}

/// What a scan does about an item's checksum.
#[derive(Debug, Clone)]
pub enum ChecksumAction {
    /// No checksum: a folder, an empty file, or a size no other file has.
    Skip,
    /// The remembered checksum still holds.
    Reuse(String),
    /// The file must be read.
    Compute,
}

/// How many files (not folders) have this size.
pub open spec fn files_of_size(items: Seq<Item>, size: u64) -> nat
    decreases items.len(),
{
    if items.len() == 0 {
        0
    } else {
        files_of_size(items.drop_last(), size) + if !items.last().is_directory && items.last().size_bytes == size {
            1nat
        } else {
            0nat
        }
    }
}

/// The first remembered checksum for this file, if any.
pub open spec fn cached_for(cached: Seq<CachedChecksum>, root: Seq<char>, relative: Seq<char>) -> Option<CachedChecksum>
    decreases cached.len(),
{
    if cached.len() == 0 {
        None
    } else if cached[0].root_path@ == root && cached[0].relative_path@ == relative {
        Some(cached[0])
    } else {
        cached_for(cached.drop_first(), root, relative)
    }
}

/// Only files that share their size with another file are hashed: a
/// checksum can only reveal a duplicate there.  A remembered checksum is
/// reused while the file keeps its size and time.
pub open spec fn action_for(items: Seq<Item>, k: int, cached: Seq<CachedChecksum>) -> ChecksumAction {
    let item = items[k];
    if item.is_directory || item.size_bytes == 0 || files_of_size(items, item.size_bytes) < 2 {
        ChecksumAction::Skip
    } else {
        match cached_for(cached, item.root_path@, item.relative_path@) {
            Some(c) => if c.size_bytes == item.size_bytes && c.modified_unix == item.modified_unix
                && c.checksum_sha256@.len() > 0 {
                ChecksumAction::Reuse(c.checksum_sha256)
            } else {
                ChecksumAction::Compute
            },
            None => ChecksumAction::Compute,
        }
    }
}

/// The action matches, comparing remembered checksums by their text.
pub open spec fn action_is(a: ChecksumAction, expected: ChecksumAction) -> bool {
    match (a, expected) {
        (ChecksumAction::Skip, ChecksumAction::Skip) => true,
        (ChecksumAction::Compute, ChecksumAction::Compute) => true,
        (ChecksumAction::Reuse(x), ChecksumAction::Reuse(y)) => x@ == y@,
        _ => false,
    }
}

fn count_files_of_size(items: &Vec<Item>, size: u64) -> (n: usize)
    ensures
        n == files_of_size(items@, size),
{
    let mut n: usize = 0;
    let mut i: usize = 0;
    while i < items.len()
        invariant
            i <= items@.len(),
            n == files_of_size(items@.subrange(0, i as int), size),
            n <= i,
        decreases items.len() - i,
    {
        assert(items@.subrange(0, i + 1).drop_last() =~= items@.subrange(0, i as int));
        if !items[i].is_directory && items[i].size_bytes == size {
            n = n + 1;
        }
        i = i + 1;
    }
    assert(items@.subrange(0, items@.len() as int) =~= items@);
    n
}

fn find_cached(cached: &Vec<CachedChecksum>, root: &String, relative: &String) -> (found: Option<usize>)
    ensures
        match found {
            Some(i) => i < cached@.len() && cached_for(cached@, root@, relative@) == Some(cached@[i as int]),
            None => cached_for(cached@, root@, relative@) is None,
        },
{
    let r = chars_of(root.as_str());
    let p = chars_of(relative.as_str());
    let mut i: usize = 0;
    assert(cached@.subrange(0, cached@.len() as int) =~= cached@);
    while i < cached.len()
        invariant
            i <= cached@.len(),
            r@ == root@,
            p@ == relative@,
            cached_for(cached@, root@, relative@) == cached_for(
                cached@.subrange(i as int, cached@.len() as int),
                root@,
                relative@,
            ),
        decreases cached.len() - i,
    {
        let ghost rest = cached@.subrange(i as int, cached@.len() as int);
        assert(rest[0] == cached@[i as int]);
        assert(rest.drop_first() =~= cached@.subrange(i + 1, cached@.len() as int));
        if crate::text::chars_equal(chars_of(cached[i].root_path.as_str()).as_slice(), r.as_slice())
            && crate::text::chars_equal(chars_of(cached[i].relative_path.as_str()).as_slice(), p.as_slice()) {
            return Some(i);
        }
        i = i + 1;
    }
    None
}

/// What the scan does about each item's checksum.
pub fn checksum_actions(items: &Vec<Item>, cached: &Vec<CachedChecksum>) -> (actions: Vec<ChecksumAction>)
    ensures
        actions@.len() == items@.len(),
        forall|k: int| 0 <= k < items@.len() ==> action_is(#[trigger] actions@[k], action_for(items@, k, cached@)),
{
    let mut actions: Vec<ChecksumAction> = Vec::new();
    let mut k: usize = 0;
    while k < items.len()
        invariant
            k <= items@.len(),
            actions@.len() == k,
            forall|m: int| 0 <= m < k ==> action_is(#[trigger] actions@[m], action_for(items@, m, cached@)),
        decreases items.len() - k,
    {
        let item = &items[k];
        let action = if item.is_directory || item.size_bytes == 0 || count_files_of_size(items, item.size_bytes) < 2 {
            ChecksumAction::Skip
        } else {
            match find_cached(cached, &item.root_path, &item.relative_path) {
                Some(i) => {
                    let c = &cached[i];
                    if c.size_bytes == item.size_bytes && c.modified_unix == item.modified_unix
                        && chars_of(c.checksum_sha256.as_str()).len() > 0 {
                        ChecksumAction::Reuse(crate::text::string_from(c.checksum_sha256.as_str()))
                    } else {
                        ChecksumAction::Compute
                    }
                },
                None => ChecksumAction::Compute,
            }
        };
        actions.push(action);
        k = k + 1;
    }
    actions
}

/// A path under a root, as `Path::join` forms it.
pub fn joined_path(base: &str, rest: &str) -> (path: String)
    ensures
        path@ == join_path(base@, rest@),
{
    let b = chars_of(base);
    let r = chars_of(rest);
    if (r.len() > 0 && r[0] == '/') || b.len() == 0 {
        return string_of(r.as_slice());
    }
    let mut out = b.clone();
    if b[b.len() - 1] != '/' {
        out.push('/');
    }
    crate::text::push_chars(&mut out, r.as_slice());
    string_of(out.as_slice())
}

/// The checksum an item ends with, given the action taken and, for a file
/// that was read, what reading it gave.
pub open spec fn checksum_after(item: Item, action: ChecksumAction, outcome: Result<String, String>) -> Seq<char> {
    match action {
        ChecksumAction::Skip => item.checksum_sha256@,
        ChecksumAction::Reuse(h) => h@,
        ChecksumAction::Compute => match outcome {
            Ok(h) => h@,
            Err(_) => item.checksum_sha256@,
        },
    }
}

/// The errors of files that could not be read, in item order: the file's
/// path and the reason.
pub open spec fn read_errors(items: Seq<Item>, actions: Seq<ChecksumAction>, outcomes: Seq<Result<String, String>>) -> Seq<
    Seq<char>,
>
    decreases items.len(),
{
    if items.len() == 0 || actions.len() != items.len() || outcomes.len() != items.len() {
        seq![]
    } else {
        let before = read_errors(items.drop_last(), actions.drop_last(), outcomes.drop_last());
        match (actions.last(), outcomes.last()) {
            (ChecksumAction::Compute, Err(e)) => before.push(
                join_path(items.last().root_path@, items.last().relative_path@) + ": "@ + e@,
            ),
            _ => before,
        }
    }
}

/// Completes a scan: every file that shares its size with another gets a
/// checksum (remembered, or read by the caller, whose answer for item `k`
/// is `outcomes[k]`); a file that could not be read counts as skipped and
/// its error is recorded.
pub fn scan(walked: ScanResult, actions: &Vec<ChecksumAction>, outcomes: &Vec<Result<String, String>>) -> (result:
    ScanResult)
    requires
        actions@.len() == walked.items@.len(),
        outcomes@.len() == walked.items@.len(),
        walked.skipped + walked.items@.len() <= u64::MAX,
    ensures
        result.items@.len() == walked.items@.len(),
        forall|k: int|
            0 <= k < walked.items@.len() ==> {
                let before = walked.items@[k];
                let after = #[trigger] result.items@[k];
                &&& after.root_path == before.root_path
                &&& after.relative_path == before.relative_path
                &&& after.name == before.name
                &&& after.extension == before.extension
                &&& after.is_directory == before.is_directory
                &&& after.size_bytes == before.size_bytes
                &&& after.modified_unix == before.modified_unix
                &&& after.checksum_sha256@ == checksum_after(before, actions@[k], outcomes@[k])
            },
        result.errors@.map_values(|e: String| e@) == walked.errors@.map_values(|e: String| e@) + read_errors(
            walked.items@,
            actions@,
            outcomes@,
        ),
        result.skipped == walked.skipped + read_errors(walked.items@, actions@, outcomes@).len(),
{
    let ghost original = walked.items@;
    let ghost start_errors = walked.errors@.map_values(|e: String| e@);
    let start_skipped = walked.skipped;
    let ScanResult { items, skipped, errors } = walked;
    let mut errors = errors;
    let mut skipped = skipped;
    let n = items.len();
    let mut rest = items;
    let mut done: Vec<Item> = Vec::new();
    let mut k: usize = 0;
    assert(original.subrange(0, 0) =~= Seq::<Item>::empty());
    assert(errors@.map_values(|e: String| e@) =~= start_errors + read_errors(
        original.subrange(0, 0),
        actions@.subrange(0, 0),
        outcomes@.subrange(0, 0),
    ));
    while rest.len() > 0
        invariant
            k + rest@.len() == n,
            n == original.len(),
            rest@ == original.subrange(k as int, n as int),
            actions@.len() == n,
            outcomes@.len() == n,
            start_skipped + n <= u64::MAX,
            done@.len() == k,
            forall|m: int|
                0 <= m < k ==> {
                    let before = original[m];
                    let after = #[trigger] done@[m];
                    &&& after.root_path == before.root_path
                    &&& after.relative_path == before.relative_path
                    &&& after.name == before.name
                    &&& after.extension == before.extension
                    &&& after.is_directory == before.is_directory
                    &&& after.size_bytes == before.size_bytes
                    &&& after.modified_unix == before.modified_unix
                    &&& after.checksum_sha256@ == checksum_after(before, actions@[m], outcomes@[m])
                },
            errors@.map_values(|e: String| e@) == start_errors + read_errors(
                original.subrange(0, k as int),
                actions@.subrange(0, k as int),
                outcomes@.subrange(0, k as int),
            ),
            skipped == start_skipped + read_errors(
                original.subrange(0, k as int),
                actions@.subrange(0, k as int),
                outcomes@.subrange(0, k as int),
            ).len(),
            read_errors(
                original.subrange(0, k as int),
                actions@.subrange(0, k as int),
                outcomes@.subrange(0, k as int),
            ).len() <= k,
        decreases rest@.len(),
    {
        let ghost before_errors = errors@;
        let ghost prev = read_errors(
            original.subrange(0, k as int),
            actions@.subrange(0, k as int),
            outcomes@.subrange(0, k as int),
        );
        let mut item = rest.remove(0);
        assert(item == original[k as int]);
        assert(rest@ =~= original.subrange(k + 1, n as int));
        assert(original.subrange(0, k + 1).drop_last() =~= original.subrange(0, k as int));
        assert(actions@.subrange(0, k + 1).drop_last() =~= actions@.subrange(0, k as int));
        assert(outcomes@.subrange(0, k + 1).drop_last() =~= outcomes@.subrange(0, k as int));
        assert(original.subrange(0, k + 1).last() == original[k as int]);
        assert(actions@.subrange(0, k + 1).last() == actions@[k as int]);
        assert(outcomes@.subrange(0, k + 1).last() == outcomes@[k as int]);
        match &actions[k] {
            ChecksumAction::Skip => {},
            ChecksumAction::Reuse(h) => {
                item.checksum_sha256 = crate::text::string_from(h.as_str());
            },
            ChecksumAction::Compute => match &outcomes[k] {
                Ok(h) => {
                    item.checksum_sha256 = crate::text::string_from(h.as_str());
                },
                Err(e) => {
                    let path = joined_path(item.root_path.as_str(), item.relative_path.as_str());
                    let mut message = chars_of(path.as_str());
                    crate::text::push_str(&mut message, ": ");
                    crate::text::push_str(&mut message, e.as_str());
                    errors.push(string_of(message.as_slice()));
                    skipped = skipped + 1;
                    proof {
                        reveal_strlit(": ");
                    }
                    assert(errors@.map_values(|e: String| e@) =~= before_errors.map_values(|e: String| e@).push(
                        message@,
                    ));
                },
            },
        }
        done.push(item);
        k = k + 1;
    }
    assert(original.subrange(0, n as int) =~= original);
    assert(actions@.subrange(0, n as int) =~= actions@);
    assert(outcomes@.subrange(0, n as int) =~= outcomes@);
    ScanResult { items: done, skipped, errors }
}

} // verus!
