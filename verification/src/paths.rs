//! Path text helpers with POSIX `std::path` semantics: the final
//! component (`file_name`), its stem and extension, the parent directory,
//! and joining a relative name under a directory.
use vstd::prelude::*;

use crate::text::{chars_of, string_of};

verus! {

broadcast use vstd::seq_lib::group_seq_properties;

/// Index just past the last `/` in `s`, or `0` when `s` has none.
pub open spec fn after_last_slash(s: Seq<char>) -> int
    decreases s.len(),
{
    if s.len() == 0 {
        0
    } else if s.last() == '/' {
        s.len() as int
    } else {
        after_last_slash(s.drop_last())
    }
}

pub proof fn lemma_after_last_slash(s: Seq<char>)
    ensures
        0 <= after_last_slash(s) <= s.len(),
        s.len() > 0 && s.last() != '/' ==> after_last_slash(s) < s.len(),
        after_last_slash(s) > 0 ==> s[after_last_slash(s) - 1] == '/',
        forall|i: int| after_last_slash(s) <= i < s.len() ==> s[i] != '/',
    decreases s.len(),
{
    if s.len() > 0 && s.last() != '/' {
        lemma_after_last_slash(s.drop_last());
        assert forall|i: int| after_last_slash(s) <= i < s.len() implies s[i] != '/' by {
            if i < s.len() - 1 {
                assert(s[i] == s.drop_last()[i]);
            }
        }
    }
}

/// The final normal component of a path, as `Path::file_name` reports it:
/// trailing separators and `.` components are skipped, and a final `..`
/// (or nothing at all) gives `None`.
pub open spec fn file_name(p: Seq<char>) -> Option<Seq<char>>
    decreases p.len(),
{
    if p.len() == 0 {
        None
    } else if p.last() == '/' {
        file_name(p.drop_last())
    } else {
        let k = after_last_slash(p);
        let seg = p.subrange(k, p.len() as int);
        if seg == seq!['.'] {
            proof {
                lemma_after_last_slash(p);
            }
            file_name(p.subrange(0, k))
        } else if seg == seq!['.', '.'] {
            None
        } else {
            Some(seg)
        }
    }
}

/// Index of the last `.` in `s`, or `-1`.
pub open spec fn last_dot(s: Seq<char>) -> int
    decreases s.len(),
{
    if s.len() == 0 {
        -1
    } else if s.last() == '.' {
        s.len() - 1
    } else {
        last_dot(s.drop_last())
    }
}

pub proof fn lemma_last_dot(s: Seq<char>)
    ensures
        -1 <= last_dot(s) < s.len(),
        last_dot(s) >= 0 ==> s[last_dot(s)] == '.',
        forall|i: int| last_dot(s) < i < s.len() ==> s[i] != '.',
    decreases s.len(),
{
    if s.len() > 0 && s.last() != '.' {
        lemma_last_dot(s.drop_last());
        assert forall|i: int| last_dot(s) < i < s.len() implies s[i] != '.' by {
            if i < s.len() - 1 {
                assert(s[i] == s.drop_last()[i]);
            }
        }
    }
}

/// The stem of a file name: everything before the last `.`, unless that
/// dot is the first character or there is none.
pub open spec fn name_stem(name: Seq<char>) -> Seq<char> {
    let d = last_dot(name);
    if d <= 0 {
        name
    } else {
        name.subrange(0, d)
    }
}

/// The extension of a file name: everything after the last `.`, when that
/// dot is not the first character.
pub open spec fn name_extension(name: Seq<char>) -> Option<Seq<char>> {
    let d = last_dot(name);
    if d <= 0 {
        None
    } else {
        Some(name.subrange(d + 1, name.len() as int))
    }
}

/// `Path::file_stem`.
pub open spec fn file_stem(p: Seq<char>) -> Option<Seq<char>> {
    match file_name(p) {
        Some(n) => Some(name_stem(n)),
        None => None,
    }
}

/// `Path::extension`.
pub open spec fn extension(p: Seq<char>) -> Option<Seq<char>> {
    match file_name(p) {
        Some(n) => name_extension(n),
        None => None,
    }
}

/// `Path::join` of `base` and `rel`: an absolute `rel` replaces `base`;
/// otherwise a `/` is inserted unless `base` is empty or already ends in one.
pub open spec fn join_path(base: Seq<char>, rel: Seq<char>) -> Seq<char> {
    if rel.len() > 0 && rel[0] == '/' {
        rel
    } else if base.len() == 0 || base.last() == '/' {
        base + rel
    } else {
        base + seq!['/'] + rel
    }
}

fn slice_chars(s: &Vec<char>, from: usize, to: usize) -> (r: Vec<char>)
    requires
        from <= to <= s@.len(),
    ensures
        r@ == s@.subrange(from as int, to as int),
{
    let mut out: Vec<char> = Vec::new();
    let mut k = from;
    while k < to
        invariant
            from <= k <= to <= s@.len(),
            out@ == s@.subrange(from as int, k as int),
        decreases to - k,
    {
        out.push(s[k]);
        assert(s@.subrange(from as int, k + 1) == s@.subrange(from as int, k as int).push(
            s@[k as int],
        ));
        k = k + 1;
    }
    out
}

/// The final component of `p`.
pub fn file_name_chars(p: &Vec<char>) -> (r: Option<Vec<char>>)
    ensures
        match r {
            Some(v) => file_name(p@) == Some(v@),
            None => file_name(p@) is None,
        },
{
    let n = p.len();
    let mut end: usize = n;
    assert(p@.subrange(0, n as int) == p@);
    loop
        invariant
            n == p@.len(),
            end <= n,
            file_name(p@) == file_name(p@.subrange(0, end as int)),
        decreases end,
    {
        let ghost pre = p@.subrange(0, end as int);
        if end == 0 {
            return None;
        }
        if p[end - 1] == '/' {
            assert(pre.drop_last() == p@.subrange(0, end - 1));
            end = end - 1;
        } else {
            let mut k: usize = end;
            while k > 0 && p[k - 1] != '/'
                invariant
                    k <= end <= n,
                    n == p@.len(),
                    pre == p@.subrange(0, end as int),
                    after_last_slash(pre) == after_last_slash(p@.subrange(0, k as int)),
                decreases k,
            {
                assert(p@.subrange(0, k as int).drop_last() == p@.subrange(0, k - 1));
                k = k - 1;
            }
            assert(after_last_slash(pre) == k);
            let seg = slice_chars(p, k, end);
            assert(seg@ == pre.subrange(k as int, pre.len() as int));
            if seg.len() == 1 && seg[0] == '.' {
                assert(seg@ == seq!['.']);
                assert(pre.subrange(0, k as int) == p@.subrange(0, k as int));
                end = k;
            } else if seg.len() == 2 && seg[0] == '.' && seg[1] == '.' {
                assert(seg@ == seq!['.', '.']);
                return None;
            } else {
                assert(seg@ != seq!['.']);
                assert(seg@ != seq!['.', '.']);
                return Some(seg);
            }
        }
    }
}

fn last_dot_index(s: &Vec<char>) -> (r: Option<usize>)
    ensures
        match r {
            Some(i) => last_dot(s@) == i,
            None => last_dot(s@) == -1,
        },
{
    let mut k: usize = s.len();
    assert(s@.subrange(0, k as int) == s@);
    while k > 0 && s[k - 1] != '.'
        invariant
            k <= s@.len(),
            last_dot(s@) == last_dot(s@.subrange(0, k as int)),
        decreases k,
    {
        assert(s@.subrange(0, k as int).drop_last() == s@.subrange(0, k - 1));
        k = k - 1;
    }
    if k == 0 {
        None
    } else {
        Some(k - 1)
    }
}

/// `Path::new(p).file_stem()`.
pub fn file_stem_string(p: &str) -> (r: Option<String>)
    ensures
        match r {
            Some(s) => file_stem(p@) == Some(s@),
            None => file_stem(p@) is None,
        },
{
    let cs = chars_of(p);
    match file_name_chars(&cs) {
        None => None,
        Some(name) => {
            proof {
                lemma_last_dot(name@);
            }
            match last_dot_index(&name) {
                Some(d) if d > 0 => {
                    let stem = slice_chars(&name, 0, d);
                    Some(string_of(&stem))
                },
                _ => Some(string_of(&name)),
            }
        },
    }
}

/// `Path::new(p).file_name()`.
pub fn file_name_string(p: &str) -> (r: Option<String>)
    ensures
        match r {
            Some(s) => file_name(p@) == Some(s@),
            None => file_name(p@) is None,
        },
{
    let cs = chars_of(p);
    match file_name_chars(&cs) {
        None => None,
        Some(name) => Some(string_of(&name)),
    }
}

/// Whether `Path::new(p).extension()` is exactly `ext`.
pub fn has_extension(p: &str, ext: &str) -> (b: bool)
    ensures
        b == (extension(p@) == Some(ext@)),
{
    let cs = chars_of(p);
    let want = chars_of(ext);
    match file_name_chars(&cs) {
        None => false,
        Some(name) => {
            match last_dot_index(&name) {
                Some(d) if d > 0 => {
                    proof {
                        lemma_last_dot(name@);
                    }
                    let nl = name.len();
                    let e = slice_chars(&name, d + 1, nl);
                    if e.len() != want.len() {
                        return false;
                    }
                    assert(extension(p@) == Some(e@));
                    let mut i: usize = 0;
                    while i < e.len()
                        invariant
                            extension(p@) == Some(e@),
                            want@ == ext@,
                            e@.len() == want@.len(),
                            i <= e@.len(),
                            forall|k: int| 0 <= k < i ==> e@[k] == want@[k],
                        decreases e@.len() - i,
                    {
                        if e[i] != want[i] {
                            return false;
                        }
                        i = i + 1;
                    }
                    assert(e@ =~= want@);
                    true
                },
                _ => false,
            }
        },
    }
}

/// `Path::new(base).join(rel)` rendered as text.
pub fn join_path_string(base: &str, rel: &str) -> (r: String)
    ensures
        r@ == join_path(base@, rel@),
{
    let b = chars_of(base);
    let r = chars_of(rel);
    let mut out: Vec<char> = Vec::new();
    if r.len() > 0 && r[0] == '/' {
        return string_of(&r);
    }
    let mut i: usize = 0;
    while i < b.len()
        invariant
            i <= b@.len(),
            out@ == b@.subrange(0, i as int),
        decreases b@.len() - i,
    {
        out.push(b[i]);
        assert(b@.subrange(0, i + 1) == b@.subrange(0, i as int).push(b@[i as int]));
        i = i + 1;
    }
    assert(out@ == b@);
    if b.len() > 0 && b[b.len() - 1] != '/' {
        out.push('/');
    }
    let ghost mid = out@;
    let mut j: usize = 0;
    while j < r.len()
        invariant
            j <= r@.len(),
            out@ == mid + r@.subrange(0, j as int),
        decreases r@.len() - j,
    {
        out.push(r[j]);
        assert(r@.subrange(0, j + 1) == r@.subrange(0, j as int).push(r@[j as int]));
        j = j + 1;
    }
    assert(r@.subrange(0, r@.len() as int) == r@);
    string_of(&out)
}

// ---------------------------------------------------------------------
// Parent directory
// ---------------------------------------------------------------------

/// Whether `s` starts with a root `/`.
pub open spec fn has_root(s: Seq<char>) -> bool {
    s.len() > 0 && s[0] == '/'
}

/// Whether a relative `s` starts with a `.` component, which `std::path`
/// keeps as the leading `CurDir`.
pub open spec fn leading_cur_dir(s: Seq<char>) -> bool {
    !has_root(s) && s.len() > 0 && s[0] == '.' && (s.len() == 1 || s[1] == '/')
}

/// Length of the part before the path's body: the root, or a leading `.`.
pub open spec fn body_start(s: Seq<char>) -> int {
    if has_root(s) || leading_cur_dir(s) {
        1
    } else {
        0
    }
}

/// Index just past the last `/` in `s[base..len]`, or `base` when it has
/// none: where the last component of `s[..len]` starts.
pub open spec fn comp_start(s: Seq<char>, len: int, base: int) -> int
    decreases len,
{
    if len <= base || len <= 0 {
        base
    } else if s[len - 1] == '/' {
        len
    } else {
        comp_start(s, len - 1, base)
    }
}

pub proof fn lemma_comp_start(s: Seq<char>, len: int, base: int)
    requires
        0 <= base <= len <= s.len(),
    ensures
        base <= comp_start(s, len, base) <= len,
        comp_start(s, len, base) > base ==> s[comp_start(s, len, base) - 1] == '/',
    decreases len,
{
    if len > base && s[len - 1] != '/' {
        lemma_comp_start(s, len - 1, base);
    }
}

/// Length of `s[..len]` without its last component and the separator
/// before it.
pub open spec fn before_last_comp(s: Seq<char>, len: int, base: int) -> int {
    let c = comp_start(s, len, base);
    if c > base {
        c - 1
    } else {
        c
    }
}

/// The last component of `s[..len]` is empty (between separators) or `.`,
/// which `std::path` skips.
pub open spec fn skipped_comp(s: Seq<char>, len: int, base: int) -> bool {
    let c = comp_start(s, len, base);
    c == len || (c + 1 == len && s[c] == '.')
}

/// Length of `s[..len]` with trailing separators and `.` components
/// removed (never into the part before the body).
pub open spec fn trimmed_len(s: Seq<char>, len: int, base: int) -> int
    decreases len,
{
    if len <= base || len > s.len() || base < 0 {
        len
    } else if skipped_comp(s, len, base) {
        proof {
            lemma_comp_start(s, len, base);
        }
        trimmed_len(s, before_last_comp(s, len, base), base)
    } else {
        len
    }
}

proof fn lemma_trimmed_len(s: Seq<char>, len: int, base: int)
    requires
        0 <= base <= len <= s.len(),
    ensures
        base <= trimmed_len(s, len, base) <= len,
        trimmed_len(s, len, base) > base ==> !skipped_comp(s, trimmed_len(s, len, base), base),
    decreases len,
{
    if len > base && skipped_comp(s, len, base) {
        lemma_comp_start(s, len, base);
        lemma_trimmed_len(s, before_last_comp(s, len, base), base);
    }
}

/// `Path::parent` on POSIX: the path without its last component (after
/// skipping trailing separators and `.` components); `None` for the root
/// and for the empty path, the empty path for a lone `.` or a single
/// relative component.
pub open spec fn parent(s: Seq<char>) -> Option<Seq<char>> {
    let base = body_start(s);
    let t = trimmed_len(s, s.len() as int, base);
    if t <= base {
        if leading_cur_dir(s) {
            Some(Seq::empty())
        } else {
            None
        }
    } else {
        Some(s.take(trimmed_len(s, before_last_comp(s, t, base), base)))
    }
}

fn comp_start_exec(s: &Vec<char>, len: usize, base: usize) -> (r: usize)
    requires
        base <= len <= s@.len(),
    ensures
        r == comp_start(s@, len as int, base as int),
{
    let mut i = len;
    while i > base && s[i - 1] != '/'
        invariant
            base <= i <= len <= s@.len(),
            comp_start(s@, len as int, base as int) == comp_start(s@, i as int, base as int),
        decreases i,
    {
        i = i - 1;
    }
    i
}

fn trimmed_len_exec(s: &Vec<char>, len: usize, base: usize) -> (r: usize)
    requires
        base <= len <= s@.len(),
    ensures
        r == trimmed_len(s@, len as int, base as int),
{
    let mut l = len;
    loop
        invariant
            base <= l <= len <= s@.len(),
            trimmed_len(s@, len as int, base as int) == trimmed_len(s@, l as int, base as int),
        decreases l,
    {
        if l <= base {
            return l;
        }
        let c = comp_start_exec(s, l, base);
        proof {
            lemma_comp_start(s@, l as int, base as int);
        }
        if c == l || (c + 1 == l && s[c] == '.') {
            l = if c > base {
                c - 1
            } else {
                c
            };
        } else {
            return l;
        }
    }
}

/// `Path::new(p).parent()` rendered as text (see [`parent`]).
pub fn parent_string(p: &str) -> (r: Option<String>)
    ensures
        match r {
            Some(d) => parent(p@) == Some(d@),
            None => parent(p@) is None,
        },
{
    let s = chars_of(p);
    let n = s.len();
    let root = n > 0 && s[0] == '/';
    let cur = !root && n > 0 && s[0] == '.' && (n == 1 || s[1] == '/');
    let base: usize = if root || cur {
        1
    } else {
        0
    };
    let t = trimmed_len_exec(&s, n, base);
    proof {
        lemma_trimmed_len(s@, n as int, base as int);
    }
    if t <= base {
        if cur {
            Some(String::new())
        } else {
            None
        }
    } else {
        let c = comp_start_exec(&s, t, base);
        proof {
            lemma_comp_start(s@, t as int, base as int);
        }
        let b = if c > base {
            c - 1
        } else {
            c
        };
        let e = trimmed_len_exec(&s, b, base);
        proof {
            lemma_trimmed_len(s@, b as int, base as int);
        }
        let d = slice_chars(&s, 0, e);
        assert(d@ == s@.take(e as int));
        Some(string_of(&d))
    }
}

/// The directory holding `p` as a scan reports it: `Path::parent`, or the
/// empty path where there is none.
pub open spec fn parent_or_empty(p: Seq<char>) -> Seq<char> {
    match parent(p) {
        Some(d) => d,
        None => Seq::empty(),
    }
}

/// [`parent_or_empty`] of `p`.
pub fn parent_or_empty_string(p: &str) -> (r: String)
    ensures
        r@ == parent_or_empty(p@),
{
    match parent_string(p) {
        Some(d) => d,
        None => String::new(),
    }
}

} // verus!
