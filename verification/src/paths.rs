//! Unix path syntax: file names, extensions, parents and joins, as the
//! standard library's `Path` reads them.

use vstd::prelude::*;
use crate::text::{chars_of, string_of};

verus! {

/// How many leading characters precede the components: one for a root `/`,
/// one for a leading `.` component of a relative path, else none.
pub open spec fn body_start(s: Seq<char>) -> int {
    if s.len() > 0 && s[0] == '/' {
        1
    } else if s.len() > 0 && s[0] == '.' && (s.len() == 1 || s[1] == '/') {
        1
    } else {
        0
    }
}

/// The position of the last `/` at or after `lb`, or -1 when there is none.
pub open spec fn last_sep(s: Seq<char>, lb: int) -> int
    decreases s.len(),
{
    if s.len() == 0 || s.len() <= lb {
        -1
    } else if s.last() == '/' {
        s.len() - 1
    } else {
        last_sep(s.drop_last(), lb)
    }
}

/// The last separator is a `/` inside `s[lb..]`, with none after it.
pub proof fn lemma_last_sep_bounds(s: Seq<char>, lb: int)
    requires
        0 <= lb,
    ensures
        last_sep(s, lb) == -1 || (lb <= last_sep(s, lb) < s.len() && s[last_sep(s, lb)] == '/'),
        forall|j: int| last_sep(s, lb) < j < s.len() && lb <= j ==> s[j] != '/',
    decreases s.len(),
{
    if s.len() > lb && s.len() > 0 && s.last() != '/' {
        lemma_last_sep_bounds(s.drop_last(), lb);
        assert forall|j: int| last_sep(s, lb) < j < s.len() && lb <= j implies s[j] != '/' by {
            if j < s.len() - 1 {
                assert(s.drop_last()[j] == s[j]);
            }
        }
    }
}

/// Where the last component of `s` begins, when `s` extends past `lb`.
pub open spec fn last_part_start(s: Seq<char>, lb: int) -> int {
    if last_sep(s, lb) >= lb {
        last_sep(s, lb) + 1
    } else {
        lb
    }
}

/// What is left of `s` when its last component and the `/` before it are removed.
pub open spec fn without_last_part(s: Seq<char>, lb: int) -> Seq<char> {
    if last_sep(s, lb) >= lb {
        s.take(last_sep(s, lb))
    } else {
        s.take(lb)
    }
}

/// Whether a component is empty or `.`, which path parsing skips.
pub open spec fn is_skipped_part(p: Seq<char>) -> bool {
    p.len() == 0 || p == seq!['.']
}

/// `s` without its trailing empty and `.` components.
pub open spec fn strip_skipped(s: Seq<char>, lb: int) -> Seq<char>
    decreases s.len(),
{
    if s.len() <= lb || lb < 0 {
        s
    } else if is_skipped_part(s.subrange(last_part_start(s, lb), s.len() as int)) {
        proof {
            lemma_last_sep_bounds(s, lb);
        }
        strip_skipped(without_last_part(s, lb), lb)
    } else {
        s
    }
}

/// The final component of `s`, when it is a name (not `..`, a root or a `.`).
pub open spec fn file_name_of(s: Seq<char>) -> Option<Seq<char>> {
    let lb = body_start(s);
    let t = strip_skipped(s, lb);
    if t.len() > lb {
        let name = t.subrange(last_part_start(t, lb), t.len() as int);
        if name == seq!['.', '.'] {
            None
        } else {
            Some(name)
        }
    } else {
        None
    }
}

/// The position of the last `.` in `s`, or -1.
pub open spec fn last_dot(s: Seq<char>) -> int
    decreases s.len(),
{
    if s.len() == 0 {
        -1
    } else if s.last() == '.' {
        s.len() - 1
    } else {
        last_dot(s.drop_last())
    }
}

/// The extension of `s`: what follows the last `.` of its file name, unless
/// that `.` is the name's first character or the name has none.
pub open spec fn extension_of(s: Seq<char>) -> Option<Seq<char>> {
    match file_name_of(s) {
        Some(name) => {
            if last_dot(name) > 0 {
                Some(name.skip(last_dot(name) + 1))
            } else {
                None
            }
        },
        None => None,
    }
}

/// `s` without its last component, as `Path::parent` gives it; `None` when
/// `s` is empty or ends in its root.
pub open spec fn parent_of(s: Seq<char>) -> Option<Seq<char>> {
    let lb = body_start(s);
    let t = strip_skipped(s, lb);
    if t.len() > lb {
        Some(strip_skipped(without_last_part(t, lb), lb))
    } else if s.len() > 0 && s[0] == '/' {
        None
    } else if lb == 1 {
        Some(Seq::empty())
    } else {
        None
    }
}

/// `base` with `p` appended as `PathBuf::join` does: an absolute `p` replaces
/// `base`; otherwise a `/` goes between them unless `base` is empty or ends in one.
pub open spec fn join_of(base: Seq<char>, p: Seq<char>) -> Seq<char> {
    if p.len() > 0 && p[0] == '/' {
        p
    } else if base.len() > 0 && base.last() != '/' {
        base + seq!['/'] + p
    } else {
        base + p
    }
}

/// `c` lower-cased in ASCII, as a code point.
pub open spec fn ascii_lower(c: char) -> int {
    if 'A' <= c && c <= 'Z' {
        (c as u32) + 32
    } else {
        (c as u32) as int
    }
}

/// Whether two strings are equal when ASCII letters are compared without case.
pub open spec fn eq_ignore_ascii_case(a: Seq<char>, b: Seq<char>) -> bool {
    a.len() == b.len() && forall|i: int| 0 <= i < a.len() ==> ascii_lower(a[i]) == ascii_lower(b[i])
}

/// The leading-character count that `body_start` describes.
fn body_start_exec(s: &Vec<char>) -> (r: usize)
    ensures
        r as int == body_start(s@),
        r <= s.len(),
{
    if s.len() > 0 && s[0] == '/' {
        1
    } else if s.len() > 0 && s[0] == '.' && (s.len() == 1 || s[1] == '/') {
        1
    } else {
        0
    }
}

/// The position of the last `/` in `s[lb..n]`.
fn last_sep_exec(s: &Vec<char>, lb: usize, n: usize) -> (r: Option<usize>)
    requires
        n <= s.len(),
    ensures
        match r {
            Some(q) => q as int == last_sep(s@.take(n as int), lb as int) && lb <= q < n,
            None => last_sep(s@.take(n as int), lb as int) == -1,
        },
{
    let mut j = n;
    while j > lb
        invariant
            j <= n <= s.len(),
            last_sep(s@.take(n as int), lb as int) == last_sep(s@.take(j as int), lb as int),
        decreases j,
    {
        assert(s@.take(j as int).drop_last() =~= s@.take(j - 1));
        if s[j - 1] == '/' {
            return Some(j - 1);
        }
        j = j - 1;
    }
    None
}

/// The length of `strip_skipped(s[..n], lb)`.
fn strip_skipped_len(s: &Vec<char>, lb: usize, n: usize) -> (r: usize)
    requires
        n <= s.len(),
        lb <= n,
    ensures
        lb <= r <= n,
        s@.take(r as int) == strip_skipped(s@.take(n as int), lb as int),
{
    let mut m = n;
    while m > lb
        invariant
            lb <= m <= n <= s.len(),
            strip_skipped(s@.take(n as int), lb as int) == strip_skipped(s@.take(m as int), lb as int),
        decreases m,
    {
        let t = Ghost(s@.take(m as int));
        let q = last_sep_exec(s, lb, m);
        let start = match q {
            Some(q) => q + 1,
            None => lb,
        };
        let skipped = start == m || (start + 1 == m && s[m - 1] == '.');
        proof {
            let part = t@.subrange(last_part_start(t@, lb as int), t@.len() as int);
            assert(last_part_start(t@, lb as int) == start);
            if start + 1 == m {
                assert(part.len() == 1 && part[0] == s@[m - 1]);
                if s@[m - 1] == '.' {
                    assert(part =~= seq!['.']);
                }
            }
            if part == seq!['.'] {
                assert(part.len() == 1);
            }
            assert(skipped == is_skipped_part(part));
        }
        if !skipped {
            return m;
        }
        let next = match q {
            Some(q) => q,
            None => lb,
        };
        assert(without_last_part(t@, lb as int) =~= s@.take(next as int));
        m = next;
    }
    proof {
        assert(strip_skipped(s@.take(m as int), lb as int) == s@.take(m as int));
    }
    m
}

/// The characters `s[a..b]`.
fn slice_chars(s: &Vec<char>, a: usize, b: usize) -> (r: Vec<char>)
    requires
        a <= b <= s.len(),
    ensures
        r@ == s@.subrange(a as int, b as int),
{
    let mut out: Vec<char> = Vec::new();
    let mut i = a;
    while i < b
        invariant
            a <= i <= b <= s.len(),
            out@ =~= s@.subrange(a as int, i as int),
        decreases b - i,
    {
        out.push(s[i]);
        i = i + 1;
    }
    out
}

/// The final component of `s` when it is a name.
pub fn file_name(s: &Vec<char>) -> (r: Option<Vec<char>>)
    ensures
        match r {
            Some(v) => file_name_of(s@) == Some(v@),
            None => file_name_of(s@) is None,
        },
{
    let lb = body_start_exec(s);
    let n = strip_skipped_len(s, lb, s.len());
    assert(s@.take(s@.len() as int) =~= s@);
    if n > lb {
        let ghost t = s@.take(n as int);
        let q = last_sep_exec(s, lb, n);
        let start = match q {
            Some(q) => q + 1,
            None => lb,
        };
        let name = slice_chars(s, start, n);
        assert(name@ =~= t.subrange(last_part_start(t, lb as int), t.len() as int));
        if name.len() == 2 && name[0] == '.' && name[1] == '.' {
            assert(name@ =~= seq!['.', '.']);
            None
        } else {
            proof {
                if name@ == seq!['.', '.'] {
                    assert(name@.len() == 2 && name@[0] == '.' && name@[1] == '.');
                }
            }
            Some(name)
        }
    } else {
        None
    }
}

/// The extension of `s`, as `Path::extension` gives it.
pub fn extension(s: &Vec<char>) -> (r: Option<Vec<char>>)
    ensures
        match r {
            Some(v) => extension_of(s@) == Some(v@),
            None => extension_of(s@) is None,
        },
{
    match file_name(s) {
        Some(name) => {
            let mut j = name.len();
            assert(name@.take(j as int) =~= name@);
            while j > 0 && name[j - 1] != '.'
                invariant
                    j <= name@.len(),
                    last_dot(name@) == last_dot(name@.take(j as int)),
                decreases j,
            {
                assert(name@.take(j as int).drop_last() =~= name@.take(j - 1));
                j = j - 1;
            }
            proof {
                assert(name@.take(name@.len() as int) =~= name@);
                if j > 0 {
                    assert(name@.take(j as int).last() == '.');
                }
            }
            if j > 1 {
                Some(slice_chars(&name, j, name.len()))
            } else {
                None
            }
        },
        None => None,
    }
}

/// Whether `a` and `b` are equal ignoring the case of ASCII letters.
pub fn chars_eq_ignore_ascii_case(a: &Vec<char>, b: &Vec<char>) -> (r: bool)
    ensures
        r == eq_ignore_ascii_case(a@, b@),
{
    if a.len() != b.len() {
        return false;
    }
    let mut i: usize = 0;
    while i < a.len()
        invariant
            a.len() == b.len(),
            i <= a.len(),
            forall|j: int| 0 <= j < i ==> ascii_lower(a@[j]) == ascii_lower(b@[j]),
        decreases a.len() - i,
    {
        let x = a[i];
        let y = b[i];
        let lx: u32 = if 'A' <= x && x <= 'Z' { (x as u32) + 32 } else { x as u32 };
        let ly: u32 = if 'A' <= y && y <= 'Z' { (y as u32) + 32 } else { y as u32 };
        if lx != ly {
            return false;
        }
        i = i + 1;
    }
    true
}

/// Whether the extension of `path` is `extension`, ignoring ASCII case.
pub fn is_file_extension(path: &str, extension_name: &str) -> (r: bool)
    ensures
        r == match extension_of(path@) {
            Some(e) => eq_ignore_ascii_case(e, extension_name@),
            None => false,
        },
{
    match extension(&chars_of(path)) {
        Some(e) => chars_eq_ignore_ascii_case(&e, &chars_of(extension_name)),
        None => false,
    }
}

/// The parent of `s`, as `Path::parent` gives it.
pub fn parent(s: &Vec<char>) -> (r: Option<Vec<char>>)
    ensures
        match r {
            Some(v) => parent_of(s@) == Some(v@),
            None => parent_of(s@) is None,
        },
{
    let lb = body_start_exec(s);
    let n = strip_skipped_len(s, lb, s.len());
    assert(s@.take(s@.len() as int) =~= s@);
    if n > lb {
        let ghost t = s@.take(n as int);
        let q = last_sep_exec(s, lb, n);
        let cut = match q {
            Some(q) => q,
            None => lb,
        };
        assert(without_last_part(t, lb as int) =~= s@.take(cut as int));
        let m = strip_skipped_len(s, lb, cut);
        Some(slice_chars(s, 0, m))
    } else if s.len() > 0 && s[0] == '/' {
        None
    } else if lb == 1 {
        Some(Vec::new())
    } else {
        None
    }
}

/// `base` joined with `p`, as `PathBuf::join` does.
pub fn join(base: &str, p: &str) -> (r: String)
    ensures
        r@ == join_of(base@, p@),
{
    let b = chars_of(base);
    let mut q = chars_of(p);
    if q.len() > 0 && q[0] == '/' {
        return string_of(q.as_slice());
    }
    let mut out = b.clone();
    assert(out@ =~= b@);
    if b.len() > 0 && b[b.len() - 1] != '/' {
        out.push('/');
    }
    out.append(&mut q);
    string_of(out.as_slice())
}

} // verus!
