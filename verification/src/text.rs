//! Work on texts, character by character: search, comparison, and the
//! writing of paths.

use vstd::prelude::*;
use vstd::string::StringExecFns;

verus! {

/// Whether `needle` occurs in `hay` starting at position `at`.
pub open spec fn occurs_at(hay: Seq<char>, needle: Seq<char>, at: int) -> bool {
    &&& 0 <= at
    &&& at + needle.len() <= hay.len()
    &&& hay.subrange(at, at + needle.len()) == needle
}

/// Whether `needle` occurs somewhere in `hay` as a contiguous run of characters.
pub open spec fn occurs_in(hay: Seq<char>, needle: Seq<char>) -> bool {
    exists|at: int| occurs_at(hay, needle, at)
}

/// The characters of `s`, in order.
pub fn chars_of(s: &str) -> (out: Vec<char>)
    ensures
        out@ == s@,
{
    let mut out: Vec<char> = Vec::new();
    let mut it = s.chars();
    for c in iter: it
        invariant
            out@ == iter.seq().take(iter.index()),
    {
        out.push(c);
    }
    out
}

/// Whether `needle` stands in `hay` at position `at`. It does not where it
/// would reach beyond the end of `hay`.
pub fn matches_at(hay: &Vec<char>, needle: &Vec<char>, at: usize) -> (found: bool)
    ensures
        found == occurs_at(hay@, needle@, at as int),
{
    let n: usize = hay.len();
    let m: usize = needle.len();
    if at > n || m > n - at {
        return false;
    }
    let mut k: usize = 0;
    while k < m
        invariant
            n == hay@.len(),
            m == needle@.len(),
            k <= m,
            at + m <= n,
            forall|j: int| 0 <= j < k ==> hay@[at + j] == needle@[j],
        decreases m - k,
    {
        if hay[at + k] != needle[k] {
            proof {
                let window = hay@.subrange(at as int, at + m);
                assert(window[k as int] == hay@[at + k]);
            }
            return false;
        }
        k += 1;
    }
    proof {
        assert(hay@.subrange(at as int, at + m) =~= needle@);
    }
    true
}

/// Whether `needle` occurs in `hay`. The empty needle occurs in every text.
pub fn contains_chars(hay: &Vec<char>, needle: &Vec<char>) -> (found: bool)
    ensures
        found == occurs_in(hay@, needle@),
{
    let n: usize = hay.len();
    let m: usize = needle.len();
    if m > n {
        return false;
    }
    let last: usize = n - m;
    let mut at: usize = 0;
    loop
        invariant
            n == hay@.len(),
            m == needle@.len(),
            last == n - m,
            at <= last,
            forall|k: int| 0 <= k < at ==> !occurs_at(hay@, needle@, k),
        decreases last - at,
    {
        if matches_at(hay, needle, at) {
            return true;
        }
        if at == last {
            return false;
        }
        at += 1;
    }
}

/// Whether the text `pattern` occurs in `s`, character for character and with
/// regard to case.
pub fn contains(s: &str, pattern: &str) -> (found: bool)
    ensures
        found == occurs_in(s@, pattern@),
{
    let hay = chars_of(s);
    let needle = chars_of(pattern);
    contains_chars(&hay, &needle)
}

/// Whether two texts hold the same characters.
pub fn same_text(a: &str, b: &str) -> (same: bool)
    ensures
        same == (a@ == b@),
{
    let left = chars_of(a);
    let right = chars_of(b);
    if left.len() != right.len() {
        return false;
    }
    let same = matches_at(&left, &right, 0);
    proof {
        assert(left@.subrange(0, left@.len() as int) =~= left@);
    }
    same
}

/// Whether `name` is one of `names`.
pub open spec fn listed(names: Seq<String>, name: Seq<char>) -> bool {
    exists|i: int| 0 <= i < names.len() && names[i]@ == name
}

/// Whether `name` is one of `names`, compared in full and with regard to case.
pub fn is_listed(names: &Vec<String>, name: &str) -> (found: bool)
    ensures
        found == listed(names@, name@),
{
    let n: usize = names.len();
    let mut at: usize = 0;
    while at < n
        invariant
            n == names@.len(),
            at <= n,
            forall|i: int| 0 <= i < at ==> names@[i]@ != name@,
        decreases n - at,
    {
        if same_text(names[at].as_str(), name) {
            return true;
        }
        at += 1;
    }
    false
}

/// The path of the file `name` in the directory `dir`: the two texts with one
/// `/` between them, which is left out where `dir` is empty or ends in one.
pub open spec fn joined(dir: Seq<char>, name: Seq<char>) -> Seq<char> {
    if dir.len() == 0 || dir.last() == '/' {
        dir + name
    } else {
        dir + seq!['/'] + name
    }
}

/// Writes the path of the file `name` in the directory `dir`.
pub fn join_path(dir: &str, name: &str) -> (path: String)
    ensures
        path@ == joined(dir@, name@),
{
    let chars = chars_of(dir);
    let mut path = dir.to_owned();
    if chars.len() > 0 && chars[chars.len() - 1] != '/' {
        proof {
            reveal_strlit("/");
            assert("/"@ =~= seq!['/']);
        }
        path.append("/");
    }
    path.append(name);
    path
}

} // verus!
