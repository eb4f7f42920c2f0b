//! Path string manipulation: stripping the watch-root prefix from an
//! absolute path, extracting the final path segment, and joining a
//! directory with a file name.

use vstd::prelude::*;

verus! {

/// `p` is a prefix of `s`.
pub open spec fn has_prefix(s: Seq<char>, p: Seq<char>) -> bool {
    p.len() <= s.len() && s.subrange(0, p.len() as int) == p
}

/// `s` with the prefix `p` removed; `s` unchanged when `p` is not a prefix.
pub open spec fn strip_prefix_spec(s: Seq<char>, p: Seq<char>) -> Seq<char> {
    if has_prefix(s, p) {
        s.skip(p.len() as int)
    } else {
        s
    }
}

/// Remove the leading occurrence of `prefix` from `s`, if `s` starts with it.
pub fn strip_prefix(s: &str, prefix: &str) -> (r: String)
    ensures
        r@ == strip_prefix_spec(s@, prefix@),
{
    let n: usize = s.unicode_len();
    let pn: usize = prefix.unicode_len();
    if pn > n {
        assert(!has_prefix(s@, prefix@));
        return s.to_owned();
    }
    let mut i: usize = 0;
    while i < pn
        invariant
            i <= pn <= n,
            n == s@.len(),
            pn == prefix@.len(),
            forall|j: int| 0 <= j < i ==> s@[j] == prefix@[j],
        decreases pn - i,
    {
        if s.get_char(i) != prefix.get_char(i) {
            assert(s@.subrange(0, pn as int)[i as int] != prefix@[i as int]);
            assert(!has_prefix(s@, prefix@));
            return s.to_owned();
        }
        i += 1;
    }
    assert(s@.subrange(0, pn as int) =~= prefix@);
    let rest = s.substring_char(pn, n);
    assert(rest@ =~= s@.skip(pn as int));
    rest.to_owned()
}

/// The final path segment: everything after the last `/`, the whole string
/// when it holds no `/`, and empty when it ends in `/`.
pub open spec fn basename_spec(s: Seq<char>) -> Seq<char>
    decreases s.len(),
{
    if s.len() == 0 {
        s
    } else if s.last() == '/' {
        Seq::<char>::empty()
    } else {
        basename_spec(s.drop_last()).push(s.last())
    }
}

/// A suffix of `s` that starts right after a `/` (or at the start) and holds
/// no further `/` is exactly the basename.
proof fn lemma_basename_suffix(s: Seq<char>, k: int)
    requires
        0 <= k <= s.len(),
        forall|j: int| k <= j < s.len() ==> s[j] != '/',
        k > 0 ==> s[k - 1] == '/',
    ensures
        basename_spec(s) == s.skip(k),
    decreases s.len(),
{
    if s.len() == k {
        if k == 0 {
            assert(basename_spec(s) =~= s.skip(0));
        } else {
            assert(s.last() == '/');
            assert(basename_spec(s) =~= s.skip(k));
        }
    } else {
        assert(s.last() != '/');
        lemma_basename_suffix(s.drop_last(), k);
        assert(basename_spec(s) =~= s.skip(k)) by {
            assert(s.drop_last().skip(k).push(s.last()) =~= s.skip(k));
        }
    }
}

/// Extract the final path segment of `s` (after the last `/`).
pub fn basename(s: &str) -> (r: String)
    ensures
        r@ == basename_spec(s@),
{
    let n: usize = s.unicode_len();
    let mut k: usize = n;
    while k > 0
        invariant
            k <= n,
            n == s@.len(),
            forall|j: int| k <= j < n ==> s@[j] != '/',
        decreases k,
    {
        if s.get_char(k - 1) == '/' {
            proof {
                lemma_basename_suffix(s@, k as int);
            }
            let rest = s.substring_char(k, n);
            assert(rest@ =~= s@.skip(k as int));
            return rest.to_owned();
        }
        k -= 1;
    }
    proof {
        lemma_basename_suffix(s@, 0);
    }
    assert(s@.skip(0) =~= s@);
    s.to_owned()
}

/// Decide character-for-character equality of two strings.
pub fn str_eq(a: &str, b: &str) -> (r: bool)
    ensures
        r == (a@ == b@),
{
    let n: usize = a.unicode_len();
    let m: usize = b.unicode_len();
    if n != m {
        assert(a@ != b@);
        return false;
    }
    let mut i: usize = 0;
    while i < n
        invariant
            i <= n,
            n == a@.len() == b@.len(),
            forall|j: int| 0 <= j < i ==> a@[j] == b@[j],
        decreases n - i,
    {
        if a.get_char(i) != b.get_char(i) {
            assert(a@ != b@);
            return false;
        }
        i += 1;
    }
    assert(a@ =~= b@);
    true
}

/// `dir`, a `/` separator, then `name`.
pub open spec fn join_spec(dir: Seq<char>, name: Seq<char>) -> Seq<char> {
    dir + seq!['/'] + name
}

/// Join a directory path and a file name with a `/` separator.
pub fn join_dir(dir: &str, name: &str) -> (r: String)
    ensures
        r@ == join_spec(dir@, name@),
{
    proof {
        reveal_strlit("/");
    }
    let mut out = dir.to_owned();
    out.append("/");
    out.append(name);
    assert(out@ =~= join_spec(dir@, name@));
    out
}

} // verus!
