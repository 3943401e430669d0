//! Character-sequence utilities the engine's contracts are stated over:
//! substring search, path basenames, and ASCII case normalization.

use vstd::prelude::*;

verus! {

/// Whether `sub` occurs in `hay` starting at position `k`.
pub open spec fn match_at(hay: Seq<char>, sub: Seq<char>, k: int) -> bool {
    &&& 0 <= k
    &&& k + sub.len() <= hay.len()
    &&& hay.subrange(k, k + sub.len()) == sub
}

/// Whether `sub` occurs anywhere in `hay`.
pub open spec fn contains_sub(hay: Seq<char>, sub: Seq<char>) -> bool {
    exists|k: int| match_at(hay, sub, k)
}

/// Whether `sub` occurs in `hay` at exactly position `k`.
fn match_at_exec(hay: &str, sub: &str, k: usize) -> (r: bool)
    requires
        k + sub@.len() <= hay@.len(),
        hay@.len() <= usize::MAX,
    ensures
        r == match_at(hay@, sub@, k as int),
{
    let sl = sub.unicode_len();
    let mut j: usize = 0;
    while j < sl
        invariant
            sl == sub@.len(),
            k + sl <= hay@.len(),
            hay@.len() <= usize::MAX,
            j <= sl,
            forall|jj: int| 0 <= jj < j ==> hay@[k + jj] == sub@[jj],
        decreases sl - j,
    {
        if hay.get_char(k + j) != sub.get_char(j) {
            proof {
                assert(!match_at(hay@, sub@, k as int)) by {
                    if match_at(hay@, sub@, k as int) {
                        assert(hay@.subrange(k as int, k + sub@.len())[j as int] == hay@[k + j as int]);
                    }
                }
            }
            return false;
        }
        j = j + 1;
    }
    proof {
        assert(hay@.subrange(k as int, k + sub@.len()) =~= sub@);
    }
    true
}

/// Whether the needle occurs in the haystack as a contiguous substring.
pub fn str_contains(hay: &str, sub: &str) -> (r: bool)
    ensures
        r == contains_sub(hay@, sub@),
{
    let hl = hay.unicode_len();
    let sl = sub.unicode_len();
    if sl > hl {
        proof {
            assert(forall|k: int| !match_at(hay@, sub@, k));
        }
        return false;
    }
    let mut k: usize = 0;
    while k < hl - sl
        invariant
            sl <= hl,
            hl == hay@.len(),
            sl == sub@.len(),
            k <= hl - sl,
            forall|kk: int| 0 <= kk < k ==> !match_at(hay@, sub@, kk),
        decreases hl - sl - k,
    {
        if match_at_exec(hay, sub, k) {
            return true;
        }
        k = k + 1;
    }
    if match_at_exec(hay, sub, hl - sl) {
        return true;
    }
    proof {
        assert forall|kk: int| !match_at(hay@, sub@, kk) by {
            if match_at(hay@, sub@, kk) {
                assert(0 <= kk && kk + sl <= hl);
            }
        }
    }
    false
}

/// The file name of a path: everything after the last separator, the
/// whole path when it has none.
pub open spec fn basename_of(p: Seq<char>) -> Seq<char>
    decreases p.len(),
{
    if p.len() == 0 {
        p
    } else if p.last() == '/' {
        Seq::empty()
    } else {
        basename_of(p.drop_last()).push(p.last())
    }
}

/// All positions in `[k, p.len())` are separator-free, and `k` is either
/// the start or just past a separator.
proof fn lemma_basename_suffix(p: Seq<char>, k: int)
    requires
        0 <= k <= p.len(),
        forall|j: int| k <= j < p.len() ==> p[j] != '/',
        k > 0 ==> p[k - 1] == '/',
    ensures
        basename_of(p) == p.subrange(k, p.len() as int),
    decreases p.len(),
{
    if k == p.len() {
        if k > 0 {
            assert(p.last() == '/');
        }
        assert(basename_of(p) =~= p.subrange(k, p.len() as int));
    } else {
        assert(p.last() != '/');
        lemma_basename_suffix(p.drop_last(), k);
        assert(basename_of(p) =~= p.subrange(k, p.len() as int));
    }
}

/// Returns the file name of a path: everything after the last `/`.
pub fn basename(p: &str) -> (r: String)
    ensures
        r@ == basename_of(p@),
{
    let len = p.unicode_len();
    let mut i: usize = len;
    while i > 0
        invariant
            i <= len,
            len == p@.len(),
            forall|j: int| i <= j < len ==> p@[j] != '/',
        decreases i,
    {
        if p.get_char(i - 1) == '/' {
            let tail = p.substring_char(i, len);
            proof {
                lemma_basename_suffix(p@, i as int);
            }
            return tail.to_owned();
        }
        i = i - 1;
    }
    let tail = p.substring_char(0, len);
    proof {
        lemma_basename_suffix(p@, 0int);
    }
    tail.to_owned()
}

/// A character mapped to upper case when it is an ASCII lower-case
/// letter, itself otherwise.  This is the engine's explicit case policy:
/// metadata it normalizes (an HTTP verb) is ASCII.
pub open spec fn upper_char(c: char) -> char {
    if c == 'a' { 'A' } else if c == 'b' { 'B' } else if c == 'c' { 'C' } else if c == 'd' { 'D' }
    else if c == 'e' { 'E' } else if c == 'f' { 'F' } else if c == 'g' { 'G' } else if c == 'h' { 'H' }
    else if c == 'i' { 'I' } else if c == 'j' { 'J' } else if c == 'k' { 'K' } else if c == 'l' { 'L' }
    else if c == 'm' { 'M' } else if c == 'n' { 'N' } else if c == 'o' { 'O' } else if c == 'p' { 'P' }
    else if c == 'q' { 'Q' } else if c == 'r' { 'R' } else if c == 's' { 'S' } else if c == 't' { 'T' }
    else if c == 'u' { 'U' } else if c == 'v' { 'V' } else if c == 'w' { 'W' } else if c == 'x' { 'X' }
    else if c == 'y' { 'Y' } else if c == 'z' { 'Z' } else { c }
}

/// A sequence with every character upper-cased by [`upper_char`].
pub open spec fn upper_seq(s: Seq<char>) -> Seq<char> {
    s.map_values(|c: char| upper_char(c))
}

/// ASCII-upper-cases one character.
pub fn to_upper_char(c: char) -> (r: char)
    ensures
        r == upper_char(c),
{
    if c == 'a' { 'A' } else if c == 'b' { 'B' } else if c == 'c' { 'C' } else if c == 'd' { 'D' }
    else if c == 'e' { 'E' } else if c == 'f' { 'F' } else if c == 'g' { 'G' } else if c == 'h' { 'H' }
    else if c == 'i' { 'I' } else if c == 'j' { 'J' } else if c == 'k' { 'K' } else if c == 'l' { 'L' }
    else if c == 'm' { 'M' } else if c == 'n' { 'N' } else if c == 'o' { 'O' } else if c == 'p' { 'P' }
    else if c == 'q' { 'Q' } else if c == 'r' { 'R' } else if c == 's' { 'S' } else if c == 't' { 'T' }
    else if c == 'u' { 'U' } else if c == 'v' { 'V' } else if c == 'w' { 'W' } else if c == 'x' { 'X' }
    else if c == 'y' { 'Y' } else if c == 'z' { 'Z' } else { c }
}

/// Whether `a`, upper-cased character for character, equals `b`.
pub fn upper_eq(a: &str, b: &str) -> (r: bool)
    ensures
        r == (upper_seq(a@) == b@),
{
    let al = a.unicode_len();
    let bl = b.unicode_len();
    if al != bl {
        proof {
            assert(upper_seq(a@).len() == a@.len());
        }
        return false;
    }
    let mut i: usize = 0;
    while i < al
        invariant
            i <= al,
            al == a@.len(),
            bl == b@.len(),
            al == bl,
            forall|j: int| 0 <= j < i ==> upper_char(a@[j]) == b@[j],
        decreases al - i,
    {
        if to_upper_char(a.get_char(i)) != b.get_char(i) {
            proof {
                assert(upper_seq(a@)[i as int] == upper_char(a@[i as int]));
            }
            return false;
        }
        i = i + 1;
    }
    proof {
        assert(upper_seq(a@) =~= b@);
    }
    true
}

} // verus!
