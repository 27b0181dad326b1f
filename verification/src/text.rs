//! Character-level string operations: equality and substring search,
//! specified over the character sequences the strings denote.

use vstd::prelude::*;

verus! {

/// `needle` occurs in `hay` starting at position `i`.
pub open spec fn is_substring_at(hay: Seq<char>, needle: Seq<char>, i: int) -> bool {
    0 <= i && i + needle.len() <= hay.len() && hay.subrange(i, i + needle.len()) == needle
}

/// `needle` occurs somewhere in `hay`.
pub open spec fn spec_contains(hay: Seq<char>, needle: Seq<char>) -> bool {
    exists|i: int| is_substring_at(hay, needle, i)
}

/// What a substring's substring is, the whole contains.
pub proof fn lemma_contains_trans(a: Seq<char>, b: Seq<char>, c: Seq<char>)
    requires
        spec_contains(a, b),
        spec_contains(b, c),
    ensures
        spec_contains(a, c),
{
    let i = choose|i: int| is_substring_at(a, b, i);
    let j = choose|j: int| is_substring_at(b, c, j);
    assert forall|k: int|
        0 <= k < c.len() implies a.subrange(i + j, i + j + c.len() as int)[k] == c[k] by {
        assert(b.subrange(j, j + c.len() as int)[k] == b[j + k]);
        assert(a.subrange(i, i + b.len() as int)[j + k] == a[i + j + k]);
    }
    assert(a.subrange(i + j, i + j + c.len() as int) =~= c);
    assert(is_substring_at(a, c, i + j));
}

/// Character-for-character string equality.
pub fn str_eq(a: &str, b: &str) -> (r: bool)
    ensures
        r == (a@ == b@),
{
    let la = a.unicode_len();
    let lb = b.unicode_len();
    if la != lb {
        return false;
    }
    let mut i: usize = 0;
    while i < la
        invariant
            la == a@.len() == b@.len(),
            0 <= i <= la,
            forall|k: int| 0 <= k < i ==> a@[k] == b@[k],
        decreases la - i,
    {
        if a.get_char(i) != b.get_char(i) {
            return false;
        }
        i = i + 1;
    }
    proof {
        assert(a@ =~= b@);
    }
    true
}

/// `needle` matches `hay` at position `i`.
fn match_at(hay: &str, needle: &str, i: usize) -> (r: bool)
    requires
        i + needle@.len() <= hay@.len(),
        hay@.len() <= usize::MAX,
    ensures
        r == is_substring_at(hay@, needle@, i as int),
{
    let ln = needle.unicode_len();
    let mut j: usize = 0;
    while j < ln
        invariant
            ln == needle@.len(),
            i + ln <= hay@.len(),
            hay@.len() <= usize::MAX,
            0 <= j <= ln,
            forall|k: int| 0 <= k < j ==> hay@[i + k] == needle@[k],
        decreases ln - j,
    {
        if hay.get_char(i + j) != needle.get_char(j) {
            proof {
                assert(hay@.subrange(i as int, i + ln)[j as int] == hay@[i + j]);
            }
            return false;
        }
        j = j + 1;
    }
    proof {
        assert(hay@.subrange(i as int, i + ln) =~= needle@);
    }
    true
}

/// Substring search, as `str::contains` decides it.
pub fn str_contains(hay: &str, needle: &str) -> (r: bool)
    ensures
        r == spec_contains(hay@, needle@),
{
    let lh = hay.unicode_len();
    let ln = needle.unicode_len();
    if ln > lh {
        return false;
    }
    let mut i: usize = 0;
    loop
        invariant
            lh == hay@.len(),
            ln == needle@.len(),
            ln <= lh,
            0 <= i <= lh - ln,
            forall|k: int| 0 <= k < i ==> !is_substring_at(hay@, needle@, k),
        decreases lh - ln - i,
    {
        if match_at(hay, needle, i) {
            return true;
        }
        if i == lh - ln {
            proof {
                assert forall|k: int| !is_substring_at(hay@, needle@, k) by {
                    if 0 <= k && k + needle@.len() <= hay@.len() {
                        assert(k <= i);
                    }
                }
            }
            return false;
        }
        i = i + 1;
    }
}

} // verus!
