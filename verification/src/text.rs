//! Case-insensitive substring search over character sequences, used by the
//! quote-name filter of the paginated listing. Case folding is ASCII-only:
//! the letters `A`..`Z` fold to `a`..`z`, every other character stands for
//! itself.

use vstd::prelude::*;

use crate::ext::chars_of;

verus! {

/// Code point of a character, with an ASCII upper-case letter folded to its
/// lower-case counterpart.
pub open spec fn fold_code(c: char) -> int {
    if 65 <= c as int && c as int <= 90 {
        c as int + 32
    } else {
        c as int
    }
}

/// The needle occurs in the haystack at position `i`, compared character by
/// character under ASCII case folding.
pub open spec fn ci_match_at(hay: Seq<char>, needle: Seq<char>, i: int) -> bool {
    &&& 0 <= i
    &&& i + needle.len() <= hay.len()
    &&& forall|j: int| 0 <= j < needle.len() ==> fold_code(hay[i + j]) == fold_code(needle[j])
}

/// The needle occurs somewhere in the haystack under ASCII case folding.
pub open spec fn ci_contains(hay: Seq<char>, needle: Seq<char>) -> bool {
    exists|i: int| ci_match_at(hay, needle, i)
}

/// Folded code point of a character, executable form.
fn fold_code_of(c: char) -> (r: u32)
    ensures
        r as int == fold_code(c),
{
    let v = c as u32;
    if 65 <= v && v <= 90 {
        v + 32
    } else {
        v
    }
}

/// Whether the needle occurs at position `i` of the haystack.
fn matches_at(hay: &Vec<char>, needle: &Vec<char>, i: usize) -> (r: bool)
    requires
        i + needle@.len() <= hay@.len(),
    ensures
        r == ci_match_at(hay@, needle@, i as int),
{
    let hay_len = hay.len();
    let mut j: usize = 0;
    while j < needle.len()
        invariant
            hay@.len() == hay_len,
            i + needle@.len() <= hay@.len(),
            j <= needle@.len(),
            forall|m: int| 0 <= m < j ==> fold_code(hay@[i + m]) == fold_code(needle@[m]),
        decreases needle@.len() - j,
    {
        if fold_code_of(hay[i + j]) != fold_code_of(needle[j]) {
            return false;
        }
        j += 1;
    }
    true
}

/// Whether `needle` occurs in `hay` when ASCII case is ignored. An empty
/// needle occurs in every string.
pub fn contains_ci(hay: &str, needle: &str) -> (r: bool)
    ensures
        r == ci_contains(hay@, needle@),
{
    let h = chars_of(hay);
    let n = chars_of(needle);
    if n.len() == 0 {
        proof {
            assert(ci_match_at(hay@, needle@, 0));
        }
        return true;
    }
    if n.len() > h.len() {
        return false;
    }
    let h_len = h.len();
    let last = h_len - n.len();
    let mut i: usize = 0;
    while i <= last
        invariant
            h@.len() == h_len,
            h@ == hay@,
            n@ == needle@,
            0 < n@.len() <= h@.len(),
            last == h@.len() - n@.len(),
            i <= last + 1,
            forall|k: int| 0 <= k < i ==> !ci_match_at(hay@, needle@, k),
        decreases last + 1 - i,
    {
        if matches_at(&h, &n, i) {
            return true;
        }
        i += 1;
    }
    proof {
        assert forall|k: int| !ci_match_at(hay@, needle@, k) by {
            if 0 <= k && k + needle@.len() <= hay@.len() {
                assert(k < i);
            }
        }
    }
    false
}

} // verus!
