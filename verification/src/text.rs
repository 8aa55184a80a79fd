//! Case-insensitive substring matching over byte strings, as the window
//! resolver needs it for browser markers in window titles and process names.
//! Case folding is ASCII-only: the markers themselves are plain ASCII.

use vstd::prelude::*;

verus! {

/// ASCII lower-casing of one byte; every other byte is left as it is.
pub open spec fn lower_byte(b: u8) -> u8 {
    if 65 <= b <= 90 {
        (b + 32) as u8
    } else {
        b
    }
}

/// `needle` matches `hay` at offset `i`, ignoring ASCII case.
pub open spec fn ci_match_at(hay: Seq<u8>, needle: Seq<u8>, i: int) -> bool {
    &&& 0 <= i
    &&& i + needle.len() <= hay.len()
    &&& forall|j: int| 0 <= j < needle.len() ==> lower_byte(#[trigger] needle[j]) == lower_byte(hay[i + j])
}

/// `hay` contains `needle` somewhere, ignoring ASCII case.
pub open spec fn contains_ci(hay: Seq<u8>, needle: Seq<u8>) -> bool {
    exists|i: int| ci_match_at(hay, needle, i)
}

fn lower(b: u8) -> (r: u8)
    ensures
        r == lower_byte(b),
{
    if 65 <= b && b <= 90 {
        b + 32
    } else {
        b
    }
}

/// Whether `hay` contains `needle` as a substring, ignoring ASCII case.
pub fn contains_ci_bytes(hay: &Vec<u8>, needle: &Vec<u8>) -> (r: bool)
    ensures
        r == contains_ci(hay@, needle@),
{
    let n = hay.len();
    let m = needle.len();
    if m > n {
        proof {
            assert(forall|i: int| !ci_match_at(hay@, needle@, i));
        }
        return false;
    }
    let mut i: usize = 0;
    while i <= n - m
        invariant
            m <= n,
            n == hay@.len(),
            m == needle@.len(),
            0 <= i <= n - m + 1,
            forall|k: int| 0 <= k < i ==> !ci_match_at(hay@, needle@, k),
        decreases n - m + 1 - i,
    {
        let mut j: usize = 0;
        let mut hit = true;
        while j < m
            invariant
                m <= n,
                n == hay@.len(),
                m == needle@.len(),
                0 <= i <= n - m,
                0 <= j <= m,
                hit ==> forall|l: int| 0 <= l < j ==> lower_byte(#[trigger] needle@[l]) == lower_byte(hay@[i + l]),
                !hit ==> !ci_match_at(hay@, needle@, i as int),
            decreases m - j,
        {
            if lower(needle[j]) != lower(hay[i + j]) {
                hit = false;
                proof {
                    assert(!ci_match_at(hay@, needle@, i as int));
                }
                j = m;
            } else {
                j = j + 1;
            }
        }
        if hit {
            proof {
                assert(ci_match_at(hay@, needle@, i as int));
            }
            return true;
        }
        i = i + 1;
    }
    proof {
        assert(forall|k: int| ci_match_at(hay@, needle@, k) ==> 0 <= k <= n - m);
    }
    false
}

} // verus!
