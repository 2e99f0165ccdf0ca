//! Paths of packages under test: the original package is cloned into a
//! working directory, and result paths are stripped back to package-relative
//! form.

use vstd::prelude::*;

use crate::text::str_eq;

verus! {

/// The directory name under which the original package is cloned.
pub const ORIGINAL_PACKAGE_PATH: &'static str = "original_package";

/// First position at or after `i` where the pattern occurs in the text (or
/// the text's length when it never does).
pub open spec fn spec_find_sub(s: Seq<char>, pat: Seq<char>, i: int) -> int
    decreases s.len() - i + 1,
{
    if i < 0 || i + pat.len() > s.len() {
        if i < 0 {
            0
        } else {
            s.len() as int
        }
    } else if s.subrange(i, i + pat.len() as int) == pat {
        i
    } else {
        spec_find_sub(s, pat, i + 1)
    }
}

fn match_at(s: &str, n: usize, pat: &str, m: usize, i: usize) -> (r: bool)
    requires
        n == s@.len(),
        m == pat@.len(),
        i + m <= n,
    ensures
        r == (s@.subrange(i as int, i + m as int) == pat@),
{
    let mut k: usize = 0;
    while k < m
        invariant
            n == s@.len(),
            m == pat@.len(),
            i + m <= n,
            k <= m,
            forall|t: int| 0 <= t < k ==> s@[i + t] == pat@[t],
        decreases m - k,
    {
        if s.get_char(i + k) != pat.get_char(k) {
            proof {
                assert(s@.subrange(i as int, i + m as int)[k as int] == s@[i + k]);
            }
            return false;
        }
        k += 1;
    }
    proof {
        assert(s@.subrange(i as int, i + m as int) =~= pat@);
    }
    true
}

/// Find the first occurrence of the pattern in the text.
pub fn find_substring(s: &str, pat: &str) -> (r: Option<usize>)
    ensures
        match r {
            Some(i) => i as int == spec_find_sub(s@, pat@, 0) && i + pat@.len() <= s@.len()
                && s@.subrange(i as int, i + pat@.len() as int) == pat@,
            None => forall|j: int|
                0 <= j && j + pat@.len() <= s@.len() ==> #[trigger] s@.subrange(
                    j,
                    j + pat@.len() as int,
                ) != pat@,
        },
{
    let n = s.unicode_len();
    let m = pat.unicode_len();
    if m == 0 {
        proof {
            assert(s@.subrange(0, 0) =~= pat@);
            assert(spec_find_sub(s@, pat@, 0) == 0);
        }
        return Some(0);
    }
    if m > n {
        proof {
            assert forall|j: int| 0 <= j && j + pat@.len() <= s@.len() implies #[trigger] s@.subrange(
                j,
                j + pat@.len() as int,
            ) != pat@ by {}
        }
        return None;
    }
    let mut i: usize = 0;
    while i <= n - m
        invariant
            n == s@.len(),
            m == pat@.len(),
            1 <= m <= n,
            i <= n - m + 1,
            spec_find_sub(s@, pat@, 0) == spec_find_sub(s@, pat@, i as int),
            forall|j: int|
                0 <= j < i ==> #[trigger] s@.subrange(j, j + pat@.len() as int) != pat@,
        decreases n - m - i + 1,
    {
        if match_at(s, n, pat, m, i) {
            proof {
                assert(spec_find_sub(s@, pat@, i as int) == i as int);
            }
            return Some(i);
        }
        proof {
            assert(spec_find_sub(s@, pat@, i as int) == spec_find_sub(s@, pat@, i + 1));
        }
        i += 1;
    }
    proof {
        assert forall|j: int| 0 <= j && j + pat@.len() <= s@.len() implies #[trigger] s@.subrange(
            j,
            j + pat@.len() as int,
        ) != pat@ by {
            assert(j < i);
        }
    }
    None
}

/// Strip the working-directory prefix from a result path, keeping only the
/// package-relative part after the cloned package directory and its path
/// separator. A path that does not contain the cloned package directory
/// (or ends right after it) is not a result path of this tool.
pub fn strip_path_prefix(path: &str) -> (r: Result<String, String>)
    ensures
        match r {
            Ok(p) => {
                let idx = spec_find_sub(path@, "original_package"@, 0);
                p@ == path@.subrange(idx + "original_package"@.len() + 1, path@.len() as int)
            },
            Err(m) => m@ == "original package path not found"@,
        },
{
    let n = path.unicode_len();
    match find_substring(path, ORIGINAL_PACKAGE_PATH) {
        None => Err("original package path not found".to_owned()),
        Some(idx) => {
            let plen = ORIGINAL_PACKAGE_PATH.unicode_len();
            if n - idx - plen == 0 {
                return Err("original package path not found".to_owned());
            }
            proof {
                assert(ORIGINAL_PACKAGE_PATH@ == "original_package"@);
            }
            Ok(path.substring_char(idx + plen + 1, n).to_owned())
        },
    }
}

} // verus!
