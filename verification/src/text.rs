//! Verified text search over character sequences: leftmost substring
//! search, whole-string comparison, and non-overlapping substring
//! replacement, each pinned to a specification-level definition.

use vstd::prelude::*;

verus! {

/// The pattern `pat` occurs in `s` starting at position `i`.
pub open spec fn match_at(s: Seq<char>, pat: Seq<char>, i: int) -> bool {
    0 <= i && i + pat.len() <= s.len() && s.subrange(i, i + pat.len() as int) == pat
}

/// Position of the leftmost occurrence of `pat` in `s`, if any.
pub open spec fn spec_find(s: Seq<char>, pat: Seq<char>) -> Option<int>
    decreases s.len(),
{
    if pat.len() > s.len() {
        None
    } else if s.subrange(0, pat.len() as int) == pat {
        Some(0)
    } else if s.len() == 0 {
        None
    } else {
        match spec_find(s.subrange(1, s.len() as int), pat) {
            Some(i) => Some(i + 1),
            None => None,
        }
    }
}

/// `spec_find` returns the position of the leftmost match, and `None`
/// exactly when no position matches.
pub proof fn lemma_find_characterisation(s: Seq<char>, pat: Seq<char>)
    ensures
        match spec_find(s, pat) {
            Some(i) => match_at(s, pat, i) && (forall|j: int| 0 <= j < i ==> !match_at(s, pat, j)),
            None => forall|j: int| !match_at(s, pat, j),
        },
    decreases s.len(),
{
    if pat.len() > s.len() {
        assert(forall|j: int| !match_at(s, pat, j));
    } else if s.subrange(0, pat.len() as int) == pat {
        assert(match_at(s, pat, 0));
    } else if s.len() == 0 {
        assert(forall|j: int| !match_at(s, pat, j));
    } else {
        let t = s.subrange(1, s.len() as int);
        lemma_find_characterisation(t, pat);
        assert forall|j: int| 1 <= j && j + pat.len() <= s.len() implies (match_at(s, pat, j)
            == match_at(t, pat, j - 1)) by {
            assert(t.subrange(j - 1, j - 1 + pat.len() as int) =~= s.subrange(
                j,
                j + pat.len() as int,
            ));
        }
        match spec_find(t, pat) {
            Some(i) => {
                assert(match_at(t, pat, i));
                assert(match_at(s, pat, i + 1));
                assert(!match_at(s, pat, 0));
                assert forall|j: int| 0 <= j < i + 1 implies !match_at(s, pat, j) by {
                    if 1 <= j {
                        assert(!match_at(t, pat, j - 1));
                    }
                }
            },
            None => {
                assert forall|j: int| true implies !match_at(s, pat, j) by {
                    if 1 <= j && j + pat.len() <= s.len() {
                        assert(!match_at(t, pat, j - 1));
                    }
                }
            },
        }
    }
}

/// The converse direction: a leftmost match at `i` pins `spec_find`.
pub proof fn lemma_find_of_leftmost_match(s: Seq<char>, pat: Seq<char>, i: int)
    requires
        match_at(s, pat, i),
        forall|j: int| 0 <= j < i ==> !match_at(s, pat, j),
    ensures
        spec_find(s, pat) == Some(i),
{
    lemma_find_characterisation(s, pat);
    match spec_find(s, pat) {
        Some(k) => {
            if k < i {
                assert(!match_at(s, pat, k));
            }
            if i < k {
                assert(!match_at(s, pat, i));
            }
        },
        None => {
            assert(!match_at(s, pat, i));
        },
    }
}

/// Compares `pat` against `s` at position `i`, character by character.
fn match_at_exec(s: &str, pat: &str, i: usize) -> (r: bool)
    requires
        i + pat@.len() <= s@.len(),
        s@.len() <= usize::MAX,
    ensures
        r == match_at(s@, pat@, i as int),
{
    let m = pat.unicode_len();
    let mut j: usize = 0;
    while j < m
        invariant
            0 <= j <= m,
            m == pat@.len(),
            i + m <= s@.len(),
            s@.len() <= usize::MAX,
            forall|k: int| 0 <= k < j ==> s@[i + k] == pat@[k],
        decreases m - j,
    {
        if s.get_char(i + j) != pat.get_char(j) {
            assert(s@.subrange(i as int, i + m) != pat@) by {
                assert(s@.subrange(i as int, i + m)[j as int] == s@[i + j]);
            }
            return false;
        }
        j = j + 1;
    }
    assert(s@.subrange(i as int, i + m) =~= pat@);
    true
}

/// Position of the leftmost occurrence of `pat` in `s`, if any.
pub fn find_str(s: &str, pat: &str) -> (r: Option<usize>)
    ensures
        match r {
            Some(i) => spec_find(s@, pat@) == Some(i as int),
            None => spec_find(s@, pat@) is None,
        },
{
    let n = s.unicode_len();
    let m = pat.unicode_len();
    if m > n {
        proof {
            lemma_find_characterisation(s@, pat@);
            if spec_find(s@, pat@) is Some {
                assert(match_at(s@, pat@, spec_find(s@, pat@)->0));
            }
        }
        return None;
    }
    if m == 0 {
        proof {
            assert(s@.subrange(0, 0) =~= pat@);
            assert(match_at(s@, pat@, 0));
            lemma_find_of_leftmost_match(s@, pat@, 0);
        }
        return Some(0);
    }
    let mut i: usize = 0;
    while i <= n - m
        invariant
            0 <= i <= n - m + 1,
            1 <= m <= n,
            n == s@.len(),
            m == pat@.len(),
            forall|j: int| 0 <= j < i ==> !match_at(s@, pat@, j),
        decreases n - i,
    {
        if match_at_exec(s, pat, i) {
            proof {
                lemma_find_of_leftmost_match(s@, pat@, i as int);
            }
            return Some(i);
        }
        i = i + 1;
    }
    proof {
        lemma_find_characterisation(s@, pat@);
        match spec_find(s@, pat@) {
            Some(k) => {
                assert(match_at(s@, pat@, k));
                assert(k < i);
            },
            None => {},
        }
    }
    None
}


/// Whether two strings hold the same characters.
pub fn str_eq(a: &str, b: &str) -> (r: bool)
    ensures
        r == (a@ == b@),
{
    let n = a.unicode_len();
    let m = b.unicode_len();
    if n != m {
        return false;
    }
    let r = match_at_exec(a, b, 0);
    proof {
        assert(a@.subrange(0, n as int) =~= a@);
        if a@ == b@ {
            assert(match_at(a@, b@, 0));
        }
    }
    r
}

/// `s` with every non-overlapping leftmost occurrence of `pat` replaced by
/// `rep`; replaced text is not scanned again.
pub open spec fn spec_replace(s: Seq<char>, pat: Seq<char>, rep: Seq<char>) -> Seq<char>
    decreases s.len(),
    when pat.len() >= 1
    via spec_replace_decreases
{
    match spec_find(s, pat) {
        Some(k) => s.subrange(0, k) + rep + spec_replace(
            s.subrange(k + pat.len() as int, s.len() as int),
            pat,
            rep,
        ),
        None => s,
    }
}

#[via_fn]
proof fn spec_replace_decreases(s: Seq<char>, pat: Seq<char>, rep: Seq<char>) {
    lemma_find_characterisation(s, pat);
}

/// Replaces every non-overlapping leftmost occurrence of `pat` in `s` by
/// `rep`.
pub fn replace_str(s: &str, pat: &str, rep: &str) -> (r: String)
    requires
        pat@.len() >= 1,
    ensures
        r@ == spec_replace(s@, pat@, rep@),
{
    let mut out = String::new();
    let mut rest: &str = s;
    proof {
        assert(out@ + spec_replace(rest@, pat@, rep@) =~= spec_replace(s@, pat@, rep@));
    }
    loop
        invariant
            pat@.len() >= 1,
            out@ + spec_replace(rest@, pat@, rep@) == spec_replace(s@, pat@, rep@),
        decreases rest@.len(),
    {
        let ghost old_out = out@;
        let ghost old_rest = rest@;
        match find_str(rest, pat) {
            Some(k) => {
                proof {
                    lemma_find_characterisation(rest@, pat@);
                }
                let head = rest.substring_char(0, k);
                out.append(head);
                out.append(rep);
                let n = rest.unicode_len();
                let m = pat.unicode_len();
                rest = rest.substring_char(k + m, n);
                proof {
                    assert(spec_replace(old_rest, pat@, rep@) == old_rest.subrange(0, k as int)
                        + rep@ + spec_replace(rest@, pat@, rep@));
                    assert(out@ + spec_replace(rest@, pat@, rep@) =~= old_out + spec_replace(
                        old_rest,
                        pat@,
                        rep@,
                    ));
                }
            },
            None => {
                out.append(rest);
                proof {
                    assert(out@ =~= old_out + old_rest);
                }
                return out;
            },
        }
    }
}

} // verus!
