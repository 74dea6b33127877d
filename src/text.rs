//! Replacing every occurrence of a pattern in a string, as the page and path
//! helpers need it.
use vstd::prelude::*;
use vstd::string::StrSliceExecFns;

verus! {

/// `s` with each occurrence of `pat` replaced by `rep`, scanning from the left
/// and never overlapping two occurrences. An empty pattern changes nothing.
pub open spec fn replaced(s: Seq<char>, pat: Seq<char>, rep: Seq<char>) -> Seq<char>
    decreases s.len(),
{
    if s.len() == 0 {
        Seq::empty()
    } else if pat.len() > 0 && pat.len() <= s.len() && s.subrange(0, pat.len() as int) == pat {
        rep + replaced(s.subrange(pat.len() as int, s.len() as int), pat, rep)
    } else {
        seq![s[0]] + replaced(s.drop_first(), pat, rep)
    }
}

/// Whether `pat` occurs in `s` at position `i`.
fn occurs_at(s: &str, n: usize, i: usize, pat: &str, m: usize) -> (r: bool)
    requires
        n == s@.len(),
        m == pat@.len(),
        i <= n,
    ensures
        r == (m <= n - i && s@.subrange(i as int, i + m) == pat@),
{
    if m > n - i {
        return false;
    }
    let mut j: usize = 0;
    while j < m
        invariant
            j <= m,
            m <= n - i,
            n == s@.len(),
            m == pat@.len(),
            forall|k: int| 0 <= k < j ==> s@[i + k] == pat@[k],
        decreases m - j,
    {
        if s.get_char(i + j) != pat.get_char(j) {
            assert(s@.subrange(i as int, i + m)[j as int] != pat@[j as int]);
            return false;
        }
        j = j + 1;
    }
    assert(s@.subrange(i as int, i + m) =~= pat@);
    true
}

/// Replaces every occurrence of `pat` in `s` by `rep`, left to right.
pub fn replace_all(s: &str, pat: &str, rep: &str) -> (r: String)
    ensures
        r@ == replaced(s@, pat@, rep@),
{
    let n = s.unicode_len();
    let m = pat.unicode_len();
    let mut out = String::new();
    let mut i: usize = 0;
    assert(out@ + replaced(s@.subrange(0, n as int), pat@, rep@) =~= replaced(s@, pat@, rep@)) by {
        assert(s@.subrange(0, n as int) =~= s@);
    }
    while i < n
        invariant
            i <= n,
            n == s@.len(),
            m == pat@.len(),
            out@ + replaced(s@.subrange(i as int, n as int), pat@, rep@) == replaced(s@, pat@, rep@),
        decreases n - i,
    {
        let ghost tail = s@.subrange(i as int, n as int);
        if m > 0 && occurs_at(s, n, i, pat, m) {
            assert(tail.subrange(0, m as int) =~= s@.subrange(i as int, i + m));
            assert(tail.subrange(m as int, tail.len() as int) =~= s@.subrange(i + m, n as int));
            assert(replaced(tail, pat@, rep@) == rep@ + replaced(s@.subrange(i + m, n as int), pat@, rep@));
            out.append(rep);
            assert(out@ + replaced(s@.subrange(i + m, n as int), pat@, rep@) =~= replaced(s@, pat@, rep@));
            i = i + m;
        } else {
            let one = s.substring_char(i, i + 1);
            proof {
                if m > 0 && m <= tail.len() {
                    assert(tail.subrange(0, m as int) =~= s@.subrange(i as int, i + m));
                }
                assert(tail.drop_first() =~= s@.subrange(i + 1, n as int));
                assert(one@ =~= seq![tail[0]]);
            }
            out.append(one);
            assert(out@ + replaced(s@.subrange(i + 1, n as int), pat@, rep@) =~= replaced(s@, pat@, rep@));
            i = i + 1;
        }
    }
    assert(s@.subrange(n as int, n as int) =~= Seq::<char>::empty());
    assert(out@ + Seq::<char>::empty() =~= out@);
    out
}

} // verus!
