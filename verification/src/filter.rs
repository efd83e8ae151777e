//! Substring filtering.
//!
//! `find_contains` returns copies of the entries of a haystack that contain
//! a needle as a contiguous substring, in the haystack's own order. The
//! containment test is literal and case-sensitive, character by character;
//! the empty needle occurs in every string.

use vstd::prelude::*;

verus! {

/// `needle` occurs in `hay` as a contiguous run of characters.
pub open spec fn contains_seq(hay: Seq<char>, needle: Seq<char>) -> bool {
    exists|i: int|
        0 <= i && i + needle.len() <= hay.len() && #[trigger] hay.subrange(i, i + needle.len())
            == needle
}

/// The entries of `hays` that contain `needle`, in their original order.
pub open spec fn matches_of(hays: Seq<Seq<char>>, needle: Seq<char>) -> Seq<Seq<char>> {
    hays.filter(|h: Seq<char>| contains_seq(h, needle))
}

/// Whether `needle` occurs in `hay` starting exactly at position `at`.
fn match_at(hay: &str, needle: &str, at: usize) -> (r: bool)
    requires
        at + needle@.len() <= hay@.len(),
        hay@.len() <= usize::MAX,
    ensures
        r == (hay@.subrange(at as int, at + needle@.len()) == needle@),
{
    let n = needle.unicode_len();
    let ghost window = hay@.subrange(at as int, at + needle@.len());
    let mut j: usize = 0;
    while j < n
        invariant
            n == needle@.len(),
            at + n <= hay@.len(),
            hay@.len() <= usize::MAX,
            window == hay@.subrange(at as int, at + needle@.len()),
            0 <= j <= n,
            forall|k: int| 0 <= k < j ==> hay@[at + k] == needle@[k],
        decreases n - j,
    {
        if hay.get_char(at + j) != needle.get_char(j) {
            proof {
                assert(window[j as int] != needle@[j as int]);
            }
            return false;
        }
        j += 1;
    }
    proof {
        assert(window =~= needle@);
    }
    true
}

/// Whether `needle` occurs as a contiguous substring of `hay`.
pub fn contains_substring(hay: &str, needle: &str) -> (r: bool)
    ensures
        r == contains_seq(hay@, needle@),
{
    let hl = hay.unicode_len();
    let nl = needle.unicode_len();
    if nl == 0 {
        proof {
            assert(hay@.subrange(0, 0 + needle@.len() as int) =~= needle@);
        }
        return true;
    }
    if nl > hl {
        return false;
    }
    let mut i: usize = 0;
    while i <= hl - nl
        invariant
            hl == hay@.len(),
            nl == needle@.len(),
            0 < nl <= hl,
            0 <= i <= hl - nl + 1,
            forall|k: int| 0 <= k < i ==> #[trigger] hay@.subrange(k, k + nl) != needle@,
        decreases hl - nl + 1 - i,
    {
        if match_at(hay, needle, i) {
            return true;
        }
        i += 1;
    }
    proof {
        assert forall|k: int| 0 <= k && k + needle@.len() <= hay@.len() implies #[trigger] hay@.subrange(
            k,
            k + needle@.len(),
        ) != needle@ by {
            assert(hay@.subrange(k, k + nl) != needle@);
        }
    }
    false
}

/// `xs` can be had from `ys` by deleting entries, keeping the order of the
/// rest.
pub open spec fn is_subsequence_of<A>(xs: Seq<A>, ys: Seq<A>) -> bool
    decreases xs.len() + ys.len(),
{
    if xs.len() == 0 {
        true
    } else if ys.len() == 0 {
        false
    } else {
        (xs.last() == ys.last() && is_subsequence_of(xs.drop_last(), ys.drop_last()))
            || is_subsequence_of(xs, ys.drop_last())
    }
}

proof fn lemma_filter_is_subsequence<A>(s: Seq<A>, pred: spec_fn(A) -> bool)
    ensures
        is_subsequence_of(s.filter(pred), s),
    decreases s.len(),
{
    reveal(Seq::filter);
    if s.len() > 0 {
        lemma_filter_is_subsequence(s.drop_last(), pred);
        if pred(s.last()) {
            let f = s.drop_last().filter(pred).push(s.last());
            assert(f.drop_last() =~= s.drop_last().filter(pred));
            assert(f.last() == s.last());
        }
    }
}

/// Order preservation: the matching entries form a subsequence of the
/// haystack — they appear in their original order, with nothing reordered
/// and nothing invented.
pub proof fn lemma_matches_are_subsequence(hays: Seq<Seq<char>>, needle: Seq<char>)
    ensures
        is_subsequence_of(matches_of(hays, needle), hays),
{
    lemma_filter_is_subsequence(hays, |h: Seq<char>| contains_seq(h, needle));
}

proof fn lemma_matches_push(hays: Seq<Seq<char>>, needle: Seq<char>, h: Seq<char>)
    ensures
        matches_of(hays.push(h), needle) == if contains_seq(h, needle) {
            matches_of(hays, needle).push(h)
        } else {
            matches_of(hays, needle)
        },
{
    reveal(Seq::filter);
    assert(hays.push(h).drop_last() =~= hays);
    assert(hays.push(h).last() == h);
}

/// Every entry of `haystack` that contains `needle`, copied in the
/// haystack's own order.
pub fn find_contains(haystack: &[&str], needle: &str) -> (r: Vec<String>)
    ensures
        r.deep_view() == matches_of(haystack.deep_view(), needle@),
{
    let mut ret: Vec<String> = Vec::new();
    let n = haystack.len();
    proof {
        reveal(Seq::filter);
        assert(haystack.deep_view().take(0) =~= Seq::<Seq<char>>::empty());
        assert(ret.deep_view() =~= Seq::<Seq<char>>::empty());
    }
    let mut idx: usize = 0;
    while idx < n
        invariant
            n == haystack@.len(),
            0 <= idx <= n,
            ret.deep_view() == matches_of(haystack.deep_view().take(idx as int), needle@),
        decreases n - idx,
    {
        let strand: &str = haystack[idx];
        let ghost seen = haystack.deep_view().take(idx as int);
        proof {
            assert(haystack.deep_view().take(idx + 1) =~= seen.push(strand@));
            lemma_matches_push(seen, needle@, strand@);
        }
        if contains_substring(strand, needle) {
            let ghost before = ret.deep_view();
            ret.push(String::from_str(strand));
            proof {
                assert(ret.deep_view() =~= before.push(strand@));
            }
        }
        idx += 1;
    }
    proof {
        assert(haystack.deep_view().take(n as int) =~= haystack.deep_view());
    }
    ret
}

} // verus!
