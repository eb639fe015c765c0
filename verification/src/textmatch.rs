use vstd::prelude::*;
use crate::text::{lower_of, lowercase};
use crate::json_text::str_to_chars;

verus! {

/// Whether the needle stands verbatim at position `i` of the haystack.
pub open spec fn match_at(h: Seq<char>, n: Seq<char>, i: int) -> bool {
    0 <= i && i + n.len() <= h.len() && h.subrange(i, i + n.len()) == n
}

/// Whether the haystack holds the needle anywhere.
pub open spec fn contains_sub(h: Seq<char>, n: Seq<char>) -> bool {
    exists|i: int| match_at(h, n, i)
}

/// Whether a term occurs in a piece of content, compared case-folded.
pub open spec fn kw_matches(content: Option<Seq<char>>, kw: Seq<char>) -> bool {
    match content {
        None => false,
        Some(c) => contains_sub(lower_of(c), lower_of(kw)),
    }
}

/// How many of the terms from index `i` on occur in the content.
pub open spec fn matched_count(content: Option<Seq<char>>, kws: Seq<Seq<char>>, i: int) -> int
    decreases kws.len() - i when 0 <= i <= kws.len()
{
    if i >= kws.len() {
        0
    } else {
        (if kw_matches(content, kws[i]) {
            1int
        } else {
            0int
        }) + matched_count(content, kws, i + 1)
    }
}

pub proof fn lemma_matched_count_bounds(content: Option<Seq<char>>, kws: Seq<Seq<char>>, i: int)
    requires
        0 <= i <= kws.len(),
    ensures
        0 <= matched_count(content, kws, i) <= kws.len() - i,
    decreases kws.len() - i,
{
    if i < kws.len() {
        lemma_matched_count_bounds(content, kws, i + 1);
    }
}

/// The relevance rank of a piece of content for a list of terms: how many
/// of the terms it holds, saturated at the widest representable rank.
pub open spec fn rank_of(content: Option<Seq<char>>, kws: Seq<Seq<char>>) -> int {
    if matched_count(content, kws, 0) > i64::MAX {
        i64::MAX as int
    } else {
        matched_count(content, kws, 0)
    }
}

/// Whether two character vectors are equal from `hi` and `ni` on, for
/// `len` characters.
fn range_eq(h: &Vec<char>, n: &Vec<char>, hi: usize) -> (r: bool)
    requires
        hi + n@.len() <= h@.len(),
    ensures
        r == (h@.subrange(hi as int, hi + n@.len()) == n@),
{
    let hlen = h.len();
    let mut k: usize = 0;
    while k < n.len()
        invariant
            k <= n@.len(),
            hlen == h@.len(),
            hi + n@.len() <= hlen,
            forall|t: int| 0 <= t < k ==> h@[hi + t] == n@[t],
        decreases n@.len() - k,
    {
        if h[hi + k] != n[k] {
            proof {
                let sub = h@.subrange(hi as int, hi + n@.len());
                assert(sub[k as int] == h@[hi + k]);
                assert(sub != n@);
            }
            return false;
        }
        k = k + 1;
    }
    proof {
        assert(h@.subrange(hi as int, hi + n@.len()) =~= n@);
    }
    true
}

/// Whether the haystack holds the needle anywhere.
pub fn contains_exec(h: &Vec<char>, n: &Vec<char>) -> (r: bool)
    ensures
        r == contains_sub(h@, n@),
{
    if n.len() > h.len() {
        proof {
            assert forall|i: int| !match_at(h@, n@, i) by {}
        }
        return false;
    }
    if n.len() == 0 {
        proof {
            assert(h@.subrange(0, 0) =~= n@);
            assert(match_at(h@, n@, 0));
        }
        return true;
    }
    let hlen = h.len();
    let mut p: usize = 0;
    while p <= hlen - n.len()
        invariant
            hlen == h@.len(),
            1 <= n@.len() <= h@.len(),
            p <= h@.len() - n@.len() + 1,
            forall|t: int| 0 <= t < p ==> !match_at(h@, n@, t),
        decreases h@.len() - n@.len() + 1 - p,
    {
        if range_eq(h, n, p) {
            proof {
                assert(match_at(h@, n@, p as int));
            }
            return true;
        }
        p = p + 1;
    }
    proof {
        assert forall|i: int| !match_at(h@, n@, i) by {
            if 0 <= i <= h@.len() - n@.len() {
                assert(!match_at(h@, n@, i));
            }
        }
    }
    false
}

/// Whether a term occurs in a piece of content, compared case-folded.
pub fn kw_matches_exec(content: &Option<String>, kw: &str) -> (r: bool)
    ensures
        r == kw_matches(crate::codec::view_os(*content), kw@),
{
    match content {
        None => false,
        Some(c) => {
            let cl = lowercase(c.as_str());
            let kl = lowercase(kw);
            let ch = str_to_chars(cl.as_str());
            let kn = str_to_chars(kl.as_str());
            contains_exec(&ch, &kn)
        },
    }
}

} // verus!
