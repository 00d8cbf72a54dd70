//! Stable ordering of keyed items: lyric lines are carried as
//! `(start time, line)` pairs and sorted by start time, equal keys keeping
//! their original relative order.

use vstd::prelude::*;

verus! {

/// Nondecreasing by key.
pub open spec fn sorted_by_key<T>(s: Seq<(u64, T)>) -> bool {
    forall|a: int, b: int| 0 <= a < b < s.len() ==> s[a].0 <= s[b].0
}

/// The subsequence of pairs with key `k`, in order.
pub open spec fn filt<T>(s: Seq<(u64, T)>, k: u64) -> Seq<(u64, T)> {
    s.filter(|p: (u64, T)| p.0 == k)
}

/// A filter of elements that all fail the test is empty.
proof fn lemma_filt_none<T>(s: Seq<(u64, T)>, k: u64)
    requires
        forall|i: int| 0 <= i < s.len() ==> s[i].0 != k,
    ensures
        filt(s, k) == Seq::<(u64, T)>::empty(),
    decreases s.len(),
{
    reveal(Seq::filter);
    if s.len() > 0 {
        let s2 = s.drop_last();
        assert(forall|i: int| 0 <= i < s2.len() ==> s2[i].0 != k);
        lemma_filt_none(s2, k);
    }
}

/// The filter of a single pair.
proof fn lemma_filt_single<T>(x: (u64, T), k: u64)
    ensures
        x.0 == k ==> filt(seq![x], k) == seq![x],
        x.0 != k ==> filt(seq![x], k) == Seq::<(u64, T)>::empty(),
{
    reveal(Seq::filter);
    let s = seq![x];
    assert(s.drop_last() =~= Seq::<(u64, T)>::empty());
    assert(filt(s.drop_last(), k) == Seq::<(u64, T)>::empty());
    assert(s.last() == x);
}

/// Every element of a filtered subsequence is an element of the sequence.
proof fn lemma_filt_sub<T>(s: Seq<(u64, T)>, k: u64)
    ensures
        forall|i: int| 0 <= i < filt(s, k).len() ==> s.contains(#[trigger] filt(s, k)[i]),
    decreases s.len(),
{
    reveal(Seq::filter);
    if s.len() > 0 {
        let s2 = s.drop_last();
        lemma_filt_sub(s2, k);
        assert forall|i: int|
            0 <= i < filt(s, k).len() implies s.contains(#[trigger] filt(s, k)[i]) by {
            let f = filt(s, k);
            let f2 = filt(s2, k);
            if s.last().0 == k && i == f.len() - 1 {
                assert(f[i] == s.last());
                assert(s[s.len() - 1] == s.last());
            } else {
                assert(f[i] == f2[i]);
                assert(s2.contains(f2[i]));
                let j = choose|j: int| 0 <= j < s2.len() && s2[j] == f2[i];
                assert(s[j] == f2[i]);
            }
        }
    }
}

/// Sort the pairs by key, nondecreasing; pairs with equal keys keep their
/// original relative order. The filtered subsequence at every key is
/// unchanged, so the result holds exactly the input pairs.
#[verifier::loop_isolation(false)]
pub fn sort_pairs<T>(input: Vec<(u64, T)>) -> (r: Vec<(u64, T)>)
    ensures
        r@.len() == input@.len(),
        sorted_by_key(r@),
        forall|k: u64| #[trigger] filt(r@, k) == filt(input@, k),
        forall|i: int| 0 <= i < r@.len() ==> input@.contains(#[trigger] r@[i]),
{
    broadcast use Seq::filter_distributes_over_add;

    let mut out: Vec<(u64, T)> = Vec::new();
    let mut rest = input;
    proof {
        assert(out@ =~= Seq::<(u64, T)>::empty());
        assert forall|k: u64| #[trigger] filt(out@, k) + filt(rest@, k) == filt(input@, k) by {
            lemma_filt_none(out@, k);
            assert(filt(out@, k) + filt(rest@, k) =~= filt(rest@, k));
        }
    }
    while rest.len() > 0
        invariant
            sorted_by_key(out@),
            out@.len() + rest@.len() == input@.len(),
            forall|k: u64| #[trigger] filt(out@, k) + filt(rest@, k) == filt(input@, k),
        decreases rest@.len(),
    {
        let ghost old_out = out@;
        let ghost old_rest = rest@;
        let x = rest.remove(0);
        proof {
            assert(old_rest =~= seq![x] + rest@);
        }
        let mut p: usize = out.len();
        while p > 0 && out[p - 1].0 > x.0
            invariant
                0 <= p <= out@.len(),
                forall|q: int| p <= q < out@.len() ==> out@[q].0 > x.0,
            decreases p,
        {
            p = p - 1;
        }
        proof {
            assert(forall|q: int| 0 <= q < p ==> out@[q].0 <= x.0) by {
                if p > 0 {
                    assert(out@[p - 1].0 <= x.0);
                }
            }
        }
        out.insert(p, x);
        proof {
            let take = old_out.subrange(0, p as int);
            let skip = old_out.subrange(p as int, old_out.len() as int);
            assert(out@ =~= take + seq![x] + skip);
            assert(old_out =~= take + skip);
            assert(sorted_by_key(out@)) by {
                assert(forall|q: int| 0 <= q < p ==> out@[q] == old_out[q]);
                assert(forall|q: int| p < q < out@.len() ==> out@[q] == old_out[q - 1]);
            }
            assert forall|k: u64| #[trigger] filt(out@, k) + filt(rest@, k) == filt(input@, k) by {
                assert(filt(old_out, k) + filt(old_rest, k) == filt(input@, k));
                assert(filt(old_rest, k) == filt(seq![x] + rest@, k));
                assert(filt(seq![x] + rest@, k) == filt(seq![x], k) + filt(rest@, k));
                assert(filt(out@, k) == filt(take + seq![x] + skip, k));
                assert(filt(take + seq![x] + skip, k) == filt(take, k) + filt(seq![x], k) + filt(
                    skip,
                    k,
                ));
                assert(filt(old_out, k) == filt(take, k) + filt(skip, k));
                lemma_filt_single(x, k);
                if x.0 == k {
                    lemma_filt_none(skip, k);
                    assert(filt(out@, k) + filt(rest@, k) =~= filt(take, k) + filt(skip, k) + (filt(
                        seq![x],
                        k,
                    ) + filt(rest@, k)));
                } else {
                    assert(filt(out@, k) + filt(rest@, k) =~= filt(take, k) + filt(skip, k) + (filt(
                        seq![x],
                        k,
                    ) + filt(rest@, k)));
                }
            }
        }
    }
    proof {
        assert forall|k: u64| #[trigger] filt(out@, k) == filt(input@, k) by {
            lemma_filt_none(rest@, k);
            assert(filt(out@, k) + filt(rest@, k) =~= filt(out@, k));
        }
        assert(out@.len() == input@.len());
        assert forall|i: int| 0 <= i < out@.len() implies input@.contains(#[trigger] out@[i]) by {
            broadcast use vstd::seq_lib::group_filter_ensures;

            let p = out@[i];
            let k = p.0;
            assert(filt(out@, k).contains(p));
            lemma_filt_sub(input@, k);
            let j = choose|j: int| 0 <= j < filt(input@, k).len() && filt(input@, k)[j] == p;
            assert(input@.contains(filt(input@, k)[j]));
        }
    }
    out
}

} // verus!
