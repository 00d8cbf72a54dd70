//! Character-sequence utilities: conversion from `&str`, substring search,
//! whitespace trimming, line splitting and joining.

use vstd::prelude::*;

verus! {

use vstd::std_specs::iter::IteratorSpec;

/// The needle occurs in `hay` starting at position `i`.
pub open spec fn matches_at(hay: Seq<char>, needle: Seq<char>, i: int) -> bool {
    &&& 0 <= i
    &&& i + needle.len() <= hay.len()
    &&& hay.subrange(i, i + needle.len() as int) == needle
}

/// The needle occurs somewhere in `hay`.
pub open spec fn contains_seq(hay: Seq<char>, needle: Seq<char>) -> bool {
    exists|i: int| matches_at(hay, needle, i)
}

/// Collect the characters of a string slice.
pub fn chars_of(s: &str) -> (r: Vec<char>)
    ensures
        r@ == s@,
{
    broadcast use vstd::string::axiom_spec_iter;
    broadcast use vstd::string::next_postcondition;

    let mut it = s.chars();
    let mut r: Vec<char> = Vec::new();
    loop
        invariant
            it.obeys_prophetic_iter_laws(),
            it.decrease() is Some,
            r@ + it.remaining() == s@,
        decreases it.decrease()->0,
    {
        match it.next() {
            Some(c) => {
                r.push(c);
            },
            None => {
                assert(r@ + it.remaining() =~= r@);
                return r;
            },
        }
    }
}

/// Do the two character vectors hold the same characters?
#[verifier::loop_isolation(false)]
pub fn eq_chars(a: &Vec<char>, b: &Vec<char>) -> (r: bool)
    ensures
        r == (a@ == b@),
{
    if a.len() != b.len() {
        assert(a@ != b@);
        return false;
    }
    let mut i: usize = 0;
    while i < a.len()
        invariant
            0 <= i <= a.len(),
            a.len() == b.len(),
            forall|j: int| 0 <= j < i ==> a@[j] == b@[j],
        decreases a.len() - i,
    {
        if a[i] != b[i] {
            return false;
        }
        i = i + 1;
    }
    assert(a@ =~= b@);
    true
}

/// Does the needle occur in `hay` at position `i`?
#[verifier::loop_isolation(false)]
pub fn check_match_at(hay: &Vec<char>, needle: &Vec<char>, i: usize) -> (r: bool)
    requires
        i + needle@.len() <= hay@.len(),
    ensures
        r == matches_at(hay@, needle@, i as int),
{
    let hlen = hay.len();
    let mut j: usize = 0;
    while j < needle.len()
        invariant
            0 <= j <= needle.len(),
            i + needle@.len() <= hay@.len(),
            hlen == hay@.len(),
            forall|k: int| 0 <= k < j ==> hay@[i + k] == needle@[k],
        decreases needle.len() - j,
    {
        if hay[i + j] != needle[j] {
            proof {
                let sub = hay@.subrange(i as int, i + needle@.len() as int);
                assert(sub[j as int] != needle@[j as int]);
            }
            return false;
        }
        j = j + 1;
    }
    assert(hay@.subrange(i as int, i + needle@.len() as int) =~= needle@);
    true
}

/// Find the first occurrence of `needle` in `hay` at or after `from`.
#[verifier::loop_isolation(false)]
pub fn find_from(hay: &Vec<char>, needle: &Vec<char>, from: usize) -> (r: Option<usize>)
    ensures
        match r {
            Some(p) => {
                &&& from <= p
                &&& matches_at(hay@, needle@, p as int)
                &&& forall|j: int| from <= j < p ==> !matches_at(hay@, needle@, j)
            },
            None => forall|j: int| from <= j ==> !matches_at(hay@, needle@, j),
        },
{
    if needle.len() > hay.len() {
        return None;
    }
    if needle.len() == 0 {
        if from <= hay.len() {
            assert(hay@.subrange(from as int, from as int) =~= needle@);
            return Some(from);
        } else {
            return None;
        }
    }
    let limit = hay.len() - needle.len();
    let mut i: usize = from;
    while i <= limit
        invariant
            1 <= needle@.len() <= hay@.len(),
            limit == hay@.len() - needle@.len(),
            from <= i,
            forall|j: int| from <= j < i ==> !matches_at(hay@, needle@, j),
        decreases limit + 1 - i,
    {
        if check_match_at(hay, needle, i) {
            return Some(i);
        }
        i = i + 1;
    }
    None
}

/// Does `needle` occur anywhere in `hay`?
pub fn contains_chars(hay: &Vec<char>, needle: &Vec<char>) -> (r: bool)
    ensures
        r == contains_seq(hay@, needle@),
{
    match find_from(hay, needle, 0) {
        Some(_) => true,
        None => false,
    }
}

/// Characters stripped from the ends of a field value.
pub open spec fn is_space(c: char) -> bool {
    c == ' ' || c == '\t' || c == '\r' || c == '\n'
}

/// `r` is `v` with the subrange `[a, b)` kept: everything outside it is
/// whitespace and the ends of the kept part are not.
pub open spec fn trimmed_with(r: Seq<char>, v: Seq<char>, a: int, b: int) -> bool {
    &&& 0 <= a <= b <= v.len()
    &&& r == v.subrange(a, b)
    &&& (forall|j: int| 0 <= j < a ==> is_space(v[j]))
    &&& (forall|j: int| b <= j < v.len() ==> is_space(v[j]))
    &&& (a < b ==> !is_space(v[a]) && !is_space(v[b - 1]))
}

/// The trimmed form of `v`. The conditions pin the result to one value.
pub open spec fn is_trimmed_of(r: Seq<char>, v: Seq<char>) -> bool {
    exists|a: int, b: int| trimmed_with(r, v, a, b)
}

/// Executable test matching `is_space`.
pub fn space_char(c: char) -> (r: bool)
    ensures
        r == is_space(c),
{
    c == ' ' || c == '\t' || c == '\r' || c == '\n'
}

/// Strip leading and trailing whitespace characters.
#[verifier::loop_isolation(false)]
pub fn trim_chars(v: &Vec<char>) -> (r: Vec<char>)
    ensures
        is_trimmed_of(r@, v@),
{
    let mut a: usize = 0;
    while a < v.len() && space_char(v[a])
        invariant
            0 <= a <= v.len(),
            forall|j: int| 0 <= j < a ==> is_space(v@[j]),
        decreases v.len() - a,
    {
        a = a + 1;
    }
    let mut b: usize = v.len();
    while b > a && space_char(v[b - 1])
        invariant
            a <= b <= v.len(),
            forall|j: int| b <= j < v.len() ==> is_space(v@[j]),
        decreases b,
    {
        b = b - 1;
    }
    let mut r: Vec<char> = Vec::new();
    let mut i: usize = a;
    proof {
        assert(r@ =~= v@.subrange(a as int, a as int));
    }
    while i < b
        invariant
            a <= i <= b <= v.len(),
            r@ == v@.subrange(a as int, i as int),
        decreases b - i,
    {
        r.push(v[i]);
        assert(r@ =~= v@.subrange(a as int, i + 1));
        i = i + 1;
    }
    proof {
        assert(trimmed_with(r@, v@, a as int, b as int));
    }
    r
}

/// A carriage return at the end of the last line is dropped: it belonged
/// to a `"\r\n"` line ending.
pub open spec fn strip_last_cr(p: Seq<Seq<char>>) -> Seq<Seq<char>> {
    if p.len() > 0 && p.last().len() > 0 && p.last().last() == '\r' {
        p.update(p.len() - 1, p.last().drop_last())
    } else {
        p
    }
}

/// The lines of `s`: maximal runs of characters between `'\n'` separators,
/// the separators not kept; a line ending in `"\r\n"` loses that carriage
/// return too, as `str::lines` does. Empty text has one empty line.
pub open spec fn spec_lines(s: Seq<char>) -> Seq<Seq<char>>
    decreases s.len(),
{
    if s.len() == 0 {
        seq![Seq::<char>::empty()]
    } else if s.last() == '\n' {
        strip_last_cr(spec_lines(s.drop_last())).push(Seq::<char>::empty())
    } else {
        let p = spec_lines(s.drop_last());
        p.update(p.len() - 1, p.last().push(s.last()))
    }
}

/// There is always at least one line.
pub proof fn lemma_lines_nonempty(s: Seq<char>)
    ensures
        spec_lines(s).len() >= 1,
    decreases s.len(),
{
    if s.len() > 0 {
        lemma_lines_nonempty(s.drop_last());
    }
}

/// The views of a vector of character vectors.
pub open spec fn deep_of(s: Seq<Vec<char>>) -> Seq<Seq<char>> {
    Seq::new(s.len(), |i: int| s[i]@)
}

/// Pushing a vector extends the views by its view.
pub proof fn lemma_deep_of_push(pre: Seq<Vec<char>>, post: Seq<Vec<char>>, x: Seq<char>)
    requires
        post.len() == pre.len() + 1,
        forall|k: int| 0 <= k < pre.len() ==> post[k] == pre[k],
        post.last()@ == x,
    ensures
        deep_of(post) == deep_of(pre).push(x),
{
    assert(deep_of(post) =~= deep_of(pre).push(x));
}

/// Split into lines at `'\n'`; the separator is not kept.
#[verifier::loop_isolation(false)]
pub fn split_lines(v: &Vec<char>) -> (r: Vec<Vec<char>>)
    ensures
        deep_of(r@) == spec_lines(v@),
{
    let mut out: Vec<Vec<char>> = Vec::new();
    let mut cur: Vec<char> = Vec::new();
    let mut i: usize = 0;
    proof {
        assert(v@.subrange(0, 0) =~= Seq::<char>::empty());
        assert(deep_of(out@).push(cur@) =~= spec_lines(v@.subrange(0, 0)));
    }
    while i < v.len()
        invariant
            0 <= i <= v.len(),
            deep_of(out@).push(cur@) == spec_lines(v@.subrange(0, i as int)),
        decreases v.len() - i,
    {
        let ghost t = spec_lines(v@.subrange(0, i as int));
        let ghost old_cur = cur@;
        proof {
            let nxt = v@.subrange(0, i + 1);
            assert(nxt.drop_last() =~= v@.subrange(0, i as int));
            assert(nxt.last() == v@[i as int]);
        }
        let c = v[i];
        if c == '\n' {
            if cur.len() > 0 && cur[cur.len() - 1] == '\r' {
                cur.pop();
            }
            proof {
                assert(t.last() == old_cur);
                if old_cur.len() > 0 && old_cur.last() == '\r' {
                    assert(cur@ == old_cur.drop_last());
                    assert(strip_last_cr(t) =~= deep_of(out@).push(cur@));
                } else {
                    assert(cur@ == old_cur);
                    assert(strip_last_cr(t) == t);
                }
            }
            let ghost pre = out@;
            let ghost cur_view = cur@;
            out.push(cur);
            cur = Vec::new();
            proof {
                lemma_deep_of_push(pre, out@, cur_view);
                assert(spec_lines(v@.subrange(0, i + 1)) == strip_last_cr(t).push(
                    Seq::<char>::empty(),
                ));
                assert(deep_of(out@).push(cur@) =~= strip_last_cr(t).push(Seq::<char>::empty()));
            }
        } else {
            proof {
                lemma_lines_nonempty(v@.subrange(0, i as int));
                assert(t.last() == cur@);
                assert(spec_lines(v@.subrange(0, i + 1)) == t.update(
                    t.len() - 1,
                    cur@.push(v@[i as int]),
                ));
                assert(deep_of(out@).push(cur@.push(v@[i as int])) =~= t.update(
                    t.len() - 1,
                    cur@.push(v@[i as int]),
                ));
            }
            cur.push(c);
        }
        i = i + 1;
    }
    proof {
        assert(v@.subrange(0, v@.len() as int) =~= v@);
    }
    let ghost pre = out@;
    let ghost cur_view = cur@;
    out.push(cur);
    proof {
        lemma_deep_of_push(pre, out@, cur_view);
    }
    out
}

/// The lines joined with `'\n'` between them.
pub open spec fn spec_join(ls: Seq<Seq<char>>) -> Seq<char>
    decreases ls.len(),
{
    if ls.len() == 0 {
        seq![]
    } else if ls.len() == 1 {
        ls[0]
    } else {
        spec_join(ls.drop_last()) + seq!['\n'] + ls.last()
    }
}

/// Appending one line extends the join by a separator and that line.
pub proof fn lemma_join_push(ls: Seq<Seq<char>>, x: Seq<char>)
    ensures
        spec_join(ls.push(x)) == if ls.len() == 0 {
            x
        } else {
            spec_join(ls) + seq!['\n'] + x
        },
{
    let p = ls.push(x);
    if ls.len() == 0 {
        assert(p.len() == 1);
        assert(p[0] == x);
    } else {
        assert(p.drop_last() =~= ls);
        assert(p.last() == x);
    }
}

/// Join lines with single `'\n'` separators.
#[verifier::loop_isolation(false)]
pub fn join_lines(ls: &Vec<Vec<char>>) -> (r: Vec<char>)
    ensures
        r@ == spec_join(deep_of(ls@)),
{
    let mut r: Vec<char> = Vec::new();
    let mut i: usize = 0;
    proof {
        assert(deep_of(ls@).subrange(0, 0) =~= Seq::<Seq<char>>::empty());
    }
    while i < ls.len()
        invariant
            0 <= i <= ls.len(),
            r@ == spec_join(deep_of(ls@).subrange(0, i as int)),
        decreases ls.len() - i,
    {
        let ghost prefix = deep_of(ls@).subrange(0, i as int);
        if i > 0 {
            r.push('\n');
        }
        let ghost mid = r@;
        let line = &ls[i];
        let mut j: usize = 0;
        while j < line.len()
            invariant
                0 <= j <= line.len(),
                r@ == mid + line@.subrange(0, j as int),
            decreases line.len() - j,
        {
            r.push(line[j]);
            assert(r@ =~= mid + line@.subrange(0, j + 1));
            j = j + 1;
        }
        proof {
            lemma_join_push(prefix, deep_of(ls@)[i as int]);
            assert(deep_of(ls@).subrange(0, i + 1) =~= prefix.push(deep_of(ls@)[i as int]));
            assert(line@.subrange(0, line@.len() as int) =~= line@);
            if i == 0 {
                assert(r@ =~= deep_of(ls@)[0]);
            } else {
                assert(r@ =~= spec_join(prefix) + seq!['\n'] + deep_of(ls@)[i as int]);
            }
        }
        i = i + 1;
    }
    proof {
        assert(deep_of(ls@).subrange(0, deep_of(ls@).len() as int) =~= deep_of(ls@));
    }
    r
}


/// The trimming conditions pin the result: two trimmed forms of one text
/// are equal.
pub proof fn lemma_trim_unique(r1: Seq<char>, r2: Seq<char>, v: Seq<char>)
    requires
        is_trimmed_of(r1, v),
        is_trimmed_of(r2, v),
    ensures
        r1 == r2,
{
    let (a1, b1) = choose|a1: int, b1: int| trimmed_with(r1, v, a1, b1);
    let (a2, b2) = choose|a2: int, b2: int| trimmed_with(r2, v, a2, b2);
    if a1 < b1 && a2 < b2 {
        assert(a1 == a2) by {
            if a1 < a2 {
                assert(is_space(v[a1]));
            }
            if a2 < a1 {
                assert(is_space(v[a2]));
            }
        }
        assert(b1 == b2) by {
            if b1 < b2 {
                assert(is_space(v[b2 - 1]));
            }
            if b2 < b1 {
                assert(is_space(v[b1 - 1]));
            }
        }
    } else if a1 < b1 {
        assert(is_space(v[a1]));
    } else if a2 < b2 {
        assert(is_space(v[a2]));
    } else {
        assert(r1 =~= r2);
    }
}


/// Is every character of the window `[a, a + n)` a decimal digit?
pub open spec fn digit_window(s: Seq<char>, a: int, n: int) -> bool {
    &&& 0 <= a
    &&& a + n <= s.len()
    &&& forall|j: int| a <= j < a + n ==> crate::numbers::is_digit(s[j])
}

/// The text holds a run of thirteen or more consecutive decimal digits
/// somewhere. Timestamps in such a text can carry integers of a trillion
/// and more, beyond what the engine's millisecond arithmetic can scale.
pub open spec fn has_long_digit_run(s: Seq<char>) -> bool {
    exists|a: int| digit_window(s, a, 13)
}

/// Scan for a run of thirteen consecutive decimal digits.
#[verifier::loop_isolation(false)]
pub fn find_long_digit_run(v: &Vec<char>) -> (r: bool)
    ensures
        r == has_long_digit_run(v@),
{
    let mut i: usize = 0;
    let mut run: usize = 0;
    while i < v.len()
        invariant
            0 <= i <= v.len(),
            run <= i,
            run < 13,
            forall|j: int| i - run <= j < i ==> crate::numbers::is_digit(v@[j]),
            i - run > 0 ==> !crate::numbers::is_digit(v@[i - run - 1]),
            forall|a: int| 0 <= a && a + 13 <= i ==> !digit_window(v@, a, 13),
        decreases v.len() - i,
    {
        if crate::numbers::digit_char(v[i]) {
            run = run + 1;
            if run == 13 {
                proof {
                    assert(digit_window(v@, i + 1 - 13, 13));
                }
                return true;
            }
            proof {
                assert forall|a: int| 0 <= a && a + 13 <= i + 1 implies !digit_window(
                    v@,
                    a,
                    13,
                ) by {
                    if a + 13 == i + 1 {
                        assert(a <= i - run < a + 13);
                        assert(!crate::numbers::is_digit(v@[i - run]));
                    }
                }
            }
        } else {
            proof {
                assert forall|a: int| 0 <= a && a + 13 <= i + 1 implies !digit_window(
                    v@,
                    a,
                    13,
                ) by {
                    if a + 13 == i + 1 {
                        assert(a <= i < a + 13);
                        assert(!crate::numbers::is_digit(v@[i as int]));
                    }
                }
            }
            run = 0;
        }
        i = i + 1;
    }
    proof {
        assert(!has_long_digit_run(v@)) by {
            if has_long_digit_run(v@) {
                let a = choose|a: int| digit_window(v@, a, 13);
            }
        }
    }
    false
}

} // verus!
