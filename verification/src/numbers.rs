//! Verified parsing of the numeric field values: unsigned integers and
//! plain decimal numbers held as fixed-point micro-units.

use vstd::prelude::*;

verus! {

/// Is `c` a decimal digit?
pub open spec fn is_digit(c: char) -> bool {
    '0' <= c && c <= '9'
}

/// The value of a digit character.
pub open spec fn digit_val(c: char) -> int {
    c as int - '0' as int
}

/// The value of a digit string, most significant first.
pub open spec fn digits_value(s: Seq<char>) -> int
    decreases s.len(),
{
    if s.len() == 0 {
        0
    } else {
        digits_value(s.drop_last()) * 10 + digit_val(s.last())
    }
}

/// Every character is a digit.
pub open spec fn all_digits(s: Seq<char>) -> bool {
    forall|i: int| 0 <= i < s.len() ==> is_digit(s[i])
}

/// Executable digit test.
pub fn digit_char(c: char) -> (r: bool)
    ensures
        r == is_digit(c),
{
    '0' <= c && c <= '9'
}

/// Digit strings have nonnegative value.
pub proof fn lemma_digits_nonneg(s: Seq<char>)
    requires
        all_digits(s),
    ensures
        digits_value(s) >= 0,
    decreases s.len(),
{
    if s.len() > 0 {
        let s2 = s.drop_last();
        assert(all_digits(s2)) by {
            assert(forall|i: int| 0 <= i < s2.len() ==> s2[i] == s[i]);
        }
        lemma_digits_nonneg(s2);
    }
}

/// Powers of ten.
pub open spec fn pow10(k: int) -> int
    decreases k,
{
    if k <= 0 {
        1
    } else {
        10 * pow10(k - 1)
    }
}

/// A digit string's value is below ten to its length.
pub proof fn lemma_digits_bound(s: Seq<char>)
    requires
        all_digits(s),
    ensures
        digits_value(s) < pow10(s.len() as int),
    decreases s.len(),
{
    if s.len() > 0 {
        let s2 = s.drop_last();
        assert(all_digits(s2)) by {
            assert(forall|i: int| 0 <= i < s2.len() ==> s2[i] == s[i]);
        }
        lemma_digits_bound(s2);
        lemma_digits_nonneg(s2);
        assert(digit_val(s.last()) <= 9);
        assert(digits_value(s2) <= pow10(s2.len() as int) - 1);
        vstd::arithmetic::mul::lemma_mul_inequality(
            digits_value(s2),
            pow10(s2.len() as int) - 1,
            10,
        );
    }
}

/// Parse a nonempty all-digit string as a `u64`.
/// Returns `None` when the text is empty, holds a non-digit, or overflows.
#[verifier::loop_isolation(false)]
pub fn parse_u64(v: &Vec<char>) -> (r: Option<u64>)
    ensures
        match r {
            Some(n) => v@.len() > 0 && all_digits(v@) && n == digits_value(v@),
            None => v@.len() == 0 || !all_digits(v@) || digits_value(v@) > u64::MAX,
        },
{
    if v.len() == 0 {
        return None;
    }
    let mut acc: u64 = 0;
    let mut i: usize = 0;
    while i < v.len()
        invariant
            0 <= i <= v.len(),
            all_digits(v@.subrange(0, i as int)),
            acc == digits_value(v@.subrange(0, i as int)),
        decreases v.len() - i,
    {
        let c = v[i];
        if !digit_char(c) {
            assert(!all_digits(v@));
            return None;
        }
        let d: u64 = (c as u32 as u64) - ('0' as u32 as u64);
        assert(d == digit_val(c) && d <= 9);
        proof {
            let pre = v@.subrange(0, i + 1);
            assert(pre.drop_last() =~= v@.subrange(0, i as int));
            assert(pre.last() == c);
            assert(all_digits(pre));
            assert(digits_value(pre) == acc * 10 + d);
        }
        if acc > (u64::MAX - d) / 10 {
            proof {
                lemma_digits_value_mono(v@.subrange(0, i + 1), v@);
            }
            return None;
        }
        acc = acc * 10 + d;
        i = i + 1;
    }
    proof {
        assert(v@.subrange(0, v@.len() as int) =~= v@);
    }
    Some(acc)
}

/// A digit string's value does not shrink when the string is extended.
proof fn lemma_digits_value_mono(p: Seq<char>, w: Seq<char>)
    requires
        p.len() <= w.len(),
        p =~= w.subrange(0, p.len() as int),
        all_digits(p),
        p.len() > 0,
    ensures
        all_digits(w) ==> digits_value(w) >= digits_value(p),
    decreases w.len(),
{
    if all_digits(w) {
        lemma_digits_nonneg(p);
        if w.len() == p.len() {
            assert(p =~= w);
            assert(digits_value(p) == digits_value(w));
        }
        if w.len() > p.len() {
            let w2 = w.drop_last();
            assert(all_digits(w2)) by {
                assert(forall|i: int| 0 <= i < w2.len() ==> w2[i] == w[i]);
            }
            assert(p =~= w2.subrange(0, p.len() as int));
            lemma_digits_value_mono(p, w2);
            lemma_digits_nonneg(w2);
            assert(digits_value(w) == digits_value(w2) * 10 + digit_val(w.last()));
            assert(digits_value(w2) * 10 >= digits_value(w2)) by {
                vstd::arithmetic::mul::lemma_mul_inequality(1, 10, digits_value(w2));
            }
        }
    }
}

/// One micro-unit is a millionth: decimal values are held scaled by this.
pub const MICRO_SCALE: u64 = 1000000;

/// The first `k` characters, or all of them when there are fewer.
pub open spec fn take_at_most(s: Seq<char>, k: int) -> Seq<char> {
    if s.len() <= k {
        s
    } else {
        s.subrange(0, k)
    }
}

/// The micro-unit value of a whole part and fraction digits: the fraction is
/// truncated past six places and scaled to a millionth.
pub open spec fn micro_value(whole: int, frac: Seq<char>) -> int {
    whole * MICRO_SCALE + digits_value(take_at_most(frac, 6)) * pow10(6 - take_at_most(frac, 6).len())
}

/// Plain decimal text: `digits` or `digits.digits`, nothing else.
pub open spec fn is_plain_decimal(s: Seq<char>) -> bool {
    ||| (s.len() > 0 && all_digits(s))
    ||| (exists|d: int|
        {
            &&& 0 < d < s.len() - 1
            &&& s[d] == '.'
            &&& all_digits(s.subrange(0, d))
            &&& all_digits(s.subrange(d + 1, s.len() as int))
        })
}

/// The micro-unit value of plain decimal text.
pub open spec fn decimal_micro(s: Seq<char>) -> int {
    if s.len() > 0 && all_digits(s) {
        digits_value(s) * MICRO_SCALE
    } else {
        let d = choose|d: int|
            0 < d < s.len() - 1 && s[d] == '.' && all_digits(s.subrange(0, d)) && all_digits(
                s.subrange(d + 1, s.len() as int),
            );
        micro_value(digits_value(s.subrange(0, d)), s.subrange(d + 1, s.len() as int))
    }
}

/// Parse plain decimal text (`digits` or `digits.digits`) into micro-units,
/// truncating the fraction past six places. Sign and exponent notation is
/// treated as unparsable.
#[verifier::loop_isolation(false)]
pub fn parse_micro(v: &Vec<char>) -> (r: Option<u64>)
    ensures
        match r {
            Some(n) => is_plain_decimal(v@) && n == decimal_micro(v@),
            None => !is_plain_decimal(v@) || decimal_micro(v@) > u64::MAX,
        },
{
    let dot = find_dot(v);
    match dot {
        None => {
            proof {
                if is_plain_decimal(v@) {
                    assert(v@.len() > 0 && all_digits(v@)) by {
                        if !(v@.len() > 0 && all_digits(v@)) {
                            let d = choose|d: int|
                                0 < d < v@.len() - 1 && v@[d] == '.' && all_digits(
                                    v@.subrange(0, d),
                                ) && all_digits(v@.subrange(d + 1, v@.len() as int));
                            assert(v@[d] == '.');
                        }
                    }
                }
            }
            match parse_u64(v) {
                Some(n) => {
                    if n <= u64::MAX / MICRO_SCALE {
                        proof {
                            vstd::arithmetic::div_mod::lemma_fundamental_div_mod(
                                u64::MAX as int,
                                MICRO_SCALE as int,
                            );
                            vstd::arithmetic::mul::lemma_mul_inequality(
                                n as int,
                                (u64::MAX / MICRO_SCALE) as int,
                                MICRO_SCALE as int,
                            );
                        }
                        Some(n * MICRO_SCALE)
                    } else {
                        proof {
                            vstd::arithmetic::mul::lemma_mul_inequality(
                                (u64::MAX / MICRO_SCALE + 1) as int,
                                n as int,
                                MICRO_SCALE as int,
                            );
                            vstd::arithmetic::div_mod::lemma_fundamental_div_mod(
                                u64::MAX as int,
                                MICRO_SCALE as int,
                            );
                        }
                        None
                    }
                },
                None => None,
            }
        },
        Some(d) => {
            let n = v.len();
            if d == 0 || d >= n - 1 {
                proof {
                    if is_plain_decimal(v@) {
                        if v@.len() > 0 && all_digits(v@) {
                            assert(is_digit(v@[d as int]));
                        } else {
                            let e = choose|e: int|
                                0 < e < v@.len() - 1 && v@[e] == '.' && all_digits(
                                    v@.subrange(0, e),
                                ) && all_digits(v@.subrange(e + 1, v@.len() as int));
                            if e < d {
                                assert(false);
                            } else if e > d {
                                assert(is_digit(v@.subrange(0, e)[d as int]));
                                assert(false);
                            }
                        }
                    }
                }
                return None;
            }
            let mut whole: Vec<char> = Vec::new();
            let mut i: usize = 0;
            while i < d
                invariant
                    0 <= i <= d < v@.len(),
                    whole@ == v@.subrange(0, i as int),
                decreases d - i,
            {
                whole.push(v[i]);
                assert(whole@ =~= v@.subrange(0, i + 1));
                i = i + 1;
            }
            let mut frac: Vec<char> = Vec::new();
            let mut j: usize = d + 1;
            while j < v.len() && frac.len() < 6
                invariant
                    d + 1 <= j <= v@.len(),
                    frac@ == take_at_most(v@.subrange(d + 1, v@.len() as int), (j - d - 1) as int),
                    frac@.len() == j - d - 1,
                    frac@.len() <= 6,
                decreases v.len() - j,
            {
                frac.push(v[j]);
                proof {
                    let tail = v@.subrange(d + 1, v@.len() as int);
                    assert(frac@ =~= take_at_most(tail, (j - d) as int)) by {
                        assert(frac@.drop_last() == take_at_most(tail, (j - d - 1) as int));
                        assert(frac@.last() == tail[(j - d - 1) as int]);
                        if tail.len() <= j - d {
                            assert(frac@ =~= tail);
                        } else {
                            assert(frac@ =~= tail.subrange(0, (j - d) as int));
                        }
                    }
                }
                j = j + 1;
            }
            // remaining fraction digits are truncated, but still must be digits
            let mut k: usize = j;
            while k < v.len()
                invariant
                    d < j <= k <= v@.len(),
                    forall|t: int| j <= t < k ==> is_digit(v@[t]),
                decreases v.len() - k,
            {
                if !digit_char(v[k]) {
                    proof {
                        lemma_not_decimal_bad_tail(v@, d as int, k as int);
                    }
                    return None;
                }
                k = k + 1;
            }
            proof {
                assert(whole@ =~= v@.subrange(0, d as int));
                assert(frac@ =~= take_at_most(v@.subrange(d + 1, v@.len() as int), 6)) by {
                    let tail = v@.subrange(d + 1, v@.len() as int);
                    if tail.len() <= 6 {
                        assert(j == v@.len());
                        assert(frac@ =~= take_at_most(tail, (j - d - 1) as int));
                    }
                }
            }
            let w = match parse_u64(&whole) {
                Some(w) => w,
                None => {
                    proof {
                        lemma_not_decimal_bad_whole(v@, d as int);
                        if v@.len() > 0 && all_digits(v@) {
                            assert(is_digit(v@[d as int]));
                        }
                    }
                    return None;
                },
            };
            let f = match parse_u64(&frac) {
                Some(f) => f,
                None => {
                    proof {
                        assert(frac@.len() > 0);
                        assert(!all_digits(frac@)) by {
                            if all_digits(frac@) {
                                lemma_digits_bound(frac@);
                                lemma_digits_nonneg(frac@);
                                lemma_pow10_chain();
                                lemma_pow10_le(frac@.len() as int, 6);
                            }
                        }
                        let bad = choose|t: int| 0 <= t < frac@.len() && !is_digit(frac@[t]);
                        assert(v@[d + 1 + bad] == frac@[bad]);
                        lemma_not_decimal_bad_tail(v@, d as int, d + 1 + bad);
                    }
                    return None;
                },
            };
            proof {
                lemma_digits_bound(frac@);
                lemma_digits_nonneg(frac@);
                lemma_pow10_chain();
                lemma_pow10_le(frac@.len() as int, 6);
            }
            let mut scale: u64 = 1;
            let mut t: usize = frac.len();
            while t < 6
        invariant
                    frac@.len() <= t <= 6,
                    scale == pow10(t - frac@.len()),
                    scale <= 1000000,
                decreases 6 - t,
            {
                proof {
                    lemma_pow10_chain();
                    lemma_pow10_le((t + 1 - frac@.len()) as int, 5);
                }
                scale = scale * 10;
                t = t + 1;
            }
            proof {
                lemma_pow10_chain();
                vstd::arithmetic::mul::lemma_mul_upper_bound(
                    f as int,
                    999999,
                    scale as int,
                    1000000,
                );
                vstd::arithmetic::mul::lemma_mul_nonnegative(f as int, scale as int);
            }
            let fmicro: u64 = f * scale;
            proof {
                let tail = v@.subrange(d + 1, v@.len() as int);
                assert(all_digits(tail)) by {
                    assert(forall|t: int|
                        0 <= t < frac@.len() ==> tail[t] == frac@[t] && is_digit(frac@[t]));
                    assert(forall|t: int|
                        frac@.len() <= t < tail.len() ==> tail[t] == v@[d + 1 + t] && is_digit(
                            v@[d + 1 + t],
                        ));
                }
            }
            if w <= u64::MAX / MICRO_SCALE && w * MICRO_SCALE <= u64::MAX - fmicro {
                proof {
                    vstd::arithmetic::mul::lemma_mul_inequality(
                        w as int,
                        (u64::MAX / MICRO_SCALE) as int,
                        MICRO_SCALE as int,
                    );
                    vstd::arithmetic::div_mod::lemma_fundamental_div_mod(
                        u64::MAX as int,
                        MICRO_SCALE as int,
                    );
                    lemma_decimal_shape(v@, d as int);
                }
                Some(w * MICRO_SCALE + fmicro)
            } else {
                proof {
                    lemma_decimal_shape(v@, d as int);
                    lemma_digits_nonneg(whole@);
                    if w > u64::MAX / MICRO_SCALE {
                        vstd::arithmetic::mul::lemma_mul_inequality(
                            (u64::MAX / MICRO_SCALE + 1) as int,
                            w as int,
                            MICRO_SCALE as int,
                        );
                        vstd::arithmetic::div_mod::lemma_fundamental_div_mod(
                            u64::MAX as int,
                            MICRO_SCALE as int,
                        );
                    }
                }
                None
            }
        },
    }
}

/// The small powers of ten, spelled out.
proof fn lemma_pow10_chain()
    ensures
        pow10(0) == 1,
        pow10(1) == 10,
        pow10(2) == 100,
        pow10(3) == 1000,
        pow10(4) == 10000,
        pow10(5) == 100000,
        pow10(6) == 1000000,
{
    assert(pow10(0) == 1);
    assert(pow10(1) == 10);
    assert(pow10(2) == 100);
    assert(pow10(3) == 1000);
    assert(pow10(4) == 10000);
    assert(pow10(5) == 100000);
    assert(pow10(6) == 1000000);
}

/// Powers of ten grow with the exponent.
proof fn lemma_pow10_le(a: int, b: int)
    requires
        a <= b,
    ensures
        pow10(a) <= pow10(b),
    decreases b,
{
    if a < b && b > 0 {
        lemma_pow10_le(a, b - 1);
        lemma_pow10_pos(b - 1);
    }
}

/// Powers of ten are positive.
proof fn lemma_pow10_pos(k: int)
    ensures
        pow10(k) >= 1,
    decreases k,
{
    if k > 0 {
        lemma_pow10_pos(k - 1);
    }
}

/// With a well-placed dot and digit parts, the text is plain decimal text and
/// its value is the composed one.
proof fn lemma_decimal_shape(s: Seq<char>, d: int)
    requires
        0 < d < s.len() - 1,
        s[d] == '.',
        all_digits(s.subrange(0, d)),
        all_digits(s.subrange(d + 1, s.len() as int)),
    ensures
        is_plain_decimal(s),
        decimal_micro(s) == micro_value(
            digits_value(s.subrange(0, d)),
            s.subrange(d + 1, s.len() as int),
        ),
{
    assert(!(s.len() > 0 && all_digits(s))) by {
        if all_digits(s) {
            assert(is_digit(s[d]));
        }
    }
    let e = choose|e: int|
        0 < e < s.len() - 1 && s[e] == '.' && all_digits(s.subrange(0, e)) && all_digits(
            s.subrange(e + 1, s.len() as int),
        );
    assert(0 < e < s.len() - 1 && s[e] == '.' && all_digits(s.subrange(0, e)) && all_digits(
        s.subrange(e + 1, s.len() as int),
    )) by {
        assert(0 < d < s.len() - 1 && s[d] == '.' && all_digits(s.subrange(0, d)) && all_digits(
            s.subrange(d + 1, s.len() as int),
        ));
    }
    assert(e == d) by {
        if e < d {
            assert(is_digit(s.subrange(0, d)[e]));
        } else if e > d {
            assert(is_digit(s.subrange(0, e)[d]));
        }
    }
}

/// A non-digit after the dot refutes plain decimal shape.
proof fn lemma_not_decimal_bad_tail(s: Seq<char>, d: int, bad: int)
    requires
        0 <= d < s.len(),
        s[d] == '.',
        forall|j: int| 0 <= j < d ==> s[j] != '.',
        d < bad < s.len(),
        !is_digit(s[bad]),
    ensures
        !is_plain_decimal(s),
{
    if s.len() > 0 && all_digits(s) {
        assert(is_digit(s[d]));
    }
    if is_plain_decimal(s) {
        let e = choose|e: int|
            0 < e < s.len() - 1 && s[e] == '.' && all_digits(s.subrange(0, e)) && all_digits(
                s.subrange(e + 1, s.len() as int),
            );
        assert(e == d) by {
            if e < d {
                assert(s[e] != '.');
            } else if e > d {
                assert(is_digit(s.subrange(0, e)[d]));
            }
        }
        assert(is_digit(s.subrange(d + 1, s.len() as int)[bad - d - 1]));
    }
}

/// A bad whole part refutes plain decimal shape.
proof fn lemma_not_decimal_bad_whole(s: Seq<char>, d: int)
    requires
        0 < d < s.len(),
        s[d] == '.',
        forall|j: int| 0 <= j < d ==> s[j] != '.',
        s.subrange(0, d).len() == 0 || !all_digits(s.subrange(0, d)) || digits_value(
            s.subrange(0, d),
        ) > u64::MAX,
    ensures
        !is_plain_decimal(s) || (s.len() > 0 && all_digits(s)) || decimal_micro(s) > u64::MAX,
{
    if is_plain_decimal(s) && !(s.len() > 0 && all_digits(s)) {
        let e = choose|e: int|
            0 < e < s.len() - 1 && s[e] == '.' && all_digits(s.subrange(0, e)) && all_digits(
                s.subrange(e + 1, s.len() as int),
            );
        assert(e == d) by {
            if e < d {
                assert(s[e] != '.');
            } else if e > d {
                assert(is_digit(s.subrange(0, e)[d]));
            }
        }
        assert(all_digits(s.subrange(0, d)));
        assert(digits_value(s.subrange(0, d)) > u64::MAX);
        let frac = s.subrange(d + 1, s.len() as int);
        lemma_decimal_shape(s, d);
        assert(decimal_micro(s) == micro_value(digits_value(s.subrange(0, d)), frac));
        assert(all_digits(take_at_most(frac, 6))) by {
            assert(forall|i: int|
                0 <= i < take_at_most(frac, 6).len() ==> take_at_most(frac, 6)[i] == frac[i]);
        }
        lemma_digits_nonneg(take_at_most(frac, 6));
        lemma_pow10_pos(6 - take_at_most(frac, 6).len());
        vstd::arithmetic::mul::lemma_mul_nonnegative(
            digits_value(take_at_most(frac, 6)),
            pow10(6 - take_at_most(frac, 6).len()),
        );
        assert(digits_value(s.subrange(0, d)) * MICRO_SCALE > u64::MAX) by {
            vstd::arithmetic::mul::lemma_mul_inequality(
                u64::MAX as int + 1,
                digits_value(s.subrange(0, d)),
                MICRO_SCALE as int,
            );
        }
    }
}

/// First `'.'` in the text, when there is one.
#[verifier::loop_isolation(false)]
fn find_dot(v: &Vec<char>) -> (r: Option<usize>)
    ensures
        match r {
            Some(p) => p < v@.len() && v@[p as int] == '.' && (forall|j: int|
                0 <= j < p ==> v@[j] != '.'),
            None => forall|j: int| 0 <= j < v@.len() ==> v@[j] != '.',
        },
{
    let mut i: usize = 0;
    while i < v.len()
        invariant
            0 <= i <= v.len(),
            forall|j: int| 0 <= j < i ==> v@[j] != '.',
        decreases v.len() - i,
    {
        if v[i] == '.' {
            return Some(i);
        }
        i = i + 1;
    }
    None
}

} // verus!
