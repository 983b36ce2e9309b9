use vstd::prelude::*;

verus! {

pub open spec fn is_digit(c: char) -> bool {
    '0' <= c && c <= '9'
}

pub open spec fn all_digits(s: Seq<char>) -> bool {
    forall|i: int| 0 <= i < s.len() ==> is_digit(#[trigger] s[i])
}

/// The decimal value of a run of digits.
pub open spec fn digits_value(s: Seq<char>) -> int
    decreases s.len(),
{
    if s.len() == 0 {
        0
    } else {
        digits_value(s.drop_last()) * 10 + (s.last() as int - '0' as int)
    }
}

/// The first index at or after `i` where `c` stands in `s`, or `s.len()`.
pub open spec fn find_char(s: Seq<char>, c: char, i: int) -> int
    decreases s.len() - i,
{
    if i < 0 || i >= s.len() {
        s.len() as int
    } else if s[i] == c {
        i
    } else {
        find_char(s, c, i + 1)
    }
}

pub proof fn lemma_find_char_bounds(s: Seq<char>, c: char, i: int)
    requires
        0 <= i,
    ensures
        i <= find_char(s, c, i) <= s.len() || (i > s.len() && find_char(s, c, i) == s.len()),
        find_char(s, c, i) < s.len() ==> s[find_char(s, c, i)] == c,
    decreases s.len() - i,
{
    if i < s.len() && s[i] != c {
        lemma_find_char_bounds(s, c, i + 1);
    }
}

/// Where `c` next stands in `s` from `start` on, or `s.len()`.
pub fn find_char_from(s: &Vec<char>, c: char, start: usize) -> (r: usize)
    requires
        start <= s.len(),
    ensures
        r as int == find_char(s@, c, start as int),
        start <= r <= s.len(),
{
    let mut i = start;
    while i < s.len()
        invariant
            start <= i <= s.len(),
            find_char(s@, c, start as int) == find_char(s@, c, i as int),
        decreases s.len() - i,
    {
        if s[i] == c {
            return i;
        }
        i += 1;
    }
    i
}

pub proof fn lemma_digits_monotone(s: Seq<char>, k: int)
    requires
        all_digits(s),
        0 <= k <= s.len(),
    ensures
        0 <= digits_value(s.take(k)) <= digits_value(s),
    decreases s.len() - k,
{
    if k < s.len() {
        let t = s.drop_last();
        assert(all_digits(t)) by {
            assert forall|i: int| 0 <= i < t.len() implies is_digit(#[trigger] t[i]) by {
                assert(t[i] == s[i]);
            }
        }
        assert(s.take(k) =~= t.take(k));
        lemma_digits_monotone(t, k);
        assert(is_digit(s[s.len() - 1]));
    } else {
        assert(s.take(k) =~= s);
        lemma_digits_nonneg(s);
    }
}

pub proof fn lemma_digits_nonneg(s: Seq<char>)
    requires
        all_digits(s),
    ensures
        0 <= digits_value(s),
    decreases s.len(),
{
    if s.len() > 0 {
        let t = s.drop_last();
        assert forall|i: int| 0 <= i < t.len() implies is_digit(#[trigger] t[i]) by {
            assert(t[i] == s[i]);
        }
        lemma_digits_nonneg(t);
        assert(is_digit(s[s.len() - 1]));
    }
}

/// The value of the digits in `s[lo..hi]`, where they are all digits, it is
/// not empty and the value fits in a `u64`.
pub fn digits_in(s: &Vec<char>, lo: usize, hi: usize) -> (r: Option<u64>)
    requires
        lo <= hi <= s.len(),
    ensures
        ({
            let t = s@.subrange(lo as int, hi as int);
            match r {
                Some(v) => t.len() > 0 && all_digits(t) && v as int == digits_value(t),
                None => !(t.len() > 0 && all_digits(t) && digits_value(t) <= u64::MAX),
            }
        }),
{
    let ghost t = s@.subrange(lo as int, hi as int);
    if lo == hi {
        return None;
    }
    let mut v: u64 = 0;
    let mut i = lo;
    while i < hi
        invariant
            lo <= i <= hi <= s.len(),
            t == s@.subrange(lo as int, hi as int),
            all_digits(t.take(i - lo)),
            v as int == digits_value(t.take(i - lo)),
        decreases hi - i,
    {
        let c = s[i];
        proof {
            assert(t.take(i - lo + 1).drop_last() =~= t.take(i - lo));
            assert(t.take(i - lo + 1).last() == c);
        }
        if !('0' <= c && c <= '9') {
            proof {
                assert(!is_digit(t[i - lo]));
            }
            return None;
        }
        let d = (c as u32 - '0' as u32) as u64;
        if v > (u64::MAX - d) / 10 {
            proof {
                let k = i - lo + 1;
                assert(all_digits(t.take(k))) by {
                    assert forall|j: int| 0 <= j < k implies is_digit(#[trigger] t.take(k)[j]) by {
                        if j < k - 1 {
                            assert(t.take(k)[j] == t.take(k - 1)[j]);
                        }
                    }
                }
                assert(digits_value(t.take(k)) > u64::MAX) by (nonlinear_arith)
                    requires
                        digits_value(t.take(k)) == v * 10 + d,
                        v > (u64::MAX - d) / 10,
                        d <= 9,
                ;
                if all_digits(t) {
                    lemma_digits_monotone(t, k);
                }
            }
            return None;
        }
        v = v * 10 + d;
        proof {
            let k = i - lo + 1;
            assert forall|j: int| 0 <= j < k implies is_digit(#[trigger] t.take(k)[j]) by {
                if j < k - 1 {
                    assert(t.take(k)[j] == t.take(k - 1)[j]);
                }
            }
        }
        i += 1;
    }
    proof {
        assert(t.take(hi - lo) =~= t);
    }
    Some(v)
}

/// A run of at most two digits is worth less than a hundred.
pub proof fn lemma_two_digits(t: Seq<char>)
    requires
        t.len() <= 2,
    ensures
        all_digits(t) ==> 0 <= digits_value(t) < 100,
{
    reveal_with_fuel(digits_value, 3);
    if all_digits(t) {
        if t.len() == 2 {
            assert(t.drop_last().drop_last() =~= Seq::<char>::empty());
            assert(is_digit(t[0]) && is_digit(t[1]));
            assert(t.drop_last()[0] == t[0]);
            assert(t.drop_last().last() == t[0]);
            assert(digits_value(t.drop_last()) == t[0] as int - '0' as int);
        } else if t.len() == 1 {
            assert(t.drop_last() =~= Seq::<char>::empty());
            assert(is_digit(t[0]));
        }
    }
}

} // verus!
