use vstd::prelude::*;

verus! {

/// The ASCII bytes of the decimal form of `n`, most significant digit first.
pub open spec fn decimal_digits(n: nat) -> Seq<u8>
    decreases n,
{
    if n < 10 {
        seq![(n + 48) as u8]
    } else {
        decimal_digits(n / 10).push(((n % 10) + 48) as u8)
    }
}

/// The ASCII bytes of the decimal form of `v`, with a leading `-` when negative.
pub open spec fn signed_decimal(v: int) -> Seq<u8> {
    if v < 0 {
        seq![45u8] + decimal_digits((-v) as nat)
    } else {
        decimal_digits(v as nat)
    }
}

/// The value of a string of decimal digits.
pub open spec fn digits_value(d: Seq<char>) -> int
    decreases d.len(),
{
    if d.len() == 0 {
        0
    } else {
        digits_value(d.drop_last()) * 10 + (d.last() as u32 - 48)
    }
}

pub open spec fn all_digits(d: Seq<char>) -> bool {
    d.len() > 0 && forall|k: int| 0 <= k < d.len() ==> '0' <= #[trigger] d[k] <= '9'
}

/// The integer that `s` writes: an optional `+` or `-`, then one or more ASCII digits.
pub open spec fn integer_value(s: Seq<char>) -> Option<int> {
    if s.len() > 0 && s[0] == '-' && all_digits(s.drop_first()) {
        Some(-digits_value(s.drop_first()))
    } else if s.len() > 0 && s[0] == '+' && all_digits(s.drop_first()) {
        Some(digits_value(s.drop_first()))
    } else if all_digits(s) {
        Some(digits_value(s))
    } else {
        None
    }
}

/// What `s` parses to as an `i64`: its integer value, where that fits.
pub open spec fn parsed_i64(s: Seq<char>) -> Option<i64> {
    match integer_value(s) {
        Some(v) => if i64::MIN <= v <= i64::MAX {
            Some(v as i64)
        } else {
            None
        },
        None => None,
    }
}

proof fn lemma_digits_nonneg(d: Seq<char>)
    requires
        forall|k: int| 0 <= k < d.len() ==> '0' <= #[trigger] d[k] <= '9',
    ensures
        digits_value(d) >= 0,
    decreases d.len(),
{
    if d.len() > 0 {
        lemma_digits_nonneg(d.drop_last());
    }
}

/// A string of digits is worth at least any of its prefixes.
proof fn lemma_digits_prefix(d: Seq<char>, j: int)
    requires
        0 <= j <= d.len(),
        forall|k: int| 0 <= k < d.len() ==> '0' <= #[trigger] d[k] <= '9',
    ensures
        digits_value(d.subrange(0, j)) <= digits_value(d),
    decreases d.len(),
{
    if j == d.len() {
        assert(d.subrange(0, j) =~= d);
    } else {
        lemma_digits_prefix(d.drop_last(), j);
        lemma_digits_nonneg(d.drop_last());
        assert(d.drop_last().subrange(0, j) =~= d.subrange(0, j));
    }
}

/// A string that holds a character outside ASCII writes no integer.
proof fn lemma_non_ascii_no_integer(s: Seq<char>)
    requires
        !vstd::utf8::is_ascii_chars(s),
    ensures
        integer_value(s) is None,
{
    let k = choose|k: int| 0 <= k < s.len() && !('\0' <= #[trigger] s[k] <= '\u{7f}');
    if k > 0 {
        assert(s.drop_first()[k - 1] == s[k]);
    }
}

/// Parses an optional `+` or `-` followed by ASCII digits, as `i64::from_str`
/// does: `None` when the text has another form or the value does not fit.
pub fn parse_i64(s: &str) -> (r: Option<i64>)
    ensures
        r == parsed_i64(s@),
{
    broadcast use vstd::string::is_ascii_spec_bytes;

    if !s.is_ascii() {
        proof {
            lemma_non_ascii_no_integer(s@);
        }
        return None;
    }
    let b = s.as_bytes();
    let n = b.len();
    assert forall|k: int| 0 <= k < n implies #[trigger] b@[k] as int == s@[k] as int by {
        assert(b@[k] == s@[k] as u8);
        assert((s@[k] as int) < 128);
    }
    assert(n == s@.len());
    if n == 0 {
        return None;
    }
    let neg = b[0] == 45;
    let start: usize = if b[0] == 45 || b[0] == 43 {
        1
    } else {
        0
    };
    let ghost d = s@.subrange(start as int, n as int);
    proof {
        assert(b@[0] as int == s@[0] as int);
        if start == 1 {
            assert(s@[0] == '-' || s@[0] == '+');
            assert(!('0' <= s@[0] <= '9'));
        } else {
            assert(s@[0] != '-' && s@[0] != '+');
        }
        assert(neg <==> s@[0] == '-');
        if start == 1 {
            assert(d =~= s@.drop_first());
        } else {
            assert(d =~= s@);
        }
    }
    if start == n {
        return None;
    }
    let mut acc: u64 = 0;
    let mut i: usize = start;
    while i < n
        invariant
            start <= i <= n,
            n == b@.len() == s@.len(),
            d == s@.subrange(start as int, n as int),
            0 < n,
            start <= 1,
            start == 1 ==> (s@[0] == '-' || s@[0] == '+') && d == s@.drop_first() && !('0'
                <= s@[0] <= '9'),
            start == 0 ==> s@[0] != '-' && s@[0] != '+' && d == s@,
            neg <==> s@[0] == '-',
            forall|k: int| 0 <= k < n ==> #[trigger] b@[k] as int == s@[k] as int,
            forall|k: int| 0 <= k < i - start ==> '0' <= #[trigger] d[k] <= '9',
            acc == digits_value(d.subrange(0, i - start)),
        decreases n - i,
    {
        let c = b[i];
        let ghost pre = d.subrange(0, i - start);
        let ghost next = d.subrange(0, i - start + 1);
        proof {
            assert(next.drop_last() =~= pre);
            assert(next.last() == d[i - start]);
            assert(d[i - start] == s@[i as int]);
        }
        if c < 48 || c > 57 {
            assert(!('0' <= d[i - start] <= '9'));
            assert(!all_digits(d));
            assert(!all_digits(s@));
            return None;
        }
        let grown = acc.checked_mul(10);
        let v = match grown {
            Some(m) => m.checked_add((c - 48) as u64),
            None => None,
        };
        match v {
            Some(v) => {
                acc = v;
            },
            None => {
                proof {
                    assert(digits_value(next) > u64::MAX);
                    if forall|k: int| 0 <= k < d.len() ==> '0' <= #[trigger] d[k] <= '9' {
                        lemma_digits_prefix(d, i - start + 1);
                        assert(digits_value(d) > u64::MAX);
                    } else {
                        assert(!all_digits(d));
                        assert(!all_digits(s@));
                    }
                }
                return None;
            },
        }
        i += 1;
    }
    assert(d.subrange(0, n - start) =~= d);
    if neg {
        if acc < 9223372036854775808 {
            Some(-(acc as i64))
        } else if acc == 9223372036854775808 {
            Some(i64::MIN)
        } else {
            None
        }
    } else if acc <= 9223372036854775807 {
        Some(acc as i64)
    } else {
        None
    }
}

/// Appends the decimal digits of `n` to `out`.
pub fn push_decimal(out: &mut Vec<u8>, n: u16)
    ensures
        final(out)@ == old(out)@ + decimal_digits(n as nat),
    decreases n,
{
    if n < 10 {
        out.push(n as u8 + 48);
    } else {
        push_decimal(out, n / 10);
        out.push((n % 10) as u8 + 48);
    }
}

} // verus!
