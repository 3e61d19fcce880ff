//! Decimal integers in text: reading them as Rust's `str::parse` does for `i32` and `u32`,
//! and writing them as Rust's `Display` does.
use vstd::prelude::*;

verus! {

/// Whether `c` is an ASCII decimal digit.
pub open spec fn is_digit(c: char) -> bool {
    '0' <= c && c <= '9'
}

/// The value of the decimal digit `c`.
pub open spec fn digit_value(c: char) -> int {
    c as int - '0' as int
}

/// Whether every character of `s` is a decimal digit.
pub open spec fn all_digits(s: Seq<char>) -> bool {
    forall|i: int| 0 <= i < s.len() ==> is_digit(#[trigger] s[i])
}

/// The number that the digits `s` spell, most significant first.
pub open spec fn digits_value(s: Seq<char>) -> int
    decreases s.len(),
{
    if s.len() == 0 {
        0
    } else {
        digits_value(s.drop_last()) * 10 + digit_value(s.last())
    }
}

/// The text that `i32`'s `parse` reads: an optional sign, then one or more decimal digits,
/// whose value must fit in an `i32`. Any other text is refused.
pub open spec fn parse_i32_spec(s: Seq<char>) -> Option<i32> {
    let neg = s.len() > 0 && s[0] == '-';
    let d = if s.len() > 0 && (s[0] == '+' || s[0] == '-') {
        s.drop_first()
    } else {
        s
    };
    if d.len() == 0 || !all_digits(d) {
        None
    } else {
        let v = if neg {
            -digits_value(d)
        } else {
            digits_value(d)
        };
        if i32::MIN <= v && v <= i32::MAX {
            Some(v as i32)
        } else {
            None
        }
    }
}

/// The text that `u32`'s `parse` reads: an optional `+`, then one or more decimal digits,
/// whose value must fit in a `u32`. Any other text is refused.
pub open spec fn parse_u32_spec(s: Seq<char>) -> Option<u32> {
    let d = if s.len() > 0 && s[0] == '+' {
        s.drop_first()
    } else {
        s
    };
    if d.len() == 0 || !all_digits(d) {
        None
    } else {
        let v = digits_value(d);
        if v <= u32::MAX {
            Some(v as u32)
        } else {
            None
        }
    }
}

/// The character of the decimal digit `d`.
pub open spec fn digit_char(d: nat) -> char {
    (d + 48) as char
}

/// The shortest decimal spelling of `n`.
pub open spec fn decimal(n: nat) -> Seq<char>
    decreases n,
{
    if n < 10 {
        seq![digit_char(n)]
    } else {
        decimal(n / 10).push(digit_char(n % 10))
    }
}

/// How an `i32` is displayed: a `-` before negative values, then the shortest decimal
/// spelling of its magnitude.
pub open spec fn render_i32(x: i32) -> Seq<char> {
    if x < 0 {
        seq!['-'] + decimal((-x) as nat)
    } else {
        decimal(x as nat)
    }
}

/// How a `u32` is displayed: the shortest decimal spelling of its value.
pub open spec fn render_u32(x: u32) -> Seq<char> {
    decimal(x as nat)
}

proof fn lemma_digits_value_monotone(s: Seq<char>, k: int)
    requires
        all_digits(s),
        0 <= k <= s.len(),
    ensures
        0 <= digits_value(s.take(k)) <= digits_value(s),
    decreases s.len() - k,
{
    if k == s.len() {
        assert(s.take(k) =~= s);
        lemma_digits_value_nonneg(s);
    } else {
        lemma_digits_value_monotone(s, k + 1);
        let t = s.take(k + 1);
        assert(t.drop_last() =~= s.take(k));
        assert(is_digit(s[k]));
    }
}

proof fn lemma_digits_value_nonneg(s: Seq<char>)
    requires
        all_digits(s),
    ensures
        digits_value(s) >= 0,
    decreases s.len(),
{
    if s.len() > 0 {
        assert(is_digit(s[s.len() - 1]));
        lemma_digits_value_nonneg(s.drop_last());
    }
}

/// Reads the digits `cs[start..end]` as a number no greater than `limit`. Returns `None`
/// when a character is not a digit, or when the number is greater than `limit`.
fn parse_digits(cs: &Vec<char>, start: usize, end: usize, limit: u64) -> (r: Option<u64>)
    requires
        start <= end <= cs@.len(),
        limit <= u32::MAX + 1,
    ensures
        ({
            let d = cs@.subrange(start as int, end as int);
            r == if all_digits(d) && digits_value(d) <= limit {
                Some(digits_value(d) as u64)
            } else {
                None::<u64>
            }
        }),
{
    let ghost d = cs@.subrange(start as int, end as int);
    let mut acc: u64 = 0;
    let mut i = start;
    while i < end
        invariant
            start <= i <= end <= cs@.len(),
            d == cs@.subrange(start as int, end as int),
            limit <= u32::MAX + 1,
            all_digits(d.take(i - start)),
            acc == digits_value(d.take(i - start)),
            acc <= limit,
        decreases end - i,
    {
        let c = cs[i];
        if !('0' <= c && c <= '9') {
            assert(!is_digit(d[i - start]));
            return None;
        }
        let v = (c as u32 - '0' as u32) as u64;
        proof {
            let t = d.take(i - start + 1);
            assert(t.drop_last() =~= d.take(i - start));
            assert(t.last() == c);
        }
        acc = acc * 10 + v;
        i = i + 1;
        if acc > limit {
            proof {
                if all_digits(d) {
                    lemma_digits_value_monotone(d, i - start);
                }
            }
            return None;
        }
    }
    assert(d.take(end - start) =~= d);
    Some(acc)
}

/// Reads `cs[start..end]` as `i32`'s `parse` does.
pub(crate) fn parse_i32(cs: &Vec<char>, start: usize, end: usize) -> (r: Option<i32>)
    requires
        start <= end <= cs@.len(),
    ensures
        r == parse_i32_spec(cs@.subrange(start as int, end as int)),
{
    let ghost s = cs@.subrange(start as int, end as int);
    let signed = start < end && (cs[start] == '+' || cs[start] == '-');
    let neg = start < end && cs[start] == '-';
    let digits_start = if signed {
        start + 1
    } else {
        start
    };
    let ghost d = cs@.subrange(digits_start as int, end as int);
    proof {
        if start < end {
            assert(s[0] == cs@[start as int]);
        }
        if signed {
            assert(d =~= s.drop_first());
        } else {
            assert(d =~= s);
        }
    }
    if digits_start == end {
        return None;
    }
    proof {
        if all_digits(d) {
            lemma_digits_value_nonneg(d);
        }
    }
    let limit: u64 = if neg {
        0x8000_0000
    } else {
        0x7fff_ffff
    };
    match parse_digits(cs, digits_start, end, limit) {
        Some(v) => {
            if neg {
                Some((0i64 - v as i64) as i32)
            } else {
                Some(v as i32)
            }
        },
        None => None,
    }
}

/// Reads `cs[start..end]` as `u32`'s `parse` does.
pub(crate) fn parse_u32(cs: &Vec<char>, start: usize, end: usize) -> (r: Option<u32>)
    requires
        start <= end <= cs@.len(),
    ensures
        r == parse_u32_spec(cs@.subrange(start as int, end as int)),
{
    let ghost s = cs@.subrange(start as int, end as int);
    let signed = start < end && cs[start] == '+';
    let digits_start = if signed {
        start + 1
    } else {
        start
    };
    let ghost d = cs@.subrange(digits_start as int, end as int);
    proof {
        if start < end {
            assert(s[0] == cs@[start as int]);
        }
        if signed {
            assert(d =~= s.drop_first());
        } else {
            assert(d =~= s);
        }
    }
    if digits_start == end {
        return None;
    }
    proof {
        if all_digits(d) {
            lemma_digits_value_nonneg(d);
        }
    }
    match parse_digits(cs, digits_start, end, 0xffff_ffff) {
        Some(v) => Some(v as u32),
        None => None,
    }
}

/// Appends the shortest decimal spelling of `n` to `out`.
fn push_decimal(out: &mut Vec<char>, n: u32)
    ensures
        final(out)@ == old(out)@ + decimal(n as nat),
    decreases n,
{
    if n >= 10 {
        push_decimal(out, n / 10);
    }
    let d = n % 10;
    let c = ((d as u8) + 48u8) as char;
    assert(c == digit_char((n % 10) as nat));
    out.push(c);
    proof {
        if n < 10 {
            assert(old(out)@ + decimal(n as nat) =~= old(out)@.push(c));
        } else {
            assert(old(out)@ + decimal(n as nat) =~= old(out)@ + decimal((n / 10) as nat) + seq![c]);
        }
    }
}

/// Appends the display of `x` to `out`.
pub(crate) fn push_i32(out: &mut Vec<char>, x: i32)
    ensures
        final(out)@ == old(out)@ + render_i32(x),
{
    if x < 0 {
        out.push('-');
        let m = (0i64 - x as i64) as u32;
        push_decimal(out, m);
        assert(old(out)@ + render_i32(x) =~= old(out)@.push('-') + decimal(m as nat));
    } else {
        push_decimal(out, x as u32);
    }
}

/// Appends the display of `x` to `out`.
pub(crate) fn push_u32(out: &mut Vec<char>, x: u32)
    ensures
        final(out)@ == old(out)@ + render_u32(x),
{
    push_decimal(out, x);
}

proof fn lemma_digit_char(d: nat)
    requires
        d < 10,
    ensures
        is_digit(digit_char(d)),
        digit_value(digit_char(d)) == d,
{
}

/// The shortest decimal spelling of a number is made of digits, starts with one, and
/// spells the number back.
pub proof fn lemma_decimal(n: nat)
    ensures
        decimal(n).len() >= 1,
        all_digits(decimal(n)),
        digits_value(decimal(n)) == n,
    decreases n,
{
    lemma_digit_char(n % 10);
    if n >= 10 {
        lemma_decimal(n / 10);
        let s = decimal(n);
        assert(s.drop_last() =~= decimal(n / 10));
        assert(s.last() == digit_char((n % 10) as nat));
        assert((n / 10) * 10 + n % 10 == n);
        assert(digit_value(s.last()) == n % 10);
        assert(digits_value(s) == digits_value(decimal(n / 10)) * 10 + n % 10);
        assert forall|i: int| 0 <= i < s.len() implies is_digit(#[trigger] s[i]) by {
            if i < s.len() - 1 {
                assert(s[i] == decimal(n / 10)[i]);
            }
        }
    } else {
        assert(decimal(n).drop_last() =~= Seq::<char>::empty());
        assert(digits_value(Seq::<char>::empty()) == 0);
        assert(decimal(n).last() == digit_char(n));
        assert(n % 10 == n);
    }
}

/// Reading back what display writes of an `i32` gives the same `i32`.
pub proof fn lemma_parse_render_i32(x: i32)
    ensures
        parse_i32_spec(render_i32(x)) == Some(x),
{
    let s = render_i32(x);
    if x < 0 {
        lemma_decimal((-x) as nat);
        assert(s.drop_first() =~= decimal((-x) as nat));
    } else {
        lemma_decimal(x as nat);
        assert(is_digit(s[0]));
    }
}

/// Reading back what display writes of a `u32` gives the same `u32`.
pub proof fn lemma_parse_render_u32(x: u32)
    ensures
        parse_u32_spec(render_u32(x)) == Some(x),
{
    let s = render_u32(x);
    lemma_decimal(x as nat);
    assert(is_digit(s[0]));
}

} // verus!
