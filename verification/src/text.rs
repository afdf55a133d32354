//! Decimal numbers as text: writing them out and reading them back.
use vstd::prelude::*;

verus! {

/// The character of the decimal digit `d`.
pub open spec fn digit_char(d: nat) -> char {
    if d == 0 {
        '0'
    } else if d == 1 {
        '1'
    } else if d == 2 {
        '2'
    } else if d == 3 {
        '3'
    } else if d == 4 {
        '4'
    } else if d == 5 {
        '5'
    } else if d == 6 {
        '6'
    } else if d == 7 {
        '7'
    } else if d == 8 {
        '8'
    } else {
        '9'
    }
}

/// The decimal representation of `n`, without leading zeros.
pub open spec fn decimal(n: nat) -> Seq<char>
    decreases n,
{
    if n < 10 {
        seq![digit_char(n)]
    } else {
        decimal(n / 10) + seq![digit_char(n % 10)]
    }
}

/// Whether `c` is one of the ASCII digits.
pub open spec fn is_digit(c: char) -> bool {
    '0' <= c && c <= '9'
}

/// The value of the digit character `c`.
pub open spec fn digit_value(c: char) -> nat {
    ((c as u32) - ('0' as u32)) as nat
}

/// The value of a string of digits read in base ten (zero for the empty string).
pub open spec fn digits_value(s: Seq<char>) -> nat
    decreases s.len(),
{
    if s.len() == 0 {
        0
    } else {
        digits_value(s.drop_last()) * 10 + digit_value(s.last())
    }
}

/// Whether every character of `s` is a digit.
pub open spec fn all_digits(s: Seq<char>) -> bool {
    forall|i: int| 0 <= i < s.len() ==> is_digit(#[trigger] s[i])
}

/// How std reads a `usize` from text: an optional leading `+`, then at least one digit and
/// nothing else, and a value that fits in a `usize`.
pub open spec fn spec_parse_usize(s: Seq<char>) -> Option<usize> {
    let d = if s.len() > 0 && s[0] == '+' {
        s.drop_first()
    } else {
        s
    };
    if d.len() > 0 && all_digits(d) && digits_value(d) <= usize::MAX {
        Some(digits_value(d) as usize)
    } else {
        None
    }
}

/// The one-character text of the digit `d`.
fn digit_str(d: usize) -> (r: &'static str)
    requires
        d < 10,
    ensures
        r@ == seq![digit_char(d as nat)],
{
    if d == 0 {
        proof {
            reveal_strlit("0");
        }
        "0"
    } else if d == 1 {
        proof {
            reveal_strlit("1");
        }
        "1"
    } else if d == 2 {
        proof {
            reveal_strlit("2");
        }
        "2"
    } else if d == 3 {
        proof {
            reveal_strlit("3");
        }
        "3"
    } else if d == 4 {
        proof {
            reveal_strlit("4");
        }
        "4"
    } else if d == 5 {
        proof {
            reveal_strlit("5");
        }
        "5"
    } else if d == 6 {
        proof {
            reveal_strlit("6");
        }
        "6"
    } else if d == 7 {
        proof {
            reveal_strlit("7");
        }
        "7"
    } else if d == 8 {
        proof {
            reveal_strlit("8");
        }
        "8"
    } else {
        proof {
            reveal_strlit("9");
        }
        "9"
    }
}

/// Appends the decimal representation of `n` to `s`.
pub fn append_decimal(s: &mut String, n: usize)
    ensures
        final(s)@ == old(s)@ + decimal(n as nat),
    decreases n,
{
    if n >= 10 {
        append_decimal(s, n / 10);
    }
    s.append(digit_str(n % 10));
    proof {
        assert(old(s)@ + decimal(n as nat) =~= if n >= 10 {
            old(s)@ + decimal((n / 10) as nat) + seq![digit_char((n % 10) as nat)]
        } else {
            old(s)@ + seq![digit_char((n % 10) as nat)]
        });
    }
}

/// Appends the decimal representation of `n + 1` to `s`; `n` may be the largest `usize`.
pub fn append_decimal_succ(s: &mut String, n: usize)
    ensures
        final(s)@ == old(s)@ + decimal((n + 1) as nat),
    decreases n,
{
    let q = n / 10;
    let r = n % 10;
    proof {
        assert(n == 10 * q + r);
    }
    if r == 9 {
        // n + 1 = 10 * (q + 1), so its digits are those of q + 1, then a zero.
        append_decimal_succ(s, q);
        s.append(digit_str(0));
        proof {
            let m: nat = (n + 1) as nat;
            assert(m / 10 == q + 1 && m % 10 == 0);
            assert(m >= 10);
            assert(decimal(m) == decimal(m / 10) + seq![digit_char(m % 10)]);
            assert(old(s)@ + decimal(m) =~= old(s)@ + decimal((q + 1) as nat) + seq![digit_char(0)]);
        }
    } else if q == 0 {
        s.append(digit_str(r + 1));
        proof {
            assert(n + 1 < 10);
            assert(old(s)@ + decimal((n + 1) as nat) =~= old(s)@ + seq![digit_char((r + 1) as nat)]);
        }
    } else {
        // n + 1 = 10 * q + (r + 1) with r + 1 < 10.
        append_decimal(s, q);
        s.append(digit_str(r + 1));
        proof {
            let m: nat = (n + 1) as nat;
            assert(m / 10 == q && m % 10 == r + 1);
            assert(m >= 10);
            assert(decimal(m) == decimal(m / 10) + seq![digit_char(m % 10)]);
            assert(old(s)@ + decimal(m) =~= old(s)@ + decimal(q as nat) + seq![digit_char((r + 1) as nat)]);
        }
    }
}

/// The characters of `s`.
pub fn chars_of(s: &str) -> (r: Vec<char>)
    ensures
        r@ == s@,
{
    let mut out: Vec<char> = Vec::new();
    for c in it: s.chars()
        invariant
            out@ == it.seq().take(it.index() as int),
            it.seq() == s@,
    {
        out.push(c);
    }
    out
}

proof fn lemma_digit_char_is_digit(d: nat)
    requires
        d < 10,
    ensures
        is_digit(digit_char(d)),
        digit_value(digit_char(d)) == d,
        digit_char(d) != '+',
{
}

/// The decimal representation of a number is made of digits and reads back as the number.
pub proof fn lemma_decimal_digits(n: nat)
    ensures
        decimal(n).len() > 0,
        all_digits(decimal(n)),
        digits_value(decimal(n)) == n,
        decimal(n)[0] != '+',
    decreases n,
{
    if n < 10 {
        lemma_digit_char_is_digit(n);
        assert(decimal(n).drop_last() =~= Seq::<char>::empty());
        assert(digits_value(Seq::<char>::empty()) == 0);
        assert(digits_value(decimal(n)) == digits_value(decimal(n).drop_last()) * 10
            + digit_value(decimal(n).last()));
    } else {
        lemma_decimal_digits(n / 10);
        lemma_digit_char_is_digit(n % 10);
        let s = decimal(n);
        assert(s.drop_last() =~= decimal(n / 10));
        assert(s.last() == digit_char(n % 10));
        assert(digits_value(s) == digits_value(decimal(n / 10)) * 10 + digit_value(
            digit_char(n % 10),
        ));
        assert(n == (n / 10) * 10 + n % 10) by (nonlinear_arith);
        assert forall|i: int| 0 <= i < s.len() implies is_digit(#[trigger] s[i]) by {
            if i < s.len() - 1 {
                assert(s[i] == decimal(n / 10)[i]);
            }
        }
    }
}

/// Reading back the decimal representation of a `usize` gives the number.
pub proof fn lemma_parse_decimal(n: usize)
    ensures
        spec_parse_usize(decimal(n as nat)) == Some(n),
{
    lemma_decimal_digits(n as nat);
}

/// A prefix of a string of digits never has a greater value than the whole string.
proof fn lemma_digits_value_prefix(s: Seq<char>, k: int)
    requires
        0 <= k <= s.len(),
    ensures
        digits_value(s.take(k)) <= digits_value(s),
    decreases s.len(),
{
    if k < s.len() {
        lemma_digits_value_prefix(s.drop_last(), k);
        assert(s.drop_last().take(k) =~= s.take(k));
    } else {
        assert(s.take(k) =~= s);
    }
}

/// Reads a `usize` from the characters `s` the way std's `str::parse` does.
pub fn parse_usize(s: &[char]) -> (r: Option<usize>)
    ensures
        r == spec_parse_usize(s@),
{
    let len = s.len();
    let start: usize = if len > 0 && s[0] == '+' {
        1
    } else {
        0
    };
    let ghost d = if s@.len() > 0 && s@[0] == '+' {
        s@.drop_first()
    } else {
        s@
    };
    assert(d =~= s@.subrange(start as int, len as int));
    if start >= len {
        return None;
    }
    let mut acc: usize = 0;
    let mut i: usize = start;
    while i < len
        invariant
            start <= i <= len,
            len == s@.len(),
            d == (if s@.len() > 0 && s@[0] == '+' {
                s@.drop_first()
            } else {
                s@
            }),
            d =~= s@.subrange(start as int, len as int),
            all_digits(d.take(i - start)),
            acc as nat == digits_value(d.take(i - start)),
        decreases len - i,
    {
        let c = s[i];
        assert(d[i - start] == c);
        if !('0' <= c && c <= '9') {
            assert(!all_digits(d));
            return None;
        }
        let dig: u32 = (c as u32) - ('0' as u32);
        assert(d.take(i - start + 1).drop_last() =~= d.take(i - start));
        assert(digits_value(d.take(i - start + 1)) == digits_value(d.take(i - start)) * 10
            + digit_value(c));
        if acc > (usize::MAX - (dig as usize)) / 10 {
            proof {
                lemma_digits_value_prefix(d, i - start + 1);
                assert(acc * 10 + dig > usize::MAX) by (nonlinear_arith)
                    requires
                        acc > (usize::MAX - dig) / 10,
                        dig < 10,
                ;
            }
            return None;
        }
        assert(acc * 10 + dig <= usize::MAX) by (nonlinear_arith)
            requires
                acc <= (usize::MAX - dig) / 10,
                dig < 10,
        ;
        acc = acc * 10 + (dig as usize);
        assert forall|j: int| 0 <= j < d.take(i - start + 1).len() implies is_digit(
            #[trigger] d.take(i - start + 1)[j],
        ) by {
            if j < i - start {
                assert(d.take(i - start + 1)[j] == d.take(i - start)[j]);
            }
        }
        i = i + 1;
    }
    assert(d.take(len - start) =~= d);
    Some(acc)
}

} // verus!
