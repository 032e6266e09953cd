//! Decimal integers as text: reading an `i32` the way `str::parse::<i32>`
//! does, and writing one the way `i32::to_string` does.
use vstd::prelude::*;

verus! {

/// Is `c` one of the ASCII digits `0` to `9`?
pub open spec fn is_ascii_digit(c: char) -> bool {
    '0' <= c && c <= '9'
}

/// The value of an ASCII digit.
pub open spec fn digit_value(c: char) -> int {
    (c as int) - ('0' as int)
}

/// The ASCII digit of a value below ten.
pub open spec fn digit_char(d: nat) -> char {
    (d + ('0' as int)) as char
}

/// Every character of `s` is an ASCII digit.
pub open spec fn all_ascii_digits(s: Seq<char>) -> bool {
    forall|i: int| 0 <= i < s.len() ==> is_ascii_digit(#[trigger] s[i])
}

/// The value of a run of ASCII digits, most significant first.
pub open spec fn digits_value(s: Seq<char>) -> int
    decreases s.len(),
{
    if s.len() == 0 {
        0
    } else {
        digits_value(s.drop_last()) * 10 + digit_value(s.last())
    }
}

/// What `str::parse::<i32>` gives for `s`: an optional `+` or `-` sign
/// followed by at least one ASCII digit, whose value fits in an `i32`.
/// Anything else (empty text, a lone sign, any other character,
/// whitespace included, or a value out of range) is an error (`None`).
pub open spec fn spec_parse_i32(s: Seq<char>) -> Option<int> {
    let signed = s.len() > 0 && (s[0] == '-' || s[0] == '+');
    let negative = s.len() > 0 && s[0] == '-';
    let body = if signed { s.drop_first() } else { s };
    if body.len() > 0 && all_ascii_digits(body) {
        let v = if negative { -digits_value(body) } else { digits_value(body) };
        if i32::MIN <= v <= i32::MAX { Some(v) } else { None }
    } else {
        None
    }
}

/// The shortest decimal text of a natural number.
pub open spec fn decimal(n: nat) -> Seq<char>
    decreases n,
{
    if n < 10 {
        seq![digit_char(n)]
    } else {
        decimal(n / 10).push(digit_char(n % 10))
    }
}

/// The decimal text of an integer, with a leading `-` when it is negative,
/// as `i32::to_string` writes it.
pub open spec fn signed_decimal(v: int) -> Seq<char> {
    if v < 0 {
        seq!['-'] + decimal((-v) as nat)
    } else {
        decimal(v as nat)
    }
}

/// Above any value that a run of digits can have and still fit in an `i32`
/// once negated.
const DIGITS_CAP: u64 = 2147483649;

pub(crate) proof fn lemma_digits_value_nonneg(s: Seq<char>)
    requires
        all_ascii_digits(s),
    ensures
        digits_value(s) >= 0,
    decreases s.len(),
{
    if s.len() > 0 {
        assert(is_ascii_digit(s[s.len() - 1]));
        lemma_digits_value_nonneg(s.drop_last());
    }
}

/// Reading a number whose text is a valid `i32` and writing it again.
pub(crate) proof fn lemma_decimal_shape(n: nat)
    ensures
        decimal(n).len() > 0,
        all_ascii_digits(decimal(n)),
        digits_value(decimal(n)) == n,
    decreases n,
{
    let c = digit_char((n % 10) as nat);
    assert(digit_value(c) == n % 10);
    if n < 10 {
        assert(decimal(n).drop_last() =~= Seq::<char>::empty());
        assert(digits_value(Seq::<char>::empty()) == 0);
        assert(digits_value(decimal(n)) == digit_value(c));
    } else {
        lemma_decimal_shape(n / 10);
        let s = decimal(n / 10);
        let t = s.push(digit_char(n % 10));
        assert(t.drop_last() =~= s);
        assert forall|i: int| 0 <= i < t.len() implies is_ascii_digit(#[trigger] t[i]) by {
            if i < s.len() {
                assert(t[i] == s[i]);
            }
        }
        assert(digits_value(t) == digits_value(s) * 10 + digit_value(c));
        assert(n == (n / 10) * 10 + n % 10);
    }
}

/// Writing an `i32` in decimal and reading the text back gives the same
/// number.
pub proof fn lemma_parse_signed_decimal(v: int)
    requires
        i32::MIN <= v <= i32::MAX,
    ensures
        spec_parse_i32(signed_decimal(v)) == Some(v),
{
    if v < 0 {
        let m = (-v) as nat;
        lemma_decimal_shape(m);
        let s = signed_decimal(v);
        assert(s.drop_first() =~= decimal(m));
    } else {
        lemma_decimal_shape(v as nat);
        let s = decimal(v as nat);
        assert(is_ascii_digit(s[0]));
    }
}

/// Reads a decimal `i32` as `str::parse::<i32>` does: `None` where that
/// call returns an error.
pub fn parse_i32(s: &str) -> (res: Option<i32>)
    ensures
        match res {
            Some(v) => spec_parse_i32(s@) == Some(v as int),
            None => spec_parse_i32(s@) is None,
        },
{
    let n = s.unicode_len();
    if n == 0 {
        return None;
    }
    let first = s.get_char(0);
    let negative = first == '-';
    let start: usize = if first == '-' || first == '+' { 1 } else { 0 };
    let ghost body = if start == 1 { s@.drop_first() } else { s@ };
    if start == n {
        return None;
    }
    let mut acc: u64 = 0;
    let mut i: usize = start;
    while i < n
        invariant
            n == s@.len(),
            start <= i <= n,
            start == 0 || start == 1,
            n > 0,
            (start == 1) == (s@[0] == '-' || s@[0] == '+'),
            negative == (s@[0] == '-'),
            body =~= s@.subrange(start as int, n as int),
            all_ascii_digits(body.take(i - start)),
            acc as int == if digits_value(body.take(i - start)) < DIGITS_CAP {
                digits_value(body.take(i - start))
            } else {
                DIGITS_CAP as int
            },
        decreases n - i,
    {
        let c = s.get_char(i);
        if !('0' <= c && c <= '9') {
            proof {
                assert(body[i - start] == c);
                assert(!is_ascii_digit(body[i - start]));
                assert(!all_ascii_digits(body));
            }
            return None;
        }
        let d: u64 = (c as u32 - '0' as u32) as u64;
        let ghost prev = body.take(i - start);
        let ghost next = body.take(i - start + 1);
        proof {
            assert(next.drop_last() =~= prev);
            assert(next.last() == c);
            lemma_digits_value_nonneg(prev);
            assert forall|j: int| 0 <= j < next.len() implies is_ascii_digit(#[trigger] next[j]) by {
                if j < prev.len() {
                    assert(next[j] == prev[j]);
                }
            }
        }
        if acc >= DIGITS_CAP {
            acc = DIGITS_CAP;
        } else {
            let grown = acc * 10 + d;
            acc = if grown >= DIGITS_CAP { DIGITS_CAP } else { grown };
        }
        i = i + 1;
    }
    proof {
        assert(body.take(n - start) =~= body);
        lemma_digits_value_nonneg(body);
    }
    if negative {
        if acc <= 2147483648 {
            Some((0 - (acc as i64)) as i32)
        } else {
            None
        }
    } else {
        if acc <= 2147483647 {
            Some(acc as i32)
        } else {
            None
        }
    }
}

/// The text of one decimal digit.
fn digit_text(d: u64) -> (res: &'static str)
    requires
        d < 10,
    ensures
        res@ == seq![digit_char(d as nat)],
{
    proof {
        reveal_strlit("0");
        reveal_strlit("1");
        reveal_strlit("2");
        reveal_strlit("3");
        reveal_strlit("4");
        reveal_strlit("5");
        reveal_strlit("6");
        reveal_strlit("7");
        reveal_strlit("8");
        reveal_strlit("9");
    }
    if d == 0 {
        "0"
    } else if d == 1 {
        "1"
    } else if d == 2 {
        "2"
    } else if d == 3 {
        "3"
    } else if d == 4 {
        "4"
    } else if d == 5 {
        "5"
    } else if d == 6 {
        "6"
    } else if d == 7 {
        "7"
    } else if d == 8 {
        "8"
    } else {
        "9"
    }
}

/// Appends the decimal text of `n` to `out`.
fn append_decimal(out: &mut String, n: u64)
    ensures
        final(out)@ == old(out)@ + decimal(n as nat),
    decreases n,
{
    if n >= 10 {
        append_decimal(out, n / 10);
    }
    out.append(digit_text(n % 10));
    proof {
        if n >= 10 {
            assert(decimal(n as nat) == decimal((n / 10) as nat).push(digit_char((n % 10) as nat)));
        }
    }
    assert(final(out)@ =~= old(out)@ + decimal(n as nat)) by {
        if n < 10 {
            assert(n % 10 == n);
        }
    }
}

/// Writes an `i32` in decimal, as `i32::to_string` does.
pub fn i32_to_decimal(v: i32) -> (res: String)
    ensures
        res@ == signed_decimal(v as int),
{
    let mut out = String::new();
    if v < 0 {
        proof {
            reveal_strlit("-");
        }
        out.append("-");
        let m: u64 = (0 - (v as i64)) as u64;
        append_decimal(&mut out, m);
    } else {
        append_decimal(&mut out, v as u64);
    }
    out
}

} // verus!
