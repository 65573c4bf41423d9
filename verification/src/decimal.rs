//! Base-ten numerals over character sequences: a specification of digit
//! strings, a verified formatter from `u32` to its canonical decimal
//! representation, and a verified parser for the numerals that the standard
//! unsigned integer parse accepts (an optional leading `+`, then digits).
use vstd::prelude::*;
use vstd::string::*;

verus! {

/// A decimal digit character, `'0'` through `'9'`.
pub open spec fn is_digit_char(c: char) -> bool {
    48 <= c as u32 <= 57
}

/// Numeric value of one digit character.
pub open spec fn digit_value(c: char) -> nat
    recommends
        is_digit_char(c),
{
    ((c as u32) - 48) as nat
}

/// The digit character for a value below ten.
pub open spec fn digit_char(d: nat) -> char
    recommends
        d < 10,
{
    if d == 0 {
        '0'
    } else if d == 1 {
        '1'
    } else if d == 2 {
        '2'
    } else if d == 3 {
        '3'
    } else if d == 4 {
        '4'
    } else if d == 5 {
        '5'
    } else if d == 6 {
        '6'
    } else if d == 7 {
        '7'
    } else if d == 8 {
        '8'
    } else {
        '9'
    }
}

pub open spec fn all_digit_chars(s: Seq<char>) -> bool {
    forall|i: int| 0 <= i < s.len() ==> is_digit_char(#[trigger] s[i])
}

/// Value of a digit string read in base ten; the empty string reads as zero.
pub open spec fn digits_value(s: Seq<char>) -> nat
    decreases s.len(),
{
    if s.len() == 0 {
        0
    } else {
        digits_value(s.drop_last()) * 10 + digit_value(s.last())
    }
}

/// Canonical decimal representation of `n`: digits only, no sign, and no
/// leading zero except for `n == 0` itself.
pub open spec fn decimal_rep(n: nat) -> Seq<char>
    decreases n,
{
    if n < 10 {
        seq![digit_char(n)]
    } else {
        decimal_rep(n / 10).push(digit_char(n % 10))
    }
}

/// The canonical representation is a non-empty digit string whose value
/// reads back as `n`.
pub proof fn lemma_decimal_rep(n: nat)
    ensures
        decimal_rep(n).len() >= 1,
        all_digit_chars(decimal_rep(n)),
        digits_value(decimal_rep(n)) == n,
    decreases n,
{
    if n < 10 {
        let s = decimal_rep(n);
        assert(s =~= seq![digit_char(n)]);
        assert(s.drop_last() =~= Seq::<char>::empty());
        assert(digits_value(Seq::<char>::empty()) == 0);
        assert(s.last() == digit_char(n));
        assert(digits_value(s) == digit_value(digit_char(n)));
    } else {
        lemma_decimal_rep(n / 10);
        let prefix = decimal_rep(n / 10);
        let s = decimal_rep(n);
        assert(s == prefix.push(digit_char(n % 10)));
        assert(s.drop_last() =~= prefix);
        assert(s.last() == digit_char(n % 10));
        assert(digits_value(s) == (n / 10) * 10 + (n % 10));
        assert forall|i: int| 0 <= i < s.len() implies is_digit_char(#[trigger] s[i]) by {
            if i < s.len() - 1 {
                assert(s[i] == prefix[i]);
            }
        }
    }
}

/// Reading a prefix of a digit string never exceeds reading the whole.
pub proof fn lemma_digits_value_prefix(s: Seq<char>, i: int)
    requires
        0 <= i <= s.len(),
        all_digit_chars(s),
    ensures
        digits_value(s.subrange(0, i)) <= digits_value(s),
    decreases s.len() - i,
{
    if i == s.len() {
        assert(s.subrange(0, i) =~= s);
    } else {
        let a = s.subrange(0, i);
        let b = s.subrange(0, i + 1);
        assert(b.drop_last() =~= a);
        assert(b.last() == s[i]);
        assert(digits_value(b) == digits_value(a) * 10 + digit_value(s[i]));
        lemma_digits_value_prefix(s, i + 1);
    }
}

/// The digits of a numeral, with any leading `+` sign removed.
pub open spec fn numeral_digits(s: Seq<char>) -> Seq<char> {
    if s.len() > 0 && s[0] == '+' {
        s.subrange(1, s.len() as int)
    } else {
        s
    }
}

/// The shape the standard unsigned integer parse accepts: an optional
/// leading `+`, then at least one digit.
pub open spec fn is_numeral(s: Seq<char>) -> bool {
    numeral_digits(s).len() > 0 && all_digit_chars(numeral_digits(s))
}

pub open spec fn numeral_value(s: Seq<char>) -> nat {
    digits_value(numeral_digits(s))
}

/// Parses a decimal numeral into a `u32`, with the outcomes of
/// `u32::from_str`: `Some` exactly on a well-shaped numeral whose value
/// fits, `None` on any other text.
pub fn parse_u32_numeral(s: &str) -> (r: Option<u32>)
    ensures
        match r {
            Some(v) => is_numeral(s@) && numeral_value(s@) <= u32::MAX && v == numeral_value(s@),
            None => !(is_numeral(s@) && numeral_value(s@) <= u32::MAX),
        },
{
    let len = s.unicode_len();
    if len == 0 {
        return None;
    }
    let first = s.get_char(0);
    let start: usize = if first == '+' {
        1
    } else {
        0
    };
    let ghost ds = numeral_digits(s@);
    proof {
        assert(ds =~= s@.subrange(start as int, len as int));
    }
    if start == len {
        return None;
    }
    let mut acc: u32 = 0;
    let mut i: usize = start;
    while i < len
        invariant
            start <= i <= len,
            len == s@.len(),
            start <= 1,
            ds == s@.subrange(start as int, len as int),
            ds == numeral_digits(s@),
            all_digit_chars(s@.subrange(start as int, i as int)),
            acc as nat == digits_value(s@.subrange(start as int, i as int)),
        decreases len - i,
    {
        let c = s.get_char(i);
        let v = c as u32;
        if v < 48 || v > 57 {
            proof {
                assert(ds[i - start] == s@[i as int]);
                assert(!is_digit_char(ds[i - start]));
            }
            return None;
        }
        let d: u32 = v - 48;
        proof {
            assert(is_digit_char(s@[i as int]));
            assert(digit_value(s@[i as int]) == d as nat);
        }
        let ghost a = s@.subrange(start as int, i as int);
        let ghost b = s@.subrange(start as int, i as int + 1);
        proof {
            assert(b.drop_last() =~= a);
            assert(b.last() == s@[i as int]);
            assert(digits_value(b) == digits_value(a) * 10 + d as nat);
        }
        let stepped = match acc.checked_mul(10) {
            Some(m) => m.checked_add(d),
            None => None,
        };
        match stepped {
            Some(m) => {
                acc = m;
                i = i + 1;
            },
            None => {
                proof {
                    assert(digits_value(b) > u32::MAX);
                    if all_digit_chars(ds) {
                        assert(b =~= ds.subrange(0, i as int + 1 - start));
                        lemma_digits_value_prefix(ds, i as int + 1 - start);
                        assert(digits_value(ds) > u32::MAX);
                    }
                }
                return None;
            },
        }
    }
    proof {
        assert(s@.subrange(start as int, len as int) =~= ds);
    }
    Some(acc)
}

/// Appends the canonical decimal representation of `n` to `out`.
pub fn push_u32_decimal(out: &mut String, n: u32)
    ensures
        final(out)@ == old(out)@ + decimal_rep(n as nat),
    decreases n,
{
    if n >= 10 {
        push_u32_decimal(out, n / 10);
    }
    let d = n % 10;
    let digit: &str = if d == 0 {
        "0"
    } else if d == 1 {
        "1"
    } else if d == 2 {
        "2"
    } else if d == 3 {
        "3"
    } else if d == 4 {
        "4"
    } else if d == 5 {
        "5"
    } else if d == 6 {
        "6"
    } else if d == 7 {
        "7"
    } else if d == 8 {
        "8"
    } else {
        "9"
    };
    proof {
        reveal_strlit("0");
        reveal_strlit("1");
        reveal_strlit("2");
        reveal_strlit("3");
        reveal_strlit("4");
        reveal_strlit("5");
        reveal_strlit("6");
        reveal_strlit("7");
        reveal_strlit("8");
        reveal_strlit("9");
        assert(digit@ =~= seq![digit_char((n % 10) as nat)]);
    }
    out.append(digit);
    proof {
        if n < 10 {
            assert(decimal_rep(n as nat) =~= seq![digit_char(n as nat)]);
            assert(out@ =~= old(out)@ + decimal_rep(n as nat));
        } else {
            assert(decimal_rep(n as nat) =~= decimal_rep((n / 10) as nat).push(
                digit_char((n % 10) as nat),
            ));
            assert(out@ =~= old(out)@ + decimal_rep(n as nat));
        }
    }
}

/// The canonical decimal representation of `n`, as a `String`.
pub fn u32_to_decimal_string(n: u32) -> (s: String)
    ensures
        s@ == decimal_rep(n as nat),
{
    let mut out = String::new();
    push_u32_decimal(&mut out, n);
    proof {
        assert(out@ =~= decimal_rep(n as nat));
    }
    out
}

} // verus!
