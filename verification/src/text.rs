//! Small operations on text that the login check needs.

use vstd::prelude::*;
use vstd::string::StrSliceExecFns;
use vstd::string::StringExecFns;

verus! {

/// `text` without every `0x` that it begins with.
pub open spec fn stripped(text: Seq<char>) -> Seq<char>
    decreases text.len(),
{
    if text.len() >= 2 && text[0] == '0' && text[1] == 'x' {
        stripped(text.skip(2))
    } else {
        text
    }
}

/// The decimal digit for a value below 10.
pub open spec fn decimal_digit(value: nat) -> char {
    (48 + value) as u8 as char
}

/// The decimal text of a number.
pub open spec fn decimal_chars(n: nat) -> Seq<char>
    decreases n,
{
    if n < 10 {
        seq![decimal_digit(n)]
    } else {
        decimal_chars(n / 10).push(decimal_digit(n % 10))
    }
}

/// Removes every `0x` at the front of `text`.
pub fn strip_0x(text: &str) -> (r: &str)
    ensures
        r@ == stripped(text@),
{
    let n = text.unicode_len();
    let mut start: usize = 0;
    assert(text@.skip(0) =~= text@);
    while n - start >= 2 && text.get_char(start) == '0' && text.get_char(start + 1) == 'x'
        invariant
            start <= n,
            n == text@.len(),
            stripped(text@) == stripped(text@.skip(start as int)),
        decreases n - start,
    {
        proof {
            let rest = text@.skip(start as int);
            assert(rest[0] == text@[start as int]);
            assert(rest[1] == text@[start + 1]);
            assert(rest.skip(2) =~= text@.skip(start + 2));
        }
        start = start + 2;
    }
    proof {
        let rest = text@.skip(start as int);
        if rest.len() >= 2 {
            assert(rest[0] == text@[start as int]);
            assert(rest[1] == text@[start + 1]);
        }
        assert(rest =~= text@.subrange(start as int, n as int));
    }
    text.substring_char(start, n)
}

/// The text of one decimal digit.
pub fn digit_text(value: usize) -> (r: &'static str)
    requires
        value < 10,
    ensures
        r@ == seq![decimal_digit(value as nat)],
{
    proof {
        reveal_strlit("0");
        reveal_strlit("1");
        reveal_strlit("2");
        reveal_strlit("3");
        reveal_strlit("4");
        reveal_strlit("5");
        reveal_strlit("6");
        reveal_strlit("7");
        reveal_strlit("8");
        reveal_strlit("9");
    }
    let r = if value == 0 {
        "0"
    } else if value == 1 {
        "1"
    } else if value == 2 {
        "2"
    } else if value == 3 {
        "3"
    } else if value == 4 {
        "4"
    } else if value == 5 {
        "5"
    } else if value == 6 {
        "6"
    } else if value == 7 {
        "7"
    } else if value == 8 {
        "8"
    } else {
        "9"
    };
    assert(r@ =~= seq![decimal_digit(value as nat)]);
    r
}

/// The decimal text of a number.
pub fn decimal(n: usize) -> (r: String)
    ensures
        r@ == decimal_chars(n as nat),
    decreases n,
{
    if n < 10 {
        String::from_str(digit_text(n))
    } else {
        let mut r = decimal(n / 10);
        r.append(digit_text(n % 10));
        proof {
            let d = decimal_digit((n % 10) as nat);
            assert(decimal_chars((n / 10) as nat) + seq![d] =~= decimal_chars((n / 10) as nat).push(
                d,
            ));
        }
        r
    }
}

} // verus!
