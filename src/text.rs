use vstd::prelude::*;
use vstd::string::StringExecFns;

verus! {

/// The character of the decimal digit `d`.
pub open spec fn digit_char(d: nat) -> char {
    seq!['0', '1', '2', '3', '4', '5', '6', '7', '8', '9'][d as int]
}

/// The decimal digits of `n`, most significant first, without leading zeros.
pub open spec fn digits_of(n: nat) -> Seq<char>
    decreases n,
{
    if n < 10 {
        seq![digit_char(n)]
    } else {
        digits_of(n / 10).push(digit_char(n % 10))
    }
}

/// `n` written in decimal, with a leading `-` when it is negative.
pub open spec fn decimal_of(n: int) -> Seq<char> {
    if n < 0 {
        seq!['-'] + digits_of((-n) as nat)
    } else {
        digits_of(n as nat)
    }
}

fn digit_str(d: u64) -> (r: &'static str)
    requires
        d < 10,
    ensures
        r@ == seq![digit_char(d as nat)],
{
    let r = if d == 0 {
        "0"
    } else if d == 1 {
        "1"
    } else if d == 2 {
        "2"
    } else if d == 3 {
        "3"
    } else if d == 4 {
        "4"
    } else if d == 5 {
        "5"
    } else if d == 6 {
        "6"
    } else if d == 7 {
        "7"
    } else if d == 8 {
        "8"
    } else {
        "9"
    };
    proof {
        reveal_strlit("0");
        reveal_strlit("1");
        reveal_strlit("2");
        reveal_strlit("3");
        reveal_strlit("4");
        reveal_strlit("5");
        reveal_strlit("6");
        reveal_strlit("7");
        reveal_strlit("8");
        reveal_strlit("9");
    }
    assert(r@ =~= seq![digit_char(d as nat)]);
    r
}

/// Appends the decimal digits of `n` to `out`.
pub fn push_digits(out: &mut String, n: u64)
    ensures
        final(out)@ == old(out)@ + digits_of(n as nat),
    decreases n,
{
    if n >= 10 {
        push_digits(out, n / 10);
    }
    out.append(digit_str(n % 10));
    assert(final(out)@ =~= old(out)@ + digits_of(n as nat));
}

/// Appends `n`, written in decimal, to `out`.
pub fn push_decimal(out: &mut String, n: i64)
    ensures
        final(out)@ == old(out)@ + decimal_of(n as int),
{
    if n < 0 {
        proof {
            reveal_strlit("-");
        }
        out.append("-");
        push_digits(out, (-(n as i128)) as u64);
        assert(final(out)@ =~= old(out)@ + decimal_of(n as int));
    } else {
        push_digits(out, n as u64);
    }
}

} // verus!
