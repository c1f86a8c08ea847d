use vstd::prelude::*;

verus! {

pub open spec fn digits() -> Seq<char> {
    seq!['0', '1', '2', '3', '4', '5', '6', '7', '8', '9']
}

/// The decimal text of `n`, without leading zeros.
pub open spec fn decimal_of(n: nat) -> Seq<char>
    decreases n,
{
    if n < 10 {
        seq![digits()[n as int]]
    } else {
        decimal_of(n / 10).push(digits()[(n % 10) as int])
    }
}

/// `n / 100` with two decimals: `1234` reads "12.34".
pub open spec fn hundredths_text(n: nat) -> Seq<char> {
    decimal_of(n / 100) + seq!['.', digits()[((n / 10) % 10) as int], digits()[(n % 10) as int]]
}

/// `a / d` rounded to the nearest integer, ties to the even one.
pub open spec fn round_half_even(a: nat, d: nat) -> nat {
    let q = a / d;
    let r = a % d;
    if 2 * r > d || (2 * r == d && q % 2 == 1) {
        q + 1
    } else {
        q
    }
}

pub open spec fn magnitude(x: int) -> nat {
    if x < 0 {
        (-x) as nat
    } else {
        x as nat
    }
}

pub open spec fn sign_text(x: int) -> Seq<char> {
    if x < 0 {
        seq!['-']
    } else {
        Seq::empty()
    }
}

/// A dollar amount (in millionths) as text: `$`, the sign, the amount in
/// billions (`B`), millions (`M`) or thousands (`K`) from those thresholds up,
/// else in dollars, with two decimals.
pub open spec fn currency_text(amount: int) -> Seq<char> {
    let m = magnitude(amount);
    let (unit, suffix) = if amount >= 1_000_000_000_000_000 {
        (10_000_000_000_000nat, seq!['B'])
    } else if amount >= 1_000_000_000_000 {
        (10_000_000_000nat, seq!['M'])
    } else if amount >= 1_000_000_000 {
        (10_000_000nat, seq!['K'])
    } else {
        (10_000nat, Seq::<char>::empty())
    };
    seq!['$'] + sign_text(amount) + hundredths_text(round_half_even(m, unit)) + suffix
}

/// A fraction (in millionths) as a percentage with two decimals.
pub open spec fn percentage_text(value: int) -> Seq<char> {
    sign_text(value) + hundredths_text(round_half_even(magnitude(value), 100)) + seq!['%']
}

fn digit_text(d: u64) -> (r: &'static str)
    requires
        d < 10,
    ensures
        r@ == seq![digits()[d as int]],
{
    if d == 0 {
        proof {
            reveal_strlit("0");
        }
        "0"
    } else if d == 1 {
        proof {
            reveal_strlit("1");
        }
        "1"
    } else if d == 2 {
        proof {
            reveal_strlit("2");
        }
        "2"
    } else if d == 3 {
        proof {
            reveal_strlit("3");
        }
        "3"
    } else if d == 4 {
        proof {
            reveal_strlit("4");
        }
        "4"
    } else if d == 5 {
        proof {
            reveal_strlit("5");
        }
        "5"
    } else if d == 6 {
        proof {
            reveal_strlit("6");
        }
        "6"
    } else if d == 7 {
        proof {
            reveal_strlit("7");
        }
        "7"
    } else if d == 8 {
        proof {
            reveal_strlit("8");
        }
        "8"
    } else {
        proof {
            reveal_strlit("9");
        }
        "9"
    }
}

fn push_decimal(text: &mut String, n: u64)
    ensures
        final(text)@ == old(text)@ + decimal_of(n as nat),
    decreases n,
{
    if n >= 10 {
        push_decimal(text, n / 10);
    }
    text.append(digit_text(n % 10));
    proof {
        if n >= 10 {
            assert(decimal_of(n as nat) == decimal_of((n / 10) as nat).push(
                digits()[(n % 10) as int],
            ));
        }
    }
    assert(final(text)@ =~= old(text)@ + decimal_of(n as nat));
}

fn push_hundredths(text: &mut String, n: u64)
    ensures
        final(text)@ == old(text)@ + hundredths_text(n as nat),
{
    push_decimal(text, n / 100);
    proof {
        reveal_strlit(".");
    }
    text.append(".");
    text.append(digit_text((n / 10) % 10));
    text.append(digit_text(n % 10));
    assert(final(text)@ =~= old(text)@ + hundredths_text(n as nat));
}

fn round_even(a: u128, d: u128) -> (r: u64)
    requires
        100 <= d <= 10_000_000_000_000,
        a <= 0x8000_0000_0000_0000,
    ensures
        r == round_half_even(a as nat, d as nat),
{
    let q = a / d;
    let r = a % d;
    if 2 * r > d || (2 * r == d && q % 2 == 1) {
        (q + 1) as u64
    } else {
        q as u64
    }
}

/// Renders a dollar amount given in millionths: `$1.23K` for 1234.56, with
/// `K`, `M` and `B` from a thousand, a million and a billion dollars up, two
/// decimals rounded to nearest (ties to even).
pub fn format_currency(amount: i64) -> (r: String)
    ensures
        r@ == currency_text(amount as int),
{
    let m: u128 = if amount < 0 { (-(amount as i128)) as u128 } else { amount as u128 };
    let (unit, suffix): (u128, &str) = if amount >= 1_000_000_000_000_000 {
        proof {
            reveal_strlit("B");
        }
        (10_000_000_000_000, "B")
    } else if amount >= 1_000_000_000_000 {
        proof {
            reveal_strlit("M");
        }
        (10_000_000_000, "M")
    } else if amount >= 1_000_000_000 {
        proof {
            reveal_strlit("K");
        }
        (10_000_000, "K")
    } else {
        proof {
            reveal_strlit("");
        }
        (10_000, "")
    };
    let h = round_even(m, unit);
    let mut text = String::new();
    proof {
        reveal_strlit("$");
        reveal_strlit("-");
    }
    text.append("$");
    if amount < 0 {
        text.append("-");
    }
    push_hundredths(&mut text, h);
    text.append(suffix);
    assert(text@ =~= currency_text(amount as int));
    text
}

/// Renders a fraction given in millionths as a percentage with two decimals
/// rounded to nearest (ties to even): `12.34%` for 0.1234.
pub fn format_percentage(value: i64) -> (r: String)
    ensures
        r@ == percentage_text(value as int),
{
    let m: u128 = if value < 0 { (-(value as i128)) as u128 } else { value as u128 };
    let h = round_even(m, 100);
    let mut text = String::new();
    proof {
        reveal_strlit("-");
        reveal_strlit("%");
    }
    if value < 0 {
        text.append("-");
    }
    push_hundredths(&mut text, h);
    text.append("%");
    assert(text@ =~= percentage_text(value as int));
    text
}

} // verus!
