use vstd::prelude::*;
use vstd::arithmetic::div_mod::lemma_div_denominator;

verus! {

pub open spec fn pow1024(n: nat) -> nat
    decreases n,
{
    if n == 0 {
        1
    } else {
        1024 * pow1024((n - 1) as nat)
    }
}

/// How many times `b` can be divided by 1024 before it falls below 1024.
pub open spec fn unit_index(b: nat) -> nat
    decreases b,
{
    if b < 1024 {
        0
    } else {
        1 + unit_index(b / 1024)
    }
}

/// `num / den` rounded to the nearest integer, ties to the even one.
pub open spec fn round_half_even(num: nat, den: nat) -> nat
    recommends
        den > 0,
{
    let q = num / den;
    let r = num % den;
    if 2 * r > den {
        q + 1
    } else if 2 * r < den {
        q
    } else if q % 2 == 0 {
        q
    } else {
        q + 1
    }
}

pub open spec fn digit_char(d: nat) -> char {
    if d < 10 {
        (d + '0' as nat) as char
    } else {
        '?'
    }
}

/// Decimal digits of `n`, without leading zeros.
pub open spec fn decimal(n: nat) -> Seq<char>
    decreases n,
{
    if n < 10 {
        seq![digit_char(n)]
    } else {
        decimal(n / 10).push(digit_char(n % 10))
    }
}

pub open spec fn unit_name(n: nat) -> Seq<char> {
    if n == 0 {
        seq!['B']
    } else {
        let p = if n == 1 {
            'K'
        } else if n == 2 {
            'M'
        } else if n == 3 {
            'G'
        } else if n == 4 {
            'T'
        } else if n == 5 {
            'P'
        } else {
            'E'
        };
        seq![p, 'i', 'B']
    }
}

/// `h` hundredths as a decimal number with two decimals.
pub open spec fn hundredths_text(h: nat) -> Seq<char> {
    decimal(h / 100) + seq!['.', digit_char((h % 100) / 10), digit_char(h % 10)]
}

/// The amount `b` in the largest binary unit that leaves at least 1, with
/// two decimals, rounded to nearest with ties to even: `1536` is `1.50KiB`.
pub open spec fn format_bytes_spec(b: nat) -> Seq<char> {
    let n = unit_index(b);
    let h = round_half_even(b * 100, pow1024(n));
    hundredths_text(h) + unit_name(n)
}

fn digit_text(d: u64) -> (r: &'static str)
    requires
        d < 10,
    ensures
        r@ == seq![digit_char(d as nat)],
{
    proof {
        reveal_strlit("0");
        reveal_strlit("1");
        reveal_strlit("2");
        reveal_strlit("3");
        reveal_strlit("4");
        reveal_strlit("5");
        reveal_strlit("6");
        reveal_strlit("7");
        reveal_strlit("8");
        reveal_strlit("9");
    }
    if d == 0 {
        "0"
    } else if d == 1 {
        "1"
    } else if d == 2 {
        "2"
    } else if d == 3 {
        "3"
    } else if d == 4 {
        "4"
    } else if d == 5 {
        "5"
    } else if d == 6 {
        "6"
    } else if d == 7 {
        "7"
    } else if d == 8 {
        "8"
    } else {
        "9"
    }
}

/// Appends the decimal digits of `n`.
pub fn push_decimal(s: &mut String, n: u64)
    ensures
        final(s)@ == old(s)@ + decimal(n as nat),
    decreases n,
{
    if n >= 10 {
        push_decimal(s, n / 10);
    }
    s.append(digit_text(n % 10));
    proof {
        if n < 10 {
            assert(n % 10 == n);
        }
    }
}

fn unit_text(n: u64) -> (r: &'static str)
    ensures
        r@ == unit_name(n as nat),
{
    proof {
        reveal_strlit("B");
        reveal_strlit("KiB");
        reveal_strlit("MiB");
        reveal_strlit("GiB");
        reveal_strlit("TiB");
        reveal_strlit("PiB");
        reveal_strlit("EiB");
    }
    if n == 0 {
        "B"
    } else if n == 1 {
        "KiB"
    } else if n == 2 {
        "MiB"
    } else if n == 3 {
        "GiB"
    } else if n == 4 {
        "TiB"
    } else if n == 5 {
        "PiB"
    } else {
        "EiB"
    }
}

pub fn format_bytes(bytes: u64) -> (r: String)
    ensures
        r@ == format_bytes_spec(bytes as nat),
{
    let mut n: u64 = 0;
    let mut cur: u64 = bytes;
    let mut den: u128 = 1;
    assert(pow1024(1) == 1024) by {
        reveal_with_fuel(pow1024, 2);
    }
    while cur >= 1024
        invariant
            den == pow1024(n as nat),
            den >= 1,
            den <= u64::MAX,
            cur == bytes as int / den as int,
            unit_index(bytes as nat) == n + unit_index(cur as nat),
            den * cur <= bytes,
            n <= 6,
        decreases cur,
    {
        assert(pow1024((n + 1) as nat) == 1024 * pow1024(n as nat));
        assert(den * 1024 <= den * cur) by (nonlinear_arith)
            requires
                cur >= 1024,
                den >= 1,
        ;
        proof {
            lemma_div_denominator(bytes as int, den as int, 1024);
        }
        assert((den * 1024) * (cur / 1024) <= bytes) by (nonlinear_arith)
            requires
                den * cur <= bytes,
                den >= 1,
                cur >= 1024,
        {
            vstd::arithmetic::div_mod::lemma_fundamental_div_mod(cur as int, 1024);
        }
        proof {
            if n == 6 {
                reveal_with_fuel(pow1024, 7);
                assert(den == 0x1000_0000_0000_0000);
            }
        }
        cur = cur / 1024;
        den = den * 1024;
        n = n + 1;
    }
    let num: u128 = (bytes as u128) * 100;
    let q = num / den;
    let rem = num % den;
    assert(q < 102400) by {
        vstd::arithmetic::div_mod::lemma_fundamental_div_mod(bytes as int, den as int);
        vstd::arithmetic::div_mod::lemma_fundamental_div_mod(num as int, den as int);
        assert(bytes < 1024 * den) by (nonlinear_arith)
            requires
                bytes as int == den as int * cur as int + (bytes as int) % (den as int),
                (bytes as int) % (den as int) < den,
                cur < 1024,
        ;
        assert(q < 102400) by (nonlinear_arith)
            requires
                num as int == den as int * q as int + (num as int) % (den as int),
                (num as int) % (den as int) >= 0,
                num == bytes * 100,
                bytes < 1024 * den,
                den >= 1,
        ;
    }
    let h: u128 = if 2 * rem > den {
        q + 1
    } else if 2 * rem < den {
        q
    } else if q % 2 == 0 {
        q
    } else {
        q + 1
    };
    let mut s = String::new();
    push_hundredths(&mut s, h as u64);
    s.append(unit_text(n));
    s
}

/// Appends `h` hundredths with two decimals.
pub fn push_hundredths(s: &mut String, h: u64)
    ensures
        final(s)@ == old(s)@ + hundredths_text(h as nat),
{
    push_decimal(s, h / 100);
    proof {
        reveal_strlit(".");
    }
    s.append(".");
    s.append(digit_text((h % 100) / 10));
    s.append(digit_text(h % 10));
}

} // verus!
