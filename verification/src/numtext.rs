//! Decimal text: the specification of decimal digit strings, a verified
//! printer from `u64` to text, and a verified reader for small counts.

use vstd::prelude::*;

verus! {

/// True of the ten decimal digit characters.
pub open spec fn is_digit_char(c: char) -> bool {
    48 <= c as u32 <= 57
}

/// The numeric value of a decimal digit character.
pub open spec fn digit_value(c: char) -> nat {
    (c as u32 - 48) as nat
}

/// The decimal digit character of `d`, meaningful for `d < 10`.
pub open spec fn digit_char(d: nat) -> char {
    ((d + 48) as u8) as char
}

/// The decimal representation of `n`: most significant digit first, no
/// leading zeros (zero itself is written `"0"`).
pub open spec fn dec_rep(n: nat) -> Seq<char>
    decreases n,
{
    if n < 10 {
        seq![digit_char(n)]
    } else {
        dec_rep(n / 10).push(digit_char(n % 10))
    }
}

/// The number a sequence of decimal digit characters denotes.
pub open spec fn dec_value(s: Seq<char>) -> nat
    decreases s.len(),
{
    if s.len() == 0 {
        0
    } else {
        dec_value(s.drop_last()) * 10 + digit_value(s.last())
    }
}

/// Every character of `s` is a decimal digit.
pub open spec fn all_digits(s: Seq<char>) -> bool {
    forall|i: int| 0 <= i < s.len() ==> is_digit_char(#[trigger] s[i])
}

/// The powers of ten.
pub open spec fn pow10(k: nat) -> nat
    decreases k,
{
    if k == 0 {
        1
    } else {
        10 * pow10((k - 1) as nat)
    }
}

/// The low `width` decimal digits of `n`, most significant first,
/// padded with leading zeros.
pub open spec fn fixed_digits(n: nat, width: nat) -> Seq<char>
    decreases width,
{
    if width == 0 {
        Seq::empty()
    } else {
        fixed_digits(n / 10, (width - 1) as nat).push(digit_char(n % 10))
    }
}

/// Strip common factors of ten from a fraction `n / 10^width`: the pair
/// of the reduced numerator and the reduced width.  A zero fraction
/// reduces to width zero.
pub open spec fn reduced_fraction(n: nat, width: nat) -> (nat, nat)
    decreases width,
{
    if width == 0 || n % 10 != 0 {
        (n, width)
    } else {
        reduced_fraction(n / 10, (width - 1) as nat)
    }
}

/// The exact decimal representation of `amount / 10^pow`: the integer
/// part, and the fractional digits without trailing zeros where the
/// fraction is not zero.
pub open spec fn amount_rep(amount: nat, pow: nat) -> Seq<char> {
    let q = amount / pow10(pow);
    let (fr, fw) = reduced_fraction(amount % pow10(pow), pow);
    if fw == 0 {
        dec_rep(q)
    } else {
        dec_rep(q) + "."@ + fixed_digits(fr, fw)
    }
}

/// The power of ten as a machine number, for exponents up to nineteen.
pub fn pow10_u64(k: u8) -> (r: u64)
    requires
        k <= 19,
    ensures
        r as nat == pow10(k as nat),
        r >= 1,
{
    proof {
        reveal_with_fuel(pow10, 21);
    }
    match k {
        0 => 1,
        1 => 10,
        2 => 100,
        3 => 1000,
        4 => 10000,
        5 => 100000,
        6 => 1000000,
        7 => 10000000,
        8 => 100000000,
        9 => 1000000000,
        10 => 10000000000,
        11 => 100000000000,
        12 => 1000000000000,
        13 => 10000000000000,
        14 => 100000000000000,
        15 => 1000000000000000,
        16 => 10000000000000000,
        17 => 100000000000000000,
        18 => 1000000000000000000,
        _ => 10000000000000000000,
    }
}

/// Append one decimal digit character to `s`.
fn push_digit(s: &mut String, d: u64)
    requires
        d < 10,
    ensures
        final(s)@ == old(s)@ + seq![digit_char(d as nat)],
{
    proof {
        reveal_strlit("0");
        reveal_strlit("1");
        reveal_strlit("2");
        reveal_strlit("3");
        reveal_strlit("4");
        reveal_strlit("5");
        reveal_strlit("6");
        reveal_strlit("7");
        reveal_strlit("8");
        reveal_strlit("9");
    }
    let digit: &str = match d {
        0 => "0",
        1 => "1",
        2 => "2",
        3 => "3",
        4 => "4",
        5 => "5",
        6 => "6",
        7 => "7",
        8 => "8",
        _ => "9",
    };
    assert(digit@ =~= seq![digit_char(d as nat)]);
    s.append(digit);
}

/// Append the decimal representation of `n` to `s`.
pub fn push_dec_u64(s: &mut String, n: u64)
    ensures
        final(s)@ == old(s)@ + dec_rep(n as nat),
    decreases n,
{
    if n >= 10 {
        push_dec_u64(s, n / 10);
    }
    push_digit(s, n % 10);
    proof {
        if n >= 10 {
            assert(old(s)@ + dec_rep((n / 10) as nat) + seq![digit_char((n % 10) as nat)]
                =~= old(s)@ + dec_rep(n as nat));
        } else {
            assert(old(s)@ + seq![digit_char(n as nat)] =~= old(s)@ + dec_rep(n as nat));
        }
    }
}

/// Append exactly `width` low decimal digits of `n` to `s`, most
/// significant first, with leading zeros.
pub fn push_fixed_u64(s: &mut String, n: u64, width: u8)
    ensures
        final(s)@ == old(s)@ + fixed_digits(n as nat, width as nat),
    decreases width,
{
    if width > 0 {
        push_fixed_u64(s, n / 10, width - 1);
        push_digit(s, n % 10);
        proof {
            assert(old(s)@ + fixed_digits((n / 10) as nat, (width - 1) as nat) + seq![
                digit_char((n % 10) as nat)] =~= old(s)@ + fixed_digits(n as nat, width as nat));
        }
    } else {
        proof {
            assert(old(s)@ + fixed_digits(n as nat, 0) =~= old(s)@);
        }
    }
}

/// Append the exact decimal representation of `amount / 10^pow` to `s`.
pub fn push_amount(s: &mut String, amount: u64, pow: u8)
    requires
        pow <= 19,
    ensures
        final(s)@ == old(s)@ + amount_rep(amount as nat, pow as nat),
{
    let denom = pow10_u64(pow);
    let q = amount / denom;
    let mut fr = amount % denom;
    let mut fw = pow;
    while fw > 0 && fr % 10 == 0
        invariant
            reduced_fraction(fr as nat, fw as nat) == reduced_fraction(
                (amount % denom) as nat,
                pow as nat,
            ),
        decreases fw,
    {
        fr = fr / 10;
        fw = fw - 1;
    }
    push_dec_u64(s, q);
    if fw > 0 {
        s.append(".");
        push_fixed_u64(s, fr, fw);
    }
    proof {
        assert(final(s)@ =~= old(s)@ + amount_rep(amount as nat, pow as nat));
    }
}

/// Read a token of one to seven decimal digit characters as a number.
/// Returns `None` exactly when the token is empty, longer than seven
/// characters, or holds a character that is no decimal digit.
pub fn parse_small_dec(tok: &str) -> (r: Option<u64>)
    ensures
        match r {
            Some(v) => all_digits(tok@) && 1 <= tok@.len() <= 7 && v as nat == dec_value(tok@)
                && v < 10000000,
            None => !(all_digits(tok@) && 1 <= tok@.len() <= 7),
        },
{
    let len = tok.unicode_len();
    if len == 0 || len > 7 {
        return None;
    }
    let mut acc: u64 = 0;
    let mut i: usize = 0;
    while i < len
        invariant
            i <= len,
            len == tok@.len(),
            1 <= len <= 7,
            all_digits(tok@.subrange(0, i as int)),
            acc as nat == dec_value(tok@.subrange(0, i as int)),
            i == 0 ==> acc == 0,
            i <= 1 ==> acc < 10,
            i <= 2 ==> acc < 100,
            i <= 3 ==> acc < 1000,
            i <= 4 ==> acc < 10000,
            i <= 5 ==> acc < 100000,
            i <= 6 ==> acc < 1000000,
            acc < 10000000,
        decreases len - i,
    {
        let c = tok.get_char(i);
        let u = c as u32;
        if u < 48 || u > 57 {
            assert(!is_digit_char(tok@[i as int]));
            return None;
        }
        acc = acc * 10 + (u - 48) as u64;
        i = i + 1;
        proof {
            assert(tok@.subrange(0, i as int).drop_last() =~= tok@.subrange(0, i - 1));
            assert(tok@.subrange(0, i as int).last() == tok@[i - 1]);
        }
    }
    proof {
        assert(tok@.subrange(0, len as int) =~= tok@);
    }
    Some(acc)
}

/// The decimal representation of `n` as a fresh string.
pub fn to_dec_string(n: u64) -> (r: String)
    ensures
        r@ == dec_rep(n as nat),
{
    let mut s = String::new();
    push_dec_u64(&mut s, n);
    proof {
        assert(Seq::<char>::empty() + dec_rep(n as nat) =~= dec_rep(n as nat));
    }
    s
}

} // verus!
