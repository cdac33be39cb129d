use vstd::prelude::*;
use vstd::arithmetic::div_mod::lemma_fundamental_div_mod;

verus! {

/// The character of one decimal digit.
pub open spec fn spec_digit_char(d: nat) -> char {
    if d == 0 {
        '0'
    } else if d == 1 {
        '1'
    } else if d == 2 {
        '2'
    } else if d == 3 {
        '3'
    } else if d == 4 {
        '4'
    } else if d == 5 {
        '5'
    } else if d == 6 {
        '6'
    } else if d == 7 {
        '7'
    } else if d == 8 {
        '8'
    } else {
        '9'
    }
}

/// The canonical decimal text of a non-negative integer: no sign, no
/// leading zero except for the number zero itself.
pub open spec fn spec_decimal(n: nat) -> Seq<char>
    decreases n,
{
    if n < 10 {
        seq![spec_digit_char(n)]
    } else {
        spec_decimal(n / 10).push(spec_digit_char(n % 10))
    }
}

fn digit_char(d: u32) -> (c: char)
    requires
        d < 10,
    ensures
        c == spec_digit_char(d as nat),
{
    if d == 0 {
        '0'
    } else if d == 1 {
        '1'
    } else if d == 2 {
        '2'
    } else if d == 3 {
        '3'
    } else if d == 4 {
        '4'
    } else if d == 5 {
        '5'
    } else if d == 6 {
        '6'
    } else if d == 7 {
        '7'
    } else if d == 8 {
        '8'
    } else {
        '9'
    }
}

/// Appends the canonical decimal text of `n` to a character buffer.
pub fn push_decimal(n: u32, out: &mut Vec<char>)
    ensures
        final(out)@ == old(out)@ + spec_decimal(n as nat),
    decreases n,
{
    if n >= 10 {
        push_decimal(n / 10, out);
    }
    let c = digit_char(n % 10);
    out.push(c);
    proof {
        if n < 10 {
            assert(out@ =~= old(out)@ + spec_decimal(n as nat));
        } else {
            assert(out@ =~= old(out)@ + spec_decimal(n as nat));
        }
    }
}

/// The canonical decimal text of `n` as a character buffer.
pub fn decimal_chars(n: u32) -> (r: Vec<char>)
    ensures
        r@ == spec_decimal(n as nat),
{
    let mut v: Vec<char> = Vec::new();
    push_decimal(n, &mut v);
    proof {
        assert(v@ =~= spec_decimal(n as nat));
    }
    v
}

/// The decimal text of any number holds at least one character, and at
/// least two once the number reaches ten.
pub proof fn lemma_decimal_len(n: nat)
    ensures
        spec_decimal(n).len() >= 1,
        n >= 10 ==> spec_decimal(n).len() >= 2,
    decreases n,
{
    if n >= 10 {
        lemma_decimal_len(n / 10);
    }
}

proof fn lemma_digit_char_injective(x: nat, y: nat)
    requires
        x < 10,
        y < 10,
        spec_digit_char(x) == spec_digit_char(y),
    ensures
        x == y,
{
}

/// Distinct numbers have distinct canonical decimal texts.
pub proof fn lemma_decimal_injective(a: nat, b: nat)
    requires
        spec_decimal(a) == spec_decimal(b),
    ensures
        a == b,
    decreases a,
{
    lemma_decimal_len(a);
    lemma_decimal_len(b);
    if a < 10 && b < 10 {
        assert(spec_decimal(a)[0] == spec_digit_char(a));
        assert(spec_decimal(b)[0] == spec_digit_char(b));
        lemma_digit_char_injective(a, b);
    } else if a < 10 {
        assert(spec_decimal(a).len() == 1);
        assert(false);
    } else if b < 10 {
        assert(spec_decimal(b).len() == 1);
        assert(false);
    } else {
        assert(spec_decimal(a).last() == spec_digit_char(a % 10));
        assert(spec_decimal(b).last() == spec_digit_char(b % 10));
        lemma_digit_char_injective(a % 10, b % 10);
        assert(spec_decimal(a).drop_last() =~= spec_decimal(a / 10));
        assert(spec_decimal(b).drop_last() =~= spec_decimal(b / 10));
        lemma_decimal_injective(a / 10, b / 10);
        assert(a == 10 * (a / 10) + (a % 10)) by {
            lemma_fundamental_div_mod(a as int, 10);
        }
        assert(b == 10 * (b / 10) + (b % 10)) by {
            lemma_fundamental_div_mod(b as int, 10);
        }
    }
}

} // verus!
