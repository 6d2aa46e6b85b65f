//! Building text: numerals in a given base, and runs of one character.

use vstd::prelude::*;

verus! {

/// The digits of all bases up to sixteen, with capital letters for the digits above nine.
pub const DIGITS: [char; 16] = [
    '0', '1', '2', '3', '4', '5', '6', '7', '8', '9', 'A', 'B', 'C', 'D', 'E', 'F',
];

/// The numeral of `n` in the base `base`, most significant digit first, with zeros in
/// front of it where it has less than `width` digits. There are numerals in the bases from
/// two to sixteen.
pub open spec fn numeral(n: nat, base: nat, width: nat) -> Seq<char>
    decreases n, width,
{
    if base < 2 || base > 16 {
        Seq::empty()
    } else if n < base && width <= 1 {
        seq![DIGITS@[n as int]]
    } else {
        proof {
            assert(n / base < n || (n == 0 && n / base == 0)) by (nonlinear_arith)
                requires
                    2 <= base,
            ;
        }
        numeral(
            n / base,
            base,
            if width > 0 {
                (width - 1) as nat
            } else {
                0
            },
        ) + seq![DIGITS@[(n % base) as int]]
    }
}

/// The text of `n` times the character `c`.
pub open spec fn repeated(c: char, n: nat) -> Seq<char> {
    Seq::new(n, |i: int| c)
}

/// Appends the numeral of `n` in the base `base` to `out`, padded with zeros to `width`
/// digits.
pub fn push_numeral(out: &mut Vec<char>, n: usize, base: usize, width: usize)
    requires
        2 <= base <= 16,
    ensures
        final(out)@ == old(out)@ + numeral(n as nat, base as nat, width as nat),
{
    let mut rest = n;
    let mut missing = width;
    let mut low: Vec<char> = Vec::new();
    while !(rest < base && missing <= 1)
        invariant
            2 <= base <= 16,
            numeral(n as nat, base as nat, width as nat) == numeral(
                rest as nat,
                base as nat,
                missing as nat,
            ) + low@.reverse(),
        decreases rest, missing,
    {
        low.push(DIGITS[rest % base]);
        assert(rest / base < rest || rest == 0) by (nonlinear_arith)
            requires
                2 <= base,
        ;
        rest = rest / base;
        if missing > 0 {
            missing -= 1;
        }
    }
    out.push(DIGITS[rest]);
    let ghost high = out@;
    let mut k = low.len();
    while k > 0
        invariant
            k <= low@.len(),
            out@ == high + low@.reverse().subrange(0, low@.len() - k),
        decreases k,
    {
        k -= 1;
        out.push(low[k]);
    }
}

/// Appends `n` times the character `c` to `out`.
pub fn push_repeated(out: &mut Vec<char>, c: char, n: usize)
    ensures
        final(out)@ == old(out)@ + repeated(c, n as nat),
{
    let mut k: usize = 0;
    while k < n
        invariant
            k <= n,
            out@ == old(out)@ + repeated(c, k as nat),
        decreases n - k,
    {
        out.push(c);
        k += 1;
    }
}

/// Calls `String::from_iter` on a vector of characters, which collects them into a string
/// in their order: the string holds exactly these characters.
#[verifier::external_body]
pub(crate) fn string_of(chars: Vec<char>) -> (text: String)
    ensures
        text@ == chars@,
{
    String::from_iter(chars)
}

} // verus!
