//! Text helpers: decimal digits, and read bytes taken as characters.
use vstd::prelude::*;

verus! {

/// The character of a decimal digit.
pub open spec fn digit_char(d: nat) -> char {
    ((d + 48) as u8) as char
}

/// The decimal digits of `n`, most significant first, without leading zeros.
pub open spec fn decimal(n: nat) -> Seq<char>
    decreases n,
{
    if n < 10 {
        seq![digit_char(n)]
    } else {
        decimal(n / 10).push(digit_char(n % 10))
    }
}

/// A byte as the character of the same code.
pub open spec fn byte_char(b: u8) -> char {
    b as char
}

/// Bytes as characters, one for one.
pub open spec fn bytes_chars(s: Seq<u8>) -> Seq<char> {
    s.map_values(|b: u8| byte_char(b))
}

/// Relies on String::push: the character is appended at the end.
#[verifier::external_body]
pub(crate) fn push_char(s: &mut String, c: char)
    ensures
        final(s)@ == old(s)@.push(c),
{
    s.push(c)
}

/// Appends the decimal digits of `n`.
pub fn push_decimal(s: &mut String, n: u64)
    ensures
        final(s)@ == old(s)@ + decimal(n as nat),
    decreases n,
{
    if n >= 10 {
        push_decimal(s, n / 10);
    }
    let d: u8 = (n % 10) as u8;
    push_char(s, (d + 48) as char);
    assert(final(s)@ =~= old(s)@ + decimal(n as nat));
}

/// Appends the bytes `r[start..end]`, each as one character.
pub fn push_bytes(s: &mut String, r: &[u8], start: usize, end: usize)
    requires
        start <= end <= r@.len(),
    ensures
        final(s)@ == old(s)@ + bytes_chars(r@.subrange(start as int, end as int)),
{
    let mut i: usize = start;
    while i < end
        invariant
            start <= i <= end <= r@.len(),
            s@ == old(s)@ + bytes_chars(r@.subrange(start as int, i as int)),
        decreases end - i,
    {
        push_char(s, r[i] as char);
        i = i + 1;
        assert(bytes_chars(r@.subrange(start as int, i as int)) =~= bytes_chars(
            r@.subrange(start as int, i - 1 as int),
        ).push(byte_char(r@[i - 1 as int])));
    }
}

} // verus!
