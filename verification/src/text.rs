//! Text helpers: decimal rendering of integers and small string builders.
use vstd::prelude::*;

verus! {

/// The ASCII digit character for a value below ten.
pub open spec fn digit_char(d: nat) -> char {
    (d + 48) as char
}

/// The decimal rendering of a natural number, without leading zeros.
pub open spec fn decimal(n: nat) -> Seq<char>
    decreases n,
{
    if n < 10 {
        seq![digit_char(n)]
    } else {
        decimal(n / 10).push(digit_char(n % 10))
    }
}

/// The decimal rendering of an integer, with a leading `-` when negative.
pub open spec fn signed_decimal(i: int) -> Seq<char> {
    if i < 0 {
        seq!['-'] + decimal((-i) as nat)
    } else {
        decimal(i as nat)
    }
}

/// Appends one character to a string (`String::push`).
#[verifier::external_body]
pub(crate) fn push_char(s: &mut String, c: char)
    ensures
        final(s)@ == old(s)@.push(c),
{
    s.push(c);
}

fn digit(d: u64) -> (c: char)
    requires
        d < 10,
    ensures
        c == digit_char(d as nat),
{
    let b: u8 = (d as u8) + 48u8;
    b as char
}

/// Appends the decimal rendering of `n` to `s`.
pub fn push_decimal(s: &mut String, n: u64)
    ensures
        final(s)@ == old(s)@ + decimal(n as nat),
    decreases n,
{
    if n >= 10 {
        push_decimal(s, n / 10);
    }
    let c = digit(n % 10);
    let ghost before = s@;
    push_char(s, c);
    proof {
        if n >= 10 {
            assert(s@ =~= old(s)@ + decimal(n as nat));
        } else {
            assert(s@ =~= old(s)@ + decimal(n as nat));
        }
    }
}

/// Appends the decimal rendering of a signed integer to `s`.
pub fn push_signed_decimal(s: &mut String, i: i64)
    ensures
        final(s)@ == old(s)@ + signed_decimal(i as int),
{
    if i < 0 {
        push_char(s, '-');
        let m: u64 = if i == i64::MIN { 9223372036854775808u64 } else { (-i) as u64 };
        push_decimal(s, m);
        assert(s@ =~= old(s)@ + signed_decimal(i as int));
    } else {
        push_decimal(s, i as u64);
    }
}

} // verus!

verus! {

/// Equality of two string slices, compared as owned strings.
pub(crate) fn str_eq(a: &str, b: &str) -> (res: bool)
    ensures
        res == (a@ == b@),
{
    let x = String::from_str(a);
    let y = String::from_str(b);
    x == y
}

/// Whether `hay` begins with `prefix`.
pub open spec fn has_prefix(hay: Seq<u8>, prefix: Seq<u8>) -> bool {
    prefix.len() <= hay.len() && hay.subrange(0, prefix.len() as int) == prefix
}

/// Whether `hay` ends with `suffix`.
pub open spec fn has_suffix(hay: Seq<u8>, suffix: Seq<u8>) -> bool {
    suffix.len() <= hay.len() && hay.subrange(hay.len() - suffix.len(), hay.len() as int) == suffix
}

/// Tests whether `hay` begins with `prefix`.
pub fn starts_with(hay: &[u8], prefix: &[u8]) -> (res: bool)
    ensures
        res == has_prefix(hay@, prefix@),
{
    if prefix.len() > hay.len() {
        return false;
    }
    let mut i: usize = 0;
    while i < prefix.len()
        invariant
            prefix@.len() <= hay@.len(),
            i <= prefix@.len(),
            forall|j: int| 0 <= j < i ==> hay@[j] == prefix@[j],
        decreases prefix@.len() - i,
    {
        if hay[i] != prefix[i] {
            assert(hay@.subrange(0, prefix@.len() as int)[i as int] != prefix@[i as int]);
            return false;
        }
        i += 1;
    }
    assert(hay@.subrange(0, prefix@.len() as int) =~= prefix@);
    true
}

/// Tests whether `hay` ends with `suffix`.
pub fn ends_with(hay: &[u8], suffix: &[u8]) -> (res: bool)
    ensures
        res == has_suffix(hay@, suffix@),
{
    if suffix.len() > hay.len() {
        return false;
    }
    let off: usize = hay.len() - suffix.len();
    let mut i: usize = 0;
    while i < suffix.len()
        invariant
            suffix@.len() <= hay@.len(),
            off == hay@.len() - suffix@.len(),
            off + suffix@.len() == hay.len(),
            i <= suffix@.len(),
            forall|j: int| 0 <= j < i ==> hay@[off + j] == suffix@[j],
        decreases suffix@.len() - i,
    {
        if hay[off + i] != suffix[i] {
            assert(hay@.subrange(off as int, hay@.len() as int)[i as int] != suffix@[i as int]);
            return false;
        }
        i += 1;
    }
    assert(hay@.subrange(off as int, hay@.len() as int) =~= suffix@);
    true
}

/// Appends every character of `t` to `s`.
pub fn push_str(s: &mut String, t: &str)
    ensures
        final(s)@ == old(s)@ + t@,
{
    s.append(t);
}

} // verus!
