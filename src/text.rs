//! Text operations: trimming and decimal writing proved here, lowercasing and
//! appending a character taken from std with the statement relied on.
use vstd::prelude::*;

verus! {

/// The characters of std's `str::to_lowercase` applied to a string.
pub uninterp spec fn lower_of(s: Seq<char>) -> Seq<char>;

/// Whether `c` has Unicode's White_Space property, as std's
/// `char::is_whitespace` decides.
pub open spec fn is_white_space(c: char) -> bool {
    let u = c as u32;
    (0x9 <= u && u <= 0xd) || u == 0x20 || u == 0x85 || u == 0xa0 || u == 0x1680 || (0x2000 <= u
        && u <= 0x200a) || u == 0x2028 || u == 0x2029 || u == 0x202f || u == 0x205f || u == 0x3000
}

/// `s` without its leading white space.
pub open spec fn trim_start(s: Seq<char>) -> Seq<char>
    decreases s.len(),
{
    if s.len() > 0 && is_white_space(s[0]) {
        trim_start(s.drop_first())
    } else {
        s
    }
}

/// `s` without its trailing white space.
pub open spec fn trim_end(s: Seq<char>) -> Seq<char>
    decreases s.len(),
{
    if s.len() > 0 && is_white_space(s.last()) {
        trim_end(s.drop_last())
    } else {
        s
    }
}

/// `s` without leading and trailing white space, as std's `str::trim` gives it.
pub open spec fn spec_trim(s: Seq<char>) -> Seq<char> {
    trim_end(trim_start(s))
}

/// Whether a character is white space.
fn white_space(c: char) -> (r: bool)
    ensures
        r == is_white_space(c),
{
    let u = c as u32;
    (0x9 <= u && u <= 0xd) || u == 0x20 || u == 0x85 || u == 0xa0 || u == 0x1680 || (0x2000 <= u
        && u <= 0x200a) || u == 0x2028 || u == 0x2029 || u == 0x202f || u == 0x205f || u == 0x3000
}

/// `s` without leading and trailing white space.
pub fn trim(s: &str) -> (r: &str)
    ensures
        r@ == spec_trim(s@),
{
    let n = s.unicode_len();
    let mut lo: usize = 0;
    assert(s@.subrange(0, n as int) =~= s@);
    while lo < n && white_space(s.get_char(lo))
        invariant
            n == s@.len(),
            lo <= n,
            trim_start(s@) == trim_start(s@.subrange(lo as int, n as int)),
        decreases n - lo,
    {
        assert(s@.subrange(lo as int, n as int).drop_first() =~= s@.subrange(lo + 1, n as int));
        lo = lo + 1;
    }
    let ghost t = s@.subrange(lo as int, n as int);
    assert(trim_start(s@) == t);
    let mut hi: usize = n;
    assert(s@.subrange(lo as int, hi as int) == t);
    while hi > lo && white_space(s.get_char(hi - 1))
        invariant
            n == s@.len(),
            lo <= hi <= n,
            trim_end(t) == trim_end(s@.subrange(lo as int, hi as int)),
        decreases hi,
    {
        assert(s@.subrange(lo as int, hi as int).drop_last() =~= s@.subrange(lo as int, hi - 1));
        hi = hi - 1;
    }
    s.substring_char(lo, hi)
}

/// Relies on `str::to_lowercase`: the result depends on the characters alone.
#[verifier::external_body]
pub(crate) fn lowercase(s: &str) -> (r: String)
    ensures
        r@ == lower_of(s@),
{
    s.to_lowercase()
}

/// The decimal digit for `d < 10`.
pub open spec fn digit_char(d: nat) -> char {
    if d == 0 { '0' } else if d == 1 { '1' } else if d == 2 { '2' } else if d == 3 { '3' }
    else if d == 4 { '4' } else if d == 5 { '5' } else if d == 6 { '6' } else if d == 7 { '7' }
    else if d == 8 { '8' } else { '9' }
}

/// The decimal writing of `n`, without sign or leading zeros.
pub open spec fn decimal(n: nat) -> Seq<char>
    decreases n,
{
    if n < 10 {
        seq![digit_char(n)]
    } else {
        decimal(n / 10).push(digit_char(n % 10))
    }
}

/// Writes a number in decimal, without sign or leading zeros.
pub fn u32_text(n: u32) -> (r: String)
    ensures
        r@ == decimal(n as nat),
{
    // the digits, least significant first
    let mut digits: Vec<char> = Vec::new();
    let mut m: u32 = n;
    loop
        invariant_except_break
            decimal(n as nat) == decimal(m as nat) + reversed(digits@),
        ensures
            decimal(n as nat) == reversed(digits@),
        decreases m,
    {
        let d = m % 10;
        let c = digit_exec(d);
        let ghost old_digits = digits@;
        digits.push(c);
        assert(reversed(digits@) =~= seq![c] + reversed(old_digits)) by {
            assert(digits@.drop_last() =~= old_digits);
            assert(digits@.last() == c);
        }
        if m < 10 {
            assert(decimal(m as nat) == seq![digit_char(m as nat)]);
            assert(decimal(n as nat) =~= reversed(digits@));
            break;
        }
        assert(decimal(m as nat) == decimal((m / 10) as nat).push(digit_char((m % 10) as nat)));
        assert(decimal(m as nat) + reversed(old_digits) =~= decimal((m / 10) as nat) + reversed(
            digits@,
        ));
        m = m / 10;
    }
    let mut r = String::new();
    let mut i: usize = digits.len();
    assert(r@ + reversed(digits@.subrange(0, i as int)) =~= decimal(n as nat)) by {
        assert(digits@.subrange(0, i as int) =~= digits@);
        assert(r@ == Seq::<char>::empty());
    }
    while i > 0
        invariant
            i <= digits@.len(),
            r@ + reversed(digits@.subrange(0, i as int)) == decimal(n as nat),
        decreases i,
    {
        let ghost before = r@;
        let ghost pre = digits@.subrange(0, i as int);
        push_char(&mut r, digits[i - 1]);
        assert(pre.drop_last() =~= digits@.subrange(0, i - 1));
        assert(reversed(pre) =~= seq![pre.last()] + reversed(pre.drop_last()));
        assert(r@ + reversed(digits@.subrange(0, i - 1)) =~= before + reversed(pre));
        i = i - 1;
    }
    assert(reversed(digits@.subrange(0, 0)) =~= Seq::<char>::empty());
    assert(r@ =~= decimal(n as nat));
    r
}

/// A sequence in reverse order.
pub open spec fn reversed(s: Seq<char>) -> Seq<char>
    decreases s.len(),
{
    if s.len() == 0 {
        seq![]
    } else {
        seq![s.last()] + reversed(s.drop_last())
    }
}

/// The decimal digit for `d < 10`.
fn digit_exec(d: u32) -> (c: char)
    requires
        d < 10,
    ensures
        c == digit_char(d as nat),
{
    if d == 0 { '0' } else if d == 1 { '1' } else if d == 2 { '2' } else if d == 3 { '3' }
    else if d == 4 { '4' } else if d == 5 { '5' } else if d == 6 { '6' } else if d == 7 { '7' }
    else if d == 8 { '8' } else { '9' }
}

/// Relies on `String::push`: appends one character.
#[verifier::external_body]
pub(crate) fn push_char(s: &mut String, c: char)
    ensures
        final(s)@ == old(s)@.push(c),
{
    s.push(c)
}

} // verus!
