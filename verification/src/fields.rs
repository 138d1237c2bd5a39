//! Field formatting: a requested measurement is printed as its decimal
//! digits right-aligned in a field of width 8; an unrequested one
//! contributes nothing to its line.
use vstd::prelude::*;
use vstd::string::*;

verus! {

/// Relies on std's String::push: it appends exactly the given character to
/// the end of the string.
pub assume_specification[ String::push ](s: &mut String, ch: char)
    ensures
        final (s)@ == old(s)@.push(ch),
;

/// The character of a single decimal digit.
pub open spec fn digit_char(d: nat) -> char
    recommends
        d < 10,
{
    ((48 + d) as u8) as char
}

/// The decimal digits of `n`, most significant first, without leading zeros
/// (zero itself is the single digit zero).
pub open spec fn dec_digits(n: nat) -> Seq<char>
    decreases n,
{
    if n < 10 {
        seq![digit_char(n)]
    } else {
        dec_digits(n / 10) + seq![digit_char(n % 10)]
    }
}

/// A measurement as printed: its decimal digits right-aligned in a field of
/// width 8. Wider values overflow the field untruncated.
pub open spec fn padded_field(n: nat) -> Seq<char> {
    let d = dec_digits(n);
    if d.len() >= 8 {
        d
    } else {
        Seq::new((8 - d.len()) as nat, |j: int| ' ') + d
    }
}

/// One field of an output line: empty when the measurement was not requested.
pub open spec fn spec_field(n: nat, show: bool) -> Seq<char> {
    if show {
        padded_field(n)
    } else {
        Seq::<char>::empty()
    }
}

/// Append the decimal digits of `n` to `s`.
fn push_digits(s: &mut String, n: usize)
    ensures
        final (s)@ == old(s)@ + dec_digits(n as nat),
    decreases n,
{
    if n >= 10 {
        proof {
            assert(n / 10 < n) by (nonlinear_arith)
                requires
                    n >= 10,
            ;
        }
        push_digits(s, n / 10);
    }
    let d = (n % 10) as u8;
    s.push((48 + d) as char);
    proof {
        if n < 10 {
            assert(old(s)@.push(digit_char(n as nat)) =~= old(s)@ + dec_digits(n as nat));
        } else {
            assert((old(s)@ + dec_digits(n as nat / 10)).push(digit_char(n as nat % 10)) =~= old(
                s,
            )@ + dec_digits(n as nat));
        }
    }
}

/// Render one measurement field: the value right-aligned in a width-8 field
/// when requested, the empty string otherwise.
pub fn format_field(value: usize, show: bool) -> (r: String)
    ensures
        r@ == spec_field(value as nat, show),
{
    if !show {
        return String::new();
    }
    let mut digits = String::new();
    push_digits(&mut digits, value);
    proof {
        assert(Seq::<char>::empty() + dec_digits(value as nat) =~= dec_digits(value as nat));
    }
    let dlen = digits.as_str().unicode_len();
    if dlen >= 8 {
        return digits;
    }
    let mut r = String::new();
    let mut i: usize = dlen;
    proof {
        assert(r@ =~= Seq::new((i - dlen) as nat, |j: int| ' '));
    }
    while i < 8
        invariant
            dlen <= i <= 8,
            r@ == Seq::new((i - dlen) as nat, |j: int| ' '),
        decreases 8 - i,
    {
        r.push(' ');
        i = i + 1;
        proof {
            assert(r@ =~= Seq::new((i - dlen) as nat, |j: int| ' '));
        }
    }
    r.append(digits.as_str());
    r
}

} // verus!
