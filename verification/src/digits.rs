//! Decimal text for unsigned 16-bit integers: the exact digit sequence a
//! value prints as, zero-padding to the three-digit frequency format, and
//! parsing a digit sequence back, with the standard error taxonomy.

use vstd::prelude::*;

use crate::ParseIntErrorKind;

verus! {

/// The character for a single decimal digit value.
pub open spec fn digit_char(d: u16) -> char
    recommends
        d < 10,
{
    if d == 0 {
        '0'
    } else if d == 1 {
        '1'
    } else if d == 2 {
        '2'
    } else if d == 3 {
        '3'
    } else if d == 4 {
        '4'
    } else if d == 5 {
        '5'
    } else if d == 6 {
        '6'
    } else if d == 7 {
        '7'
    } else if d == 8 {
        '8'
    } else {
        '9'
    }
}

/// A decimal digit character.
pub open spec fn is_digit_char(c: char) -> bool {
    '0' <= c && c <= '9'
}

/// The numeric value of a decimal digit character.
pub open spec fn digit_val(c: char) -> u16
    recommends
        is_digit_char(c),
{
    (c as u32 - '0' as u32) as u16
}

/// The decimal digit sequence of `n`, most significant digit first, with no
/// leading zeros (a lone zero for `n == 0`).
pub open spec fn dec_rep(n: u16) -> Seq<char>
    decreases n,
{
    if n < 10 {
        seq![digit_char(n)]
    } else {
        dec_rep(n / 10).push(digit_char(n % 10))
    }
}

/// The decimal digit sequence of `n`, zero-padded on the left to at least
/// three digits; wider values print in full.
pub open spec fn padded3(n: u16) -> Seq<char> {
    if n < 10 {
        seq!['0', '0'] + dec_rep(n)
    } else if n < 100 {
        seq!['0'] + dec_rep(n)
    } else {
        dec_rep(n)
    }
}

/// Left-to-right accumulation of decimal digits onto `acc`, with the error
/// priority of standard integer parsing: the first non-digit reports
/// `InvalidDigit`, and an accumulated value that no longer fits reports
/// `PosOverflow` before later characters are looked at.
pub open spec fn spec_parse_digits(t: Seq<char>, acc: u16) -> Result<u16, ParseIntErrorKind>
    decreases t.len(),
{
    if t.len() == 0 {
        Ok(acc)
    } else if !is_digit_char(t[0]) {
        Err(ParseIntErrorKind::InvalidDigit)
    } else if acc * 10 + digit_val(t[0]) > u16::MAX {
        Err(ParseIntErrorKind::PosOverflow)
    } else {
        spec_parse_digits(t.drop_first(), (acc * 10 + digit_val(t[0])) as u16)
    }
}

/// Parsing a character sequence as an unsigned 16-bit integer, with the
/// semantics of standard integer parsing: an optional leading `+`, then one
/// or more decimal digits whose value must fit.
pub open spec fn spec_parse_u16(t: Seq<char>) -> Result<u16, ParseIntErrorKind> {
    if t.len() == 0 {
        Err(ParseIntErrorKind::Empty)
    } else if t[0] == '+' {
        if t.len() == 1 {
            Err(ParseIntErrorKind::InvalidDigit)
        } else {
            spec_parse_digits(t.drop_first(), 0)
        }
    } else {
        spec_parse_digits(t, 0)
    }
}

/// Every character of a decimal representation is a digit.
pub proof fn lemma_dec_rep_digits(n: u16)
    ensures
        forall|i: int| 0 <= i < dec_rep(n).len() ==> is_digit_char(#[trigger] dec_rep(n)[i]),
    decreases n,
{
    if n < 10 {
        assert(dec_rep(n)[0] == digit_char(n));
        assert(is_digit_char(digit_char(n)));
    } else {
        lemma_dec_rep_digits(n / 10);
        assert(dec_rep(n) == dec_rep(n / 10).push(digit_char(n % 10)));
        assert forall|i: int| 0 <= i < dec_rep(n).len() implies is_digit_char(
            #[trigger] dec_rep(n)[i],
        ) by {
            if i < dec_rep(n / 10).len() {
                assert(dec_rep(n)[i] == dec_rep(n / 10)[i]);
            } else {
                assert(dec_rep(n)[i] == digit_char(n % 10));
                assert(is_digit_char(digit_char(n % 10)));
            }
        }
    }
}

/// Every character of a padded representation is a digit.
pub proof fn lemma_padded3_digits(n: u16)
    ensures
        forall|i: int| 0 <= i < padded3(n).len() ==> is_digit_char(#[trigger] padded3(n)[i]),
{
    lemma_dec_rep_digits(n);
}

/// How the digit accumulator treats one more digit at the end of the input.
proof fn lemma_parse_digits_snoc(t: Seq<char>, c: char, acc: u16)
    requires
        is_digit_char(c),
    ensures
        spec_parse_digits(t.push(c), acc) == (match spec_parse_digits(t, acc) {
            Ok(v) => {
                if v * 10 + digit_val(c) > u16::MAX {
                    Err::<u16, ParseIntErrorKind>(ParseIntErrorKind::PosOverflow)
                } else {
                    Ok::<u16, ParseIntErrorKind>((v * 10 + digit_val(c)) as u16)
                }
            },
            Err(e) => Err::<u16, ParseIntErrorKind>(e),
        }),
    decreases t.len(),
{
    if t.len() == 0 {
        assert(spec_parse_digits(t, acc) == Ok::<u16, ParseIntErrorKind>(acc));
        assert(t.push(c)[0] == c);
        if acc * 10 + digit_val(c) <= u16::MAX {
            let acc2 = (acc * 10 + digit_val(c)) as u16;
            assert(spec_parse_digits(t.push(c), acc) == spec_parse_digits(
                t.push(c).drop_first(),
                acc2,
            ));
            assert(t.push(c).drop_first() =~= Seq::<char>::empty());
            assert(spec_parse_digits(Seq::<char>::empty(), acc2) == Ok::<
                u16,
                ParseIntErrorKind,
            >(acc2));
        }
    } else {
        assert(t.push(c)[0] == t[0]);
        if is_digit_char(t[0]) && acc * 10 + digit_val(t[0]) <= u16::MAX {
            let acc2 = (acc * 10 + digit_val(t[0])) as u16;
            assert(spec_parse_digits(t.push(c), acc) == spec_parse_digits(
                t.push(c).drop_first(),
                acc2,
            ));
            assert(t.push(c).drop_first() =~= t.drop_first().push(c));
            lemma_parse_digits_snoc(t.drop_first(), c, acc2);
            assert(spec_parse_digits(t, acc) == spec_parse_digits(t.drop_first(), acc2));
        }
    }
}

/// The decimal representation of a value parses back to that value.
pub proof fn lemma_parse_dec_rep(n: u16)
    ensures
        spec_parse_digits(dec_rep(n), 0) == Ok::<u16, ParseIntErrorKind>(n),
    decreases n,
{
    if n < 10 {
        assert(dec_rep(n) == seq![digit_char(n)]);
        assert(dec_rep(n)[0] == digit_char(n));
        assert(is_digit_char(digit_char(n)));
        assert(digit_val(digit_char(n)) == n);
        assert(spec_parse_digits(dec_rep(n), 0) == spec_parse_digits(dec_rep(n).drop_first(), n));
        assert(dec_rep(n).drop_first() =~= Seq::<char>::empty());
        assert(spec_parse_digits(Seq::<char>::empty(), n) == Ok::<u16, ParseIntErrorKind>(n));
    } else {
        lemma_parse_dec_rep(n / 10);
        assert(is_digit_char(digit_char(n % 10)));
        lemma_parse_digits_snoc(dec_rep(n / 10), digit_char(n % 10), 0);
        assert(digit_val(digit_char(n % 10)) == n % 10);
        assert((n / 10) * 10 + n % 10 == n);
    }
}

/// The padded representation of a value parses back to that value: the
/// leading zeros only multiply a zero accumulator.
pub proof fn lemma_parse_padded3(n: u16)
    ensures
        spec_parse_u16(padded3(n)) == Ok::<u16, ParseIntErrorKind>(n),
{
    lemma_parse_dec_rep(n);
    lemma_dec_rep_digits(n);
    lemma_padded3_digits(n);
    assert(padded3(n)[0] != '+');
    if n < 10 {
        assert((seq!['0', '0'] + dec_rep(n)).drop_first() =~= seq!['0'] + dec_rep(n));
        assert((seq!['0'] + dec_rep(n)).drop_first() =~= dec_rep(n));
    } else if n < 100 {
        assert((seq!['0'] + dec_rep(n)).drop_first() =~= dec_rep(n));
    }
}

/// The exact digit counts of the decimal representation, for the magnitudes
/// the frequency format cares about.
pub proof fn lemma_dec_rep_len(n: u16)
    ensures
        n < 10 ==> dec_rep(n).len() == 1,
        10 <= n < 100 ==> dec_rep(n).len() == 2,
        100 <= n < 1000 ==> dec_rep(n).len() == 3,
        padded3(n).len() >= 3,
        n < 1000 ==> padded3(n).len() == 3,
    decreases n,
{
    if n >= 10 {
        lemma_dec_rep_len(n / 10);
    }
}

} // verus!
