//! The textual codec for frequencies: formatting to the `LLL.RRR` pattern and
//! parsing that pattern back, with the error taxonomy of the type.

use vstd::prelude::*;

use crate::digits::{
    dec_rep, digit_char, digit_val, is_digit_char, lemma_dec_rep_len, lemma_padded3_digits,
    lemma_parse_padded3, padded3, spec_parse_digits, spec_parse_u16,
};
use crate::{ParseIntErrorKind, RadioFrequency, RadioFrequencyError};
use vstd::string::StrSliceExecFns;
use vstd::string::StringExecFns;

verus! {

impl RadioFrequency {
    /// The canonical text of an instance: both parts zero-padded to at least
    /// three digits, joined by a literal dot. The fractional part is not
    /// reduced for display; a value beyond three digits prints in full.
    pub open spec fn spec_text(self) -> Seq<char> {
        padded3(self.spec_left()) + seq!['.'] + padded3(self.spec_right())
    }

    /// Formats the instance as `LLL.RRR`.
    pub fn to_text(&self) -> (r: String)
        ensures
            r@ == self.spec_text(),
    {
        let mut s = String::new();
        push_padded3(self.left(), &mut s);
        s.append(".");
        proof {
            reveal_strlit(".");
            assert("."@ =~= seq!['.']);
        }
        push_padded3(self.right(), &mut s);
        proof {
            assert(s@ =~= self.spec_text());
        }
        s
    }
}

/// The one-character string for a decimal digit value.
fn digit_str(d: u16) -> (r: &'static str)
    requires
        d < 10,
    ensures
        r@ =~= seq![digit_char(d)],
{
    proof {
        reveal_strlit("0");
        reveal_strlit("1");
        reveal_strlit("2");
        reveal_strlit("3");
        reveal_strlit("4");
        reveal_strlit("5");
        reveal_strlit("6");
        reveal_strlit("7");
        reveal_strlit("8");
        reveal_strlit("9");
    }
    match d {
        0 => "0",
        1 => "1",
        2 => "2",
        3 => "3",
        4 => "4",
        5 => "5",
        6 => "6",
        7 => "7",
        8 => "8",
        _ => "9",
    }
}

/// Appends the decimal digits of `n`, most significant first.
fn push_dec_rep(n: u16, s: &mut String)
    ensures
        final(s)@ == old(s)@ + dec_rep(n),
    decreases n,
{
    if n < 10 {
        s.append(digit_str(n));
        proof {
            assert(s@ =~= old(s)@ + dec_rep(n));
        }
    } else {
        push_dec_rep(n / 10, s);
        s.append(digit_str(n % 10));
        proof {
            assert(s@ =~= old(s)@ + dec_rep(n));
        }
    }
}

/// Appends the decimal digits of `n`, zero-padded on the left to at least
/// three digits.
fn push_padded3(n: u16, s: &mut String)
    ensures
        final(s)@ == old(s)@ + padded3(n),
{
    proof {
        reveal_strlit("0");
        reveal_strlit("00");
        assert("00"@ =~= seq!['0', '0']);
        assert("0"@ =~= seq!['0']);
    }
    if n < 10 {
        s.append("00");
    } else if n < 100 {
        s.append("0");
    }
    push_dec_rep(n, s);
    proof {
        assert(s@ =~= old(s)@ + padded3(n));
    }
}

/// The position of the first `.` in a character sequence, if any.
pub open spec fn first_dot(s: Seq<char>) -> Option<int>
    decreases s.len(),
{
    if s.len() == 0 {
        None
    } else if s[0] == '.' {
        Some(0)
    } else {
        match first_dot(s.drop_first()) {
            None => None,
            Some(i) => Some(i + 1),
        }
    }
}

/// `first_dot` finds a dot exactly when one exists, and then the leftmost one.
pub proof fn lemma_first_dot(s: Seq<char>)
    ensures
        match first_dot(s) {
            Some(i) => 0 <= i < s.len() && s[i] == '.' && (forall|j: int|
                0 <= j < i ==> s[j] != '.'),
            None => forall|j: int| 0 <= j < s.len() ==> s[j] != '.',
        },
    decreases s.len(),
{
    if s.len() != 0 && s[0] != '.' {
        let t = s.drop_first();
        lemma_first_dot(t);
        match first_dot(t) {
            None => {
                assert forall|j: int| 0 <= j < s.len() implies s[j] != '.' by {
                    if j > 0 {
                        assert(s[j] == t[j - 1]);
                    }
                }
            },
            Some(i) => {
                assert(s[i + 1] == t[i]);
                assert forall|j: int| 0 <= j < i + 1 implies s[j] != '.' by {
                    if j > 0 {
                        assert(s[j] == t[j - 1]);
                    }
                }
            },
        }
    }
}

/// A leftmost dot determines `first_dot`.
pub proof fn lemma_first_dot_at(s: Seq<char>, i: int)
    requires
        0 <= i < s.len(),
        s[i] == '.',
        forall|j: int| 0 <= j < i ==> s[j] != '.',
    ensures
        first_dot(s) == Some(i),
{
    lemma_first_dot(s);
}

/// A sequence without a dot has no `first_dot`.
pub proof fn lemma_first_dot_none(s: Seq<char>)
    requires
        forall|j: int| 0 <= j < s.len() ==> s[j] != '.',
    ensures
        first_dot(s) is None,
{
    lemma_first_dot(s);
}

impl RadioFrequency {
    /// What parsing returns for any input text: the segment before the first
    /// dot and the segment between the first and second dot are read as
    /// unsigned 16-bit integers and handed to validated construction.
    /// Anything after a second dot is ignored. Without any dot, the single
    /// segment is still read first, so a malformed number reports its parse
    /// error before the missing second segment is noticed.
    pub open spec fn spec_parse(s: Seq<char>) -> Result<RadioFrequency, RadioFrequencyError> {
        match first_dot(s) {
            None => match spec_parse_u16(s) {
                Ok(_) => Err(RadioFrequencyError::NotEnoughParts),
                Err(e) => Err(RadioFrequencyError::ParseError(e)),
            },
            Some(i) => match spec_parse_u16(s.take(i)) {
                Err(e) => Err(RadioFrequencyError::ParseError(e)),
                Ok(left) => {
                    let rest = s.skip(i + 1);
                    let seg2 = match first_dot(rest) {
                        None => rest,
                        Some(j) => rest.take(j),
                    };
                    match spec_parse_u16(seg2) {
                        Err(e) => Err(RadioFrequencyError::ParseError(e)),
                        Ok(right) => Self::spec_new(left, right),
                    }
                },
            },
        }
    }

    /// Parses the dotted two-segment form `LLL.RRR`.
    pub fn parse(s: &str) -> (r: Result<RadioFrequency, RadioFrequencyError>)
        ensures
            r == Self::spec_parse(s@),
    {
        let n = s.unicode_len();
        match find_dot(s, 0, n) {
            None => {
                proof {
                    lemma_first_dot_none(s@);
                    assert(s@.subrange(0, n as int) =~= s@);
                }
                match parse_u16_range(s, 0, n) {
                    Ok(_) => Err(RadioFrequencyError::NotEnoughParts),
                    Err(e) => Err(RadioFrequencyError::ParseError(e)),
                }
            },
            Some(i) => {
                proof {
                    lemma_first_dot_at(s@, i as int);
                    assert(s@.subrange(0, i as int) =~= s@.take(i as int));
                }
                match parse_u16_range(s, 0, i) {
                    Err(e) => Err(RadioFrequencyError::ParseError(e)),
                    Ok(left) => {
                        let ghost rest = s@.skip(i + 1);
                        proof {
                            assert(forall|k: int|
                                0 <= k < rest.len() ==> rest[k] == s@[k + i + 1]);
                        }
                        let end: usize = match find_dot(s, i + 1, n) {
                            None => {
                                proof {
                                    lemma_first_dot_none(rest);
                                    assert(s@.subrange(i + 1, n as int) =~= rest);
                                }
                                n
                            },
                            Some(j) => {
                                proof {
                                    lemma_first_dot_at(rest, j - i - 1);
                                    assert(s@.subrange(i + 1, j as int) =~= rest.take(j - i - 1));
                                }
                                j
                            },
                        };
                        match parse_u16_range(s, i + 1, end) {
                            Err(e) => Err(RadioFrequencyError::ParseError(e)),
                            Ok(right) => RadioFrequency::new(left, right),
                        }
                    },
                }
            },
        }
    }
}

impl core::str::FromStr for RadioFrequency {
    type Err = RadioFrequencyError;

    fn from_str(s: &str) -> Result<RadioFrequency, RadioFrequencyError> {
        RadioFrequency::parse(s)
    }
}

/// The index of the first `.` at or after `from`, scanning the characters of
/// `s`; `n` is the character length of `s`.
fn find_dot(s: &str, from: usize, n: usize) -> (r: Option<usize>)
    requires
        n == s@.len(),
        from <= n,
    ensures
        match r {
            Some(i) => from <= i < s@.len() && s@[i as int] == '.' && (forall|j: int|
                from <= j < i ==> s@[j] != '.'),
            None => forall|j: int| from <= j < s@.len() ==> s@[j] != '.',
        },
{
    let mut i = from;
    while i < n
        invariant
            n == s@.len(),
            from <= i <= n,
            forall|j: int| from <= j < i ==> s@[j] != '.',
        decreases n - i,
    {
        if s.get_char(i) == '.' {
            return Some(i);
        }
        i = i + 1;
    }
    None
}

/// Reads the characters of `s` in `[from, to)` as an unsigned 16-bit integer,
/// with the semantics and error taxonomy of standard integer parsing.
fn parse_u16_range(s: &str, from: usize, to: usize) -> (r: Result<u16, ParseIntErrorKind>)
    requires
        from <= to <= s@.len(),
    ensures
        r == spec_parse_u16(s@.subrange(from as int, to as int)),
{
    let ghost seg = s@.subrange(from as int, to as int);
    if from == to {
        return Err(ParseIntErrorKind::Empty);
    }
    let mut i = from;
    let c0 = s.get_char(from);
    if c0 == '+' {
        i = from + 1;
        if i == to {
            return Err(ParseIntErrorKind::InvalidDigit);
        }
        proof {
            assert(seg.drop_first() =~= s@.subrange(from + 1, to as int));
        }
    }
    proof {
        assert(spec_parse_u16(seg) == spec_parse_digits(s@.subrange(i as int, to as int), 0));
    }
    let mut acc: u16 = 0;
    while i < to
        invariant
            from <= i <= to <= s@.len(),
            seg == s@.subrange(from as int, to as int),
            spec_parse_u16(seg) == spec_parse_digits(s@.subrange(i as int, to as int), acc),
        decreases to - i,
    {
        let ghost rem = s@.subrange(i as int, to as int);
        proof {
            assert(rem[0] == s@[i as int]);
        }
        let c = s.get_char(i);
        if !(c >= '0' && c <= '9') {
            proof {
                assert(!is_digit_char(rem[0]));
            }
            return Err(ParseIntErrorKind::InvalidDigit);
        }
        let d = ((c as u32) - 48) as u16;
        proof {
            assert(d == digit_val(rem[0]));
        }
        let wide: u32 = (acc as u32) * 10 + (d as u32);
        if wide > 65535 {
            return Err(ParseIntErrorKind::PosOverflow);
        }
        acc = wide as u16;
        i = i + 1;
        proof {
            assert(rem.drop_first() =~= s@.subrange(i as int, to as int));
        }
    }
    proof {
        assert(s@.subrange(i as int, to as int).len() == 0);
    }
    Ok(acc)
}

/// A digit is never a dot.
proof fn lemma_digits_have_no_dot(t: Seq<char>)
    requires
        forall|k: int| 0 <= k < t.len() ==> is_digit_char(#[trigger] t[k]),
    ensures
        forall|k: int| 0 <= k < t.len() ==> #[trigger] t[k] != '.',
{
}

/// Round trip: formatting any valid instance and parsing the text back
/// yields an equal instance.
pub proof fn lemma_text_round_trip(f: RadioFrequency)
    requires
        f.wf(),
    ensures
        RadioFrequency::spec_parse(f.spec_text()) == Ok::<RadioFrequency, RadioFrequencyError>(f),
{
    let lt = padded3(f.spec_left());
    let rt = padded3(f.spec_right());
    let t = f.spec_text();
    lemma_dec_rep_len(f.spec_left());
    assert(lt.len() == 3);
    lemma_padded3_digits(f.spec_left());
    lemma_padded3_digits(f.spec_right());
    lemma_digits_have_no_dot(lt);
    lemma_digits_have_no_dot(rt);
    assert(t[3] == '.');
    assert forall|j: int| 0 <= j < 3 implies t[j] != '.' by {
        assert(t[j] == lt[j]);
    }
    lemma_first_dot_at(t, 3);
    assert(t.take(3) =~= lt);
    lemma_parse_padded3(f.spec_left());
    let rest = t.skip(4);
    assert(rest =~= rt);
    lemma_first_dot_none(rest);
    lemma_parse_padded3(f.spec_right());
    assert(RadioFrequency::spec_new(f.spec_left(), f.spec_right()) == Ok::<
        RadioFrequency,
        RadioFrequencyError,
    >(f));
}

} // verus!
