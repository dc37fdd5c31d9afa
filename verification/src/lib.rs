//! A validated value type for aviation VHF radio frequencies.
//!
//! A frequency is written `LLL.RRR`: an integral MHz part (`left`) that must
//! lie in the civil aviation band [118, 137], and a fractional part (`right`)
//! whose last two decimal digits must be one of the sixteen channel codes of
//! the 25 kHz and 8.33 kHz channel plans.

use vstd::prelude::*;

pub mod digits;
pub mod text;

verus! {

/// The sixteen channel codes that are valid for the last two digits of the
/// fractional part, covering both the 25 kHz and the 8.33 kHz channel plans.
pub open spec fn valid_channel_code(code: u16) -> bool {
    ||| code == 0
    ||| code == 5
    ||| code == 10
    ||| code == 15
    ||| code == 25
    ||| code == 30
    ||| code == 35
    ||| code == 40
    ||| code == 50
    ||| code == 55
    ||| code == 60
    ||| code == 65
    ||| code == 75
    ||| code == 80
    ||| code == 85
    ||| code == 90
}

/// The subset of channel codes that belong to the legacy 25 kHz plan.
pub open spec fn is_25_khz_code(code: u16) -> bool {
    ||| code == 0
    ||| code == 25
    ||| code == 50
    ||| code == 75
}

/// The two integer parts form a valid frequency: the MHz part lies in the
/// aviation band and the last two digits of the fractional part are a valid
/// channel code.
pub open spec fn valid_parts(left: u16, right: u16) -> bool {
    &&& 118 <= left <= 137
    &&& valid_channel_code(right % 100)
}

/// An immutable, validated aviation radio frequency.
///
/// Instances are only obtained through [`RadioFrequency::new`] or by parsing;
/// every live instance satisfies [`RadioFrequency::wf`].
#[derive(Debug, Clone, Copy, PartialEq, Eq, Structural, Ord)]
pub struct RadioFrequency {
    left: u16,
    right: u16,
    is_25_khz_spaced: bool,
}

/// The reason a textual segment failed to parse as an unsigned 16-bit integer.
#[derive(Debug, Clone, PartialEq, Eq)]
pub enum ParseIntErrorKind {
    /// The segment was empty.
    Empty,
    /// The segment held a character that is not a decimal digit
    /// (or a lone sign).
    InvalidDigit,
    /// The digits form a number larger than an unsigned 16-bit
    /// integer can hold.
    PosOverflow,
}

/// Everything that can go wrong when constructing or parsing a frequency.
#[derive(Debug, Clone, PartialEq, Eq)]
pub enum RadioFrequencyError {
    /// The MHz part is outside [118, 137], or the fractional part's last two
    /// digits are not a valid channel code.
    InvalidFrequency,
    /// Textual parsing found fewer than two dot-separated segments.
    NotEnoughParts,
    /// A segment was present but is not a valid unsigned 16-bit integer.
    ParseError(ParseIntErrorKind),
}

impl RadioFrequency {
    /// The integral MHz part.
    pub closed spec fn spec_left(self) -> u16 {
        self.left
    }

    /// The fractional/channel part.
    pub closed spec fn spec_right(self) -> u16 {
        self.right
    }

    /// The spacing flag recorded at construction time.
    pub closed spec fn spec_is_25_khz_spaced(self) -> bool {
        self.is_25_khz_spaced
    }

    /// The complementary classification: an instance is 8.33 kHz spaced
    /// exactly when it is not 25 kHz spaced.
    pub open spec fn spec_is_8_33_khz_spaced(self) -> bool {
        !self.spec_is_25_khz_spaced()
    }

    /// The invariant of every constructed instance: the parts are valid and
    /// the spacing flag is exactly the channel-plan classification of the
    /// fractional part.
    pub open spec fn wf(self) -> bool {
        &&& valid_parts(self.spec_left(), self.spec_right())
        &&& self.spec_is_25_khz_spaced() == is_25_khz_code(self.spec_right() % 100)
    }

    /// What `new` returns for any pair of parts.
    pub closed spec fn spec_new(left: u16, right: u16) -> Result<RadioFrequency, RadioFrequencyError> {
        if valid_parts(left, right) {
            Ok(RadioFrequency { left, right, is_25_khz_spaced: is_25_khz_code(right % 100) })
        } else {
            Err(RadioFrequencyError::InvalidFrequency)
        }
    }

    /// Validated construction: succeeds exactly when the MHz part is in
    /// [118, 137] and the fractional part's last two digits are one of the
    /// sixteen valid channel codes.
    pub fn new(left: u16, right: u16) -> (r: Result<RadioFrequency, RadioFrequencyError>)
        ensures
            r == Self::spec_new(left, right),
            r is Ok <==> valid_parts(left, right),
            r matches Ok(f) ==> f.wf() && f.spec_left() == left && f.spec_right() == right
                && f.spec_is_25_khz_spaced() == is_25_khz_code(right % 100),
            !valid_parts(left, right) ==> r == Err::<RadioFrequency, RadioFrequencyError>(
                RadioFrequencyError::InvalidFrequency,
            ),
    {
        if left < 118 || left > 137 {
            return Err(RadioFrequencyError::InvalidFrequency);
        }
        // The leading digits of the fractional part do not matter for channel
        // classification; only the last two do.
        let last_two = right % 100;
        if !is_valid_channel_code(last_two) {
            return Err(RadioFrequencyError::InvalidFrequency);
        }
        Ok(RadioFrequency {
            left,
            right,
            is_25_khz_spaced: last_two == 0 || last_two == 25 || last_two == 50 || last_two == 75,
        })
    }

    /// True iff the instance was constructed with an 8.33 kHz-class channel
    /// code; always the exact complement of `is_25_khz_spaced`.
    pub fn is_8_33_khz_spaced(&self) -> (r: bool)
        ensures
            r == self.spec_is_8_33_khz_spaced(),
    {
        !self.is_25_khz_spaced
    }

    /// True iff the instance was constructed with a 25 kHz-class channel code.
    pub fn is_25_khz_spaced(&self) -> (r: bool)
        ensures
            r == self.spec_is_25_khz_spaced(),
    {
        self.is_25_khz_spaced
    }

    /// Both raw integer parts, unchanged from construction.
    pub fn frequency(&self) -> (r: (u16, u16))
        ensures
            r == (self.spec_left(), self.spec_right()),
    {
        (self.left, self.right)
    }

    /// The integral MHz part, unchanged from construction.
    pub fn left(&self) -> (r: u16)
        ensures
            r == self.spec_left(),
    {
        self.left
    }

    /// The fractional/channel part, unchanged from construction.
    pub fn right(&self) -> (r: u16)
        ensures
            r == self.spec_right(),
    {
        self.right
    }
}

impl RadioFrequencyError {
    /// The fixed human-readable rendering of each error kind.
    pub open spec fn spec_message(self) -> Seq<char> {
        match self {
            RadioFrequencyError::NotEnoughParts => "Not enough parts"@,
            RadioFrequencyError::InvalidFrequency => "Invalid frequency"@,
            RadioFrequencyError::ParseError(_) => "Int parse error"@,
        }
    }

    /// A short human-readable description of the error.
    pub fn message(&self) -> (r: &'static str)
        ensures
            r@ == self.spec_message(),
    {
        match self {
            RadioFrequencyError::NotEnoughParts => "Not enough parts",
            RadioFrequencyError::InvalidFrequency => "Invalid frequency",
            RadioFrequencyError::ParseError(_) => "Int parse error",
        }
    }
}

/// Runtime test for membership in the sixteen-code valid-channel set.
fn is_valid_channel_code(code: u16) -> (b: bool)
    ensures
        b == valid_channel_code(code),
{
    code == 0 || code == 5 || code == 10 || code == 15 || code == 25 || code == 30 || code == 35
        || code == 40 || code == 50 || code == 55 || code == 60 || code == 65 || code == 75
        || code == 80 || code == 85 || code == 90
}

/// Every successfully constructed instance is on exactly one of the two
/// channel plans: the two spacing queries are logical complements — never
/// both, never neither.
pub proof fn lemma_spacing_complement(f: RadioFrequency)
    requires
        f.wf(),
    ensures
        f.spec_is_25_khz_spaced() <==> !f.spec_is_8_33_khz_spaced(),
{
}

impl RadioFrequency {
    /// The total order on frequencies: by the MHz part, then the fractional
    /// part, then the spacing flag (field declaration order).
    pub closed spec fn spec_cmp(self, other: Self) -> core::cmp::Ordering {
        if self.left < other.left {
            core::cmp::Ordering::Less
        } else if other.left < self.left {
            core::cmp::Ordering::Greater
        } else if self.right < other.right {
            core::cmp::Ordering::Less
        } else if other.right < self.right {
            core::cmp::Ordering::Greater
        } else if self.is_25_khz_spaced == other.is_25_khz_spaced {
            core::cmp::Ordering::Equal
        } else if other.is_25_khz_spaced {
            core::cmp::Ordering::Less
        } else {
            core::cmp::Ordering::Greater
        }
    }
}

impl PartialOrd for RadioFrequency {
    fn partial_cmp(&self, other: &Self) -> (r: Option<core::cmp::Ordering>) {
        if self.left < other.left {
            Some(core::cmp::Ordering::Less)
        } else if other.left < self.left {
            Some(core::cmp::Ordering::Greater)
        } else if self.right < other.right {
            Some(core::cmp::Ordering::Less)
        } else if other.right < self.right {
            Some(core::cmp::Ordering::Greater)
        } else if self.is_25_khz_spaced == other.is_25_khz_spaced {
            Some(core::cmp::Ordering::Equal)
        } else if other.is_25_khz_spaced {
            Some(core::cmp::Ordering::Less)
        } else {
            Some(core::cmp::Ordering::Greater)
        }
    }
}

impl vstd::std_specs::cmp::PartialOrdSpecImpl for RadioFrequency {
    open spec fn obeys_partial_cmp_spec() -> bool {
        true
    }

    open spec fn partial_cmp_spec(&self, other: &Self) -> Option<core::cmp::Ordering> {
        Some(self.spec_cmp(*other))
    }
}

/// Frequencies sort first by the MHz part ascending, then by the fractional
/// part ascending; for valid instances the trailing spacing flag never
/// decides, because it is a function of the fractional part.
pub proof fn lemma_ordering(a: RadioFrequency, b: RadioFrequency)
    requires
        a.wf(),
        b.wf(),
    ensures
        a.spec_cmp(b) == core::cmp::Ordering::Less <==> (a.spec_left() < b.spec_left() || (
        a.spec_left() == b.spec_left() && a.spec_right() < b.spec_right())),
        a.spec_cmp(b) == core::cmp::Ordering::Equal <==> (a.spec_left() == b.spec_left()
            && a.spec_right() == b.spec_right()),
        a.spec_cmp(b) == core::cmp::Ordering::Greater <==> (b.spec_left() < a.spec_left() || (
        b.spec_left() == a.spec_left() && b.spec_right() < a.spec_right())),
{
}

} // verus!

