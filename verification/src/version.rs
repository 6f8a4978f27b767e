//! The schema version of a workspace and the stamp that records it.
//!
//! The stamp is a file that holds the version as a decimal number, with or
//! without blank space behind it. Versions are compared as numbers: "10" is
//! newer than "3".

use vstd::prelude::*;
use vstd::arithmetic::power::{lemma_pow1, lemma_pow_increases, pow};
use vstd::string::StringSliceAdditionalSpecFns;

verus! {

/// The schema version that this library sets up and expects.
pub const CURRENT_CIEL_VERSION: usize = 3;

/// `CURRENT_CIEL_VERSION` as it is written into the stamp.
pub const CURRENT_CIEL_VERSION_STR: &'static str = "3";

/// Why a stamp could not be read.
#[derive(Debug, Clone, Copy, PartialEq, Eq)]
pub enum VersionError {
    /// The stamp holds nothing.
    Empty,
    /// The stamp does not hold a decimal number.
    Corrupt,
}

/// An ASCII digit.
pub open spec fn is_digit(byte: u8) -> bool {
    0x30 <= byte <= 0x39
}

/// A blank, a tab, a line feed or a carriage return.
pub open spec fn is_blank(byte: u8) -> bool {
    byte == 0x20 || byte == 0x09 || byte == 0x0a || byte == 0x0d
}

/// The number that a string of digits denotes. Leading zeros do not count.
pub open spec fn decimal_value(digits: Seq<u8>) -> nat
    decreases digits.len(),
{
    if digits.len() == 0 {
        0
    } else {
        decimal_value(digits.drop_last()) * 10 + (digits.last() - 0x30) as nat
    }
}

/// `stamp` is a number of `width` digits followed by blank space only.
pub open spec fn is_stamp(stamp: Seq<u8>, width: int) -> bool {
    &&& 0 < width <= stamp.len()
    &&& forall|i: int| 0 <= i < width ==> is_digit(#[trigger] stamp[i])
    &&& forall|i: int| width <= i < stamp.len() ==> is_blank(#[trigger] stamp[i])
}

/// A stamp has one width: where its digits end is not a matter of choice.
pub proof fn lemma_stamp_width_is_unique(stamp: Seq<u8>, a: int, b: int)
    requires
        is_stamp(stamp, a),
        is_stamp(stamp, b),
    ensures
        a == b,
{
    if a < b {
        assert(is_blank(stamp[a]));
        assert(is_digit(stamp[a]));
    } else if b < a {
        assert(is_blank(stamp[b]));
        assert(is_digit(stamp[b]));
    }
}

/// Every byte of `digits` is a digit.
pub open spec fn all_digits(digits: Seq<u8>) -> bool {
    forall|i: int| 0 <= i < digits.len() ==> is_digit(#[trigger] digits[i])
}

/// A number of `n` digits is below the `n`th power of ten.
pub proof fn lemma_decimal_value_below_power(digits: Seq<u8>)
    requires
        all_digits(digits),
    ensures
        decimal_value(digits) < pow(10, digits.len()),
    decreases digits.len(),
{
    reveal(pow);
    if digits.len() > 0 {
        assert(is_digit(digits.last()));
        lemma_decimal_value_below_power(digits.drop_last());
    }
}

/// A number of `n` digits that does not begin with a zero is at least the
/// `n - 1`st power of ten.
pub proof fn lemma_decimal_value_reaches_power(digits: Seq<u8>)
    requires
        all_digits(digits),
        digits.len() > 0,
        digits[0] != 0x30,
    ensures
        decimal_value(digits) >= pow(10, (digits.len() - 1) as nat),
    decreases digits.len(),
{
    reveal(pow);
    assert(is_digit(digits[0]));
    if digits.len() == 1 {
        assert(digits.drop_last().len() == 0);
        assert(decimal_value(digits.drop_last()) == 0);
    } else {
        assert(is_digit(digits.last()));
        lemma_decimal_value_reaches_power(digits.drop_last());
    }
}

/// Versions are ordered as numbers, not as text: of two numbers, the one
/// with more digits is the greater, if it does not begin with a zero.
pub proof fn lemma_more_digits_greater_number(longer: Seq<u8>, shorter: Seq<u8>)
    requires
        all_digits(longer),
        all_digits(shorter),
        longer.len() > shorter.len(),
        longer[0] != 0x30,
    ensures
        decimal_value(longer) > decimal_value(shorter),
{
    lemma_decimal_value_reaches_power(longer);
    lemma_decimal_value_below_power(shorter);
    lemma_pow_increases(10, shorter.len(), (longer.len() - 1) as nat);
}

/// A stamp of two digits or more that does not begin with a zero is not
/// older than the current schema, whatever its first digit is.
pub proof fn lemma_long_stamp_is_current(stamp: Seq<u8>, width: int)
    requires
        is_stamp(stamp, width),
        width >= 2,
        stamp[0] != 0x30,
    ensures
        decimal_value(stamp.subrange(0, width)) >= CURRENT_CIEL_VERSION,
{
    let digits = stamp.subrange(0, width);
    assert(all_digits(digits)) by {
        assert forall|i: int| 0 <= i < digits.len() implies is_digit(#[trigger] digits[i]) by {
            assert(digits[i] == stamp[i]);
        }
    }
    lemma_decimal_value_reaches_power(digits);
    lemma_pow_increases(10, 1, (width - 1) as nat);
    lemma_pow1(10);
}

/// The stamp that a new workspace gets is read back as the current version.
pub proof fn lemma_current_stamp_is_current()
    ensures
        is_stamp(CURRENT_CIEL_VERSION_STR.spec_bytes(), 1),
        decimal_value(CURRENT_CIEL_VERSION_STR.spec_bytes().subrange(0, 1))
            == CURRENT_CIEL_VERSION,
{
    reveal_strlit("3");
    let stamp = CURRENT_CIEL_VERSION_STR;
    vstd::string::is_ascii_spec_bytes(stamp);
    let bytes = stamp.spec_bytes();
    assert(bytes.len() == 1);
    assert(bytes[0] == 0x33);
    let digits = bytes.subrange(0, 1);
    assert(digits.drop_last().len() == 0);
    assert(decimal_value(digits) == decimal_value(digits.drop_last()) * 10 + 3);
}

/// Reads the digits at the front of `stamp`.
///
/// Returns how many there are, and their number if it fits.
fn read_digits(stamp: &[u8]) -> (read: (usize, Option<u64>))
    ensures
        read.0 <= stamp@.len(),
        forall|i: int| 0 <= i < read.0 ==> is_digit(#[trigger] stamp@[i]),
        read.0 < stamp@.len() ==> !is_digit(stamp@[read.0 as int]),
        match read.1 {
            Some(value) => value == decimal_value(stamp@.subrange(0, read.0 as int)),
            None => decimal_value(stamp@.subrange(0, read.0 as int)) > u64::MAX,
        },
{
    let mut width: usize = 0;
    let mut value: Option<u64> = Some(0);
    while width < stamp.len() && 0x30 <= stamp[width] && stamp[width] <= 0x39
        invariant
            width <= stamp@.len(),
            forall|i: int| 0 <= i < width ==> is_digit(#[trigger] stamp@[i]),
            match value {
                Some(v) => v == decimal_value(stamp@.subrange(0, width as int)),
                None => decimal_value(stamp@.subrange(0, width as int)) > u64::MAX,
            },
        decreases stamp@.len() - width,
    {
        let digit = (stamp[width] - 0x30) as u64;
        proof {
            let longer = stamp@.subrange(0, width + 1);
            assert(longer.drop_last() =~= stamp@.subrange(0, width as int));
            assert(longer.last() == stamp@[width as int]);
        }
        value = match value {
            Some(v) => match v.checked_mul(10) {
                Some(tens) => tens.checked_add(digit),
                None => None,
            },
            None => None,
        };
        width += 1;
    }
    (width, value)
}

/// Whether the workspace with this stamp is older than the current schema.
///
/// `stamp` is what the stamp file holds. It is taken as a number, however
/// many digits it has, and the workspace is legacy when that number is below
/// `CURRENT_CIEL_VERSION`. An empty stamp and one that is not a number are
/// errors.
pub fn is_legacy_workspace(stamp: &[u8]) -> (legacy: Result<bool, VersionError>)
    ensures
        match legacy {
            Ok(older) => exists|width: int|
                {
                    &&& #[trigger] is_stamp(stamp@, width)
                    &&& older == (decimal_value(stamp@.subrange(0, width)) < CURRENT_CIEL_VERSION)
                },
            Err(VersionError::Empty) => stamp@.len() == 0,
            Err(VersionError::Corrupt) => {
                &&& stamp@.len() > 0
                &&& forall|width: int| !is_stamp(stamp@, width)
            },
        },
{
    if stamp.len() == 0 {
        return Err(VersionError::Empty);
    }
    let (width, value) = read_digits(stamp);
    if width == 0 {
        assert forall|w: int| !is_stamp(stamp@, w) by {
            if is_stamp(stamp@, w) {
                assert(is_digit(stamp@[0]));
            }
        }
        return Err(VersionError::Corrupt);
    }
    let mut i: usize = width;
    while i < stamp.len()
        invariant
            0 < width <= i <= stamp@.len(),
            forall|k: int| 0 <= k < width ==> is_digit(#[trigger] stamp@[k]),
            width < stamp@.len() ==> !is_digit(stamp@[width as int]),
            forall|k: int| width <= k < i ==> is_blank(#[trigger] stamp@[k]),
        decreases stamp@.len() - i,
    {
        let byte = stamp[i];
        if !(byte == 0x20 || byte == 0x09 || byte == 0x0a || byte == 0x0d) {
            assert forall|w: int| !is_stamp(stamp@, w) by {
                if is_stamp(stamp@, w) {
                    if w <= i {
                        assert(is_blank(stamp@[i as int]));
                    } else {
                        assert(is_digit(stamp@[width as int]));
                    }
                }
            }
            return Err(VersionError::Corrupt);
        }
        i += 1;
    }
    assert(is_stamp(stamp@, width as int));
    match value {
        Some(v) => Ok(v < CURRENT_CIEL_VERSION as u64),
        None => Ok(false),
    }
}

} // verus!
