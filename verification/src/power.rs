//! Power levels written as a number and a unit: `10mW`, `-3.5 dBm`.

use crate::error::ConversionError;
use crate::number::{check_float_literal, is_float_literal};
use crate::number::lemma_literal_has_no_white_space;
use crate::text::{
    ascii_lowercase, ascii_lowercased, chars_of, has_suffix, is_whitespace, lemma_trim_end_drops,
    trim_bounds, trim_start, trimmed,
};
use vstd::prelude::*;
use vstd::slice::slice_subrange;

verus! {

/// The two units a power level can be given in.
#[derive(Clone, Copy, Debug, PartialEq, Eq, Structural)]
pub enum PowerUnit {
    /// Milliwatts, written `mW`.
    Milliwatt,
    /// Decibels relative to one milliwatt, written `dBm`.
    DecibelMilliwatt,
}

impl PowerUnit {
    /// The unit's token in lower case.
    pub open spec fn suffix(self) -> Seq<char> {
        match self {
            PowerUnit::Milliwatt => seq!['m', 'w'],
            PowerUnit::DecibelMilliwatt => seq!['d', 'b', 'm'],
        }
    }

    /// The unit that a level given in this unit is converted to: the other
    /// of the two.
    pub open spec fn counterpart(self) -> PowerUnit {
        match self {
            PowerUnit::Milliwatt => PowerUnit::DecibelMilliwatt,
            PowerUnit::DecibelMilliwatt => PowerUnit::Milliwatt,
        }
    }

    /// The unit that a level given in this unit is converted to.
    pub fn converts_to(&self) -> (r: PowerUnit)
        ensures
            r == self.counterpart(),
    {
        match self {
            PowerUnit::Milliwatt => PowerUnit::DecibelMilliwatt,
            PowerUnit::DecibelMilliwatt => PowerUnit::Milliwatt,
        }
    }

    /// The number of characters in the unit's token.
    pub fn suffix_len(&self) -> (r: usize)
        ensures
            r == self.suffix().len(),
    {
        match self {
            PowerUnit::Milliwatt => 2,
            PowerUnit::DecibelMilliwatt => 3,
        }
    }
}

/// Converting a level and converting the result again ends in the unit the
/// level was given in.
pub proof fn lemma_converts_there_and_back(unit: PowerUnit)
    ensures
        unit.counterpart() != unit,
        unit.counterpart().counterpart() == unit,
{
}

/// What a [`PowerReading`] stands for: a unit and the characters of a number.
pub struct PowerNotation {
    pub unit: PowerUnit,
    pub magnitude: Seq<char>,
}

/// A power level as it was written: the unit, and the number before it as
/// text, in lower case and without white space around it.
#[derive(Debug, PartialEq, Eq)]
pub struct PowerReading {
    unit: PowerUnit,
    magnitude: String,
}

impl View for PowerReading {
    type V = PowerNotation;

    closed spec fn view(&self) -> PowerNotation {
        PowerNotation { unit: self.unit, magnitude: self.magnitude@ }
    }
}

impl Clone for PowerReading {
    fn clone(&self) -> (r: Self)
        ensures
            r@ == self@,
    {
        proof {
            use_type_invariant(self);
        }
        PowerReading { unit: self.unit, magnitude: self.magnitude.clone() }
    }
}

impl PowerReading {
    /// The magnitude of a reading is always a number.
    #[verifier::type_invariant]
    spec fn holds_a_number(self) -> bool {
        is_float_literal(self.magnitude@)
    }

    /// The unit the level is given in.
    pub fn unit(&self) -> (r: PowerUnit)
        ensures
            r == self@.unit,
    {
        self.unit
    }

    /// The number before the unit, as text.
    pub fn magnitude(&self) -> (r: &str)
        ensures
            r@ == self@.magnitude,
            is_float_literal(r@),
    {
        proof {
            use_type_invariant(self);
        }
        self.magnitude.as_str()
    }
}

/// The unit that `s` ends with, if it ends with one.
pub open spec fn unit_of(s: Seq<char>) -> Option<PowerUnit> {
    if has_suffix(s, PowerUnit::Milliwatt.suffix()) {
        Some(PowerUnit::Milliwatt)
    } else if has_suffix(s, PowerUnit::DecibelMilliwatt.suffix()) {
        Some(PowerUnit::DecibelMilliwatt)
    } else {
        None
    }
}

/// What stands before the unit at the end of `s`, without the white space
/// around it.
pub open spec fn magnitude_of(s: Seq<char>, unit: PowerUnit) -> Seq<char> {
    trimmed(s.subrange(0, s.len() - unit.suffix().len()))
}

/// The reading of a text that is in lower case already: its unit decides
/// first, then the number before the unit.
pub open spec fn read_normalized(s: Seq<char>) -> Result<PowerNotation, ConversionError> {
    match unit_of(s) {
        None => Err(ConversionError::InvalidUnit),
        Some(unit) => if is_float_literal(magnitude_of(s, unit)) {
            Ok(PowerNotation { unit, magnitude: magnitude_of(s, unit) })
        } else {
            Err(ConversionError::ParseError)
        },
    }
}

/// What an outcome of reading stands for.
pub open spec fn outcome(r: Result<PowerReading, ConversionError>) -> Result<
    PowerNotation,
    ConversionError,
> {
    match r {
        Ok(reading) => Ok(reading@),
        Err(e) => Err(e),
    }
}

/// Finds the unit at the end of `text`.
pub fn detect_unit(text: &[char]) -> (r: Option<PowerUnit>)
    ensures
        r == unit_of(text@),
{
    let n: usize = text.len();
    if n >= 2 && text[n - 2] == 'm' && text[n - 1] == 'w' {
        assert(text@.subrange(n - 2, n as int) =~= seq!['m', 'w']);
        return Some(PowerUnit::Milliwatt);
    }
    proof {
        if has_suffix(text@, PowerUnit::Milliwatt.suffix()) {
            let tail = text@.subrange(n - 2, n as int);
            assert(tail[0] == 'm' && tail[1] == 'w');
        }
    }
    if n >= 3 && text[n - 3] == 'd' && text[n - 2] == 'b' && text[n - 1] == 'm' {
        assert(text@.subrange(n - 3, n as int) =~= seq!['d', 'b', 'm']);
        return Some(PowerUnit::DecibelMilliwatt);
    }
    proof {
        if has_suffix(text@, PowerUnit::DecibelMilliwatt.suffix()) {
            let tail = text@.subrange(n - 3, n as int);
            assert(tail[0] == 'd' && tail[1] == 'b' && tail[2] == 'm');
        }
    }
    None
}

/// Reads a power level from a text that is in lower case already.
///
/// The text must end with `mw` or `dbm`, else the error is `InvalidUnit`.
/// What stands before the unit, without the white space around it, must be
/// a number, else the error is `ParseError`.
pub fn parse_normalized(text: &str) -> (r: Result<PowerReading, ConversionError>)
    ensures
        outcome(r) == read_normalized(text@),
{
    let chars = chars_of(text);
    let n: usize = chars.len();
    let unit = match detect_unit(chars.as_slice()) {
        Some(unit) => unit,
        None => {
            return Err(ConversionError::InvalidUnit);
        },
    };
    let body = slice_subrange(chars.as_slice(), 0, n - unit.suffix_len());
    let (from, to) = trim_bounds(body);
    if !check_float_literal(slice_subrange(body, from, to)) {
        return Err(ConversionError::ParseError);
    }
    assert(text@.subrange(from as int, to as int) =~= body@.subrange(from as int, to as int));
    let magnitude = text.substring_char(from, to).to_owned();
    Ok(PowerReading { unit, magnitude })
}

/// The lower-case form of a text, as `str::to_lowercase` gives it.
pub uninterp spec fn lowercase_of(s: Seq<char>) -> Seq<char>;

/// `str::to_lowercase` maps a text to its lower-case form under Unicode's
/// rules. The form depends on the text alone; nothing more is claimed of it.
pub assume_specification[ str::to_lowercase ](s: &str) -> (r: String)
    ensures
        r@ == lowercase_of(s@),
;

/// `str::to_ascii_lowercase` copies a text with each of the letters `A` to
/// `Z` mapped to its small letter and every other character unchanged.
pub assume_specification[ str::to_ascii_lowercase ](s: &str) -> (r: String)
    ensures
        r@ == ascii_lowercased(s@),
;

/// The form in which a text is read: its ASCII letters folded to lower
/// case, and the result brought to its lower-case form under Unicode's
/// rules.
pub open spec fn normalized(s: Seq<char>) -> Seq<char> {
    lowercase_of(ascii_lowercased(s))
}

/// The reading of a text: that of its normalized form.
pub open spec fn read_power(s: Seq<char>) -> Result<PowerNotation, ConversionError> {
    read_normalized(normalized(s))
}

/// Two texts differ at most in the case of their ASCII letters.
pub open spec fn same_but_for_case(a: Seq<char>, b: Seq<char>) -> bool {
    &&& a.len() == b.len()
    &&& forall|i: int| 0 <= i < a.len() ==> ascii_lowercase(#[trigger] a[i]) == ascii_lowercase(b[i])
}

/// Reads a power level such as `10mW` or `-3.5 dBm`, whichever case its
/// letters are written in.
///
/// The text is brought to lower case in two steps. The ASCII letters come
/// first, since their folding is known character by character; this is what
/// makes the case of those letters play no part in the reading. The letters
/// beyond ASCII follow.
pub fn parse_power(input: &str) -> (r: Result<PowerReading, ConversionError>)
    ensures
        outcome(r) == read_power(input@),
{
    let folded = input.to_ascii_lowercase();
    let lowered = folded.as_str().to_lowercase();
    parse_normalized(lowered.as_str())
}

/// The case an input is written in plays no part: two texts that differ at
/// most in the case of their ASCII letters read alike, to the same unit and
/// number or to the same error.
pub proof fn lemma_case_plays_no_part(a: Seq<char>, b: Seq<char>)
    requires
        same_but_for_case(a, b),
    ensures
        read_power(a) == read_power(b),
{
    assert(ascii_lowercased(a) =~= ascii_lowercased(b));
}

/// What is written is what is read: a number, white space or none, and a
/// unit's token read as that unit and that number.
pub proof fn lemma_reads_what_is_written(number: Seq<char>, space: Seq<char>, unit: PowerUnit)
    requires
        is_float_literal(number),
        forall|i: int| 0 <= i < space.len() ==> is_whitespace(#[trigger] space[i]),
    ensures
        read_normalized(number + space + unit.suffix()) == Ok::<PowerNotation, ConversionError>(
            PowerNotation { unit, magnitude: number },
        ),
{
    let s = number + space + unit.suffix();
    let n = s.len() as int;
    let body = number + space;
    lemma_literal_has_no_white_space(number);
    assert(s.subrange(n - unit.suffix().len(), n) =~= unit.suffix());
    assert(s.subrange(0, n - unit.suffix().len()) =~= body);
    if unit == PowerUnit::DecibelMilliwatt {
        assert(s.subrange(n - 2, n)[1] == 'm');
    }
    assert(unit_of(s) == Some(unit));
    assert(trim_start(body) == body) by {
        assert(body[0] == number[0]);
    }
    lemma_trim_end_drops(number, space);
}

} // verus!
