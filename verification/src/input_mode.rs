use vstd::prelude::*;
use crate::decimal::{parse_u8, spec_parse_u8};

verus! {

/// Why a text could not be read as an input mode.
#[derive(Debug, Clone, Copy, PartialEq, Eq, Structural)]
pub enum ParseInputModeError {
    /// The text is not a decimal number that fits in a byte.
    NotNumber,
    /// The number is neither `1` nor `2`.
    NotSpecificValue,
}

/// The two modes of the input method: `En` (code 1) and `Zh` (code 2).
#[derive(Debug, Clone, Copy, PartialEq, Eq, Structural)]
pub enum InputMode {
    En,
    Zh,
}

/// The mode that a byte code names, or the error for any other code.
pub open spec fn mode_of_code(value: u8) -> Result<InputMode, ParseInputModeError> {
    if value == 1 {
        Ok(InputMode::En)
    } else if value == 2 {
        Ok(InputMode::Zh)
    } else {
        Err(ParseInputModeError::NotSpecificValue)
    }
}

impl TryFrom<u8> for InputMode {
    type Error = ParseInputModeError;

    fn try_from(value: u8) -> (r: Result<Self, Self::Error>) {
        match value {
            1 => Ok(InputMode::En),
            2 => Ok(InputMode::Zh),
            _ => Err(ParseInputModeError::NotSpecificValue),
        }
    }
}

impl vstd::std_specs::convert::TryFromSpecImpl<u8> for InputMode {
    open spec fn obeys_try_from_spec() -> bool {
        true
    }

    open spec fn try_from_spec(v: u8) -> Result<Self, Self::Error> {
        mode_of_code(v)
    }
}

/// The text form of a mode: its code as one decimal digit.
pub open spec fn mode_text(m: InputMode) -> Seq<char> {
    match m {
        InputMode::En => seq!['1'],
        InputMode::Zh => seq!['2'],
    }
}

/// The other mode: what one press of the mode button turns `m` into.
pub open spec fn toggled(m: InputMode) -> InputMode {
    match m {
        InputMode::En => InputMode::Zh,
        InputMode::Zh => InputMode::En,
    }
}

impl InputMode {
    /// The text form of the mode: `"1"` for English, `"2"` for Chinese.
    pub fn to_string(&self) -> (s: String)
        ensures
            s@ == mode_text(*self),
    {
        match self {
            InputMode::En => {
                proof {
                    reveal_strlit("1");
                }
                "1".to_owned()
            },
            InputMode::Zh => {
                proof {
                    reveal_strlit("2");
                }
                "2".to_owned()
            },
        }
    }
}

/// What reading a text as an input mode gives: `NotNumber` unless the text
/// is a decimal byte, else the mode of that code.
pub open spec fn spec_mode_from_str(s: Seq<char>) -> Result<InputMode, ParseInputModeError> {
    match spec_parse_u8(s) {
        None => Err(ParseInputModeError::NotNumber),
        Some(v) => mode_of_code(v),
    }
}

impl core::str::FromStr for InputMode {
    type Err = ParseInputModeError;

    fn from_str(s: &str) -> (r: Result<Self, Self::Err>)
        ensures
            r == spec_mode_from_str(s@),
    {
        let mode = match parse_u8(s) {
            Some(v) => v,
            None => {
                return Err(ParseInputModeError::NotNumber);
            },
        };
        Self::try_from(mode)
    }
}

/// The numbering of the modes: code 1 is `En`, code 2 is `Zh`, and every
/// other byte is refused as naming no mode.
pub proof fn lemma_mode_codes(v: u8)
    ensures
        mode_of_code(1) == Ok::<InputMode, ParseInputModeError>(InputMode::En),
        mode_of_code(2) == Ok::<InputMode, ParseInputModeError>(InputMode::Zh),
        v != 1 && v != 2 ==> mode_of_code(v) == Err::<InputMode, ParseInputModeError>(
            ParseInputModeError::NotSpecificValue,
        ),
{
}

/// Reading back the text form of a mode gives the mode: `from_str` inverts
/// `to_string`.
pub proof fn lemma_text_reads_back(m: InputMode)
    ensures
        spec_mode_from_str(mode_text(m)) == Ok::<InputMode, ParseInputModeError>(m),
{
    match m {
        InputMode::En => crate::decimal::lemma_parse_one_digit('1'),
        InputMode::Zh => crate::decimal::lemma_parse_one_digit('2'),
    }
}

} // verus!
