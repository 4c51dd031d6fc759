use im_select::input_mode::{InputMode, ParseInputModeError};
use std::convert::TryFrom;
use std::convert::TryInto;
use std::str::FromStr;

#[test]
fn try_from_accepts_the_two_codes() {
    assert_eq!(InputMode::try_from(1u8), Ok(InputMode::En));
    assert_eq!(InputMode::try_from(2u8), Ok(InputMode::Zh));
    let m: Result<InputMode, ParseInputModeError> = 2u8.try_into();
    assert_eq!(m, Ok(InputMode::Zh));
}

#[test]
fn try_from_refuses_other_codes() {
    for v in [0u8, 3, 10, 200, 255] {
        assert_eq!(InputMode::try_from(v), Err(ParseInputModeError::NotSpecificValue));
    }
}

#[test]
fn from_str_reads_modes() {
    assert_eq!(InputMode::from_str("1"), Ok(InputMode::En));
    assert_eq!(InputMode::from_str("2"), Ok(InputMode::Zh));
    assert_eq!("2".parse::<InputMode>(), Ok(InputMode::Zh));
    assert_eq!(InputMode::from_str("+1"), Ok(InputMode::En));
    assert_eq!(InputMode::from_str("002"), Ok(InputMode::Zh));
}

#[test]
fn from_str_not_a_number() {
    for s in ["", "a", " 1", "1 ", "-1", "+", "256", "1000", "1.0", "一", "٢"] {
        assert_eq!(InputMode::from_str(s), Err(ParseInputModeError::NotNumber), "{:?}", s);
    }
}

#[test]
fn from_str_number_of_no_mode() {
    for s in ["0", "3", "255", "+0", "010"] {
        assert_eq!(InputMode::from_str(s), Err(ParseInputModeError::NotSpecificValue), "{:?}", s);
    }
}

#[test]
fn to_string_gives_the_code() {
    assert_eq!(InputMode::En.to_string(), "1");
    assert_eq!(InputMode::Zh.to_string(), "2");
}

#[test]
fn text_form_reads_back() {
    for m in [InputMode::En, InputMode::Zh] {
        assert_eq!(InputMode::from_str(m.to_string().as_str()), Ok(m));
    }
}
