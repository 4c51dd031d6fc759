//! Reading and switching the Chinese/English mode of the Windows input
//! method: the mode values and their text form, the decision that the
//! command line makes, and the reading of the mode from the picture that
//! the tray's IME mode button draws.

pub mod input_mode;
pub mod decimal;
pub mod indicator;
pub mod command;
