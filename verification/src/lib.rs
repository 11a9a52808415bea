//! Conversion between two textual notations for fighting-game moves:
//! numpad notation (`236H`, `j.236H`, `[4]6A`) and abbreviated notation
//! (`qcf H`, `cr.mk`, `tk.qcf HK`).
//!
//! A move has three facets: a modifier that says where or when it is done, a
//! motion, and a button. Each notation has its own module, [`numpad`] and
//! [`abbreviated`], with a type for the move and one for each facet. Each type
//! is read from text by its `new` and shown as text by its `to_string`.
//! [`mapping`] converts the values of one notation into those of the other,
//! [`cli`] answers a whole request for conversion, and [`text`] holds the
//! scanning of text that the parsers share.
//!
//! Every function states what it returns over a model in which text is a
//! sequence of characters: a parser returns exactly what the `parse_*`
//! function of its module says of the characters of its input.

use crate::text::{all_in, CharClass};
use vstd::prelude::*;

pub mod abbreviated;
pub mod cli;
pub mod mapping;
pub mod numpad;
pub mod text;

verus! {

/// Why a piece of move text could not be turned into a value.
#[derive(Debug, Clone, Copy, PartialEq, Eq, Structural)]
pub enum CreationError {
    /// The motion text holds a character outside the notation's character class.
    InvalidMotion,
    /// The button text holds a character that is no ASCII letter.
    InvalidButton,
    /// The modifier text is not an entry of the notation's table.
    InvalidModifier,
}

impl CreationError {
    /// The message shown to a person for this error.
    pub fn message(&self) -> (text: &'static str)
        ensures
            text@ == match *self {
                CreationError::InvalidMotion => "Invalid motion input."@,
                CreationError::InvalidButton => "Invalid button."@,
                CreationError::InvalidModifier => "Invalid modifier."@,
            },
    {
        match self {
            CreationError::InvalidMotion => "Invalid motion input.",
            CreationError::InvalidButton => "Invalid button.",
            CreationError::InvalidModifier => "Invalid modifier.",
        }
    }
}

/// Button text: ASCII letters and nothing else. Both notations write buttons
/// so. Empty text is button text too: it stands for a move without a button,
/// such as a motion alone.
pub open spec fn is_button_text(s: Seq<char>) -> bool {
    all_in(s, CharClass::Letter)
}

/// What the button text `s` stands for: itself, where it is button text.
pub open spec fn parse_button(s: Seq<char>) -> Result<Seq<char>, CreationError> {
    if is_button_text(s) {
        Ok(s)
    } else {
        Err(CreationError::InvalidButton)
    }
}

/// What a parser's result says in the model: the view of the value it built,
/// or the error it gave.
pub open spec fn viewed<T: View>(r: Result<T, CreationError>) -> Result<T::V, CreationError> {
    match r {
        Ok(value) => Ok(value@),
        Err(e) => Err(e),
    }
}

/// Text of letters reads as a button that holds that very text, and no
/// other text reads as a button: reading and showing a button changes
/// nothing.
pub proof fn button_text_reads_as_itself(b: Seq<char>)
    ensures
        all_in(b, CharClass::Letter) ==> parse_button(b) == Ok::<Seq<char>, CreationError>(b),
        !all_in(b, CharClass::Letter) ==> parse_button(b) == Err::<Seq<char>, CreationError>(
            CreationError::InvalidButton,
        ),
{
}

} // verus!
