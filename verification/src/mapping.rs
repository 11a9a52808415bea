//! The mapping between the two notations.
//!
//! Buttons are the same in both. Motions go by a table of the named motions
//! and their digits, with `Other` for every text of digits that has no name.
//! Modifiers go by name, but for standing and crouching, which numpad notation
//! has no modifier for and writes in the motion: so a move is not converted
//! facet by facet in that direction.

use crate::text::same_text;
use crate::{abbreviated, numpad, viewed, CreationError};
use vstd::prelude::*;
use vstd::std_specs::convert::{FromSpec, FromSpecImpl};
use vstd::string::*;

verus! {

/// The abbreviated modifier for a numpad one: the one of the same name.
pub open spec fn modifier_from_numpad(m: numpad::Modifier) -> abbreviated::Modifier {
    match m {
        numpad::Modifier::Jump => abbreviated::Modifier::Jump,
        numpad::Modifier::SuperJump => abbreviated::Modifier::SuperJump,
        numpad::Modifier::JumpCancel => abbreviated::Modifier::JumpCancel,
        numpad::Modifier::Close => abbreviated::Modifier::Close,
        numpad::Modifier::Far => abbreviated::Modifier::Far,
        numpad::Modifier::TigerKnee => abbreviated::Modifier::TigerKnee,
        numpad::Modifier::Absent => abbreviated::Modifier::Absent,
    }
}

/// The motion that the numpad text `digits` is the writing of. Text that is
/// the writing of no named motion is kept in `Other`.
pub open spec fn motion_from_numpad(digits: Seq<char>) -> abbreviated::MotionView {
    if digits == "5"@ || digits == ""@ {
        abbreviated::MotionView::N
    } else if digits == "8"@ {
        abbreviated::MotionView::U
    } else if digits == "2"@ {
        abbreviated::MotionView::D
    } else if digits == "4"@ {
        abbreviated::MotionView::B
    } else if digits == "6"@ {
        abbreviated::MotionView::F
    } else if digits == "7"@ {
        abbreviated::MotionView::UB
    } else if digits == "9"@ {
        abbreviated::MotionView::UF
    } else if digits == "1"@ {
        abbreviated::MotionView::DB
    } else if digits == "3"@ {
        abbreviated::MotionView::DF
    } else if digits == "236"@ {
        abbreviated::MotionView::QCF
    } else if digits == "214"@ {
        abbreviated::MotionView::QCB
    } else if digits == "41236"@ {
        abbreviated::MotionView::HCF
    } else if digits == "63214"@ {
        abbreviated::MotionView::HCB
    } else if digits == "623"@ {
        abbreviated::MotionView::DP
    } else if digits == "421"@ {
        abbreviated::MotionView::RDP
    } else if digits == "41236987"@ {
        abbreviated::MotionView::FullCircle
    } else if digits == "4123698741236987"@ {
        abbreviated::MotionView::Double360
    } else {
        abbreviated::MotionView::Other(digits)
    }
}

/// The abbreviated move for a numpad one, facet by facet.
pub open spec fn move_from_numpad(m: numpad::MoveView) -> abbreviated::MoveView {
    abbreviated::MoveView {
        button: m.button,
        motion: motion_from_numpad(m.motion),
        modifier: modifier_from_numpad(m.modifier),
    }
}

impl From<numpad::Modifier> for abbreviated::Modifier {
    fn from(m: numpad::Modifier) -> (modifier: abbreviated::Modifier)
        ensures
            modifier == modifier_from_numpad(m),
    {
        match m {
            numpad::Modifier::Jump => abbreviated::Modifier::Jump,
            numpad::Modifier::SuperJump => abbreviated::Modifier::SuperJump,
            numpad::Modifier::JumpCancel => abbreviated::Modifier::JumpCancel,
            numpad::Modifier::Close => abbreviated::Modifier::Close,
            numpad::Modifier::Far => abbreviated::Modifier::Far,
            numpad::Modifier::TigerKnee => abbreviated::Modifier::TigerKnee,
            numpad::Modifier::Absent => abbreviated::Modifier::Absent,
        }
    }
}

impl FromSpecImpl<numpad::Modifier> for abbreviated::Modifier {
    open spec fn obeys_from_spec() -> bool {
        true
    }

    open spec fn from_spec(m: numpad::Modifier) -> abbreviated::Modifier {
        modifier_from_numpad(m)
    }
}

impl From<numpad::Button> for abbreviated::Button {
    /// The same button: its text is carried over as it is.
    fn from(b: numpad::Button) -> (button: abbreviated::Button)
        ensures
            button@ == b@,
    {
        proof {
            use_type_invariant(&b);
        }
        abbreviated::Button(b.0)
    }
}

impl FromSpecImpl<numpad::Button> for abbreviated::Button {
    open spec fn obeys_from_spec() -> bool {
        true
    }

    closed spec fn from_spec(b: numpad::Button) -> abbreviated::Button {
        abbreviated::Button(b.0)
    }
}

impl From<numpad::Motion> for abbreviated::Motion {
    /// The motion that the numpad motion is the writing of, by exact match of
    /// its text; `Other` with that text where it is no named motion's.
    fn from(m: numpad::Motion) -> (motion: abbreviated::Motion)
        ensures
            motion@ == motion_from_numpad(m@),
    {
        let text = m.as_str();
        if same_text(text, "5") || same_text(text, "") {
            abbreviated::Motion::N
        } else if same_text(text, "8") {
            abbreviated::Motion::U
        } else if same_text(text, "2") {
            abbreviated::Motion::D
        } else if same_text(text, "4") {
            abbreviated::Motion::B
        } else if same_text(text, "6") {
            abbreviated::Motion::F
        } else if same_text(text, "7") {
            abbreviated::Motion::UB
        } else if same_text(text, "9") {
            abbreviated::Motion::UF
        } else if same_text(text, "1") {
            abbreviated::Motion::DB
        } else if same_text(text, "3") {
            abbreviated::Motion::DF
        } else if same_text(text, "236") {
            abbreviated::Motion::QCF
        } else if same_text(text, "214") {
            abbreviated::Motion::QCB
        } else if same_text(text, "41236") {
            abbreviated::Motion::HCF
        } else if same_text(text, "63214") {
            abbreviated::Motion::HCB
        } else if same_text(text, "623") {
            abbreviated::Motion::DP
        } else if same_text(text, "421") {
            abbreviated::Motion::RDP
        } else if same_text(text, "41236987") {
            abbreviated::Motion::FullCircle
        } else if same_text(text, "4123698741236987") {
            abbreviated::Motion::Double360
        } else {
            abbreviated::Motion::Other(m.0)
        }
    }
}

impl FromSpecImpl<numpad::Motion> for abbreviated::Motion {
    open spec fn obeys_from_spec() -> bool {
        true
    }

    closed spec fn from_spec(m: numpad::Motion) -> abbreviated::Motion {
        match motion_from_numpad(m.0@) {
            abbreviated::MotionView::N => abbreviated::Motion::N,
            abbreviated::MotionView::U => abbreviated::Motion::U,
            abbreviated::MotionView::D => abbreviated::Motion::D,
            abbreviated::MotionView::B => abbreviated::Motion::B,
            abbreviated::MotionView::F => abbreviated::Motion::F,
            abbreviated::MotionView::DB => abbreviated::Motion::DB,
            abbreviated::MotionView::DF => abbreviated::Motion::DF,
            abbreviated::MotionView::UB => abbreviated::Motion::UB,
            abbreviated::MotionView::UF => abbreviated::Motion::UF,
            abbreviated::MotionView::QCF => abbreviated::Motion::QCF,
            abbreviated::MotionView::QCB => abbreviated::Motion::QCB,
            abbreviated::MotionView::HCF => abbreviated::Motion::HCF,
            abbreviated::MotionView::HCB => abbreviated::Motion::HCB,
            abbreviated::MotionView::DP => abbreviated::Motion::DP,
            abbreviated::MotionView::RDP => abbreviated::Motion::RDP,
            abbreviated::MotionView::FullCircle => abbreviated::Motion::FullCircle,
            abbreviated::MotionView::Double360 => abbreviated::Motion::Double360,
            abbreviated::MotionView::Other(_) => abbreviated::Motion::Other(m.0),
        }
    }
}

impl From<numpad::Move> for abbreviated::Move {
    /// The same move in abbreviated notation. Each facet is converted by itself.
    fn from(m: numpad::Move) -> (converted: abbreviated::Move)
        ensures
            converted@ == move_from_numpad(m@),
    {
        abbreviated::Move {
            button: abbreviated::Button::from(m.button),
            motion: abbreviated::Motion::from(m.motion),
            modifier: abbreviated::Modifier::from(m.modifier),
        }
    }
}

impl FromSpecImpl<numpad::Move> for abbreviated::Move {
    open spec fn obeys_from_spec() -> bool {
        true
    }

    closed spec fn from_spec(m: numpad::Move) -> abbreviated::Move {
        abbreviated::Move {
            button: <abbreviated::Button as FromSpec<numpad::Button>>::from_spec(m.button),
            motion: <abbreviated::Motion as FromSpec<numpad::Motion>>::from_spec(m.motion),
            modifier: <abbreviated::Modifier as FromSpec<numpad::Modifier>>::from_spec(m.modifier),
        }
    }
}

/// The numpad modifier for an abbreviated one: the one of the same name, and
/// none for `Standing` and `Crouching`, which numpad notation writes in the
/// motion.
pub open spec fn modifier_from_abbreviated(m: abbreviated::Modifier) -> numpad::Modifier {
    match m {
        abbreviated::Modifier::Close => numpad::Modifier::Close,
        abbreviated::Modifier::Far => numpad::Modifier::Far,
        abbreviated::Modifier::Standing => numpad::Modifier::Absent,
        abbreviated::Modifier::Crouching => numpad::Modifier::Absent,
        abbreviated::Modifier::Jump => numpad::Modifier::Jump,
        abbreviated::Modifier::SuperJump => numpad::Modifier::SuperJump,
        abbreviated::Modifier::JumpCancel => numpad::Modifier::JumpCancel,
        abbreviated::Modifier::TigerKnee => numpad::Modifier::TigerKnee,
        abbreviated::Modifier::Absent => numpad::Modifier::Absent,
    }
}

/// How a motion is written in numpad notation: a named motion by its digits,
/// and `Other` by its own text.
pub open spec fn digits_of(m: abbreviated::MotionView) -> Seq<char> {
    match m {
        abbreviated::MotionView::N => "5"@,
        abbreviated::MotionView::U => "8"@,
        abbreviated::MotionView::D => "2"@,
        abbreviated::MotionView::B => "4"@,
        abbreviated::MotionView::F => "6"@,
        abbreviated::MotionView::DB => "1"@,
        abbreviated::MotionView::DF => "3"@,
        abbreviated::MotionView::UB => "7"@,
        abbreviated::MotionView::UF => "9"@,
        abbreviated::MotionView::QCF => "236"@,
        abbreviated::MotionView::QCB => "214"@,
        abbreviated::MotionView::HCF => "41236"@,
        abbreviated::MotionView::HCB => "63214"@,
        abbreviated::MotionView::DP => "623"@,
        abbreviated::MotionView::RDP => "421"@,
        abbreviated::MotionView::FullCircle => "41236987"@,
        abbreviated::MotionView::Double360 => "4123698741236987"@,
        abbreviated::MotionView::Other(text) => text,
    }
}

/// The numpad motion for an abbreviated one. A named motion always has one.
/// The text of `Other` is read as numpad motion text, and refused where it is
/// none.
pub open spec fn motion_from_abbreviated(m: abbreviated::MotionView) -> Result<
    Seq<char>,
    CreationError,
> {
    if m is Other {
        numpad::parse_motion(digits_of(m))
    } else {
        Ok(digits_of(m))
    }
}

/// The numpad move for an abbreviated one. The button is carried over. The
/// motion of a standing move is `5` and that of a crouching move is `2`,
/// whatever motion the abbreviated move has; the motion of any other move is
/// converted by itself, and the move is refused where its motion is.
pub open spec fn move_from_abbreviated(m: abbreviated::MoveView) -> Result<
    numpad::MoveView,
    CreationError,
> {
    let motion = if m.modifier == abbreviated::Modifier::Standing {
        Ok("5"@)
    } else if m.modifier == abbreviated::Modifier::Crouching {
        Ok("2"@)
    } else {
        motion_from_abbreviated(m.motion)
    };
    match motion {
        Err(e) => Err(e),
        Ok(motion) => Ok(
            numpad::MoveView {
                modifier: modifier_from_abbreviated(m.modifier),
                motion,
                button: m.button,
            },
        ),
    }
}

/// The digits of every named motion are numpad motion text.
pub proof fn lemma_digits_are_motion_text(m: abbreviated::MotionView)
    requires
        !(m is Other),
    ensures
        numpad::is_motion_text(digits_of(m)),
{
    lemma_digit_texts();
}

impl From<abbreviated::Modifier> for numpad::Modifier {
    fn from(m: abbreviated::Modifier) -> (modifier: numpad::Modifier)
        ensures
            modifier == modifier_from_abbreviated(m),
    {
        match m {
            abbreviated::Modifier::Close => numpad::Modifier::Close,
            abbreviated::Modifier::Far => numpad::Modifier::Far,
            abbreviated::Modifier::Standing => numpad::Modifier::Absent,
            abbreviated::Modifier::Crouching => numpad::Modifier::Absent,
            abbreviated::Modifier::Jump => numpad::Modifier::Jump,
            abbreviated::Modifier::SuperJump => numpad::Modifier::SuperJump,
            abbreviated::Modifier::JumpCancel => numpad::Modifier::JumpCancel,
            abbreviated::Modifier::TigerKnee => numpad::Modifier::TigerKnee,
            abbreviated::Modifier::Absent => numpad::Modifier::Absent,
        }
    }
}

impl FromSpecImpl<abbreviated::Modifier> for numpad::Modifier {
    open spec fn obeys_from_spec() -> bool {
        true
    }

    open spec fn from_spec(m: abbreviated::Modifier) -> numpad::Modifier {
        modifier_from_abbreviated(m)
    }
}

impl From<abbreviated::Button> for numpad::Button {
    /// The same button: its text is carried over as it is.
    fn from(b: abbreviated::Button) -> (button: numpad::Button)
        ensures
            button@ == b@,
    {
        proof {
            use_type_invariant(&b);
        }
        numpad::Button(b.0)
    }
}

impl FromSpecImpl<abbreviated::Button> for numpad::Button {
    open spec fn obeys_from_spec() -> bool {
        true
    }

    closed spec fn from_spec(b: abbreviated::Button) -> numpad::Button {
        numpad::Button(b.0)
    }
}

impl numpad::Motion {
    /// The motion that is written with the digits of a named motion.
    fn named(m: &abbreviated::Motion) -> (motion: numpad::Motion)
        requires
            !(m@ is Other),
        ensures
            motion@ == digits_of(m@),
    {
        proof {
            lemma_digits_are_motion_text(m@);
        }
        let digits = match m {
            abbreviated::Motion::N => "5",
            abbreviated::Motion::U => "8",
            abbreviated::Motion::D => "2",
            abbreviated::Motion::B => "4",
            abbreviated::Motion::F => "6",
            abbreviated::Motion::DB => "1",
            abbreviated::Motion::DF => "3",
            abbreviated::Motion::UB => "7",
            abbreviated::Motion::UF => "9",
            abbreviated::Motion::QCF => "236",
            abbreviated::Motion::QCB => "214",
            abbreviated::Motion::HCF => "41236",
            abbreviated::Motion::HCB => "63214",
            abbreviated::Motion::DP => "623",
            abbreviated::Motion::RDP => "421",
            abbreviated::Motion::FullCircle => "41236987",
            _ => "4123698741236987",
        };
        numpad::Motion(digits.to_owned())
    }

    /// Converts a motion of abbreviated notation. The text of `Other` must be
    /// numpad motion text, or empty; any other is refused as `InvalidMotion`.
    pub fn from_abbreviated(m: abbreviated::Motion) -> (r: Result<numpad::Motion, CreationError>)
        ensures
            viewed(r) == motion_from_abbreviated(m@),
    {
        match m {
            abbreviated::Motion::Other(text) => numpad::Motion::new(text.as_str()),
            named => Ok(numpad::Motion::named(&named)),
        }
    }
}

impl numpad::Move {
    /// Converts a move of abbreviated notation. It is refused, as
    /// `InvalidMotion`, only where its motion has to be converted and cannot be.
    pub fn from_abbreviated(m: abbreviated::Move) -> (r: Result<numpad::Move, CreationError>)
        ensures
            viewed(r) == move_from_abbreviated(m@),
    {
        let modifier = numpad::Modifier::from(m.modifier);
        let motion = match m.modifier {
            abbreviated::Modifier::Standing => numpad::Motion::named(&abbreviated::Motion::N),
            abbreviated::Modifier::Crouching => numpad::Motion::named(&abbreviated::Motion::D),
            _ => match numpad::Motion::from_abbreviated(m.motion) {
                Ok(motion) => motion,
                Err(e) => {
                    return Err(e);
                },
            },
        };
        Ok(numpad::Move { modifier, motion, button: numpad::Button::from(m.button) })
    }
}

/// What the digits of the named motions hold, character by character.
proof fn lemma_digit_texts()
    ensures
        "5"@.len() == 1,
        "5"@[0] == '5',
        "8"@.len() == 1,
        "8"@[0] == '8',
        "2"@.len() == 1,
        "2"@[0] == '2',
        "4"@.len() == 1,
        "4"@[0] == '4',
        "6"@.len() == 1,
        "6"@[0] == '6',
        "1"@.len() == 1,
        "1"@[0] == '1',
        "3"@.len() == 1,
        "3"@[0] == '3',
        "7"@.len() == 1,
        "7"@[0] == '7',
        "9"@.len() == 1,
        "9"@[0] == '9',
        "236"@.len() == 3,
        "236"@[0] == '2' && "236"@[1] == '3' && "236"@[2] == '6',
        "214"@.len() == 3,
        "214"@[0] == '2' && "214"@[1] == '1' && "214"@[2] == '4',
        "41236"@.len() == 5,
        "41236"@[0] == '4' && "41236"@[1] == '1' && "41236"@[2] == '2' && "41236"@[3] == '3',
        "41236"@[4] == '6',
        "63214"@.len() == 5,
        "63214"@[0] == '6' && "63214"@[1] == '3' && "63214"@[2] == '2' && "63214"@[3] == '1',
        "63214"@[4] == '4',
        "623"@.len() == 3,
        "623"@[0] == '6' && "623"@[1] == '2' && "623"@[2] == '3',
        "421"@.len() == 3,
        "421"@[0] == '4' && "421"@[1] == '2' && "421"@[2] == '1',
        "41236987"@.len() == 8,
        "41236987"@[0] == '4' && "41236987"@[1] == '1' && "41236987"@[2] == '2',
        "41236987"@[3] == '3' && "41236987"@[4] == '6' && "41236987"@[5] == '9',
        "41236987"@[6] == '8' && "41236987"@[7] == '7',
        "4123698741236987"@.len() == 16,
        "4123698741236987"@[0] == '4' && "4123698741236987"@[1] == '1',
        "4123698741236987"@[2] == '2' && "4123698741236987"@[3] == '3',
        "4123698741236987"@[4] == '6' && "4123698741236987"@[5] == '9',
        "4123698741236987"@[6] == '8' && "4123698741236987"@[7] == '7',
        "4123698741236987"@[8] == '4' && "4123698741236987"@[9] == '1',
        "4123698741236987"@[10] == '2' && "4123698741236987"@[11] == '3',
        "4123698741236987"@[12] == '6' && "4123698741236987"@[13] == '9',
        "4123698741236987"@[14] == '8' && "4123698741236987"@[15] == '7',
        ""@.len() == 0,
{
    reveal_strlit("5");
    reveal_strlit("8");
    reveal_strlit("2");
    reveal_strlit("4");
    reveal_strlit("6");
    reveal_strlit("1");
    reveal_strlit("3");
    reveal_strlit("7");
    reveal_strlit("9");
    reveal_strlit("236");
    reveal_strlit("214");
    reveal_strlit("41236");
    reveal_strlit("63214");
    reveal_strlit("623");
    reveal_strlit("421");
    reveal_strlit("41236987");
    reveal_strlit("4123698741236987");
    reveal_strlit("");
}

/// A named motion converts to numpad notation, as its digits, and converts
/// back to itself: no two named motions share their digits.
pub proof fn named_motion_round_trip(m: abbreviated::MotionView)
    requires
        !(m is Other),
    ensures
        motion_from_abbreviated(m) == Ok::<Seq<char>, CreationError>(digits_of(m)),
        motion_from_numpad(digits_of(m)) == m,
{
    lemma_digit_texts();
}

/// A numpad motion converts to abbreviated notation and back to itself: what
/// has no name is carried in `Other`.
pub proof fn numpad_motion_round_trip(digits: Seq<char>)
    requires
        numpad::is_motion_text(digits),
    ensures
        motion_from_abbreviated(motion_from_numpad(digits)) == Ok::<Seq<char>, CreationError>(
            digits,
        ),
{
    lemma_digit_texts();
}

/// A numpad move converts to abbreviated notation and back to itself.
pub proof fn numpad_move_round_trip(m: numpad::MoveView)
    requires
        numpad::is_motion_text(m.motion),
    ensures
        move_from_abbreviated(move_from_numpad(m)) == Ok::<numpad::MoveView, CreationError>(m),
{
    numpad_motion_round_trip(m.motion);
}

/// Standing and crouching move from the modifier to the motion: a standing
/// move converts to the motion `5` and a crouching move to the motion `2`,
/// both without a modifier and with their button, whatever their motion was.
pub proof fn stance_moves_to_the_motion(m: abbreviated::MoveView)
    ensures
        m.modifier == abbreviated::Modifier::Standing ==> move_from_abbreviated(m) == Ok::<
            numpad::MoveView,
            CreationError,
        >(
            numpad::MoveView {
                modifier: numpad::Modifier::Absent,
                motion: seq!['5'],
                button: m.button,
            },
        ),
        m.modifier == abbreviated::Modifier::Crouching ==> move_from_abbreviated(m) == Ok::<
            numpad::MoveView,
            CreationError,
        >(
            numpad::MoveView {
                modifier: numpad::Modifier::Absent,
                motion: seq!['2'],
                button: m.button,
            },
        ),
{
    lemma_digit_texts();
    assert("5"@ =~= seq!['5']);
    assert("2"@ =~= seq!['2']);
}

} // verus!
