//! Numpad notation: a direction is the digit at its place on a numeric keypad,
//! a motion is a run of such digits, and a move is written as an optional
//! modifier prefix, the motion and the button, with nothing in between
//! (`236H`, `j.236H`, `[4]6A`).

use crate::text::{
    all_in, chars_of, count_leading, leading, made_of, same_text, starts_with, trim, trimmed,
    CharClass,
};
use crate::{is_button_text, parse_button, viewed, CreationError};
use vstd::prelude::*;
use vstd::string::*;

verus! {

/// Where or when a move is done.
#[derive(Debug, Clone, Copy, PartialEq, Eq, Structural)]
pub enum Modifier {
    Jump,
    SuperJump,
    JumpCancel,
    Close,
    Far,
    TigerKnee,
    /// No modifier is written.
    Absent,
}

/// What the modifier text `s` stands for: an exact match against the table of
/// prefixes, each with or without its full stop.
pub open spec fn parse_modifier(s: Seq<char>) -> Result<Modifier, CreationError> {
    if s == "j."@ || s == "j"@ {
        Ok(Modifier::Jump)
    } else if s == "sj."@ || s == "sj"@ {
        Ok(Modifier::SuperJump)
    } else if s == "jc."@ || s == "jc"@ {
        Ok(Modifier::JumpCancel)
    } else if s == "c."@ || s == "c"@ {
        Ok(Modifier::Close)
    } else if s == "f."@ || s == "f"@ {
        Ok(Modifier::Far)
    } else if s == "tk."@ || s == "tk"@ {
        Ok(Modifier::TigerKnee)
    } else {
        Err(CreationError::InvalidModifier)
    }
}

impl Modifier {
    /// The prefix that a move with this modifier is written with: the dotted
    /// form, and no text at all for `Absent`.
    pub open spec fn prefix(self) -> Seq<char> {
        match self {
            Modifier::Jump => "j."@,
            Modifier::SuperJump => "sj."@,
            Modifier::JumpCancel => "jc."@,
            Modifier::Close => "c."@,
            Modifier::Far => "f."@,
            Modifier::TigerKnee => "tk."@,
            Modifier::Absent => ""@,
        }
    }

    /// Reads a modifier from its text, dotted or not. No other text is a modifier.
    pub fn new(m: &str) -> (r: Result<Modifier, CreationError>)
        ensures
            r == parse_modifier(m@),
    {
        if same_text(m, "j.") || same_text(m, "j") {
            Ok(Modifier::Jump)
        } else if same_text(m, "sj.") || same_text(m, "sj") {
            Ok(Modifier::SuperJump)
        } else if same_text(m, "jc.") || same_text(m, "jc") {
            Ok(Modifier::JumpCancel)
        } else if same_text(m, "c.") || same_text(m, "c") {
            Ok(Modifier::Close)
        } else if same_text(m, "f.") || same_text(m, "f") {
            Ok(Modifier::Far)
        } else if same_text(m, "tk.") || same_text(m, "tk") {
            Ok(Modifier::TigerKnee)
        } else {
            Err(CreationError::InvalidModifier)
        }
    }

    /// The prefix without its full stop. Every modifier may be written so.
    pub open spec fn bare(self) -> Seq<char> {
        match self {
            Modifier::Jump => "j"@,
            Modifier::SuperJump => "sj"@,
            Modifier::JumpCancel => "jc"@,
            Modifier::Close => "c"@,
            Modifier::Far => "f"@,
            Modifier::TigerKnee => "tk"@,
            Modifier::Absent => ""@,
        }
    }

    /// The number of characters of the prefix without its full stop.
    pub fn bare_len(&self) -> (n: usize)
        ensures
            n == self.bare().len(),
    {
        proof {
            reveal_strlit("j");
            reveal_strlit("sj");
            reveal_strlit("jc");
            reveal_strlit("c");
            reveal_strlit("f");
            reveal_strlit("tk");
            reveal_strlit("");
        }
        match self {
            Modifier::Jump | Modifier::Close | Modifier::Far => 1,
            Modifier::SuperJump | Modifier::JumpCancel | Modifier::TigerKnee => 2,
            Modifier::Absent => 0,
        }
    }

    /// The modifier's prefix as a string slice.
    pub fn as_str(&self) -> (text: &'static str)
        ensures
            text@ == self.prefix(),
    {
        match self {
            Modifier::Jump => "j.",
            Modifier::SuperJump => "sj.",
            Modifier::JumpCancel => "jc.",
            Modifier::Close => "c.",
            Modifier::Far => "f.",
            Modifier::TigerKnee => "tk.",
            Modifier::Absent => "",
        }
    }

    /// The modifier's prefix as a new string.
    pub fn to_string(&self) -> (text: String)
        ensures
            text@ == self.prefix(),
    {
        self.as_str().to_owned()
    }
}

/// The button of a move, or several buttons written together.
#[derive(Debug, PartialEq, Eq)]
pub struct Button(pub(crate) String);

impl View for Button {
    type V = Seq<char>;

    open(crate) spec fn view(&self) -> Seq<char> {
        self.0@
    }
}

impl Clone for Button {
    fn clone(&self) -> (copy: Self)
        ensures
            copy == *self,
    {
        proof {
            use_type_invariant(self);
        }
        Button(self.0.clone())
    }
}

impl Button {
    #[verifier::type_invariant]
    pub(crate) open spec fn holds_button_text(self) -> bool {
        is_button_text(self.0@)
    }

    /// Reads a button. The text must be made of ASCII letters. Empty text is
    /// read as well, as the button of a move that has none.
    pub fn new(b: &str) -> (r: Result<Button, CreationError>)
        ensures
            viewed(r) == parse_button(b@),
    {
        if made_of(b, CharClass::Letter) {
            Ok(Button(b.to_owned()))
        } else {
            Err(CreationError::InvalidButton)
        }
    }

    /// The button's text. It holds ASCII letters only.
    pub fn as_str(&self) -> (text: &str)
        ensures
            text@ == self@,
            is_button_text(self@),
    {
        proof {
            use_type_invariant(self);
        }
        self.0.as_str()
    }

    /// The button's text as a new string.
    pub fn to_string(&self) -> (text: String)
        ensures
            text@ == self@,
    {
        self.0.clone()
    }
}

/// Motion text: one character or more, each an ASCII digit or a square bracket.
pub open spec fn is_motion_text(s: Seq<char>) -> bool {
    s.len() > 0 && all_in(s, CharClass::MotionMark)
}

/// What the motion text `s` stands for: the neutral position `5` where it is
/// empty, and else itself where it is motion text. Brackets need not match.
pub open spec fn parse_motion(s: Seq<char>) -> Result<Seq<char>, CreationError> {
    if s.len() == 0 {
        Ok("5"@)
    } else if all_in(s, CharClass::MotionMark) {
        Ok(s)
    } else {
        Err(CreationError::InvalidMotion)
    }
}

/// The directions of a move, in the order in which they are entered. A held
/// direction stands in square brackets.
#[derive(Debug, PartialEq, Eq)]
pub struct Motion(pub(crate) String);

impl View for Motion {
    type V = Seq<char>;

    open(crate) spec fn view(&self) -> Seq<char> {
        self.0@
    }
}

impl Clone for Motion {
    fn clone(&self) -> (copy: Self)
        ensures
            copy == *self,
    {
        proof {
            use_type_invariant(self);
        }
        Motion(self.0.clone())
    }
}

impl Motion {
    #[verifier::type_invariant]
    pub(crate) open spec fn holds_motion_text(self) -> bool {
        is_motion_text(self.0@)
    }

    /// Reads a motion. Empty text is the neutral position and reads as `5`.
    pub fn new(m: &str) -> (r: Result<Motion, CreationError>)
        ensures
            viewed(r) == parse_motion(m@),
    {
        if m.is_empty() {
            proof {
                reveal_strlit("5");
            }
            Ok(Motion("5".to_owned()))
        } else if made_of(m, CharClass::MotionMark) {
            Ok(Motion(m.to_owned()))
        } else {
            Err(CreationError::InvalidMotion)
        }
    }

    /// The number of characters of the motion. It is never 0.
    pub fn len(&self) -> (n: usize)
        ensures
            n == self@.len(),
            n > 0,
    {
        proof {
            use_type_invariant(self);
        }
        self.0.as_str().unicode_len()
    }

    /// Whether the motion is the neutral position, `5`.
    pub fn is_neutral(&self) -> (neutral: bool)
        ensures
            neutral == (self@ == "5"@),
    {
        same_text(self.0.as_str(), "5")
    }

    /// The motion's text. It is never empty and holds digits and square
    /// brackets only.
    pub fn as_str(&self) -> (text: &str)
        ensures
            text@ == self@,
            is_motion_text(self@),
    {
        proof {
            use_type_invariant(self);
        }
        self.0.as_str()
    }

    /// The motion's text as a new string.
    pub fn to_string(&self) -> (text: String)
        ensures
            text@ == self@,
    {
        self.0.clone()
    }
}

/// The modifier that the start of `s` names where `s` holds no full stop:
/// one of `jc`, `tk`, `j` and `c`, the longer before the shorter, so that `jc`
/// is not read as `j` before a `c`.
pub open spec fn bare_modifier(s: Seq<char>) -> Modifier {
    if "jc"@.is_prefix_of(s) {
        Modifier::JumpCancel
    } else if "tk"@.is_prefix_of(s) {
        Modifier::TigerKnee
    } else if "j"@.is_prefix_of(s) {
        Modifier::Jump
    } else if "c"@.is_prefix_of(s) {
        Modifier::Close
    } else {
        Modifier::Absent
    }
}

/// The modifier at the start of the trimmed text `s` of a move, and what
/// follows it. With a full stop in `s`, what stands before the first one must
/// be a modifier. Without one, the modifier is the bare prefix, if there is any.
pub open spec fn split_modifier(s: Seq<char>) -> Result<(Modifier, Seq<char>), CreationError> {
    let dot = leading(s, CharClass::NonDot) as int;
    if dot < s.len() {
        match parse_modifier(s.take(dot)) {
            Ok(modifier) => Ok((modifier, s.skip(dot + 1))),
            Err(e) => Err(e),
        }
    } else {
        let modifier = bare_modifier(s);
        Ok((modifier, s.skip(modifier.bare().len() as int)))
    }
}

/// A move in the model: its three facets, the texts as sequences of characters.
pub struct MoveView {
    pub modifier: Modifier,
    pub motion: Seq<char>,
    pub button: Seq<char>,
}

/// What the text `s` of a move stands for, where `s` has no white space at
/// its ends. The modifier comes first; the motion is the longest run of digits
/// and brackets that follows, and all the rest is the button. The first facet
/// that cannot be read gives the error.
pub open spec fn parse_trimmed(s: Seq<char>) -> Result<MoveView, CreationError> {
    match split_modifier(s) {
        Err(e) => Err(e),
        Ok((modifier, rest)) => {
            let run = leading(rest, CharClass::MotionMark) as int;
            match parse_motion(rest.take(run)) {
                Err(e) => Err(e),
                Ok(motion) => match parse_button(rest.skip(run)) {
                    Err(e) => Err(e),
                    Ok(button) => Ok(MoveView { modifier, motion, button }),
                },
            }
        },
    }
}

/// What the text `input` of a move stands for: what it stands for without
/// the white space at its ends.
pub open spec fn parse_move(input: Seq<char>) -> Result<MoveView, CreationError> {
    parse_trimmed(trimmed(input))
}

/// The text of a move: prefix, motion and button, with nothing in between.
pub open spec fn format_move(m: MoveView) -> Seq<char> {
    m.modifier.prefix() + m.motion + m.button
}

/// A move in numpad notation.
#[derive(Debug, PartialEq, Eq)]
pub struct Move {
    pub(crate) modifier: Modifier,
    pub(crate) motion: Motion,
    pub(crate) button: Button,
}

impl View for Move {
    type V = MoveView;

    open(crate) spec fn view(&self) -> MoveView {
        MoveView { modifier: self.modifier, motion: self.motion@, button: self.button@ }
    }
}

impl Clone for Move {
    fn clone(&self) -> (copy: Self)
        ensures
            copy == *self,
    {
        Move {
            modifier: self.modifier,
            motion: self.motion.clone(),
            button: self.button.clone(),
        }
    }
}

impl Move {
    /// Reads a move from its text.
    pub fn new(input: &str) -> (r: Result<Move, CreationError>)
        ensures
            viewed(r) == parse_move(input@),
    {
        Move::from_trimmed(trim(input))
    }

    /// Reads a move from text that has no white space at its ends. White
    /// space anywhere in `text` is read as any other character that is no
    /// letter, digit, bracket or full stop.
    pub fn from_trimmed(text: &str) -> (r: Result<Move, CreationError>)
        ensures
            viewed(r) == parse_trimmed(text@),
    {
        let (modifier, rest) = match Move::get_modifier(text) {
            Ok(found) => found,
            Err(e) => {
                return Err(e);
            },
        };
        let chars = chars_of(rest);
        let len = chars.len();
        let run = count_leading(&chars, 0, len, CharClass::MotionMark);
        proof {
            assert(chars@.subrange(0, len as int) =~= rest@);
        }
        let motion = match Motion::new(rest.substring_char(0, run)) {
            Ok(motion) => motion,
            Err(e) => {
                return Err(e);
            },
        };
        let button = match Button::new(rest.substring_char(run, len)) {
            Ok(button) => button,
            Err(e) => {
                return Err(e);
            },
        };
        Ok(Move { modifier, motion, button })
    }

    /// The move's button.
    pub fn button(&self) -> (button: Button)
        ensures
            button@ == self@.button,
    {
        self.button.clone()
    }

    /// The move's motion.
    pub fn motion(&self) -> (motion: Motion)
        ensures
            motion@ == self@.motion,
    {
        self.motion.clone()
    }

    /// The move's modifier.
    pub fn modifier(&self) -> (modifier: Modifier)
        ensures
            modifier == self@.modifier,
    {
        self.modifier
    }

    /// Takes the modifier off the start of the trimmed text of a move, and
    /// returns it with the text that follows.
    fn get_modifier<'a>(text: &'a str) -> (r: Result<(Modifier, &'a str), CreationError>)
        ensures
            match r {
                Ok((modifier, rest)) => split_modifier(text@) == Ok::<
                    (Modifier, Seq<char>),
                    CreationError,
                >((modifier, rest@)),
                Err(e) => split_modifier(text@) == Err::<(Modifier, Seq<char>), CreationError>(e),
            },
    {
        let chars = chars_of(text);
        let len = chars.len();
        let dot = count_leading(&chars, 0, len, CharClass::NonDot);
        proof {
            assert(chars@.subrange(0, len as int) =~= text@);
        }
        if dot < len {
            match Modifier::new(text.substring_char(0, dot)) {
                Ok(modifier) => Ok((modifier, text.substring_char(dot + 1, len))),
                Err(e) => Err(e),
            }
        } else {
            let modifier = if starts_with(text, "jc") {
                Modifier::JumpCancel
            } else if starts_with(text, "tk") {
                Modifier::TigerKnee
            } else if starts_with(text, "j") {
                Modifier::Jump
            } else if starts_with(text, "c") {
                Modifier::Close
            } else {
                Modifier::Absent
            };
            let skip = modifier.bare_len();
            proof {
                reveal_strlit("jc");
                reveal_strlit("tk");
                reveal_strlit("j");
                reveal_strlit("c");
                reveal_strlit("");
            }
            Ok((modifier, text.substring_char(skip, len)))
        }
    }

    /// The move's text: its canonical form, which need not be the text it was
    /// read from.
    pub fn to_string(&self) -> (text: String)
        ensures
            text@ == format_move(self@),
    {
        let mut text = self.modifier.to_string();
        text.append(self.motion.as_str());
        text.append(self.button.as_str());
        text
    }
}

/// Text of digits and brackets reads as a motion that holds that very text,
/// and empty text reads as the motion `5`. Either way the result is motion
/// text.
pub proof fn motion_text_reads_as_itself(m: Seq<char>)
    requires
        all_in(m, CharClass::MotionMark),
    ensures
        m.len() > 0 ==> parse_motion(m) == Ok::<Seq<char>, CreationError>(m),
        m.len() == 0 ==> parse_motion(m) == Ok::<Seq<char>, CreationError>(seq!['5']),
        parse_motion(m) is Ok,
        is_motion_text(parse_motion(m)->Ok_0),
{
    reveal_strlit("5");
    assert("5"@ =~= seq!['5']);
}

/// Every modifier is read from its prefix, with the full stop and without
/// it, and the two differ by the full stop alone.
pub proof fn modifier_is_read_from_its_prefix(m: Modifier)
    requires
        m != Modifier::Absent,
    ensures
        parse_modifier(m.prefix()) == Ok::<Modifier, CreationError>(m),
        parse_modifier(m.bare()) == Ok::<Modifier, CreationError>(m),
        m.prefix() == m.bare().push('.'),
{
    lemma_modifier_texts();
    assert(m.prefix() =~= m.bare().push('.'));
}

/// Modifier text is matched exactly: text is read as a modifier only where it
/// is that modifier's prefix, with or without the full stop, and every other
/// text is refused as `InvalidModifier`.
pub proof fn modifier_text_is_matched_exactly(s: Seq<char>)
    ensures
        match parse_modifier(s) {
            Ok(m) => m != Modifier::Absent && (s == m.prefix() || s == m.bare()),
            Err(e) => e == CreationError::InvalidModifier && forall|m: Modifier|
                m != Modifier::Absent ==> s != #[trigger] m.prefix() && s != m.bare(),
        },
{
}

/// What the texts of the table of modifiers hold.
proof fn lemma_modifier_texts()
    ensures
        "j."@ == seq!['j', '.'],
        "sj."@ == seq!['s', 'j', '.'],
        "jc."@ == seq!['j', 'c', '.'],
        "c."@ == seq!['c', '.'],
        "f."@ == seq!['f', '.'],
        "tk."@ == seq!['t', 'k', '.'],
        "j"@ == seq!['j'],
        "sj"@ == seq!['s', 'j'],
        "jc"@ == seq!['j', 'c'],
        "c"@ == seq!['c'],
        "f"@ == seq!['f'],
        "tk"@ == seq!['t', 'k'],
        ""@ == Seq::<char>::empty(),
{
    reveal_strlit("j.");
    reveal_strlit("sj.");
    reveal_strlit("jc.");
    reveal_strlit("c.");
    reveal_strlit("f.");
    reveal_strlit("tk.");
    reveal_strlit("j");
    reveal_strlit("sj");
    reveal_strlit("jc");
    reveal_strlit("c");
    reveal_strlit("f");
    reveal_strlit("tk");
    reveal_strlit("");
    assert("j."@ =~= seq!['j', '.']);
    assert("sj."@ =~= seq!['s', 'j', '.']);
    assert("jc."@ =~= seq!['j', 'c', '.']);
    assert("c."@ =~= seq!['c', '.']);
    assert("f."@ =~= seq!['f', '.']);
    assert("tk."@ =~= seq!['t', 'k', '.']);
    assert("j"@ =~= seq!['j']);
    assert("sj"@ =~= seq!['s', 'j']);
    assert("jc"@ =~= seq!['j', 'c']);
    assert("c"@ =~= seq!['c']);
    assert("f"@ =~= seq!['f']);
    assert("tk"@ =~= seq!['t', 'k']);
    assert(""@ =~= Seq::<char>::empty());
}

impl std::str::FromStr for Modifier {
    type Err = CreationError;

    /// Reads a modifier, as [`Modifier::new`] does.
    fn from_str(s: &str) -> (r: Result<Modifier, CreationError>)
        ensures
            r == parse_modifier(s@),
    {
        Modifier::new(s)
    }
}

impl std::str::FromStr for Button {
    type Err = CreationError;

    /// Reads a button, as [`Button::new`] does.
    fn from_str(s: &str) -> (r: Result<Button, CreationError>)
        ensures
            viewed(r) == parse_button(s@),
    {
        Button::new(s)
    }
}

impl std::str::FromStr for Motion {
    type Err = CreationError;

    /// Reads a motion, as [`Motion::new`] does.
    fn from_str(s: &str) -> (r: Result<Motion, CreationError>)
        ensures
            viewed(r) == parse_motion(s@),
    {
        Motion::new(s)
    }
}

impl std::str::FromStr for Move {
    type Err = CreationError;

    /// Reads a move, as [`Move::new`] does.
    fn from_str(s: &str) -> (r: Result<Move, CreationError>)
        ensures
            viewed(r) == parse_move(s@),
    {
        Move::new(s)
    }
}

} // verus!
