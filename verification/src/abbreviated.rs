//! Abbreviated notation: directions and special motions are named by letters
//! (`qcf`, `hcb`, `d/f`), a modifier is a dotted prefix (`cr.`, `tk.`), and
//! motion and button are set apart by white space (`cr.mk`, `qcf HP`,
//! `tk.qcf HK`).

use crate::text::{
    chars_of, count_leading, leading, lowercase, made_of, same_text, split_whitespace, texts,
    tokens, trim, trimmed, CharClass,
};
use crate::{is_button_text, parse_button, viewed, CreationError};
use vstd::prelude::*;
use vstd::string::*;

verus! {

/// Where or when a move is done.
#[derive(Debug, Clone, Copy, PartialEq, Eq, Structural)]
pub enum Modifier {
    Close,
    Far,
    Standing,
    Crouching,
    Jump,
    SuperJump,
    JumpCancel,
    TigerKnee,
    /// No modifier is written.
    Absent,
}

/// What the modifier text `s` stands for: an exact match against the table of
/// prefixes, each with or without its full stop.
pub open spec fn parse_modifier(s: Seq<char>) -> Result<Modifier, CreationError> {
    if s == "j."@ || s == "j"@ {
        Ok(Modifier::Jump)
    } else if s == "sj."@ || s == "sj"@ {
        Ok(Modifier::SuperJump)
    } else if s == "jc."@ || s == "jc"@ {
        Ok(Modifier::JumpCancel)
    } else if s == "cl."@ || s == "cl"@ {
        Ok(Modifier::Close)
    } else if s == "f."@ || s == "f"@ {
        Ok(Modifier::Far)
    } else if s == "tk."@ || s == "tk"@ {
        Ok(Modifier::TigerKnee)
    } else if s == "cr."@ || s == "cr"@ {
        Ok(Modifier::Crouching)
    } else if s == "st."@ || s == "st"@ {
        Ok(Modifier::Standing)
    } else {
        Err(CreationError::InvalidModifier)
    }
}

impl Modifier {
    /// The prefix that a move with this modifier is written with: the dotted
    /// form, and no text at all for `Absent`.
    pub open spec fn prefix(self) -> Seq<char> {
        match self {
            Modifier::Close => "cl."@,
            Modifier::Far => "f."@,
            Modifier::Standing => "st."@,
            Modifier::Crouching => "cr."@,
            Modifier::Jump => "j."@,
            Modifier::SuperJump => "sj."@,
            Modifier::JumpCancel => "jc."@,
            Modifier::TigerKnee => "tk."@,
            Modifier::Absent => ""@,
        }
    }

    /// The prefix without its full stop. Every modifier may be written so.
    pub open spec fn bare(self) -> Seq<char> {
        match self {
            Modifier::Close => "cl"@,
            Modifier::Far => "f"@,
            Modifier::Standing => "st"@,
            Modifier::Crouching => "cr"@,
            Modifier::Jump => "j"@,
            Modifier::SuperJump => "sj"@,
            Modifier::JumpCancel => "jc"@,
            Modifier::TigerKnee => "tk"@,
            Modifier::Absent => ""@,
        }
    }

    /// Reads a modifier from its text, dotted or not. No other text is a modifier.
    pub fn new(m: &str) -> (r: Result<Modifier, CreationError>)
        ensures
            r == parse_modifier(m@),
    {
        if same_text(m, "j.") || same_text(m, "j") {
            Ok(Modifier::Jump)
        } else if same_text(m, "sj.") || same_text(m, "sj") {
            Ok(Modifier::SuperJump)
        } else if same_text(m, "jc.") || same_text(m, "jc") {
            Ok(Modifier::JumpCancel)
        } else if same_text(m, "cl.") || same_text(m, "cl") {
            Ok(Modifier::Close)
        } else if same_text(m, "f.") || same_text(m, "f") {
            Ok(Modifier::Far)
        } else if same_text(m, "tk.") || same_text(m, "tk") {
            Ok(Modifier::TigerKnee)
        } else if same_text(m, "cr.") || same_text(m, "cr") {
            Ok(Modifier::Crouching)
        } else if same_text(m, "st.") || same_text(m, "st") {
            Ok(Modifier::Standing)
        } else {
            Err(CreationError::InvalidModifier)
        }
    }

    /// The modifier's prefix as a string slice.
    pub fn as_str(&self) -> (text: &'static str)
        ensures
            text@ == self.prefix(),
    {
        match self {
            Modifier::Close => "cl.",
            Modifier::Far => "f.",
            Modifier::Standing => "st.",
            Modifier::Crouching => "cr.",
            Modifier::Jump => "j.",
            Modifier::SuperJump => "sj.",
            Modifier::JumpCancel => "jc.",
            Modifier::TigerKnee => "tk.",
            Modifier::Absent => "",
        }
    }

    /// The modifier's prefix as a new string.
    pub fn to_string(&self) -> (text: String)
        ensures
            text@ == self.prefix(),
    {
        self.as_str().to_owned()
    }
}

/// The button of a move, or several buttons written together.
#[derive(Debug, PartialEq, Eq)]
pub struct Button(pub(crate) String);

impl View for Button {
    type V = Seq<char>;

    open(crate) spec fn view(&self) -> Seq<char> {
        self.0@
    }
}

impl Clone for Button {
    fn clone(&self) -> (copy: Self)
        ensures
            copy == *self,
    {
        proof {
            use_type_invariant(self);
        }
        Button(self.0.clone())
    }
}

impl Button {
    #[verifier::type_invariant]
    pub(crate) open spec fn holds_button_text(self) -> bool {
        is_button_text(self.0@)
    }

    /// Reads a button. The text must be made of ASCII letters. Empty text is
    /// read as well, as the button of a move that has none.
    pub fn new(b: &str) -> (r: Result<Button, CreationError>)
        ensures
            viewed(r) == parse_button(b@),
    {
        if made_of(b, CharClass::Letter) {
            Ok(Button(b.to_owned()))
        } else {
            Err(CreationError::InvalidButton)
        }
    }

    /// The button's text. It holds ASCII letters only.
    pub fn as_str(&self) -> (text: &str)
        ensures
            text@ == self@,
            is_button_text(self@),
    {
        proof {
            use_type_invariant(self);
        }
        self.0.as_str()
    }

    /// The button's text as a new string.
    pub fn to_string(&self) -> (text: String)
        ensures
            text@ == self@,
    {
        self.0.clone()
    }
}

/// A motion by its name, or text that names none.
#[derive(Debug, PartialEq, Eq)]
pub enum Motion {
    N,
    U,
    D,
    B,
    F,
    DB,
    DF,
    UB,
    UF,
    QCF,
    QCB,
    HCF,
    HCB,
    DP,
    RDP,
    FullCircle,
    Double360,
    /// Text that is no motion's name, kept as it is.
    Other(String),
}

/// A motion in the model: as [`Motion`], with the text of `Other` as a
/// sequence of characters.
pub enum MotionView {
    N,
    U,
    D,
    B,
    F,
    DB,
    DF,
    UB,
    UF,
    QCF,
    QCB,
    HCF,
    HCB,
    DP,
    RDP,
    FullCircle,
    Double360,
    Other(Seq<char>),
}

impl View for Motion {
    type V = MotionView;

    open spec fn view(&self) -> MotionView {
        match *self {
            Motion::N => MotionView::N,
            Motion::U => MotionView::U,
            Motion::D => MotionView::D,
            Motion::B => MotionView::B,
            Motion::F => MotionView::F,
            Motion::DB => MotionView::DB,
            Motion::DF => MotionView::DF,
            Motion::UB => MotionView::UB,
            Motion::UF => MotionView::UF,
            Motion::QCF => MotionView::QCF,
            Motion::QCB => MotionView::QCB,
            Motion::HCF => MotionView::HCF,
            Motion::HCB => MotionView::HCB,
            Motion::DP => MotionView::DP,
            Motion::RDP => MotionView::RDP,
            Motion::FullCircle => MotionView::FullCircle,
            Motion::Double360 => MotionView::Double360,
            Motion::Other(text) => MotionView::Other(text@),
        }
    }
}

impl MotionView {
    /// The text that the motion is shown as: its name in capitals, the number
    /// of degrees for the two circles, and the text of `Other` between single
    /// quotes.
    pub open spec fn text(self) -> Seq<char> {
        match self {
            MotionView::N => "N"@,
            MotionView::U => "U"@,
            MotionView::D => "D"@,
            MotionView::B => "B"@,
            MotionView::F => "F"@,
            MotionView::DB => "DB"@,
            MotionView::DF => "DF"@,
            MotionView::UB => "UB"@,
            MotionView::UF => "UF"@,
            MotionView::QCF => "QCF"@,
            MotionView::QCB => "QCB"@,
            MotionView::HCF => "HCF"@,
            MotionView::HCB => "HCB"@,
            MotionView::DP => "DP"@,
            MotionView::RDP => "RDP"@,
            MotionView::FullCircle => "360"@,
            MotionView::Double360 => "720"@,
            MotionView::Other(text) => "'"@ + text + "'"@,
        }
    }
}

/// The motion that lowercase text names. The four diagonals may be written
/// with a stroke between their two letters. Text that names no motion is
/// kept in `Other`.
pub open spec fn motion_of(folded: Seq<char>) -> MotionView {
    if folded == "n"@ {
        MotionView::N
    } else if folded == "u"@ {
        MotionView::U
    } else if folded == "d"@ {
        MotionView::D
    } else if folded == "b"@ {
        MotionView::B
    } else if folded == "f"@ {
        MotionView::F
    } else if folded == "ub"@ || folded == "u/b"@ {
        MotionView::UB
    } else if folded == "uf"@ || folded == "u/f"@ {
        MotionView::UF
    } else if folded == "db"@ || folded == "d/b"@ {
        MotionView::DB
    } else if folded == "df"@ || folded == "d/f"@ {
        MotionView::DF
    } else if folded == "qcf"@ {
        MotionView::QCF
    } else if folded == "qcb"@ {
        MotionView::QCB
    } else if folded == "hcf"@ {
        MotionView::HCF
    } else if folded == "hcb"@ {
        MotionView::HCB
    } else if folded == "360"@ {
        MotionView::FullCircle
    } else if folded == "720"@ {
        MotionView::Double360
    } else {
        MotionView::Other(folded)
    }
}

/// What the motion text `s` stands for, whatever its case: the motion that
/// its lowercase form names.
pub open spec fn parse_motion(s: Seq<char>) -> MotionView {
    motion_of(lowercase(s))
}

impl Clone for Motion {
    fn clone(&self) -> (copy: Self)
        ensures
            copy == *self,
    {
        match self {
            Motion::N => Motion::N,
            Motion::U => Motion::U,
            Motion::D => Motion::D,
            Motion::B => Motion::B,
            Motion::F => Motion::F,
            Motion::DB => Motion::DB,
            Motion::DF => Motion::DF,
            Motion::UB => Motion::UB,
            Motion::UF => Motion::UF,
            Motion::QCF => Motion::QCF,
            Motion::QCB => Motion::QCB,
            Motion::HCF => Motion::HCF,
            Motion::HCB => Motion::HCB,
            Motion::DP => Motion::DP,
            Motion::RDP => Motion::RDP,
            Motion::FullCircle => Motion::FullCircle,
            Motion::Double360 => Motion::Double360,
            Motion::Other(text) => Motion::Other(text.clone()),
        }
    }
}

impl Motion {
    /// Reads a motion from its text, in any case. Every text reads as some
    /// motion: one that names none is kept, in lowercase, in `Other`.
    pub fn new(m: &str) -> (motion: Motion)
        ensures
            motion@ == parse_motion(m@),
    {
        Motion::from_folded(m.to_lowercase())
    }

    /// The motion that `folded` names, where `folded` is text already in
    /// lowercase. No case is folded here: `QCF` names no motion.
    pub fn from_folded(folded: String) -> (motion: Motion)
        ensures
            motion@ == motion_of(folded@),
    {
        let text = folded.as_str();
        if same_text(text, "n") {
            Motion::N
        } else if same_text(text, "u") {
            Motion::U
        } else if same_text(text, "d") {
            Motion::D
        } else if same_text(text, "b") {
            Motion::B
        } else if same_text(text, "f") {
            Motion::F
        } else if same_text(text, "ub") || same_text(text, "u/b") {
            Motion::UB
        } else if same_text(text, "uf") || same_text(text, "u/f") {
            Motion::UF
        } else if same_text(text, "db") || same_text(text, "d/b") {
            Motion::DB
        } else if same_text(text, "df") || same_text(text, "d/f") {
            Motion::DF
        } else if same_text(text, "qcf") {
            Motion::QCF
        } else if same_text(text, "qcb") {
            Motion::QCB
        } else if same_text(text, "hcf") {
            Motion::HCF
        } else if same_text(text, "hcb") {
            Motion::HCB
        } else if same_text(text, "360") {
            Motion::FullCircle
        } else if same_text(text, "720") {
            Motion::Double360
        } else {
            Motion::Other(folded)
        }
    }

    /// The text that the motion is shown as.
    pub fn to_string(&self) -> (text: String)
        ensures
            text@ == self@.text(),
    {
        match self {
            Motion::N => "N".to_owned(),
            Motion::U => "U".to_owned(),
            Motion::D => "D".to_owned(),
            Motion::B => "B".to_owned(),
            Motion::F => "F".to_owned(),
            Motion::DB => "DB".to_owned(),
            Motion::DF => "DF".to_owned(),
            Motion::UB => "UB".to_owned(),
            Motion::UF => "UF".to_owned(),
            Motion::QCF => "QCF".to_owned(),
            Motion::QCB => "QCB".to_owned(),
            Motion::HCF => "HCF".to_owned(),
            Motion::HCB => "HCB".to_owned(),
            Motion::DP => "DP".to_owned(),
            Motion::RDP => "RDP".to_owned(),
            Motion::FullCircle => "360".to_owned(),
            Motion::Double360 => "720".to_owned(),
            Motion::Other(other) => {
                let mut text = "'".to_owned();
                text.append(other.as_str());
                text.append("'");
                text
            },
        }
    }
}

/// The modifier at the start of the trimmed text `s` of a move, and what
/// follows it. With a full stop in `s`, what stands before the first one must
/// be a modifier. Without one there is no modifier.
pub open spec fn split_modifier(s: Seq<char>) -> Result<(Modifier, Seq<char>), CreationError> {
    let dot = leading(s, CharClass::NonDot) as int;
    if dot < s.len() {
        match parse_modifier(s.take(dot)) {
            Ok(modifier) => Ok((modifier, s.skip(dot + 1))),
            Err(e) => Err(e),
        }
    } else {
        Ok((Modifier::Absent, s))
    }
}

/// A move in the model: its three facets, the texts as sequences of characters.
pub struct MoveView {
    pub button: Seq<char>,
    pub motion: MotionView,
    pub modifier: Modifier,
}

/// The move with the modifier `modifier` and the white-space-separated parts
/// `parts`. The last part is the button. The first part is the motion where
/// there are two parts or more; with one part the motion is neutral. What
/// stands between the first part and the last is passed over. Without any
/// part the move has no button, and its button is the empty text.
pub open spec fn assemble(modifier: Modifier, parts: Seq<Seq<char>>) -> Result<
    MoveView,
    CreationError,
> {
    let motion = if parts.len() > 1 {
        parse_motion(parts[0])
    } else {
        MotionView::N
    };
    let last = if parts.len() > 0 {
        parts.last()
    } else {
        Seq::empty()
    };
    match parse_button(last) {
        Err(e) => Err(e),
        Ok(button) => Ok(MoveView { button, motion, modifier }),
    }
}

/// What the text `input` of a move stands for. Of the text between the white
/// space at its ends, the modifier comes first. What follows is split at
/// white space and assembled. The modifier is read before the button, and the
/// first of the two that cannot be read gives the error.
pub open spec fn parse_move(input: Seq<char>) -> Result<MoveView, CreationError> {
    match split_modifier(trimmed(input)) {
        Err(e) => Err(e),
        Ok((modifier, rest)) => assemble(modifier, tokens(rest)),
    }
}

/// The text of a move: prefix, motion and button, with nothing in between.
pub open spec fn format_move(m: MoveView) -> Seq<char> {
    m.modifier.prefix() + m.motion.text() + m.button
}

/// A move in abbreviated notation.
#[derive(Debug, PartialEq, Eq)]
pub struct Move {
    pub(crate) button: Button,
    pub(crate) motion: Motion,
    pub(crate) modifier: Modifier,
}

impl View for Move {
    type V = MoveView;

    open(crate) spec fn view(&self) -> MoveView {
        MoveView { button: self.button@, motion: self.motion@, modifier: self.modifier }
    }
}

impl Clone for Move {
    fn clone(&self) -> (copy: Self)
        ensures
            copy == *self,
    {
        Move {
            button: self.button.clone(),
            motion: self.motion.clone(),
            modifier: self.modifier,
        }
    }
}

impl Move {
    /// Reads a move from its text.
    pub fn new(input: &str) -> (r: Result<Move, CreationError>)
        ensures
            viewed(r) == parse_move(input@),
    {
        let text = trim(input);
        match Move::get_modifier(text) {
            Ok((modifier, rest)) => Move::from_parts(modifier, &split_whitespace(rest)),
            Err(e) => Err(e),
        }
    }

    /// Makes a move of a modifier and the white-space-separated parts that
    /// follow it in the text of a move.
    pub fn from_parts(modifier: Modifier, parts: &Vec<&str>) -> (r: Result<Move, CreationError>)
        ensures
            viewed(r) == assemble(modifier, texts(parts@)),
    {
        let count = parts.len();
        let motion = if count > 1 {
            Motion::new(parts[0])
        } else {
            Motion::N
        };
        let last = if count > 0 {
            parts[count - 1]
        } else {
            proof {
                reveal_strlit("");
                assert(""@ =~= Seq::<char>::empty());
            }
            ""
        };
        match Button::new(last) {
            Ok(button) => Ok(Move { button, motion, modifier }),
            Err(e) => Err(e),
        }
    }

    /// The move's button.
    pub fn button(&self) -> (button: Button)
        ensures
            button@ == self@.button,
    {
        self.button.clone()
    }

    /// The move's motion.
    pub fn motion(&self) -> (motion: Motion)
        ensures
            motion@ == self@.motion,
    {
        self.motion.clone()
    }

    /// The move's modifier.
    pub fn modifier(&self) -> (modifier: Modifier)
        ensures
            modifier == self@.modifier,
    {
        self.modifier
    }

    /// Takes the modifier off the start of the trimmed text of a move, and
    /// returns it with the text that follows.
    fn get_modifier<'a>(text: &'a str) -> (r: Result<(Modifier, &'a str), CreationError>)
        ensures
            match r {
                Ok((modifier, rest)) => split_modifier(text@) == Ok::<
                    (Modifier, Seq<char>),
                    CreationError,
                >((modifier, rest@)),
                Err(e) => split_modifier(text@) == Err::<(Modifier, Seq<char>), CreationError>(e),
            },
    {
        let chars = chars_of(text);
        let len = chars.len();
        let dot = count_leading(&chars, 0, len, CharClass::NonDot);
        proof {
            assert(chars@.subrange(0, len as int) =~= text@);
        }
        if dot < len {
            match Modifier::new(text.substring_char(0, dot)) {
                Ok(modifier) => Ok((modifier, text.substring_char(dot + 1, len))),
                Err(e) => Err(e),
            }
        } else {
            Ok((Modifier::Absent, text))
        }
    }

    /// The move's text: its canonical form, which need not be the text it was
    /// read from.
    pub fn to_string(&self) -> (text: String)
        ensures
            text@ == format_move(self@),
    {
        let mut text = self.modifier.to_string();
        let motion = self.motion.to_string();
        text.append(motion.as_str());
        text.append(self.button.as_str());
        text
    }
}

/// Every modifier is read from its prefix, with the full stop and without
/// it, and the two differ by the full stop alone.
pub proof fn modifier_is_read_from_its_prefix(m: Modifier)
    requires
        m != Modifier::Absent,
    ensures
        parse_modifier(m.prefix()) == Ok::<Modifier, CreationError>(m),
        parse_modifier(m.bare()) == Ok::<Modifier, CreationError>(m),
        m.prefix() == m.bare().push('.'),
{
    lemma_modifier_texts();
    assert(m.prefix() =~= m.bare().push('.'));
}

/// Modifier text is matched exactly: text is read as a modifier only where it
/// is that modifier's prefix, with or without the full stop, and every other
/// text is refused as `InvalidModifier`.
pub proof fn modifier_text_is_matched_exactly(s: Seq<char>)
    ensures
        match parse_modifier(s) {
            Ok(m) => m != Modifier::Absent && (s == m.prefix() || s == m.bare()),
            Err(e) => e == CreationError::InvalidModifier && forall|m: Modifier|
                m != Modifier::Absent ==> s != #[trigger] m.prefix() && s != m.bare(),
        },
{
}

/// What the texts of the table of modifiers hold.
proof fn lemma_modifier_texts()
    ensures
        "cl."@ == seq!['c', 'l', '.'],
        "f."@ == seq!['f', '.'],
        "st."@ == seq!['s', 't', '.'],
        "cr."@ == seq!['c', 'r', '.'],
        "j."@ == seq!['j', '.'],
        "sj."@ == seq!['s', 'j', '.'],
        "jc."@ == seq!['j', 'c', '.'],
        "tk."@ == seq!['t', 'k', '.'],
        "cl"@ == seq!['c', 'l'],
        "f"@ == seq!['f'],
        "st"@ == seq!['s', 't'],
        "cr"@ == seq!['c', 'r'],
        "j"@ == seq!['j'],
        "sj"@ == seq!['s', 'j'],
        "jc"@ == seq!['j', 'c'],
        "tk"@ == seq!['t', 'k'],
        ""@ == Seq::<char>::empty(),
{
    reveal_strlit("cl.");
    reveal_strlit("f.");
    reveal_strlit("st.");
    reveal_strlit("cr.");
    reveal_strlit("j.");
    reveal_strlit("sj.");
    reveal_strlit("jc.");
    reveal_strlit("tk.");
    reveal_strlit("cl");
    reveal_strlit("f");
    reveal_strlit("st");
    reveal_strlit("cr");
    reveal_strlit("j");
    reveal_strlit("sj");
    reveal_strlit("jc");
    reveal_strlit("tk");
    reveal_strlit("");
    assert("cl."@ =~= seq!['c', 'l', '.']);
    assert("f."@ =~= seq!['f', '.']);
    assert("st."@ =~= seq!['s', 't', '.']);
    assert("cr."@ =~= seq!['c', 'r', '.']);
    assert("j."@ =~= seq!['j', '.']);
    assert("sj."@ =~= seq!['s', 'j', '.']);
    assert("jc."@ =~= seq!['j', 'c', '.']);
    assert("tk."@ =~= seq!['t', 'k', '.']);
    assert("cl"@ =~= seq!['c', 'l']);
    assert("f"@ =~= seq!['f']);
    assert("st"@ =~= seq!['s', 't']);
    assert("cr"@ =~= seq!['c', 'r']);
    assert("j"@ =~= seq!['j']);
    assert("sj"@ =~= seq!['s', 'j']);
    assert("jc"@ =~= seq!['j', 'c']);
    assert("tk"@ =~= seq!['t', 'k']);
    assert(""@ =~= Seq::<char>::empty());
}

/// Whether lowercase text is the name of a motion.
pub open spec fn names_a_motion(folded: Seq<char>) -> bool {
    ||| folded == "n"@
    ||| folded == "u"@
    ||| folded == "d"@
    ||| folded == "b"@
    ||| folded == "f"@
    ||| folded == "ub"@
    ||| folded == "u/b"@
    ||| folded == "uf"@
    ||| folded == "u/f"@
    ||| folded == "db"@
    ||| folded == "d/b"@
    ||| folded == "df"@
    ||| folded == "d/f"@
    ||| folded == "qcf"@
    ||| folded == "qcb"@
    ||| folded == "hcf"@
    ||| folded == "hcb"@
    ||| folded == "360"@
    ||| folded == "720"@
}

/// Every text reads as a motion. Text whose lowercase form names no motion is
/// kept in `Other`, in lowercase, and `Other` never holds a name.
pub proof fn unnamed_motion_text_is_kept(s: Seq<char>)
    ensures
        !names_a_motion(lowercase(s)) ==> parse_motion(s) == MotionView::Other(lowercase(s)),
        names_a_motion(lowercase(s)) ==> !(parse_motion(s) is Other),
        parse_motion(s) matches MotionView::Other(kept) ==> kept == lowercase(s)
            && !names_a_motion(kept),
{
}

impl std::str::FromStr for Modifier {
    type Err = CreationError;

    /// Reads a modifier, as [`Modifier::new`] does.
    fn from_str(s: &str) -> (r: Result<Modifier, CreationError>)
        ensures
            r == parse_modifier(s@),
    {
        Modifier::new(s)
    }
}

impl std::str::FromStr for Button {
    type Err = CreationError;

    /// Reads a button, as [`Button::new`] does.
    fn from_str(s: &str) -> (r: Result<Button, CreationError>)
        ensures
            viewed(r) == parse_button(s@),
    {
        Button::new(s)
    }
}

impl std::str::FromStr for Motion {
    type Err = CreationError;

    /// Reads a motion, as [`Motion::new`] does. It never fails.
    fn from_str(s: &str) -> (r: Result<Motion, CreationError>)
        ensures
            viewed(r) == Ok::<MotionView, CreationError>(parse_motion(s@)),
    {
        Ok(Motion::new(s))
    }
}

impl std::str::FromStr for Move {
    type Err = CreationError;

    /// Reads a move, as [`Move::new`] does.
    fn from_str(s: &str) -> (r: Result<Move, CreationError>)
        ensures
            viewed(r) == parse_move(s@),
    {
        Move::new(s)
    }
}

} // verus!
