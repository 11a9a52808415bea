//! What the command line asks for, and the line that answers it.
//!
//! A request names the notation to convert to and gives the moves in the other
//! notation. All the moves are read first, then each is converted, and the
//! answer is their texts in the order given, joined by ` -> `. The first move
//! that cannot be read, or else the first that cannot be converted, makes the
//! whole request fail.

use crate::mapping::{move_from_abbreviated, move_from_numpad};
use crate::{abbreviated, numpad, viewed, CreationError};
use vstd::prelude::*;
use vstd::string::*;

verus! {

/// The arguments of the command line.
#[derive(Debug)]
pub struct Args {
    pub target: Target,
}

/// The notation to convert to, with the moves to convert.
#[derive(Debug)]
pub enum Target {
    /// Write in numpad notation the moves `abbr`, given in abbreviated notation.
    Numpad { abbr: Vec<String> },
    /// Write in abbreviated notation the moves `nump`, given in numpad notation.
    Abbreviate { nump: Vec<String> },
}

/// The texts that a sequence of strings holds.
pub open spec fn texts_of(strings: Seq<String>) -> Seq<Seq<char>> {
    Seq::new(strings.len(), |i: int| strings[i]@)
}

/// The error of the first result that is one, if any is.
pub open spec fn first_error<T>(results: Seq<Result<T, CreationError>>) -> Option<CreationError>
    decreases results.len(),
{
    if results.len() == 0 {
        None
    } else {
        match results[0] {
            Err(e) => Some(e),
            Ok(_) => first_error(results.skip(1)),
        }
    }
}

/// The texts `parts` in their order, with ` -> ` between each two.
pub open spec fn joined(parts: Seq<Seq<char>>) -> Seq<char>
    decreases parts.len(),
{
    if parts.len() == 0 {
        Seq::empty()
    } else if parts.len() == 1 {
        parts[0]
    } else {
        joined(parts.drop_last()) + " -> "@ + parts.last()
    }
}

/// The numpad texts of moves given in abbreviated notation, or the error of
/// the first that cannot be read, or else of the first that cannot be converted.
pub open spec fn numpad_texts(moves: Seq<Seq<char>>) -> Result<Seq<Seq<char>>, CreationError> {
    let parsed = Seq::new(moves.len(), |i: int| abbreviated::parse_move(moves[i]));
    match first_error(parsed) {
        Some(e) => Err(e),
        None => {
            let converted = Seq::new(
                moves.len(),
                |i: int| move_from_abbreviated(parsed[i]->Ok_0),
            );
            match first_error(converted) {
                Some(e) => Err(e),
                None => Ok(
                    Seq::new(moves.len(), |i: int| numpad::format_move(converted[i]->Ok_0)),
                ),
            }
        },
    }
}

/// The abbreviated texts of moves given in numpad notation, or the error of
/// the first that cannot be read.
pub open spec fn abbreviated_texts(moves: Seq<Seq<char>>) -> Result<
    Seq<Seq<char>>,
    CreationError,
> {
    let parsed = Seq::new(moves.len(), |i: int| numpad::parse_move(moves[i]));
    match first_error(parsed) {
        Some(e) => Err(e),
        None => Ok(
            Seq::new(
                moves.len(),
                |i: int| abbreviated::format_move(move_from_numpad(parsed[i]->Ok_0)),
            ),
        ),
    }
}

/// Where every result before the `i`th is `Ok` and the `i`th is an error,
/// that error is the first.
pub proof fn lemma_first_error_at<T>(results: Seq<Result<T, CreationError>>, i: int)
    requires
        0 <= i < results.len(),
        forall|j: int| 0 <= j < i ==> (#[trigger] results[j]) is Ok,
        results[i] is Err,
    ensures
        first_error(results) == Some(results[i]->Err_0),
    decreases i,
{
    if i > 0 {
        assert(results[0] is Ok);
        let rest = results.skip(1);
        assert forall|j: int| 0 <= j < i - 1 implies (#[trigger] rest[j]) is Ok by {
            assert(rest[j] == results[j + 1]);
        }
        lemma_first_error_at(rest, i - 1);
    }
}

/// Where every result is `Ok`, there is no first error.
pub proof fn lemma_no_error<T>(results: Seq<Result<T, CreationError>>)
    requires
        forall|j: int| 0 <= j < results.len() ==> (#[trigger] results[j]) is Ok,
    ensures
        first_error(results) is None,
    decreases results.len(),
{
    if results.len() > 0 {
        assert(results[0] is Ok);
        let rest = results.skip(1);
        assert forall|j: int| 0 <= j < rest.len() implies (#[trigger] rest[j]) is Ok by {
            assert(rest[j] == results[j + 1]);
        }
        lemma_no_error(rest);
    }
}

/// Joins `parts` with ` -> ` between each two.
pub fn join(parts: &Vec<String>) -> (line: String)
    ensures
        line@ == joined(texts_of(parts@)),
{
    let mut line = String::new();
    let mut i: usize = 0;
    while i < parts.len()
        invariant
            i <= parts.len(),
            line@ == joined(texts_of(parts@).take(i as int)),
        decreases parts.len() - i,
    {
        let ghost all = texts_of(parts@);
        proof {
            assert(all.take(i + 1).drop_last() =~= all.take(i as int));
            assert(all.take(i + 1).last() == parts@[i as int]@);
        }
        if i > 0 {
            line.append(" -> ");
        }
        line.append(parts[i].as_str());
        proof {
            if i == 0 {
                assert(line@ =~= parts@[0]@);
            }
        }
        i += 1;
    }
    proof {
        assert(texts_of(parts@).take(i as int) =~= texts_of(parts@));
    }
    line
}

impl Target {
    /// The moves to convert, as they were given.
    pub open spec fn moves(self) -> Seq<Seq<char>> {
        match self {
            Target::Numpad { abbr } => texts_of(abbr@),
            Target::Abbreviate { nump } => texts_of(nump@),
        }
    }

    /// The answer to the request: the texts of the converted moves, joined by
    /// ` -> `, or the error that makes it fail.
    pub open spec fn answer(self) -> Result<Seq<char>, CreationError> {
        let texts = match self {
            Target::Numpad { abbr } => numpad_texts(texts_of(abbr@)),
            Target::Abbreviate { nump } => abbreviated_texts(texts_of(nump@)),
        };
        match texts {
            Ok(texts) => Ok(joined(texts)),
            Err(e) => Err(e),
        }
    }

    /// Reads the moves, converts them to the notation asked for, and joins
    /// their texts. A request holds one move or more.
    pub fn convert(&self) -> (r: Result<String, CreationError>)
        requires
            self.moves().len() > 0,
        ensures
            viewed(r) == self.answer(),
    {
        let texts = match self {
            Target::Numpad { abbr } => to_numpad(abbr),
            Target::Abbreviate { nump } => to_abbreviated(nump),
        };
        match texts {
            Ok(texts) => Ok(join(&texts)),
            Err(e) => Err(e),
        }
    }
}

/// Converts moves of abbreviated notation to numpad notation, text to text.
pub fn to_numpad(moves: &Vec<String>) -> (r: Result<Vec<String>, CreationError>)
    ensures
        match r {
            Ok(texts) => numpad_texts(texts_of(moves@)) == Ok::<Seq<Seq<char>>, CreationError>(
                texts_of(texts@),
            ),
            Err(e) => numpad_texts(texts_of(moves@)) == Err::<Seq<Seq<char>>, CreationError>(e),
        },
{
    let ghost given = texts_of(moves@);
    let ghost results = Seq::new(given.len(), |i: int| abbreviated::parse_move(given[i]));
    let mut parsed: Vec<abbreviated::Move> = Vec::new();
    let mut i: usize = 0;
    while i < moves.len()
        invariant
            i <= moves.len(),
            parsed.len() == i,
            given == texts_of(moves@),
            results == Seq::new(given.len(), |i: int| abbreviated::parse_move(given[i])),
            forall|j: int|
                0 <= j < i ==> results[j] == Ok::<abbreviated::MoveView, CreationError>(
                    #[trigger] parsed[j]@,
                ),
        decreases moves.len() - i,
    {
        match abbreviated::Move::new(moves[i].as_str()) {
            Ok(m) => {
                parsed.push(m);
            },
            Err(e) => {
                proof {
                    assert forall|j: int| 0 <= j < i implies (#[trigger] results[j]) is Ok by {
                        assert(results[j] == Ok::<abbreviated::MoveView, CreationError>(
                            parsed[j]@,
                        ));
                    }
                    lemma_first_error_at(results, i as int);
                }
                return Err(e);
            },
        }
        i += 1;
    }
    let ghost converted = Seq::new(given.len(), |i: int| move_from_abbreviated(results[i]->Ok_0));
    proof {
        assert forall|j: int| 0 <= j < results.len() implies (#[trigger] results[j]) is Ok by {
            assert(results[j] == Ok::<abbreviated::MoveView, CreationError>(parsed[j]@));
        }
        lemma_no_error(results);
    }
    let mut texts: Vec<String> = Vec::new();
    let mut k: usize = 0;
    while k < parsed.len()
        invariant
            k <= parsed.len() == given.len(),
            texts.len() == k,
            given == texts_of(moves@),
            results == Seq::new(given.len(), |i: int| abbreviated::parse_move(given[i])),
            first_error(results) is None,
            converted == Seq::new(given.len(), |i: int| move_from_abbreviated(results[i]->Ok_0)),
            forall|j: int|
                0 <= j < parsed.len() ==> results[j] == Ok::<abbreviated::MoveView, CreationError>(
                    #[trigger] parsed[j]@,
                ),
            forall|j: int|
                0 <= j < k ==> (#[trigger] converted[j]) is Ok && texts[j]@ == numpad::format_move(
                    converted[j]->Ok_0,
                ),
        decreases parsed.len() - k,
    {
        assert(results[k as int] == Ok::<abbreviated::MoveView, CreationError>(parsed[k as int]@));
        match numpad::Move::from_abbreviated(parsed[k].clone()) {
            Ok(m) => {
                texts.push(m.to_string());
            },
            Err(e) => {
                proof {
                    assert(converted[k as int] == move_from_abbreviated(parsed[k as int]@));
                    lemma_first_error_at(converted, k as int);
                }
                return Err(e);
            },
        }
        k += 1;
    }
    proof {
        lemma_no_error(converted);
        assert(texts_of(texts@) =~= Seq::new(
            given.len(),
            |i: int| numpad::format_move(converted[i]->Ok_0),
        ));
    }
    Ok(texts)
}

/// Converts moves of numpad notation to abbreviated notation, text to text.
pub fn to_abbreviated(moves: &Vec<String>) -> (r: Result<Vec<String>, CreationError>)
    ensures
        match r {
            Ok(texts) => abbreviated_texts(texts_of(moves@)) == Ok::<
                Seq<Seq<char>>,
                CreationError,
            >(texts_of(texts@)),
            Err(e) => abbreviated_texts(texts_of(moves@)) == Err::<Seq<Seq<char>>, CreationError>(
                e,
            ),
        },
{
    let ghost given = texts_of(moves@);
    let ghost results = Seq::new(given.len(), |i: int| numpad::parse_move(given[i]));
    let mut texts: Vec<String> = Vec::new();
    let mut i: usize = 0;
    while i < moves.len()
        invariant
            i <= moves.len(),
            texts.len() == i,
            given == texts_of(moves@),
            results == Seq::new(given.len(), |i: int| numpad::parse_move(given[i])),
            forall|j: int|
                0 <= j < i ==> (#[trigger] results[j]) is Ok && texts[j]@
                    == abbreviated::format_move(move_from_numpad(results[j]->Ok_0)),
        decreases moves.len() - i,
    {
        match numpad::Move::new(moves[i].as_str()) {
            Ok(m) => {
                texts.push(abbreviated::Move::from(m).to_string());
            },
            Err(e) => {
                proof {
                    lemma_first_error_at(results, i as int);
                }
                return Err(e);
            },
        }
        i += 1;
    }
    proof {
        lemma_no_error(results);
        assert(texts_of(texts@) =~= Seq::new(
            given.len(),
            |i: int| abbreviated::format_move(move_from_numpad(results[i]->Ok_0)),
        ));
    }
    Ok(texts)
}

} // verus!
