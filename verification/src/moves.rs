//! Face turns: the six faces, the three turn amounts, and the eighteen moves
//! they form, together with their one- or two-character notation.

use vstd::prelude::*;

use crate::error::Error;

verus! {

/// A face of the cube, named by where it sits.
#[derive(Debug, Copy, Clone, Hash, PartialEq, Eq, Structural)]
pub enum Position {
    Up,
    Down,
    Left,
    Right,
    Front,
    Back,
}

/// How far a face is turned: a clockwise quarter turn, an anticlockwise
/// quarter turn, or a half turn.
#[derive(Debug, Copy, Clone, Hash, PartialEq, Eq, Structural)]
pub enum Direction {
    Normal,
    Prime,
    Half,
}

/// One face turn.
#[derive(Debug, Copy, Clone, Hash, PartialEq, Eq, Structural)]
pub struct Move(pub Position, pub Direction);

impl Position {
    /// The letter that stands for the face in move notation.
    pub open spec fn letter(self) -> char {
        match self {
            Position::Up => 'U',
            Position::Down => 'D',
            Position::Left => 'L',
            Position::Right => 'R',
            Position::Front => 'F',
            Position::Back => 'B',
        }
    }

    /// The face that a letter stands for, if any.
    pub open spec fn of_letter(c: char) -> Option<Position> {
        if c == 'U' {
            Some(Position::Up)
        } else if c == 'D' {
            Some(Position::Down)
        } else if c == 'L' {
            Some(Position::Left)
        } else if c == 'R' {
            Some(Position::Right)
        } else if c == 'F' {
            Some(Position::Front)
        } else if c == 'B' {
            Some(Position::Back)
        } else {
            None
        }
    }

    /// Reads a face letter.
    pub fn from_letter(c: char) -> (r: Option<Position>)
        ensures
            r == Position::of_letter(c),
    {
        if c == 'U' {
            Some(Position::Up)
        } else if c == 'D' {
            Some(Position::Down)
        } else if c == 'L' {
            Some(Position::Left)
        } else if c == 'R' {
            Some(Position::Right)
        } else if c == 'F' {
            Some(Position::Front)
        } else if c == 'B' {
            Some(Position::Back)
        } else {
            None
        }
    }
}

impl Direction {
    /// The number of clockwise quarter turns that the turn amounts to.
    pub open spec fn quarter_turns(self) -> int {
        match self {
            Direction::Normal => 1,
            Direction::Half => 2,
            Direction::Prime => 3,
        }
    }

    /// The turn that amounts to `n` clockwise quarter turns, where `n` is
    /// taken modulo four; a multiple of four is no turn at all.
    pub open spec fn of_quarter_turns(n: int) -> Option<Direction> {
        if n % 4 == 1 {
            Some(Direction::Normal)
        } else if n % 4 == 2 {
            Some(Direction::Half)
        } else if n % 4 == 3 {
            Some(Direction::Prime)
        } else {
            None
        }
    }

    /// The characters that follow the face letter in move notation.
    pub open spec fn suffix(self) -> Seq<char> {
        match self {
            Direction::Normal => seq![],
            Direction::Prime => seq!['\''],
            Direction::Half => seq!['2'],
        }
    }

    /// The turn that undoes this one.
    pub open spec fn spec_opposite(self) -> Direction {
        match self {
            Direction::Normal => Direction::Prime,
            Direction::Prime => Direction::Normal,
            Direction::Half => Direction::Half,
        }
    }

    /// The turn that undoes this one.
    #[verifier::when_used_as_spec(spec_opposite)]
    pub fn opposite(self) -> (other: Direction)
        ensures
            other == self.spec_opposite(),
    {
        match self {
            Direction::Normal => Direction::Prime,
            Direction::Prime => Direction::Normal,
            Direction::Half => Direction::Half,
        }
    }

    /// Counts the clockwise quarter turns.
    pub fn to_quarter_turns(self) -> (n: u8)
        ensures
            n == self.quarter_turns(),
    {
        match self {
            Direction::Normal => 1,
            Direction::Prime => 3,
            Direction::Half => 2,
        }
    }

    /// Names the turn that `quarter_turns` clockwise quarter turns amount to.
    pub fn from_quarter_turns(quarter_turns: u8) -> (r: Option<Direction>)
        ensures
            r == Direction::of_quarter_turns(quarter_turns as int),
    {
        let rest: u8 = quarter_turns % 4;
        if rest == 1 {
            Some(Direction::Normal)
        } else if rest == 2 {
            Some(Direction::Half)
        } else if rest == 3 {
            Some(Direction::Prime)
        } else {
            None
        }
    }
}

impl Move {
    /// The eighteen moves in their fixed enumeration order: faces in the
    /// order Up, Down, Left, Right, Front, Back, and for each face the turns
    /// Normal, Prime, Half.
    pub open spec fn all() -> Seq<Move> {
        seq![
            Move(Position::Up, Direction::Normal),
            Move(Position::Up, Direction::Prime),
            Move(Position::Up, Direction::Half),
            Move(Position::Down, Direction::Normal),
            Move(Position::Down, Direction::Prime),
            Move(Position::Down, Direction::Half),
            Move(Position::Left, Direction::Normal),
            Move(Position::Left, Direction::Prime),
            Move(Position::Left, Direction::Half),
            Move(Position::Right, Direction::Normal),
            Move(Position::Right, Direction::Prime),
            Move(Position::Right, Direction::Half),
            Move(Position::Front, Direction::Normal),
            Move(Position::Front, Direction::Prime),
            Move(Position::Front, Direction::Half),
            Move(Position::Back, Direction::Normal),
            Move(Position::Back, Direction::Prime),
            Move(Position::Back, Direction::Half),
        ]
    }

    /// The place of a move in the enumeration `all()`.
    pub open spec fn ordinal(self) -> int {
        3 * match self.0 {
            Position::Up => 0int,
            Position::Down => 1,
            Position::Left => 2,
            Position::Right => 3,
            Position::Front => 4,
            Position::Back => 5,
        } + match self.1 {
            Direction::Normal => 0int,
            Direction::Prime => 1,
            Direction::Half => 2,
        }
    }

    /// The move that undoes this one: the same face, turned back.
    pub open spec fn spec_inverse(self) -> Move {
        Move(self.0, self.1.spec_opposite())
    }

    /// The notation of a move: its face letter, followed by `'` for a Prime
    /// turn or `2` for a Half turn.
    pub open spec fn token(self) -> Seq<char> {
        seq![self.0.letter()] + self.1.suffix()
    }

    /// The move that a text denotes, if it denotes one.
    pub open spec fn parse(text: Seq<char>) -> Option<Move> {
        if text.len() == 1 {
            match Position::of_letter(text[0]) {
                Some(face) => Some(Move(face, Direction::Normal)),
                None => None,
            }
        } else if text.len() == 2 {
            match Position::of_letter(text[0]) {
                Some(face) => if text[1] == '\'' {
                    Some(Move(face, Direction::Prime))
                } else if text[1] == '2' {
                    Some(Move(face, Direction::Half))
                } else {
                    None
                },
                None => None,
            }
        } else {
            None
        }
    }

    /// All eighteen moves, in enumeration order.
    pub fn available() -> (moves: [Move; 18])
        ensures
            moves@ == Move::all(),
    {
        let moves = [
            Move(Position::Up, Direction::Normal),
            Move(Position::Up, Direction::Prime),
            Move(Position::Up, Direction::Half),
            Move(Position::Down, Direction::Normal),
            Move(Position::Down, Direction::Prime),
            Move(Position::Down, Direction::Half),
            Move(Position::Left, Direction::Normal),
            Move(Position::Left, Direction::Prime),
            Move(Position::Left, Direction::Half),
            Move(Position::Right, Direction::Normal),
            Move(Position::Right, Direction::Prime),
            Move(Position::Right, Direction::Half),
            Move(Position::Front, Direction::Normal),
            Move(Position::Front, Direction::Prime),
            Move(Position::Front, Direction::Half),
            Move(Position::Back, Direction::Normal),
            Move(Position::Back, Direction::Prime),
            Move(Position::Back, Direction::Half),
        ];
        assert(moves@ =~= Move::all());
        moves
    }

    /// The move that undoes this one.
    #[verifier::when_used_as_spec(spec_inverse)]
    pub fn inverse(self) -> (r: Move)
        ensures
            r == self.spec_inverse(),
    {
        Move(self.0, self.1.opposite())
    }

    /// Writes the move in notation.
    pub fn to_string(&self) -> (text: String)
        ensures
            text@ == self.token(),
    {
        proof {
            reveal_strlit("U");
            reveal_strlit("D");
            reveal_strlit("L");
            reveal_strlit("R");
            reveal_strlit("F");
            reveal_strlit("B");
            reveal_strlit("'");
            reveal_strlit("2");
        }
        let mut text = String::from_str(
            match self.0 {
                Position::Up => "U",
                Position::Down => "D",
                Position::Left => "L",
                Position::Right => "R",
                Position::Front => "F",
                Position::Back => "B",
            },
        );
        match self.1 {
            Direction::Normal => {},
            Direction::Prime => text.append("'"),
            Direction::Half => text.append("2"),
        }
        assert(text@ =~= self.token());
        text
    }

    /// Reads a move from its notation. Any text that is not the notation of
    /// one of the eighteen moves is refused.
    pub fn from_str(s: &str) -> (r: Result<Move, Error>)
        ensures
            r == match Move::parse(s@) {
                Some(m) => Ok::<Move, Error>(m),
                None => Err(Error::UnknownMove),
            },
    {
        let len = s.unicode_len();
        if len == 0 || len > 2 {
            return Err(Error::UnknownMove);
        }
        let face = match Position::from_letter(s.get_char(0)) {
            Some(face) => face,
            None => {
                return Err(Error::UnknownMove);
            },
        };
        if len == 1 {
            return Ok(Move(face, Direction::Normal));
        }
        let mark = s.get_char(1);
        if mark == '\'' {
            Ok(Move(face, Direction::Prime))
        } else if mark == '2' {
            Ok(Move(face, Direction::Half))
        } else {
            Err(Error::UnknownMove)
        }
    }
}

impl std::str::FromStr for Move {
    type Err = Error;

    fn from_str(s: &str) -> (r: Result<Move, Error>)
        ensures
            r == match Move::parse(s@) {
                Some(m) => Ok::<Move, Error>(m),
                None => Err(Error::UnknownMove),
            },
    {
        Move::from_str(s)
    }
}

/// The sequence that undoes a sequence of moves: the inverses of its moves,
/// last move first.
pub open spec fn inverse_path(actions: Seq<Move>) -> Seq<Move> {
    Seq::new(actions.len(), |i: int| actions[actions.len() - 1 - i].spec_inverse())
}

/// Every move occurs in the enumeration, at the place `ordinal` gives, and
/// nowhere else.
pub proof fn lemma_all_moves_enumerated(m: Move)
    ensures
        0 <= m.ordinal() < 18,
        Move::all().len() == 18,
        Move::all()[m.ordinal()] == m,
        forall|i: int| 0 <= i < 18 && Move::all()[i] == m ==> i == m.ordinal(),
{
}

/// Inverting a move twice gives the move back, and a move and its inverse
/// turn the same face by amounts that add up to a full turn.
pub proof fn lemma_inverse_involution(m: Move)
    ensures
        m.spec_inverse().spec_inverse() == m,
        m.spec_inverse().0 == m.0,
        (m.1.quarter_turns() + m.spec_inverse().1.quarter_turns()) % 4 == 0,
{
}

/// Notation round-trips: reading what was written gives the same move, and
/// a text is read as a move only if it is that move's notation.
pub proof fn lemma_notation_round_trip(m: Move, text: Seq<char>)
    ensures
        Move::parse(m.token()) == Some(m),
        Move::parse(text) == Some(m) ==> text == m.token(),
{
    assert(m.token().len() == 1 || m.token().len() == 2);
    assert(m.token()[0] == m.0.letter());
    if Move::parse(text) == Some(m) {
        assert(text =~= m.token());
    }
}

} // verus!
