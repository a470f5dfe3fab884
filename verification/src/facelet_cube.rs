//! The cube on the facelet level: the colour of each of the fifty-four
//! stickers, face by face in the order Up, Right, Front, Down, Left, Back,
//! and each face row by row. This is the form in which cubes are written
//! down and read.

use vstd::prelude::*;

use crate::error::Error;

verus! {

/// A sticker colour, named by the face that has it on the solved cube.
#[derive(Debug, Copy, Clone, Hash, PartialEq, Eq, Structural)]
pub enum Colour {
    U,
    R,
    F,
    D,
    L,
    B,
}

/// The cube as fifty-four sticker colours.
#[derive(Debug, Copy, Clone, Hash, PartialEq, Eq)]
pub struct FaceletCube {
    pub state: [Colour; 54],
}

impl View for FaceletCube {
    type V = Seq<Colour>;

    open spec fn view(&self) -> Seq<Colour> {
        self.state@
    }
}

/// For each corner slot, the positions of its three stickers, clockwise
/// from the one that faces up or down.
pub const CORNER_FACELETS: [[usize; 3]; 8] = [
    [8, 9, 20],  // U9 R1 F3
    [6, 18, 38],  // U7 F1 L3
    [0, 36, 47],  // U1 L1 B3
    [2, 45, 11],  // U3 B1 R3
    [29, 26, 15],  // D3 F9 R7
    [27, 44, 24],  // D1 L9 F7
    [33, 53, 42],  // D7 B9 L7
    [35, 17, 51],  // D9 R9 B7
];

/// For each edge slot, the positions of its two stickers.
pub const EDGE_FACELETS: [[usize; 2]; 12] = [
    [5, 10],  // U6 R2
    [7, 19],  // U8 F2
    [3, 37],  // U4 L2
    [1, 46],  // U2 B2
    [32, 16],  // D6 R8
    [28, 25],  // D2 F8
    [30, 43],  // D4 L8
    [34, 52],  // D8 B8
    [23, 12],  // F6 R4
    [21, 41],  // F4 L6
    [50, 39],  // B6 L4
    [48, 14],  // B4 R6
];

/// For each corner cubie, the colours of its three stickers, in the order
/// of the sticker positions of its home slot.
pub const CORNER_COLOURS: [[Colour; 3]; 8] = [
    [Colour::U, Colour::R, Colour::F],
    [Colour::U, Colour::F, Colour::L],
    [Colour::U, Colour::L, Colour::B],
    [Colour::U, Colour::B, Colour::R],
    [Colour::D, Colour::F, Colour::R],
    [Colour::D, Colour::L, Colour::F],
    [Colour::D, Colour::B, Colour::L],
    [Colour::D, Colour::R, Colour::B],
];

/// For each edge cubie, the colours of its two stickers, in the order of
/// the sticker positions of its home slot.
pub const EDGE_COLOURS: [[Colour; 2]; 12] = [
    [Colour::U, Colour::R],
    [Colour::U, Colour::F],
    [Colour::U, Colour::L],
    [Colour::U, Colour::B],
    [Colour::D, Colour::R],
    [Colour::D, Colour::F],
    [Colour::D, Colour::L],
    [Colour::D, Colour::B],
    [Colour::F, Colour::R],
    [Colour::F, Colour::L],
    [Colour::B, Colour::L],
    [Colour::B, Colour::R],
];

impl Colour {
    /// The letter by which the colour is written: white, red, green,
    /// yellow, orange, blue.
    pub open spec fn letter(self) -> char {
        match self {
            Colour::U => 'W',
            Colour::R => 'R',
            Colour::F => 'G',
            Colour::D => 'Y',
            Colour::L => 'O',
            Colour::B => 'B',
        }
    }

    /// The colour that a letter stands for, if any.
    pub open spec fn of_letter(c: char) -> Option<Colour> {
        if c == 'W' {
            Some(Colour::U)
        } else if c == 'R' {
            Some(Colour::R)
        } else if c == 'G' {
            Some(Colour::F)
        } else if c == 'Y' {
            Some(Colour::D)
        } else if c == 'O' {
            Some(Colour::L)
        } else if c == 'B' {
            Some(Colour::B)
        } else {
            None
        }
    }

    /// The colour of the face with a given number, faces counted in the
    /// order Up, Right, Front, Down, Left, Back.
    pub open spec fn of_face(face: int) -> Colour {
        if face == 0 {
            Colour::U
        } else if face == 1 {
            Colour::R
        } else if face == 2 {
            Colour::F
        } else if face == 3 {
            Colour::D
        } else if face == 4 {
            Colour::L
        } else {
            Colour::B
        }
    }

    /// Reads a colour letter.
    pub fn from_char(c: char) -> (r: Option<Colour>)
        ensures
            r == Colour::of_letter(c),
    {
        if c == 'W' {
            Some(Colour::U)
        } else if c == 'R' {
            Some(Colour::R)
        } else if c == 'G' {
            Some(Colour::F)
        } else if c == 'Y' {
            Some(Colour::D)
        } else if c == 'O' {
            Some(Colour::L)
        } else if c == 'B' {
            Some(Colour::B)
        } else {
            None
        }
    }

    /// Reads a colour from a text, which must be the colour's letter and
    /// nothing else.
    pub fn from_str(s: &str) -> (r: Result<Colour, Error>)
        ensures
            r == if s@.len() == 1 && Colour::of_letter(s@[0]) is Some {
                Ok::<Colour, Error>(Colour::of_letter(s@[0])->Some_0)
            } else {
                Err(Error::UnknownColour)
            },
    {
        if s.unicode_len() != 1 {
            return Err(Error::UnknownColour);
        }
        match Colour::from_char(s.get_char(0)) {
            Some(colour) => Ok(colour),
            None => Err(Error::UnknownColour),
        }
    }

    /// The colour's letter, as a text.
    pub fn to_str(&self) -> (text: &'static str)
        ensures
            text@ == seq![self.letter()],
    {
        proof {
            reveal_strlit("W");
            reveal_strlit("R");
            reveal_strlit("G");
            reveal_strlit("Y");
            reveal_strlit("O");
            reveal_strlit("B");
        }
        let text = match self {
            Colour::U => "W",
            Colour::R => "R",
            Colour::F => "G",
            Colour::D => "Y",
            Colour::L => "O",
            Colour::B => "B",
        };
        assert(text@ =~= seq![self.letter()]);
        text
    }
}

/// The stickers of the solved cube: every face in its own colour.
pub open spec fn solved_facelets() -> Seq<Colour> {
    Seq::new(54, |p: int| Colour::of_face(p / 9))
}

/// The letters of a sequence of colours.
pub open spec fn facelet_text(faces: Seq<Colour>) -> Seq<char> {
    Seq::new(faces.len(), |i: int| faces[i].letter())
}

/// Whether every character of a text is a colour letter.
pub open spec fn all_colour_letters(text: Seq<char>) -> bool {
    forall|i: int| 0 <= i < text.len() ==> Colour::of_letter(#[trigger] text[i]) is Some
}

/// The colours that a text of colour letters spells.
pub open spec fn colours_of(text: Seq<char>) -> Seq<Colour> {
    Seq::new(text.len(), |i: int| Colour::of_letter(text[i])->Some_0)
}

/// What reading a text as a facelet cube gives: a character that is no
/// colour letter is an unknown colour, wherever it stands; a text of colour
/// letters is a cube if there are fifty-four of them.
pub open spec fn parse_facelets(text: Seq<char>) -> Result<Seq<Colour>, Error> {
    if !all_colour_letters(text) {
        Err(Error::UnknownColour)
    } else if text.len() != 54 {
        Err(Error::InvalidFaceletCube)
    } else {
        Ok(colours_of(text))
    }
}

impl FaceletCube {
    /// The solved cube.
    pub fn solved() -> (faces: FaceletCube)
        ensures
            faces@ == solved_facelets(),
    {
        let faces = FaceletCube {
            state: [
                Colour::U,
                Colour::U,
                Colour::U,
                Colour::U,
                Colour::U,
                Colour::U,
                Colour::U,
                Colour::U,
                Colour::U,
                Colour::R,
                Colour::R,
                Colour::R,
                Colour::R,
                Colour::R,
                Colour::R,
                Colour::R,
                Colour::R,
                Colour::R,
                Colour::F,
                Colour::F,
                Colour::F,
                Colour::F,
                Colour::F,
                Colour::F,
                Colour::F,
                Colour::F,
                Colour::F,
                Colour::D,
                Colour::D,
                Colour::D,
                Colour::D,
                Colour::D,
                Colour::D,
                Colour::D,
                Colour::D,
                Colour::D,
                Colour::L,
                Colour::L,
                Colour::L,
                Colour::L,
                Colour::L,
                Colour::L,
                Colour::L,
                Colour::L,
                Colour::L,
                Colour::B,
                Colour::B,
                Colour::B,
                Colour::B,
                Colour::B,
                Colour::B,
                Colour::B,
                Colour::B,
                Colour::B,
            ],
        };
        assert(faces@ =~= solved_facelets());
        faces
    }

    /// Writes the cube as fifty-four colour letters.
    pub fn to_string(&self) -> (text: String)
        ensures
            text@ == facelet_text(self@),
    {
        let mut text = String::new();
        let mut i: usize = 0;
        while i < 54
            invariant
                i <= 54,
                text@ == facelet_text(self@.take(i as int)),
            decreases 54 - i,
        {
            text.append(self.state[i].to_str());
            assert(text@ =~= facelet_text(self@.take(i as int + 1)));
            i += 1;
        }
        assert(self@.take(54) =~= self@);
        text
    }

    /// Reads a cube from fifty-four colour letters.
    pub fn from_str(s: &str) -> (r: Result<FaceletCube, Error>)
        ensures
            match r {
                Ok(faces) => parse_facelets(s@) == Ok::<Seq<Colour>, Error>(faces@),
                Err(e) => parse_facelets(s@) == Err::<Seq<Colour>, Error>(e),
            },
    {
        let mut facelets: Vec<Colour> = Vec::new();
        for c in it: s.chars()
            invariant
                facelets@.len() == it.index(),
                it.seq() == s@,
                forall|j: int|
                    0 <= j < facelets@.len() ==> Colour::of_letter(#[trigger] s@[j]) == Some(
                        facelets@[j],
                    ),
        {
            match Colour::from_char(c) {
                Some(colour) => facelets.push(colour),
                None => {
                    assert(Colour::of_letter(s@[facelets@.len() as int]) is None);
                    return Err(Error::UnknownColour);
                },
            }
        }
        assert(all_colour_letters(s@));
        if facelets.len() != 54 {
            return Err(Error::InvalidFaceletCube);
        }
        let mut faces = FaceletCube::solved();
        let mut state = faces.state;
        let mut i: usize = 0;
        while i < 54
            invariant
                i <= 54,
                facelets@.len() == 54,
                forall|j: int| 0 <= j < i ==> state[j] == facelets@[j],
            decreases 54 - i,
        {
            state[i] = facelets[i];
            i += 1;
        }
        let faces = FaceletCube { state };
        assert(faces@ =~= colours_of(s@));
        Ok(faces)
    }
}

impl Default for FaceletCube {
    fn default() -> (faces: FaceletCube)
        ensures
            faces@ == solved_facelets(),
    {
        FaceletCube::solved()
    }
}

impl std::str::FromStr for FaceletCube {
    type Err = Error;

    fn from_str(s: &str) -> (r: Result<FaceletCube, Error>)
        ensures
            match r {
                Ok(faces) => parse_facelets(s@) == Ok::<Seq<Colour>, Error>(faces@),
                Err(e) => parse_facelets(s@) == Err::<Seq<Colour>, Error>(e),
            },
    {
        FaceletCube::from_str(s)
    }
}

} // verus!
