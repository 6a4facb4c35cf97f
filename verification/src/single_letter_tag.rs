//! Single-letter tag kinds: one Latin letter, lowercase or uppercase.
use vstd::prelude::*;
use vstd::string::StrSliceExecFns;

verus! {

/// A single-letter tag built from unusable text.
#[derive(Debug, Clone, Copy, PartialEq, Eq, Structural)]
pub enum SingleLetterTagError {
    /// A character outside the Latin alphabet.
    InvalidChar,
    /// Text that is not exactly one character.
    ExpectedChar,
}

/// The Latin alphabet, caseless.
#[derive(Debug, Clone, Copy, PartialEq, Eq, Structural, Hash)]
#[allow(missing_docs)]
pub enum Alphabet {
    A,
    B,
    C,
    D,
    E,
    F,
    G,
    H,
    I,
    J,
    K,
    L,
    M,
    N,
    O,
    P,
    Q,
    R,
    S,
    T,
    U,
    V,
    W,
    X,
    Y,
    Z,
}

/// A single-letter tag kind: a letter and its case.
#[derive(Debug, Clone, Copy, PartialEq, Eq, Structural, Hash)]
pub struct SingleLetterTag {
    /// The letter.
    pub character: Alphabet,
    /// Whether the letter is uppercase.
    pub uppercase: bool,
}

/// The position of a letter in the alphabet.
pub open spec fn alphabet_index(a: Alphabet) -> int {
    match a {
        Alphabet::A => 0,
        Alphabet::B => 1,
        Alphabet::C => 2,
        Alphabet::D => 3,
        Alphabet::E => 4,
        Alphabet::F => 5,
        Alphabet::G => 6,
        Alphabet::H => 7,
        Alphabet::I => 8,
        Alphabet::J => 9,
        Alphabet::K => 10,
        Alphabet::L => 11,
        Alphabet::M => 12,
        Alphabet::N => 13,
        Alphabet::O => 14,
        Alphabet::P => 15,
        Alphabet::Q => 16,
        Alphabet::R => 17,
        Alphabet::S => 18,
        Alphabet::T => 19,
        Alphabet::U => 20,
        Alphabet::V => 21,
        Alphabet::W => 22,
        Alphabet::X => 23,
        Alphabet::Y => 24,
        Alphabet::Z => 25,
    }
}

/// The character a tag kind shows: the letter in its case.
pub open spec fn single_letter_char(t: SingleLetterTag) -> char {
    if t.uppercase {
        ((65 + alphabet_index(t.character)) as u8) as char
    } else {
        ((97 + alphabet_index(t.character)) as u8) as char
    }
}

/// The tag kind a character names: a Latin letter with its case, nothing
/// else.
pub open spec fn single_letter_of_char(c: char) -> Option<SingleLetterTag> {
    if 'a' <= c <= 'z' {
        Some(
            SingleLetterTag {
                character: alphabet_of_index(c as u32 - 97),
                uppercase: false,
            },
        )
    } else if 'A' <= c <= 'Z' {
        Some(
            SingleLetterTag {
                character: alphabet_of_index(c as u32 - 65),
                uppercase: true,
            },
        )
    } else {
        None
    }
}

/// The letter at a position in the alphabet.
pub open spec fn alphabet_of_index(i: int) -> Alphabet {
    if i == 0 {
        Alphabet::A
    } else if i == 1 {
        Alphabet::B
    } else if i == 2 {
        Alphabet::C
    } else if i == 3 {
        Alphabet::D
    } else if i == 4 {
        Alphabet::E
    } else if i == 5 {
        Alphabet::F
    } else if i == 6 {
        Alphabet::G
    } else if i == 7 {
        Alphabet::H
    } else if i == 8 {
        Alphabet::I
    } else if i == 9 {
        Alphabet::J
    } else if i == 10 {
        Alphabet::K
    } else if i == 11 {
        Alphabet::L
    } else if i == 12 {
        Alphabet::M
    } else if i == 13 {
        Alphabet::N
    } else if i == 14 {
        Alphabet::O
    } else if i == 15 {
        Alphabet::P
    } else if i == 16 {
        Alphabet::Q
    } else if i == 17 {
        Alphabet::R
    } else if i == 18 {
        Alphabet::S
    } else if i == 19 {
        Alphabet::T
    } else if i == 20 {
        Alphabet::U
    } else if i == 21 {
        Alphabet::V
    } else if i == 22 {
        Alphabet::W
    } else if i == 23 {
        Alphabet::X
    } else if i == 24 {
        Alphabet::Y
    } else {
        Alphabet::Z
    }
}

impl SingleLetterTag {
    /// The lowercase tag kind of a letter.
    pub fn lowercase(character: Alphabet) -> (r: SingleLetterTag)
        ensures
            r.character == character,
            !r.uppercase,
    {
        SingleLetterTag { character, uppercase: false }
    }

    /// The uppercase tag kind of a letter.
    pub fn uppercase(character: Alphabet) -> (r: SingleLetterTag)
        ensures
            r.character == character,
            r.uppercase,
    {
        SingleLetterTag { character, uppercase: true }
    }

    /// Read a tag kind from one character; reject anything but a Latin
    /// letter.
    pub fn from_char(c: char) -> (r: Result<SingleLetterTag, SingleLetterTagError>)
        ensures
            match r {
                Ok(t) => single_letter_of_char(c) == Some(t),
                Err(e) => single_letter_of_char(c) is None && e
                    == SingleLetterTagError::InvalidChar,
            },
    {
        let lower = 'a' <= c && c <= 'z';
        let upper = 'A' <= c && c <= 'Z';
        if !lower && !upper {
            return Err(SingleLetterTagError::InvalidChar);
        }
        let idx: u32 = if lower {
            c as u32 - 97
        } else {
            c as u32 - 65
        };
        let character = if idx == 0 {
            Alphabet::A
        } else if idx == 1 {
            Alphabet::B
        } else if idx == 2 {
            Alphabet::C
        } else if idx == 3 {
            Alphabet::D
        } else if idx == 4 {
            Alphabet::E
        } else if idx == 5 {
            Alphabet::F
        } else if idx == 6 {
            Alphabet::G
        } else if idx == 7 {
            Alphabet::H
        } else if idx == 8 {
            Alphabet::I
        } else if idx == 9 {
            Alphabet::J
        } else if idx == 10 {
            Alphabet::K
        } else if idx == 11 {
            Alphabet::L
        } else if idx == 12 {
            Alphabet::M
        } else if idx == 13 {
            Alphabet::N
        } else if idx == 14 {
            Alphabet::O
        } else if idx == 15 {
            Alphabet::P
        } else if idx == 16 {
            Alphabet::Q
        } else if idx == 17 {
            Alphabet::R
        } else if idx == 18 {
            Alphabet::S
        } else if idx == 19 {
            Alphabet::T
        } else if idx == 20 {
            Alphabet::U
        } else if idx == 21 {
            Alphabet::V
        } else if idx == 22 {
            Alphabet::W
        } else if idx == 23 {
            Alphabet::X
        } else if idx == 24 {
            Alphabet::Y
        } else {
            Alphabet::Z
        };
        Ok(SingleLetterTag { character, uppercase: upper })
    }

    /// The tag kind's character.
    pub fn as_char(&self) -> (r: char)
        ensures
            r == single_letter_char(*self),
    {
        let idx: u32 = match self.character {
            Alphabet::A => 0,
            Alphabet::B => 1,
            Alphabet::C => 2,
            Alphabet::D => 3,
            Alphabet::E => 4,
            Alphabet::F => 5,
            Alphabet::G => 6,
            Alphabet::H => 7,
            Alphabet::I => 8,
            Alphabet::J => 9,
            Alphabet::K => 10,
            Alphabet::L => 11,
            Alphabet::M => 12,
            Alphabet::N => 13,
            Alphabet::O => 14,
            Alphabet::P => 15,
            Alphabet::Q => 16,
            Alphabet::R => 17,
            Alphabet::S => 18,
            Alphabet::T => 19,
            Alphabet::U => 20,
            Alphabet::V => 21,
            Alphabet::W => 22,
            Alphabet::X => 23,
            Alphabet::Y => 24,
            Alphabet::Z => 25,
        };
        let b: u8 = if self.uppercase {
            65 + idx as u8
        } else {
            97 + idx as u8
        };
        b as char
    }

    /// Whether the tag kind is lowercase.
    pub fn is_lowercase(&self) -> (r: bool)
        ensures
            r == !self.uppercase,
    {
        !self.uppercase
    }

    /// Whether the tag kind is uppercase.
    pub fn is_uppercase(&self) -> (r: bool)
        ensures
            r == self.uppercase,
    {
        self.uppercase
    }

    /// Read a tag kind from a one-character text; reject any other length.
    pub fn parse_str(s: &str) -> (r: Result<SingleLetterTag, SingleLetterTagError>)
        ensures
            match r {
                Ok(t) => s@.len() == 1 && single_letter_of_char(s@[0]) == Some(t),
                Err(e) => if s@.len() == 1 {
                    single_letter_of_char(s@[0]) is None && e == SingleLetterTagError::InvalidChar
                } else {
                    e == SingleLetterTagError::ExpectedChar
                },
            },
    {
        if s.unicode_len() == 1 {
            let c = s.get_char(0);
            Self::from_char(c)
        } else {
            Err(SingleLetterTagError::ExpectedChar)
        }
    }
}

} // verus!
