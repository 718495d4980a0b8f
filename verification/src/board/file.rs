//! The eight files of the board, `a` to `h`.

use vstd::prelude::*;

verus! {

/// A file of the board. `A` is the queenside edge and has index 0.
#[derive(Clone, Copy, Debug, PartialEq, Eq, Structural, PartialOrd, Ord)]
pub enum File {
    A,
    B,
    C,
    D,
    E,
    F,
    G,
    H,
}

impl File {
    /// The file that a lower-case letter names, if it names one.
    pub open spec fn of_letter(c: char) -> Option<File> {
        if c == 'a' {
            Some(File::A)
        } else if c == 'b' {
            Some(File::B)
        } else if c == 'c' {
            Some(File::C)
        } else if c == 'd' {
            Some(File::D)
        } else if c == 'e' {
            Some(File::E)
        } else if c == 'f' {
            Some(File::F)
        } else if c == 'g' {
            Some(File::G)
        } else if c == 'h' {
            Some(File::H)
        } else {
            None
        }
    }

    /// The position of the file counted from the `a` file, which is 0.
    pub open spec fn ordinal(self) -> int {
        match self {
            File::A => 0,
            File::B => 1,
            File::C => 2,
            File::D => 3,
            File::E => 4,
            File::F => 5,
            File::G => 6,
            File::H => 7,
        }
    }

    /// The lower-case letter that names the file.
    pub open spec fn spec_letter(self) -> char {
        match self {
            File::A => 'a',
            File::B => 'b',
            File::C => 'c',
            File::D => 'd',
            File::E => 'e',
            File::F => 'f',
            File::G => 'g',
            File::H => 'h',
        }
    }

    /// The file with the given ordinal, if the ordinal is below eight.
    pub open spec fn of_ordinal(i: int) -> Option<File> {
        if i == 0 {
            Some(File::A)
        } else if i == 1 {
            Some(File::B)
        } else if i == 2 {
            Some(File::C)
        } else if i == 3 {
            Some(File::D)
        } else if i == 4 {
            Some(File::E)
        } else if i == 5 {
            Some(File::F)
        } else if i == 6 {
            Some(File::G)
        } else if i == 7 {
            Some(File::H)
        } else {
            None
        }
    }

    /// The letter of the file with the given ordinal.
    pub open spec fn ordinal_letter(i: int) -> char {
        match File::of_ordinal(i) {
            Some(f) => f.spec_letter(),
            None => '-',
        }
    }

    /// Reads a file letter, `'a'` to `'h'`. Any other character is refused.
    pub fn from_letter(c: char) -> (r: Option<File>)
        ensures
            r == File::of_letter(c),
    {
        match c {
            'a' => Some(File::A),
            'b' => Some(File::B),
            'c' => Some(File::C),
            'd' => Some(File::D),
            'e' => Some(File::E),
            'f' => Some(File::F),
            'g' => Some(File::G),
            'h' => Some(File::H),
            _ => None,
        }
    }

    /// Reads a file letter that the caller knows to be one.
    pub fn from_unchecked(value: char) -> (f: File)
        requires
            File::of_letter(value) is Some,
        ensures
            Some(f) == File::of_letter(value),
    {
        match File::from_letter(value) {
            Some(f) => f,
            None => File::A,
        }
    }

    /// The file with the given index, counted from the `a` file.
    pub fn from_index(i: usize) -> (r: Option<File>)
        ensures
            r == File::of_ordinal(i as int),
    {
        match i {
            0 => Some(File::A),
            1 => Some(File::B),
            2 => Some(File::C),
            3 => Some(File::D),
            4 => Some(File::E),
            5 => Some(File::F),
            6 => Some(File::G),
            7 => Some(File::H),
            _ => None,
        }
    }

    /// The letter of the file with the given index.
    pub fn index_letter(i: usize) -> (c: char)
        requires
            i < 8,
        ensures
            c == File::ordinal_letter(i as int),
    {
        match File::from_index(i) {
            Some(f) => f.letter(),
            None => '-',
        }
    }

    /// The index of the file, counted from the `a` file.
    pub fn index(self) -> (i: usize)
        ensures
            i == self.ordinal(),
            i < 8,
    {
        match self {
            File::A => 0,
            File::B => 1,
            File::C => 2,
            File::D => 3,
            File::E => 4,
            File::F => 5,
            File::G => 6,
            File::H => 7,
        }
    }

    /// The lower-case letter that names the file.
    pub fn letter(self) -> (c: char)
        ensures
            c == self.spec_letter(),
    {
        match self {
            File::A => 'a',
            File::B => 'b',
            File::C => 'c',
            File::D => 'd',
            File::E => 'e',
            File::F => 'f',
            File::G => 'g',
            File::H => 'h',
        }
    }

    /// Letters and files correspond one to one, and so do ordinals and files.
    pub proof fn lemma_letter_roundtrip(self)
        ensures
            File::of_letter(self.spec_letter()) == Some(self),
            File::of_ordinal(self.ordinal()) == Some(self),
            0 <= self.ordinal() < 8,
    {
    }
}

impl TryFrom<char> for File {
    type Error = ();

    fn try_from(c: char) -> (r: Result<Self, Self::Error>) {
        match File::from_letter(c) {
            Some(f) => Ok(f),
            None => Err(()),
        }
    }
}

impl vstd::std_specs::convert::TryFromSpecImpl<char> for File {
    open spec fn obeys_try_from_spec() -> bool {
        true
    }

    open spec fn try_from_spec(c: char) -> Result<Self, ()> {
        match File::of_letter(c) {
            Some(f) => Ok(f),
            None => Err(()),
        }
    }
}

} // verus!
