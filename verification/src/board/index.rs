//! Named squares, `A1` to `H8`, and the rank and file pair that each stands for.

use vstd::prelude::*;

use super::Square;

verus! {

/// A square of the board by its usual name. The letter is the file and the
/// digit is the rank counted from White's side, starting at one.
#[derive(Clone, Copy, Debug, PartialEq, Eq, Structural, Hash)]
pub enum Coord {
    A1,
    A2,
    A3,
    A4,
    A5,
    A6,
    A7,
    A8,
    B1,
    B2,
    B3,
    B4,
    B5,
    B6,
    B7,
    B8,
    C1,
    C2,
    C3,
    C4,
    C5,
    C6,
    C7,
    C8,
    D1,
    D2,
    D3,
    D4,
    D5,
    D6,
    D7,
    D8,
    E1,
    E2,
    E3,
    E4,
    E5,
    E6,
    E7,
    E8,
    F1,
    F2,
    F3,
    F4,
    F5,
    F6,
    F7,
    F8,
    G1,
    G2,
    G3,
    G4,
    G5,
    G6,
    G7,
    G8,
    H1,
    H2,
    H3,
    H4,
    H5,
    H6,
    H7,
    H8,
}

impl Coord {
    /// The rank and file of the square, each counted from zero: `A1` is
    /// `(0, 0)` and `H1` is `(0, 7)`.
    pub open spec fn spec_square(self) -> Square {
        match self {
            Coord::A1 => (0, 0),
            Coord::A2 => (1, 0),
            Coord::A3 => (2, 0),
            Coord::A4 => (3, 0),
            Coord::A5 => (4, 0),
            Coord::A6 => (5, 0),
            Coord::A7 => (6, 0),
            Coord::A8 => (7, 0),
            Coord::B1 => (0, 1),
            Coord::B2 => (1, 1),
            Coord::B3 => (2, 1),
            Coord::B4 => (3, 1),
            Coord::B5 => (4, 1),
            Coord::B6 => (5, 1),
            Coord::B7 => (6, 1),
            Coord::B8 => (7, 1),
            Coord::C1 => (0, 2),
            Coord::C2 => (1, 2),
            Coord::C3 => (2, 2),
            Coord::C4 => (3, 2),
            Coord::C5 => (4, 2),
            Coord::C6 => (5, 2),
            Coord::C7 => (6, 2),
            Coord::C8 => (7, 2),
            Coord::D1 => (0, 3),
            Coord::D2 => (1, 3),
            Coord::D3 => (2, 3),
            Coord::D4 => (3, 3),
            Coord::D5 => (4, 3),
            Coord::D6 => (5, 3),
            Coord::D7 => (6, 3),
            Coord::D8 => (7, 3),
            Coord::E1 => (0, 4),
            Coord::E2 => (1, 4),
            Coord::E3 => (2, 4),
            Coord::E4 => (3, 4),
            Coord::E5 => (4, 4),
            Coord::E6 => (5, 4),
            Coord::E7 => (6, 4),
            Coord::E8 => (7, 4),
            Coord::F1 => (0, 5),
            Coord::F2 => (1, 5),
            Coord::F3 => (2, 5),
            Coord::F4 => (3, 5),
            Coord::F5 => (4, 5),
            Coord::F6 => (5, 5),
            Coord::F7 => (6, 5),
            Coord::F8 => (7, 5),
            Coord::G1 => (0, 6),
            Coord::G2 => (1, 6),
            Coord::G3 => (2, 6),
            Coord::G4 => (3, 6),
            Coord::G5 => (4, 6),
            Coord::G6 => (5, 6),
            Coord::G7 => (6, 6),
            Coord::G8 => (7, 6),
            Coord::H1 => (0, 7),
            Coord::H2 => (1, 7),
            Coord::H3 => (2, 7),
            Coord::H4 => (3, 7),
            Coord::H5 => (4, 7),
            Coord::H6 => (5, 7),
            Coord::H7 => (6, 7),
            Coord::H8 => (7, 7),
        }
    }

    /// The named square at a rank and file, if both are below eight.
    pub open spec fn spec_at(rank: int, file: int) -> Option<Coord> {
        if !(0 <= rank < 8 && 0 <= file < 8) {
            None
        } else {
            Some(choose|c: Coord| c.spec_square() == (rank as usize, file as usize))
        }
    }

    /// The rank and file of the square, each counted from zero.
    #[verifier::when_used_as_spec(spec_square)]
    pub fn square(self) -> (sq: Square)
        ensures
            sq == self.spec_square(),
            sq.0 < 8,
            sq.1 < 8,
    {
        match self {
            Coord::A1 => (0, 0),
            Coord::A2 => (1, 0),
            Coord::A3 => (2, 0),
            Coord::A4 => (3, 0),
            Coord::A5 => (4, 0),
            Coord::A6 => (5, 0),
            Coord::A7 => (6, 0),
            Coord::A8 => (7, 0),
            Coord::B1 => (0, 1),
            Coord::B2 => (1, 1),
            Coord::B3 => (2, 1),
            Coord::B4 => (3, 1),
            Coord::B5 => (4, 1),
            Coord::B6 => (5, 1),
            Coord::B7 => (6, 1),
            Coord::B8 => (7, 1),
            Coord::C1 => (0, 2),
            Coord::C2 => (1, 2),
            Coord::C3 => (2, 2),
            Coord::C4 => (3, 2),
            Coord::C5 => (4, 2),
            Coord::C6 => (5, 2),
            Coord::C7 => (6, 2),
            Coord::C8 => (7, 2),
            Coord::D1 => (0, 3),
            Coord::D2 => (1, 3),
            Coord::D3 => (2, 3),
            Coord::D4 => (3, 3),
            Coord::D5 => (4, 3),
            Coord::D6 => (5, 3),
            Coord::D7 => (6, 3),
            Coord::D8 => (7, 3),
            Coord::E1 => (0, 4),
            Coord::E2 => (1, 4),
            Coord::E3 => (2, 4),
            Coord::E4 => (3, 4),
            Coord::E5 => (4, 4),
            Coord::E6 => (5, 4),
            Coord::E7 => (6, 4),
            Coord::E8 => (7, 4),
            Coord::F1 => (0, 5),
            Coord::F2 => (1, 5),
            Coord::F3 => (2, 5),
            Coord::F4 => (3, 5),
            Coord::F5 => (4, 5),
            Coord::F6 => (5, 5),
            Coord::F7 => (6, 5),
            Coord::F8 => (7, 5),
            Coord::G1 => (0, 6),
            Coord::G2 => (1, 6),
            Coord::G3 => (2, 6),
            Coord::G4 => (3, 6),
            Coord::G5 => (4, 6),
            Coord::G6 => (5, 6),
            Coord::G7 => (6, 6),
            Coord::G8 => (7, 6),
            Coord::H1 => (0, 7),
            Coord::H2 => (1, 7),
            Coord::H3 => (2, 7),
            Coord::H4 => (3, 7),
            Coord::H5 => (4, 7),
            Coord::H6 => (5, 7),
            Coord::H7 => (6, 7),
            Coord::H8 => (7, 7),
        }
    }

    /// The named square at a rank and file, each counted from zero.
    pub fn at(rank: usize, file: usize) -> (r: Option<Coord>)
        ensures
            r == Coord::spec_at(rank as int, file as int),
            r is Some <==> rank < 8 && file < 8,
            r matches Some(c) ==> c.spec_square() == (rank, file),
    {
        let found = match (rank, file) {
            (0, 0) => Some(Coord::A1),
            (1, 0) => Some(Coord::A2),
            (2, 0) => Some(Coord::A3),
            (3, 0) => Some(Coord::A4),
            (4, 0) => Some(Coord::A5),
            (5, 0) => Some(Coord::A6),
            (6, 0) => Some(Coord::A7),
            (7, 0) => Some(Coord::A8),
            (0, 1) => Some(Coord::B1),
            (1, 1) => Some(Coord::B2),
            (2, 1) => Some(Coord::B3),
            (3, 1) => Some(Coord::B4),
            (4, 1) => Some(Coord::B5),
            (5, 1) => Some(Coord::B6),
            (6, 1) => Some(Coord::B7),
            (7, 1) => Some(Coord::B8),
            (0, 2) => Some(Coord::C1),
            (1, 2) => Some(Coord::C2),
            (2, 2) => Some(Coord::C3),
            (3, 2) => Some(Coord::C4),
            (4, 2) => Some(Coord::C5),
            (5, 2) => Some(Coord::C6),
            (6, 2) => Some(Coord::C7),
            (7, 2) => Some(Coord::C8),
            (0, 3) => Some(Coord::D1),
            (1, 3) => Some(Coord::D2),
            (2, 3) => Some(Coord::D3),
            (3, 3) => Some(Coord::D4),
            (4, 3) => Some(Coord::D5),
            (5, 3) => Some(Coord::D6),
            (6, 3) => Some(Coord::D7),
            (7, 3) => Some(Coord::D8),
            (0, 4) => Some(Coord::E1),
            (1, 4) => Some(Coord::E2),
            (2, 4) => Some(Coord::E3),
            (3, 4) => Some(Coord::E4),
            (4, 4) => Some(Coord::E5),
            (5, 4) => Some(Coord::E6),
            (6, 4) => Some(Coord::E7),
            (7, 4) => Some(Coord::E8),
            (0, 5) => Some(Coord::F1),
            (1, 5) => Some(Coord::F2),
            (2, 5) => Some(Coord::F3),
            (3, 5) => Some(Coord::F4),
            (4, 5) => Some(Coord::F5),
            (5, 5) => Some(Coord::F6),
            (6, 5) => Some(Coord::F7),
            (7, 5) => Some(Coord::F8),
            (0, 6) => Some(Coord::G1),
            (1, 6) => Some(Coord::G2),
            (2, 6) => Some(Coord::G3),
            (3, 6) => Some(Coord::G4),
            (4, 6) => Some(Coord::G5),
            (5, 6) => Some(Coord::G6),
            (6, 6) => Some(Coord::G7),
            (7, 6) => Some(Coord::G8),
            (0, 7) => Some(Coord::H1),
            (1, 7) => Some(Coord::H2),
            (2, 7) => Some(Coord::H3),
            (3, 7) => Some(Coord::H4),
            (4, 7) => Some(Coord::H5),
            (5, 7) => Some(Coord::H6),
            (6, 7) => Some(Coord::H7),
            (7, 7) => Some(Coord::H8),
            _ => None,
        };
        proof {
            if let Some(c) = found {
                Coord::lemma_square_injective(
                    c,
                    choose|d: Coord| d.spec_square() == (rank, file),
                );
            }
        }
        found
    }

    /// Two names with the same rank and file are the same name.
    pub proof fn lemma_square_injective(a: Coord, b: Coord)
        requires
            a.spec_square() == b.spec_square(),
        ensures
            a == b,
    {
    }

    /// Every rank and file pair on the board has a name, and the name leads
    /// back to the pair.
    pub proof fn lemma_square_onto(rank: int, file: int)
        requires
            0 <= rank < 8,
            0 <= file < 8,
        ensures
            Coord::spec_at(rank, file) is Some,
            Coord::spec_at(rank, file)->0.spec_square() == (rank as usize, file as usize),
    {
        let r = rank as usize;
        let f = file as usize;
        let witness = if r == 0 && f == 0 {
            Coord::A1
        } else if r == 1 && f == 0 {
            Coord::A2
        } else if r == 2 && f == 0 {
            Coord::A3
        } else if r == 3 && f == 0 {
            Coord::A4
        } else if r == 4 && f == 0 {
            Coord::A5
        } else if r == 5 && f == 0 {
            Coord::A6
        } else if r == 6 && f == 0 {
            Coord::A7
        } else if r == 7 && f == 0 {
            Coord::A8
        } else if r == 0 && f == 1 {
            Coord::B1
        } else if r == 1 && f == 1 {
            Coord::B2
        } else if r == 2 && f == 1 {
            Coord::B3
        } else if r == 3 && f == 1 {
            Coord::B4
        } else if r == 4 && f == 1 {
            Coord::B5
        } else if r == 5 && f == 1 {
            Coord::B6
        } else if r == 6 && f == 1 {
            Coord::B7
        } else if r == 7 && f == 1 {
            Coord::B8
        } else if r == 0 && f == 2 {
            Coord::C1
        } else if r == 1 && f == 2 {
            Coord::C2
        } else if r == 2 && f == 2 {
            Coord::C3
        } else if r == 3 && f == 2 {
            Coord::C4
        } else if r == 4 && f == 2 {
            Coord::C5
        } else if r == 5 && f == 2 {
            Coord::C6
        } else if r == 6 && f == 2 {
            Coord::C7
        } else if r == 7 && f == 2 {
            Coord::C8
        } else if r == 0 && f == 3 {
            Coord::D1
        } else if r == 1 && f == 3 {
            Coord::D2
        } else if r == 2 && f == 3 {
            Coord::D3
        } else if r == 3 && f == 3 {
            Coord::D4
        } else if r == 4 && f == 3 {
            Coord::D5
        } else if r == 5 && f == 3 {
            Coord::D6
        } else if r == 6 && f == 3 {
            Coord::D7
        } else if r == 7 && f == 3 {
            Coord::D8
        } else if r == 0 && f == 4 {
            Coord::E1
        } else if r == 1 && f == 4 {
            Coord::E2
        } else if r == 2 && f == 4 {
            Coord::E3
        } else if r == 3 && f == 4 {
            Coord::E4
        } else if r == 4 && f == 4 {
            Coord::E5
        } else if r == 5 && f == 4 {
            Coord::E6
        } else if r == 6 && f == 4 {
            Coord::E7
        } else if r == 7 && f == 4 {
            Coord::E8
        } else if r == 0 && f == 5 {
            Coord::F1
        } else if r == 1 && f == 5 {
            Coord::F2
        } else if r == 2 && f == 5 {
            Coord::F3
        } else if r == 3 && f == 5 {
            Coord::F4
        } else if r == 4 && f == 5 {
            Coord::F5
        } else if r == 5 && f == 5 {
            Coord::F6
        } else if r == 6 && f == 5 {
            Coord::F7
        } else if r == 7 && f == 5 {
            Coord::F8
        } else if r == 0 && f == 6 {
            Coord::G1
        } else if r == 1 && f == 6 {
            Coord::G2
        } else if r == 2 && f == 6 {
            Coord::G3
        } else if r == 3 && f == 6 {
            Coord::G4
        } else if r == 4 && f == 6 {
            Coord::G5
        } else if r == 5 && f == 6 {
            Coord::G6
        } else if r == 6 && f == 6 {
            Coord::G7
        } else if r == 7 && f == 6 {
            Coord::G8
        } else if r == 0 && f == 7 {
            Coord::H1
        } else if r == 1 && f == 7 {
            Coord::H2
        } else if r == 2 && f == 7 {
            Coord::H3
        } else if r == 3 && f == 7 {
            Coord::H4
        } else if r == 4 && f == 7 {
            Coord::H5
        } else if r == 5 && f == 7 {
            Coord::H6
        } else if r == 6 && f == 7 {
            Coord::H7
        } else {
            Coord::H8
        };
        assert(witness.spec_square() == (r, f));
    }
}

impl From<Coord> for (usize, usize) {
    fn from(value: Coord) -> (sq: Self) {
        value.square()
    }
}

impl vstd::std_specs::convert::FromSpecImpl<Coord> for (usize, usize) {
    open spec fn obeys_from_spec() -> bool {
        true
    }

    open spec fn from_spec(value: Coord) -> Self {
        value.spec_square()
    }
}

} // verus!
