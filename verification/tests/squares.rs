use checkplus::board::file::File;
use checkplus::board::Coord;

#[test]
fn file_letters() {
    let files = [
        (File::A, 'a'),
        (File::B, 'b'),
        (File::C, 'c'),
        (File::D, 'd'),
        (File::E, 'e'),
        (File::F, 'f'),
        (File::G, 'g'),
        (File::H, 'h'),
    ];
    for (i, (file, letter)) in files.into_iter().enumerate() {
        assert_eq!(File::from_unchecked(letter), file);
        assert_eq!(File::from_letter(letter), Some(file));
        assert_eq!(File::try_from(letter), Ok(file));
        assert_eq!(File::from_index(i), Some(file));
        assert_eq!(file.index(), i);
        assert_eq!(file.letter(), letter);
    }
    assert_eq!(File::from_letter('i'), None);
    assert_eq!(File::from_letter('A'), None);
    assert_eq!(File::from_letter('1'), None);
    assert_eq!(File::try_from('x'), Err(()));
    assert_eq!(File::from_index(8), None);
    assert!(File::A < File::B);
    assert!(File::G < File::H);
}

#[test]
fn named_squares() {
    assert_eq!(Coord::A1.square(), (0, 0));
    assert_eq!(Coord::A8.square(), (7, 0));
    assert_eq!(Coord::H1.square(), (0, 7));
    assert_eq!(Coord::H8.square(), (7, 7));
    assert_eq!(Coord::E4.square(), (3, 4));
    assert_eq!(Coord::C6.square(), (5, 2));
    let sq: (usize, usize) = Coord::G5.into();
    assert_eq!(sq, (4, 6));
    assert_eq!(<(usize, usize)>::from(Coord::B7), (6, 1));
}

#[test]
fn names_and_squares_correspond_one_to_one() {
    let mut seen = Vec::new();
    for rank in 0..8 {
        for file in 0..8 {
            let coord = Coord::at(rank, file).unwrap();
            assert_eq!(coord.square(), (rank, file));
            assert!(!seen.contains(&coord));
            seen.push(coord);
        }
    }
    assert_eq!(seen.len(), 64);
    assert_eq!(Coord::at(8, 0), None);
    assert_eq!(Coord::at(0, 8), None);
    assert_eq!(Coord::at(3, 4), Some(Coord::E4));
}
