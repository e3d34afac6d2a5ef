use mini_games_hub::piece::{rotate, PieceKind, Tetromino};

const KINDS: [PieceKind; 7] = [
    PieceKind::I,
    PieceKind::O,
    PieceKind::T,
    PieceKind::S,
    PieceKind::Z,
    PieceKind::J,
    PieceKind::L,
];

fn rows(bits: &[&[u8]]) -> Vec<Vec<bool>> {
    bits.iter().map(|row| row.iter().map(|&b| b == 1).collect()).collect()
}

#[test]
fn catalog_holds_the_seven_canonical_shapes() {
    let expected: [Vec<Vec<bool>>; 7] = [
        rows(&[&[1, 1, 1, 1]]),
        rows(&[&[1, 1], &[1, 1]]),
        rows(&[&[0, 1, 0], &[1, 1, 1]]),
        rows(&[&[0, 1, 1], &[1, 1, 0]]),
        rows(&[&[1, 1, 0], &[0, 1, 1]]),
        rows(&[&[1, 0, 0], &[1, 1, 1]]),
        rows(&[&[0, 0, 1], &[1, 1, 1]]),
    ];
    for (i, kind) in KINDS.iter().enumerate() {
        let piece = Tetromino::catalog(*kind);
        assert_eq!(piece.shape(), &expected[i]);
        assert_eq!(piece.kind(), *kind);
        assert_eq!(piece.height(), expected[i].len());
        assert_eq!(piece.width(), expected[i][0].len());
        let cells: usize = piece.shape().iter().map(|r| r.iter().filter(|&&c| c).count()).sum();
        assert_eq!(cells, 4);
    }
}

#[test]
fn catalog_index_round_trip() {
    for (i, kind) in KINDS.iter().enumerate() {
        assert_eq!(PieceKind::from_index(i), Some(*kind));
        assert_eq!(kind.index(), i);
    }
    assert_eq!(PieceKind::from_index(7), None);
    assert_eq!(PieceKind::from_index(usize::MAX), None);
}

#[test]
fn rotate_turns_the_bar_upright() {
    let bar = rows(&[&[1, 1, 1, 1]]);
    assert_eq!(rotate(&bar), rows(&[&[1], &[1], &[1], &[1]]));
}

#[test]
fn rotate_moves_each_cell_clockwise() {
    // result[c][R - 1 - r] == shape[r][c]
    let t = rows(&[&[0, 1, 0], &[1, 1, 1]]);
    assert_eq!(rotate(&t), rows(&[&[1, 0], &[1, 1], &[1, 0]]));
    let j = rows(&[&[1, 0, 0], &[1, 1, 1]]);
    assert_eq!(rotate(&j), rows(&[&[1, 1], &[1, 0], &[1, 0]]));
    let odd = rows(&[&[1, 0], &[0, 0], &[0, 1]]);
    let turned = rotate(&odd);
    assert_eq!(turned.len(), 2);
    assert_eq!(turned[0].len(), 3);
    for r in 0..3 {
        for c in 0..2 {
            assert_eq!(turned[c][3 - 1 - r], odd[r][c]);
        }
    }
}

#[test]
fn rotate_leaves_its_input_alone() {
    let s = rows(&[&[0, 1, 1], &[1, 1, 0]]);
    let copy = s.clone();
    let _ = rotate(&s);
    assert_eq!(s, copy);
}

#[test]
fn four_rotations_restore_every_catalog_shape() {
    for kind in KINDS.iter() {
        let piece = Tetromino::catalog(*kind);
        let once = rotate(piece.shape());
        let twice = rotate(&once);
        let thrice = rotate(&twice);
        let back = rotate(&thrice);
        assert_eq!(&back, piece.shape());
        let turned = piece.rotated().rotated().rotated().rotated();
        assert_eq!(turned.shape(), piece.shape());
        assert_eq!(turned.kind(), *kind);
    }
}

#[test]
fn rotated_piece_keeps_kind_and_swaps_sides() {
    let l = Tetromino::catalog(PieceKind::L);
    let turned = l.rotated();
    assert_eq!(turned.kind(), PieceKind::L);
    assert_eq!(turned.height(), 3);
    assert_eq!(turned.width(), 2);
    assert_eq!(turned.shape(), &rows(&[&[1, 0], &[1, 0], &[1, 1]]));
}

#[test]
fn occupies_reads_the_matrix() {
    let t = Tetromino::catalog(PieceKind::T);
    assert!(!t.occupies(0, 0));
    assert!(t.occupies(0, 1));
    assert!(t.occupies(1, 2));
    assert!(!t.occupies(2, 0));
    assert!(!t.occupies(0, 3));
}

#[test]
fn clone_copies_shape_and_kind() {
    let z = Tetromino::catalog(PieceKind::Z).rotated();
    let copy = z.clone();
    assert_eq!(copy.shape(), z.shape());
    assert_eq!(copy.kind(), z.kind());
}
