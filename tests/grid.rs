use life_grid::grid::{Grid, Row};

fn numbered(width: u16, height: u16) -> Grid<u32> {
    let cells: Vec<u32> = (0..(width as u32 * height as u32)).collect();
    Grid::from_cells(width, height, cells).unwrap()
}

#[test]
fn from_cells_rejects_wrong_length() {
    assert!(Grid::from_cells(3, 2, vec![true; 5]).is_none());
    assert!(Grid::from_cells(3, 2, vec![true; 7]).is_none());
    assert!(Grid::from_cells(3, 2, vec![true; 6]).is_some());
    assert!(Grid::<bool>::from_cells(0, 0, Vec::new()).is_some());
}

#[test]
fn get_uses_row_major_addressing() {
    let g = numbered(3, 2);
    assert_eq!(g.width(), 3);
    assert_eq!(g.height(), 2);
    assert_eq!(g.get(0, 0), Some(&0));
    assert_eq!(g.get(2, 0), Some(&2));
    assert_eq!(g.get(0, 1), Some(&3));
    assert_eq!(g.get(1, 1), Some(&4));
    assert_eq!(g.get(2, 1), Some(&5));
}

#[test]
fn get_is_total_outside_the_grid() {
    let g = numbered(3, 2);
    assert_eq!(g.get(3, 0), None);
    assert_eq!(g.get(0, 2), None);
    assert_eq!(g.get(3, 2), None);
    assert_eq!(g.get(u16::MAX, 0), None);
    assert_eq!(g.get(0, u16::MAX), None);
    assert_eq!(g.get(u16::MAX, u16::MAX), None);
    let empty: Grid<u32> = Grid::from_cells(0, 0, Vec::new()).unwrap();
    assert_eq!(empty.get(0, 0), None);
}

#[test]
fn get_row_reads_one_row() {
    let g = numbered(3, 2);
    let row = g.get_row(1).unwrap();
    assert_eq!(row.width(), 3);
    assert_eq!(row.get(0), Some(&3));
    assert_eq!(row.get(1), Some(&4));
    assert_eq!(row.get(2), Some(&5));
    assert_eq!(row.get(3), None);
    assert!(g.get_row(2).is_none());
    assert!(g.get_row(u16::MAX).is_none());
}

#[test]
fn row_from_vec_keeps_cells() {
    let row = Row::from_vec(vec![7u8, 8, 9]);
    assert_eq!(row.width(), 3);
    assert_eq!(row.get(2), Some(&9));
    assert_eq!(row.get(3), None);
}

#[test]
fn from_border_places_ring_in_row_major_order() {
    let interior = Grid::from_cells(2, 1, vec![10u32, 11]).unwrap();
    let border: Vec<u32> = (0..10).collect();
    let g = Grid::from_border(&interior, &border);
    assert_eq!(g.width(), 4);
    assert_eq!(g.height(), 3);
    let expected = [[0, 1, 2, 3], [4, 10, 11, 5], [6, 7, 8, 9]];
    for y in 0..3u16 {
        for x in 0..4u16 {
            assert_eq!(g.get(x, y), Some(&expected[y as usize][x as usize]));
        }
    }
}

#[test]
fn from_border_of_empty_interior_is_all_ring() {
    let interior: Grid<u32> = Grid::from_cells(0, 0, Vec::new()).unwrap();
    let g = Grid::from_border(&interior, &vec![1, 2, 3, 4]);
    assert_eq!(g.width(), 2);
    assert_eq!(g.height(), 2);
    assert_eq!(g.get(0, 0), Some(&1));
    assert_eq!(g.get(1, 0), Some(&2));
    assert_eq!(g.get(0, 1), Some(&3));
    assert_eq!(g.get(1, 1), Some(&4));
}

#[test]
fn from_border_same_draws_same_ring() {
    let a = Grid::from_cells(1, 1, vec![true]).unwrap();
    let b = Grid::from_cells(1, 1, vec![false]).unwrap();
    let ring = vec![true, false, true, false, false, true, false, true];
    let ga = Grid::from_border(&a, &ring);
    let gb = Grid::from_border(&b, &ring);
    for y in 0..3u16 {
        for x in 0..3u16 {
            if x == 1 && y == 1 {
                continue;
            }
            assert_eq!(ga.get(x, y), gb.get(x, y));
        }
    }
    assert_eq!(ga.get(1, 1), Some(&true));
    assert_eq!(gb.get(1, 1), Some(&false));
}
