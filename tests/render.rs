use life_grid::grid::{Grid, Row};

#[test]
fn full_three_by_three() {
    let g = Grid::from_cells(3, 3, vec![true; 9]).unwrap();
    assert_eq!(g.render(), "###\n###\n###");
}

#[test]
fn dead_cells_are_spaces() {
    let g = Grid::from_cells(2, 2, vec![true, false, false, true]).unwrap();
    assert_eq!(g.render(), "# \n #");
}

#[test]
fn empty_and_single_row_grids() {
    let empty: Grid<bool> = Grid::from_cells(0, 0, Vec::new()).unwrap();
    assert_eq!(empty.render(), "");
    let one = Grid::from_cells(3, 1, vec![false, true, false]).unwrap();
    assert_eq!(one.render(), " # ");
    let narrow: Grid<bool> = Grid::from_cells(0, 3, Vec::new()).unwrap();
    assert_eq!(narrow.render(), "\n\n");
}

#[test]
fn row_render() {
    assert_eq!(Row::from_vec(vec![true, false, true]).render(), "# #");
    assert_eq!(Row::from_vec(Vec::<bool>::new()).render(), "");
}
