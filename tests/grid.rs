use snake::grid::Grid;

#[test]
fn test_size() {
    let g = Grid::new(10, 5, 0);

    assert_eq!(g.width(), 10);
    assert_eq!(g.height(), 5);
}

#[test]
fn test_get_init_value() {
    let g = Grid::new(10, 5, 3);

    assert_eq!(*g.get(2, 2), 3);
}

#[test]
fn test_mutate_value() {
    let mut g = Grid::new(10, 5, 0);

    *g.get_mut(2, 2) = 5;

    assert_eq!(*g.get(0, 0), 0);
    assert_eq!(*g.get(2, 2), 5);
}

#[test]
fn enumerate_walks_columns_in_order() {
    let mut g = Grid::new(3, 2, 0u8);
    *g.get_mut(1, 1) = 7;
    let cells = g.enumerate();
    assert_eq!(cells.len(), 6);
    assert_eq!(
        cells,
        vec![(0, 0, 0), (0, 1, 0), (1, 0, 0), (1, 1, 7), (2, 0, 0), (2, 1, 0)]
    );
}

#[test]
fn enumerate_of_empty_grid_is_empty() {
    let g = Grid::new(0, 4, 1u8);
    assert_eq!(g.width(), 0);
    assert_eq!(g.height(), 4);
    assert!(g.enumerate().is_empty());
}
