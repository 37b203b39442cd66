use sigmap::memory::{allocate_memory, coord_to_index, find_free_memory, free_memory, GRID_ROWS, NULL};

const N: u8 = NULL;

#[test]
fn coord_to_index_is_column_major() {
    assert_eq!(coord_to_index(0, 0), 0);
    assert_eq!(coord_to_index(2, 4), 2 * GRID_ROWS + 4);
    assert_eq!(coord_to_index(2, 4), 36);
}

#[test]
fn find_free_memory_on_empty_grid_is_zero() {
    let grid = vec![N; 10];
    assert_eq!(find_free_memory(&grid, 3), Some(0));
    assert_eq!(find_free_memory(&grid, 10), Some(0));
}

#[test]
fn find_free_memory_is_first_fit() {
    let grid = [1, N, N, 2, N, N, N, 3];
    assert_eq!(find_free_memory(&grid, 1), Some(1));
    assert_eq!(find_free_memory(&grid, 2), Some(1));
    assert_eq!(find_free_memory(&grid, 3), Some(4));
    assert_eq!(find_free_memory(&grid, 4), None);
}

#[test]
fn find_free_memory_larger_than_grid_is_none() {
    let grid = [N, N];
    assert_eq!(find_free_memory(&grid, 3), None);
    let full = [1, 2, 3];
    assert_eq!(find_free_memory(&full, 1), None);
}

#[test]
fn allocate_memory_fills_first_fit_block() {
    let mut grid = [1, N, N, 2, N, N, N, 3];
    assert_eq!(allocate_memory(&mut grid, 5, 3), Some(4));
    assert_eq!(grid, [1, N, N, 2, 5, 5, 5, 3]);
    assert_eq!(allocate_memory(&mut grid, 4, 2), Some(1));
    assert_eq!(grid, [1, 4, 4, 2, 5, 5, 5, 3]);
}

#[test]
fn free_memory_clears_the_range() {
    let mut grid = [1, 2, 3, 4, 5];
    assert_eq!(free_memory(&mut grid, 1, 3), Some(1));
    assert_eq!(grid, [1, N, N, N, 5]);
    assert_eq!(free_memory(&mut grid, 0, 0), Some(0));
    assert_eq!(grid, [1, N, N, N, 5]);
}

#[test]
fn free_undoes_allocate() {
    let before = [7, N, 8, N, N, N, 9, N];
    let mut grid = before;
    let start = allocate_memory(&mut grid, 3, 3).unwrap();
    assert_eq!(start, 3);
    assert_ne!(grid, before);
    free_memory(&mut grid, start, 3);
    assert_eq!(grid, before);
}
