use cannonland::bunker::Bunker;
use cannonland::color::Color;
use cannonland::grid::{create_test_grid, Grid, GridError};

fn count_non_empty(grid: &Grid) -> usize {
    let mut n = 0;
    for y in 0..grid.height() {
        for x in 0..grid.width() {
            if grid.color_at(x, y) != Color::EMPTY {
                n += 1;
            }
        }
    }
    n
}

fn count_color(grid: &Grid, c: Color) -> usize {
    let mut n = 0;
    for y in 0..grid.height() {
        for x in 0..grid.width() {
            if grid.color_at(x, y) == c {
                n += 1;
            }
        }
    }
    n
}

fn snapshot(grid: &Grid) -> Vec<Color> {
    let mut cells = Vec::new();
    for y in 0..grid.height() {
        for x in 0..grid.width() {
            cells.push(grid.color_at(x, y));
        }
    }
    cells
}

#[test]
fn new_grid_is_empty() {
    let grid = Grid::new(7, 4);
    assert_eq!(grid.width(), 7);
    assert_eq!(grid.height(), 4);
    assert_eq!(count_non_empty(&grid), 0);
}

#[test]
fn outside_cells_never_collide() {
    let mut grid = Grid::new(10, 10);
    grid.set_rect(Color::ROCK, 0, 0, 10, 10).unwrap();
    assert!(grid.is_inside_grid(9, 9));
    assert!(!grid.is_inside_grid(10, 0));
    assert!(!grid.is_inside_grid(0, 10));
    assert!(!grid.collides_at_position(10, 0));
    assert!(!grid.collides_at_position(0, 10));
    assert!(!grid.collides_at_position(usize::MAX, 3));
    assert!(grid.collides_at_position(9, 9));
}

#[test]
fn collides_only_on_material() {
    let mut grid = Grid::new(10, 10);
    grid.set_rect(Color::DIRT, 2, 2, 3, 3).unwrap();
    assert!(grid.collides_at_position(2, 2));
    assert!(!grid.collides_at_position(3, 2));
}

#[test]
fn set_rect_paints_half_open_rectangle() {
    let mut grid = Grid::new(10, 10);
    assert_eq!(grid.set_rect(Color::DIRT, 2, 3, 4, 5), Ok(()));
    assert_eq!(grid.color_at(2, 3), Color::DIRT);
    assert_eq!(grid.color_at(3, 4), Color::DIRT);
    assert_eq!(grid.color_at(4, 3), Color::EMPTY);
    assert_eq!(grid.color_at(2, 5), Color::EMPTY);
    assert_eq!(count_non_empty(&grid), 4);
}

#[test]
fn set_rect_up_to_the_edge() {
    let mut grid = Grid::new(10, 10);
    assert_eq!(grid.set_rect(Color::ROCK, 8, 8, 10, 10), Ok(()));
    assert_eq!(count_color(&grid, Color::ROCK), 4);
}

#[test]
fn set_rect_out_of_bounds_is_refused() {
    let mut grid = Grid::new(10, 10);
    assert_eq!(grid.set_rect(Color::DIRT, 5, 5, 11, 6), Err(GridError::OutOfBounds));
    assert_eq!(grid.set_rect(Color::DIRT, 5, 5, 6, 11), Err(GridError::OutOfBounds));
    assert_eq!(count_non_empty(&grid), 0);
}

#[test]
fn stride_drops_dirt_one_cell() {
    let mut grid = Grid::new(10, 10);
    grid.set_rect(Color::DIRT, 5, 5, 6, 6).unwrap();
    grid.stride();
    assert_eq!(grid.color_at(5, 6), Color::DIRT);
    assert_eq!(grid.color_at(5, 5), Color::EMPTY);
    assert_eq!(count_non_empty(&grid), 1);
}

#[test]
fn stride_keeps_rock_in_place() {
    let mut grid = Grid::new(10, 10);
    grid.set_rect(Color::ROCK, 5, 5, 6, 6).unwrap();
    grid.stride();
    assert_eq!(grid.color_at(5, 5), Color::ROCK);
    assert_eq!(grid.color_at(5, 6), Color::EMPTY);
}

#[test]
fn stride_settles_dirt_diagonally() {
    let mut grid = Grid::new(10, 10);
    grid.set_rect(Color::DIRT, 5, 6, 6, 7).unwrap();
    grid.set_rect(Color::ROCK, 5, 7, 6, 8).unwrap();
    grid.stride();
    assert_eq!(grid.color_at(6, 6), Color::DIRT);
    assert_eq!(grid.color_at(5, 6), Color::EMPTY);
    assert_eq!(grid.color_at(6, 7), Color::EMPTY);
    assert_eq!(grid.color_at(6, 8), Color::EMPTY);
    assert_eq!(count_non_empty(&grid), 2);
}

#[test]
fn dirt_rests_on_the_bottom_row() {
    let mut grid = Grid::new(4, 3);
    grid.set_rect(Color::WATER, 1, 2, 2, 3).unwrap();
    grid.stride();
    assert_eq!(grid.color_at(1, 2), Color::WATER);
    assert_eq!(count_non_empty(&grid), 1);
}

#[test]
fn stride_conserves_material() {
    let mut grid = Grid::new(60, 40);
    grid.set_rect(Color::DIRT, 10, 2, 30, 12).unwrap();
    grid.set_rect(Color::SNOW, 35, 0, 50, 5).unwrap();
    grid.set_rect(Color::WATER, 0, 20, 8, 25).unwrap();
    grid.set_rect(Color::ROCK, 12, 30, 40, 32).unwrap();
    let before = count_non_empty(&grid);
    let dirt = count_color(&grid, Color::DIRT);
    for _ in 0..50 {
        grid.stride();
        assert_eq!(count_non_empty(&grid), before);
        assert_eq!(count_color(&grid, Color::BLUR), 0);
    }
    assert_eq!(count_color(&grid, Color::DIRT), dirt);
}

#[test]
fn stride_on_test_grid_leaves_no_transient_cell() {
    let mut grid = create_test_grid();
    let before = count_non_empty(&grid);
    for _ in 0..3 {
        grid.stride();
        assert_eq!(count_color(&grid, Color::BLUR), 0);
    }
    assert_eq!(count_non_empty(&grid), before);
}

#[test]
fn stride_on_tiny_grids() {
    let mut one = Grid::new(1, 1);
    one.set_rect(Color::DIRT, 0, 0, 1, 1).unwrap();
    one.stride();
    assert_eq!(one.color_at(0, 0), Color::DIRT);
    let mut row = Grid::new(5, 1);
    row.set_rect(Color::SNOW, 2, 0, 3, 1).unwrap();
    row.stride();
    assert_eq!(row.color_at(2, 0), Color::SNOW);
}

#[test]
fn delete_radius_clears_disc_but_not_bunkers() {
    let mut grid = Grid::new(20, 20);
    grid.set_rect(Color::DIRT, 0, 0, 20, 20).unwrap();
    grid.set_rect(Color::BunkerBlue, 10, 10, 11, 11).unwrap();
    grid.delete_radius_leave_out_bunkers(10, 10, 3);
    assert_eq!(grid.color_at(10, 10), Color::BunkerBlue);
    assert_eq!(grid.color_at(12, 10), Color::EMPTY);
    assert_eq!(grid.color_at(8, 10), Color::EMPTY);
    assert_eq!(grid.color_at(13, 10), Color::DIRT);
    assert_eq!(grid.color_at(7, 10), Color::DIRT);
    assert_eq!(grid.color_at(12, 12), Color::EMPTY);
    assert_eq!(grid.color_at(13, 11), Color::DIRT);
    assert_eq!(grid.color_at(10, 13), Color::DIRT);
    // The 25 cells of the 5 by 5 square lie strictly inside radius 3; the center is a bunker.
    assert_eq!(count_color(&grid, Color::EMPTY), 24);
}

#[test]
fn delete_radius_twice_is_once() {
    let mut grid = create_test_grid();
    grid.delete_radius_leave_out_bunkers(60, 50, 25);
    let once = snapshot(&grid);
    grid.delete_radius_leave_out_bunkers(60, 50, 25);
    assert_eq!(snapshot(&grid), once);
    assert_eq!(grid.color_at(50, 40), Color::BunkerBlue);
}

#[test]
fn delete_radius_at_the_corner() {
    let mut grid = Grid::new(10, 10);
    grid.set_rect(Color::SNOW, 0, 0, 10, 10).unwrap();
    grid.delete_radius_leave_out_bunkers(0, 0, 2);
    assert_eq!(grid.color_at(0, 0), Color::EMPTY);
    assert_eq!(grid.color_at(1, 1), Color::EMPTY);
    assert_eq!(grid.color_at(2, 0), Color::SNOW);
    assert_eq!(count_color(&grid, Color::EMPTY), 4);
}

#[test]
fn delete_radius_centered_outside() {
    let mut grid = Grid::new(10, 10);
    grid.set_rect(Color::DIRT, 0, 0, 10, 10).unwrap();
    grid.delete_radius_leave_out_bunkers(10, 5, 2);
    assert_eq!(grid.color_at(9, 5), Color::EMPTY);
    assert_eq!(grid.color_at(9, 4), Color::EMPTY);
    assert_eq!(grid.color_at(9, 3), Color::DIRT);
    assert_eq!(grid.color_at(8, 5), Color::DIRT);
    assert_eq!(count_color(&grid, Color::EMPTY), 3);
    grid.delete_radius_leave_out_bunkers(usize::MAX, usize::MAX, usize::MAX);
    assert_eq!(count_color(&grid, Color::EMPTY), 3);
}

#[test]
fn delete_radius_zero_does_nothing() {
    let mut grid = Grid::new(5, 5);
    grid.set_rect(Color::DIRT, 0, 0, 5, 5).unwrap();
    grid.delete_radius_leave_out_bunkers(2, 2, 0);
    assert_eq!(count_non_empty(&grid), 25);
}

#[test]
fn test_grid_layout() {
    let grid = create_test_grid();
    assert_eq!(grid.width(), 800);
    assert_eq!(grid.height(), 500);
    assert_eq!(grid.color_at(50, 40), Color::BunkerBlue);
    assert_eq!(grid.color_at(750, 40), Color::BunkerOrange);
    assert_eq!(grid.color_at(40, 40), Color::DIRT);
    assert_eq!(grid.color_at(360, 420), Color::BETON);
    assert_eq!(grid.color_at(0, 0), Color::EMPTY);
}

#[test]
fn update_bunkers_moves_owner_and_heals_orphans() {
    let mut grid = Grid::new(10, 10);
    grid.set_rect(Color::BunkerBlue, 3, 4, 4, 5).unwrap();
    grid.set_rect(Color::BunkerRed, 7, 2, 8, 3).unwrap();
    let mut bunkers = vec![
        Bunker::new_at_nowhere(Color::BunkerGreen),
        Bunker::new_at_nowhere(Color::BunkerBlue),
    ];
    grid.update_bunkers(&mut bunkers);
    assert_eq!((bunkers[1].x_pos, bunkers[1].y_pos), (3, 4));
    assert_eq!((bunkers[0].x_pos, bunkers[0].y_pos), (4096, 4096));
    assert_eq!(grid.color_at(3, 4), Color::BunkerBlue);
    assert_eq!(grid.color_at(7, 2), Color::EMPTY);
}

#[test]
fn update_bunkers_last_marker_and_first_bunker_win() {
    let mut grid = Grid::new(10, 10);
    grid.set_rect(Color::BunkerBlue, 1, 1, 2, 2).unwrap();
    grid.set_rect(Color::BunkerBlue, 5, 6, 6, 7).unwrap();
    let mut bunkers = vec![
        Bunker::new(Color::BunkerBlue, 0, 0),
        Bunker::new(Color::BunkerBlue, 9, 9),
    ];
    grid.update_bunkers(&mut bunkers);
    assert_eq!((bunkers[0].x_pos, bunkers[0].y_pos), (5, 6));
    assert_eq!((bunkers[1].x_pos, bunkers[1].y_pos), (9, 9));
}

#[test]
fn bunker_follows_its_marker_after_carving() {
    let mut grid = Grid::new(20, 20);
    grid.set_rect(Color::DIRT, 0, 10, 20, 20).unwrap();
    grid.set_rect(Color::BunkerTeal, 10, 9, 11, 10).unwrap();
    let mut bunkers = vec![Bunker::new_at_nowhere(Color::BunkerTeal)];
    grid.update_bunkers(&mut bunkers);
    assert_eq!((bunkers[0].x_pos, bunkers[0].y_pos), (10, 9));
    assert_eq!(bunkers[0].get_health(), 100);
}
