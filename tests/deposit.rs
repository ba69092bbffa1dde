use genetic_explorer::deposit::{
    backpack_contains_something, container_exists, get_content_backpack, get_from_to, save_contents,
    search_content, search_respective_content, InterestMap,
};
use genetic_explorer::grid::{color_for_tile, pixel_color, Cell, Content, ContentKind, Grid, TerrainKind};

fn open_grid(size: usize) -> Grid {
    let cell = Cell { terrain: TerrainKind::Grass, elevation: 0, content: None };
    Grid {
        size,
        cells: vec![vec![Some(cell); size]; size],
        terrain_costs: vec![1; 11],
        content_values: vec![0; 15],
    }
}

fn with_content(kind: ContentKind, amount: usize) -> Option<Cell> {
    Some(Cell { terrain: TerrainKind::Grass, elevation: 0, content: Some(Content { kind, amount }) })
}

#[test]
fn containers_for_collectables() {
    assert_eq!(search_respective_content(ContentKind::Tree), Some(ContentKind::Crate));
    assert_eq!(search_respective_content(ContentKind::Garbage), Some(ContentKind::Bin));
    assert_eq!(search_respective_content(ContentKind::Coin), Some(ContentKind::Bank));
    assert_eq!(search_respective_content(ContentKind::Rock), None);
}

#[test]
fn backpack_choice_prefers_a_full_garbage_load() {
    let bp = vec![(ContentKind::Coin, 7), (ContentKind::Garbage, 5), (ContentKind::Tree, 9)];
    assert_eq!(get_content_backpack(&bp), (Some(ContentKind::Garbage), 5));
    let bp = vec![(ContentKind::Coin, 3), (ContentKind::Rock, 20), (ContentKind::Tree, 4), (ContentKind::Garbage, 2)];
    assert_eq!(get_content_backpack(&bp), (Some(ContentKind::Tree), 4));
    assert_eq!(get_content_backpack(&vec![(ContentKind::Fish, 3)]), (None, 0));
}

#[test]
fn nearby_containers_are_recorded_and_found() {
    let mut grid = open_grid(40);
    grid.cells[12][10] = with_content(ContentKind::Bin, 3);
    grid.cells[5][5] = with_content(ContentKind::Bin, 8);
    grid.cells[10][13] = with_content(ContentKind::Bank, 0);
    grid.cells[8][8] = with_content(ContentKind::Coin, 4);
    grid.cells[30][30] = with_content(ContentKind::Crate, 6);
    let mut points = InterestMap::new(40);
    save_contents(&mut points, &grid, 10, 10);
    assert!(container_exists(&points, ContentKind::Bin));
    assert!(!container_exists(&points, ContentKind::Bank));
    assert!(!container_exists(&points, ContentKind::Coin));
    assert!(!container_exists(&points, ContentKind::Crate));
    let mut size = 10;
    assert_eq!(search_content(&points, ContentKind::Bin, 10, 10, &mut size), Some((12, 10)));
    assert_eq!(size, 3);
    let mut size = 10;
    assert_eq!(search_content(&points, ContentKind::Bin, 4, 4, &mut size), Some((5, 5)));
    assert_eq!(size, 8);
    let mut size = 10;
    assert_eq!(search_content(&points, ContentKind::Crate, 10, 10, &mut size), None);
    assert_eq!(size, 10);
    grid.cells[12][10] = with_content(ContentKind::Bin, 0);
    save_contents(&mut points, &grid, 10, 10);
    let mut size = 10;
    assert_eq!(search_content(&points, ContentKind::Bin, 10, 10, &mut size), Some((5, 5)));
}

#[test]
fn nearest_container_ties_go_to_the_first_row() {
    let mut grid = open_grid(20);
    grid.cells[8][10] = with_content(ContentKind::Crate, 2);
    grid.cells[12][10] = with_content(ContentKind::Crate, 9);
    let mut points = InterestMap::new(20);
    save_contents(&mut points, &grid, 10, 10);
    let mut size = 5;
    assert_eq!(search_content(&points, ContentKind::Crate, 10, 10, &mut size), Some((8, 10)));
    assert_eq!(size, 2);
}

#[test]
fn trips_start_only_above_the_threshold() {
    let mut grid = open_grid(20);
    grid.cells[3][3] = with_content(ContentKind::Bank, 4);
    let mut points = InterestMap::new(20);
    save_contents(&mut points, &grid, 2, 2);
    assert!(!backpack_contains_something(&vec![(ContentKind::Coin, 5)], &points));
    assert!(backpack_contains_something(&vec![(ContentKind::Tree, 9), (ContentKind::Coin, 6)], &points));
    assert!(!backpack_contains_something(&vec![(ContentKind::Garbage, 9)], &points));
}

#[test]
fn window_is_clamped_to_the_map() {
    assert_eq!(get_from_to(3, 30, 8, 35), ((0, 12), (21, 35)));
    assert_eq!(get_from_to(20, 20, 8, 100), ((11, 29), (11, 29)));
}

#[test]
fn colours_of_the_map_picture() {
    assert_eq!(color_for_tile(TerrainKind::Grass), (124, 252, 0));
    assert_eq!(color_for_tile(TerrainKind::Lava), (207, 16, 32));
    let mut grid = open_grid(3);
    grid.cells[0][1] = None;
    assert_eq!(pixel_color(&grid, 1, 1, (1, 1)), (255, 0, 0));
    assert_eq!(pixel_color(&grid, 0, 1, (1, 1)), (0, 0, 0));
    assert_eq!(pixel_color(&grid, 2, 2, (1, 1)), (124, 252, 0));
}
