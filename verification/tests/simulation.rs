use game_of_life::Cell;
use game_of_life::Universe;

fn cells_3x3_dead() -> Vec<Cell> {
    vec![
        Cell::Dead, Cell::Dead, Cell::Dead,
        Cell::Dead, Cell::Dead, Cell::Dead,
        Cell::Dead, Cell::Dead, Cell::Dead,
    ]
}

fn cells_3x3_living_top_bottom() -> Vec<Cell> {
    vec![
        Cell::Alive, Cell::Alive, Cell::Alive,
        Cell::Dead, Cell::Dead, Cell::Dead,
        Cell::Alive, Cell::Alive, Cell::Alive,
    ]
}

fn cells_5x5_blinker() -> Vec<Cell> {
    vec![
        Cell::Dead, Cell::Dead, Cell::Dead, Cell::Dead, Cell::Dead,
        Cell::Dead, Cell::Dead, Cell::Dead, Cell::Dead, Cell::Dead,
        Cell::Dead, Cell::Alive, Cell::Alive, Cell::Alive, Cell::Dead,
        Cell::Dead, Cell::Dead, Cell::Dead, Cell::Dead, Cell::Dead,
        Cell::Dead, Cell::Dead, Cell::Dead, Cell::Dead, Cell::Dead,
    ]
}

fn cells_5x5_blinker_blinked() -> Vec<Cell> {
    vec![
        Cell::Dead, Cell::Dead, Cell::Dead, Cell::Dead, Cell::Dead,
        Cell::Dead, Cell::Dead, Cell::Alive, Cell::Dead, Cell::Dead,
        Cell::Dead, Cell::Dead, Cell::Alive, Cell::Dead, Cell::Dead,
        Cell::Dead, Cell::Dead, Cell::Alive, Cell::Dead, Cell::Dead,
        Cell::Dead, Cell::Dead, Cell::Dead, Cell::Dead, Cell::Dead,
    ]
}

fn create_universe_3x3_dead() -> Universe {
    Universe::from_cells(3, 3, cells_3x3_dead()).unwrap()
}

fn create_universe_3x3_living_top_and_bottom_rows() -> Universe {
    Universe::from_cells(3, 3, cells_3x3_living_top_bottom()).unwrap()
}

#[test]
fn get_index_at_0_0_should_be_0() {
    let universe = create_universe_3x3_dead();
    assert_eq!(0, universe.get_index(0, 0));
}

#[test]
fn get_index_at_1_0_should_be_0() {
    let universe = create_universe_3x3_dead();
    assert_eq!(1, universe.get_index(1, 0));
}

#[test]
fn get_index_at_0_1_should_be_3() {
    let universe = create_universe_3x3_dead();
    assert_eq!(3, universe.get_index(0, 1));
}

#[test]
fn get_index_at_1_1_should_be_4() {
    let universe = create_universe_3x3_dead();
    assert_eq!(4, universe.get_index(1, 1));
}

#[test]
fn live_neighbor_count_at_0_0_with_all_dead_cells_should_be_0() {
    let universe = create_universe_3x3_dead();
    let count = universe.live_neighbor_count(0, 0);

    assert_eq!(0, count);
}

#[test]
fn live_neighbor_count_at_2_0_with_all_dead_cells_should_be_0() {
    let universe = create_universe_3x3_dead();
    let count = universe.live_neighbor_count(2, 0);

    assert_eq!(0, count);
}

#[test]
fn live_neighbor_count_at_0_2_with_all_dead_cells_should_be_0() {
    let universe = create_universe_3x3_dead();
    let count = universe.live_neighbor_count(0, 2);

    assert_eq!(0, count);
}

#[test]
fn live_neighbor_count_at_2_2_with_all_dead_cells_should_be_0() {
    let universe = create_universe_3x3_dead();
    let count = universe.live_neighbor_count(2, 2);

    assert_eq!(0, count);
}

#[test]
fn live_neighbor_count_at_0_0_with_living_top_and_bottom_rows_should_be_5() {
    let universe = create_universe_3x3_living_top_and_bottom_rows();
    let count = universe.live_neighbor_count(0, 0);

    assert_eq!(5, count);
}

#[test]
fn live_neighbor_count_at_1_1_with_living_top_and_bottom_rows_should_be_6() {
    let universe = create_universe_3x3_living_top_and_bottom_rows();
    let count = universe.live_neighbor_count(1, 1);

    assert_eq!(6, count);
}

#[test]
fn live_neighbor_count_at_2_2_with_living_top_and_bottom_rows_should_be_5() {
    let universe = create_universe_3x3_living_top_and_bottom_rows();
    let count = universe.live_neighbor_count(2, 2);

    assert_eq!(5, count);
}

#[test]
fn tick_with_all_dead_cells_should_not_change() {
    let mut universe = create_universe_3x3_dead();
    universe.tick();

    assert_eq!(cells_3x3_dead(), *universe.cells())
}

#[test]
fn tick_with_living_top_and_bottom_rows_should_all_die_from_overpopulation() {
    let mut universe = create_universe_3x3_living_top_and_bottom_rows();
    universe.tick();

    assert_eq!(cells_3x3_dead(), *universe.cells())
}

#[test]
fn tick_with_blinker_pattern_should_blink_back_and_forth() {
    let mut universe = Universe::from_cells(5, 5, cells_5x5_blinker()).unwrap();

    universe.tick();
    assert_eq!(cells_5x5_blinker_blinked(), *universe.cells());

    universe.tick();
    assert_eq!(cells_5x5_blinker(), *universe.cells());
}
