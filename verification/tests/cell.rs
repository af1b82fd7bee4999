use game_of_life::Cell;

#[test]
fn live_cell_with_fewer_than_two_neighbours_dies() {
    assert_eq!(Cell::Alive.evolve(0), Cell::Dead);
    assert_eq!(Cell::Alive.evolve(1), Cell::Dead);
}

#[test]
fn live_cell_with_two_or_three_neighbours_lives_on() {
    assert_eq!(Cell::Alive.evolve(2), Cell::Alive);
    assert_eq!(Cell::Alive.evolve(3), Cell::Alive);
}

#[test]
fn live_cell_with_four_or_more_neighbours_dies() {
    for n in 4..=8 {
        assert_eq!(Cell::Alive.evolve(n), Cell::Dead, "{} neighbours", n);
    }
}

#[test]
fn dead_cell_with_three_neighbours_is_born() {
    assert_eq!(Cell::Dead.evolve(3), Cell::Alive);
}

#[test]
fn dead_cell_without_three_neighbours_stays_dead() {
    for n in [0, 1, 2, 4, 5, 6, 7, 8] {
        assert_eq!(Cell::Dead.evolve(n), Cell::Dead, "{} neighbours", n);
    }
}

#[test]
fn cells_compare_and_copy() {
    let cell = Cell::Alive;
    let copy = cell;
    assert_eq!(cell, copy);
    assert_ne!(Cell::Alive, Cell::Dead);
    assert_eq!(format!("{:?}", Cell::Dead), "Dead");
}
