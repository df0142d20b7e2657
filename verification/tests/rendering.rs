use game_of_life::{Cell, Universe, UniverseEdgeMode};

#[test]
fn render_writes_one_line_for_each_row() {
    let cells = vec![Cell::Dead, Cell::Alive, Cell::Alive, Cell::Dead, Cell::Dead, Cell::Alive];
    let universe = Universe::from_cells(2, 3, cells, UniverseEdgeMode::Wrap).unwrap();
    assert_eq!(universe.render(), "◻◼◼\n◻◻◼\n");
}

#[test]
fn render_of_a_single_cell() {
    let alive = Universe::from_cells(1, 1, vec![Cell::Alive], UniverseEdgeMode::Wrap).unwrap();
    assert_eq!(alive.render(), "◼\n");
    let dead = Universe::from_cells(1, 1, vec![Cell::Dead], UniverseEdgeMode::Wrap).unwrap();
    assert_eq!(dead.render(), "◻\n");
}

#[test]
fn render_of_a_single_column() {
    let cells = vec![Cell::Alive, Cell::Dead, Cell::Alive];
    let universe = Universe::from_cells(3, 1, cells, UniverseEdgeMode::FixedDead).unwrap();
    assert_eq!(universe.render(), "◼\n◻\n◼\n");
}

#[test]
fn render_twice_gives_the_same_text() {
    let universe = Universe::with_config(9, 6, UniverseEdgeMode::FixedAlive).unwrap();
    let first = universe.render();
    let second = universe.render();
    assert_eq!(first, second);
}

#[test]
fn render_does_not_change_the_universe() {
    let universe = Universe::with_config(5, 5, UniverseEdgeMode::Wrap).unwrap();
    let before = universe.cells().to_vec();
    let _ = universe.render();
    assert_eq!(universe.cells(), &before[..]);
}

#[test]
fn render_of_the_default_universe() {
    let text = Universe::new().render();
    let lines: Vec<&str> = text.split('\n').collect();
    assert_eq!(lines.len(), 129);
    assert_eq!(lines[128], "");
    for line in &lines[..128] {
        assert_eq!(line.chars().count(), 128);
    }
    assert!(lines[0].starts_with("◼◻◼◻◼◻◼◼◼◻"));
    assert_eq!(text.chars().count(), 128 * 129);
    assert!(text.ends_with('\n'));
}

#[test]
fn render_follows_a_tick() {
    let cells = vec![
        Cell::Alive, Cell::Alive, Cell::Alive, Cell::Dead,
        Cell::Dead, Cell::Dead, Cell::Dead, Cell::Dead,
    ];
    let mut universe = Universe::from_cells(2, 4, cells, UniverseEdgeMode::FixedDead).unwrap();
    assert_eq!(universe.render(), "◼◼◼◻\n◻◻◻◻\n");
    assert_eq!(universe.tick(), Ok(()));
    assert_eq!(universe.render(), "◻◼◻◻\n◻◼◻◻\n");
}
