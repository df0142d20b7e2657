use game_of_life::{Cell, Universe, UniverseEdgeMode, UniverseError};

fn universe_of(rows: &[&str], edge_mode: UniverseEdgeMode) -> Universe {
    let mut cells = Vec::new();
    for row in rows {
        for symbol in row.chars() {
            cells.push(if symbol == '#' { Cell::Alive } else { Cell::Dead });
        }
    }
    let width = rows.len() as u32;
    let height = rows[0].chars().count() as u32;
    Universe::from_cells(width, height, cells, edge_mode).unwrap()
}

fn picture(universe: &Universe) -> Vec<String> {
    let height = universe.height() as usize;
    universe
        .cells()
        .chunks(height)
        .map(|row| row.iter().map(|c| if *c == Cell::Alive { '#' } else { '.' }).collect())
        .collect()
}

#[test]
fn lonely_cell_dies() {
    let mut universe = universe_of(&["...", ".#.", "..."], UniverseEdgeMode::Wrap);
    assert_eq!(universe.live_neighbor_count(1, 1), 0);
    assert_eq!(universe.tick(), Ok(()));
    assert_eq!(picture(&universe), vec!["...", "...", "..."]);
}

#[test]
fn block_is_a_still_life() {
    let rows = ["##.", "##.", "..."];
    let mut universe = universe_of(&rows, UniverseEdgeMode::Wrap);
    for _ in 0..25 {
        assert_eq!(universe.tick(), Ok(()));
        assert_eq!(picture(&universe), rows.to_vec());
    }
}

#[test]
fn block_is_a_still_life_away_from_fixed_borders() {
    let rows = ["....", ".##.", ".##.", "...."];
    let mut universe = universe_of(&rows, UniverseEdgeMode::FixedDead);
    for _ in 0..10 {
        assert_eq!(universe.tick(), Ok(()));
        assert_eq!(picture(&universe), rows.to_vec());
    }
}

#[test]
fn blinker_turns_and_returns_after_two_ticks() {
    let flat = [".....", ".....", ".###.", ".....", "....."];
    let upright = [".....", "..#..", "..#..", "..#..", "....."];
    let mut universe = universe_of(&flat, UniverseEdgeMode::Wrap);
    for _ in 0..4 {
        assert_eq!(universe.tick(), Ok(()));
        assert_eq!(picture(&universe), upright.to_vec());
        assert_eq!(universe.tick(), Ok(()));
        assert_eq!(picture(&universe), flat.to_vec());
    }
}

#[test]
fn blinker_turns_across_a_wrapping_border() {
    let flat = ["##..#", ".....", ".....", ".....", "....."];
    let upright = ["#....", "#....", ".....", ".....", "#...."];
    let mut universe = universe_of(&flat, UniverseEdgeMode::Wrap);
    assert_eq!(universe.tick(), Ok(()));
    assert_eq!(picture(&universe), upright.to_vec());
    assert_eq!(universe.tick(), Ok(()));
    assert_eq!(picture(&universe), flat.to_vec());
}

#[test]
fn tick_reads_only_the_old_generation() {
    let mut universe = universe_of(&["###.", "....", "....", "...."], UniverseEdgeMode::FixedDead);
    assert_eq!(universe.tick(), Ok(()));
    assert_eq!(picture(&universe), vec![".#..", ".#..", "....", "...."]);
}

#[test]
fn tick_on_a_grid_that_is_not_square() {
    let mut universe = universe_of(&["###.", "...."], UniverseEdgeMode::FixedDead);
    assert_eq!(universe.tick(), Ok(()));
    assert_eq!(picture(&universe), vec![".#..", ".#.."]);
    assert_eq!(universe.width(), 2);
    assert_eq!(universe.height(), 4);
}

#[test]
fn fixed_dead_corner_cell_dies_alone() {
    let mut universe = universe_of(&["#...", "....", "....", "...#"], UniverseEdgeMode::FixedDead);
    assert_eq!(universe.tick(), Ok(()));
    assert_eq!(picture(&universe), vec!["....", "....", "....", "...."]);
}

#[test]
fn fixed_alive_border_gives_birth_along_the_edges() {
    let mut universe =
        universe_of(&["....", "....", "....", "...."], UniverseEdgeMode::FixedAlive);
    assert_eq!(universe.tick(), Ok(()));
    assert_eq!(picture(&universe), vec![".##.", "#..#", "#..#", ".##."]);
}

#[test]
fn tick_keeps_size_and_mode() {
    let mut universe = Universe::with_config(7, 3, UniverseEdgeMode::FixedAlive).unwrap();
    assert_eq!(universe.tick(), Ok(()));
    assert_eq!(universe.width(), 7);
    assert_eq!(universe.height(), 3);
    assert_eq!(universe.cells().len(), 21);
    assert_eq!(universe.edge_mode(), UniverseEdgeMode::FixedAlive);
}

#[test]
fn tick_follows_the_rule_at_every_cell() {
    let modes = [UniverseEdgeMode::FixedAlive, UniverseEdgeMode::FixedDead, UniverseEdgeMode::Wrap];
    for mode in modes {
        let before = Universe::with_config(6, 9, mode).unwrap();
        let mut after = Universe::with_config(6, 9, mode).unwrap();
        assert_eq!(after.tick(), Ok(()));
        for row in 0..6 {
            for column in 0..9 {
                let me = before.cell(row, column).unwrap();
                let expected = me.next(before.live_neighbor_count(row, column));
                assert_eq!(after.cell(row, column), Some(expected));
            }
        }
    }
}

#[test]
fn expand_mode_cannot_tick() {
    let mut universe = Universe::with_config(4, 4, UniverseEdgeMode::Expand).unwrap();
    let before = universe.cells().to_vec();
    assert_eq!(universe.tick(), Err(UniverseError::UnsupportedEdgeMode));
    assert_eq!(universe.cells(), &before[..]);
    assert_eq!(universe.width(), 4);
    assert_eq!(universe.height(), 4);
    assert_eq!(universe.edge_mode(), UniverseEdgeMode::Expand);
    assert_eq!(universe.tick(), Err(UniverseError::UnsupportedEdgeMode));
    assert_eq!(universe.cells(), &before[..]);
}

#[test]
fn default_universe_advances() {
    let mut universe = Universe::new();
    let before = universe.cells().to_vec();
    assert_eq!(universe.tick(), Ok(()));
    assert_eq!(universe.cells().len(), before.len());
    assert_ne!(universe.cells(), &before[..]);
}
