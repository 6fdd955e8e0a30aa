use game_of_life::grid::CellGrid;
use game_of_life::kernel::{count_live_neighbors, StepStrategy};
use game_of_life::painting::{uv_to_cell, PointerButton, Uv, UV_ONE};
use game_of_life::patterns::{get_blinker, Pattern};
use game_of_life::simulation::{GameOfLife, GolError};

fn cells(sim: &GameOfLife) -> Vec<u8> {
    sim.get_current_view().cells().clone()
}

fn grid_with(width: u32, height: u32, strategy: StepStrategy, alive: &[(u32, u32)]) -> GameOfLife {
    let mut sim = GameOfLife::new(width, height, strategy, 100, 0).unwrap();
    for &(x, y) in alive {
        sim.write_area(&[1], x, y, 1, 1).unwrap();
    }
    sim
}

fn expected(width: u32, height: u32, alive: &[(u32, u32)]) -> Vec<u8> {
    let mut v = vec![0u8; (width * height) as usize];
    for &(x, y) in alive {
        v[(y * width + x) as usize] = 1;
    }
    v
}

#[test]
fn block_is_still_life() {
    let block = [(2, 2), (3, 2), (2, 3), (3, 3)];
    for strategy in [StepStrategy::Raster, StepStrategy::Compute] {
        let mut sim = grid_with(8, 8, strategy, &block);
        let before = cells(&sim);
        sim.update();
        assert_eq!(cells(&sim), before);
        assert_eq!(cells(&sim), expected(8, 8, &block));
    }
}

#[test]
fn blinker_oscillates_with_period_two() {
    let vertical = [(3, 2), (3, 3), (3, 4)];
    let horizontal = [(2, 3), (3, 3), (4, 3)];
    for strategy in [StepStrategy::Raster, StepStrategy::Compute] {
        let mut sim = GameOfLife::new(8, 8, strategy, 100, 0).unwrap();
        sim.place_pattern(&get_blinker(), 2, 2).unwrap();
        assert_eq!(cells(&sim), expected(8, 8, &vertical));
        sim.update();
        assert_eq!(cells(&sim), expected(8, 8, &horizontal));
        sim.update();
        assert_eq!(cells(&sim), expected(8, 8, &vertical));
    }
}

#[test]
fn blinker_across_the_edge_wraps() {
    // A vertical bar through row 0 wraps to the bottom row.
    let mut sim = grid_with(5, 5, StepStrategy::Raster, &[(2, 4), (2, 0), (2, 1)]);
    sim.update();
    assert_eq!(cells(&sim), expected(5, 5, &[(1, 0), (2, 0), (3, 0)]));
}

#[test]
fn corner_cell_is_neighbour_across_both_edges() {
    let n = 6u32;
    let sim = grid_with(n, n, StepStrategy::Raster, &[(0, 0)]);
    let grid: &CellGrid = sim.get_current_view();
    let around = [
        (n - 1, n - 1),
        (n - 1, 0),
        (n - 1, 1),
        (0, n - 1),
        (0, 1),
        (1, n - 1),
        (1, 0),
        (1, 1),
    ];
    for &(x, y) in &around {
        assert_eq!(count_live_neighbors(grid, x, y), 1, "cell ({x}, {y})");
    }
    assert_eq!(count_live_neighbors(grid, 0, 0), 0);
    assert_eq!(count_live_neighbors(grid, 3, 3), 0);
    assert_eq!(count_live_neighbors(grid, 2, 0), 0);
}

#[test]
fn three_corner_cells_give_birth_across_edges() {
    // (n-1, n-1), (0, n-1) and (n-1, 0) are the three live neighbours of (0, 0).
    let n = 6u32;
    let mut sim = grid_with(n, n, StepStrategy::Raster, &[(n - 1, n - 1), (0, n - 1), (n - 1, 0)]);
    sim.update();
    assert_eq!(sim.get_current_view().cell(0, 0), 1);
}

#[test]
fn maybe_step_runs_at_most_one_step_per_interval() {
    let mut sim = GameOfLife::new(8, 8, StepStrategy::Raster, 100, 1000).unwrap();
    sim.place_pattern(&get_blinker(), 2, 2).unwrap();
    let vertical = cells(&sim);
    // Not yet due.
    assert_eq!(sim.maybe_step(1050).cells(), &vertical);
    assert_eq!(sim.maybe_step(1099).cells(), &vertical);
    // Due: exactly one step.
    let horizontal = sim.maybe_step(1100).cells().clone();
    assert_ne!(horizontal, vertical);
    // Many calls inside the interval: no further step.
    for now in [1100, 1101, 1150, 1199] {
        assert_eq!(sim.maybe_step(now).cells(), &horizontal);
    }
    // The interval has passed again.
    assert_eq!(sim.maybe_step(1200).cells(), &vertical);
}

#[test]
fn maybe_step_does_not_catch_up() {
    let mut sim = GameOfLife::new(8, 8, StepStrategy::Compute, 10, 0).unwrap();
    sim.place_pattern(&get_blinker(), 2, 2).unwrap();
    let vertical = cells(&sim);
    // Ten intervals have passed, yet one call runs one step.
    let after = sim.maybe_step(100).cells().clone();
    assert_ne!(after, vertical);
    assert_eq!(sim.maybe_step(105).cells(), &after);
}

#[test]
fn write_then_read_round_trip() {
    let mut sim = GameOfLife::new(512, 8, StepStrategy::Compute, 100, 0).unwrap();
    let data: Vec<u8> = (0..256 * 3).map(|i| ((i * 7 + i / 5) % 2) as u8).collect();
    sim.write_area(&data, 256, 4, 256, 3).unwrap();
    assert_eq!(sim.read_area(256, 4, 256, 3).unwrap(), data);
    // Cells outside the rectangle stay dead.
    assert_eq!(sim.read_area(0, 0, 512, 4).unwrap(), vec![0u8; 512 * 4]);
    assert_eq!(sim.read_area(0, 7, 512, 1).unwrap(), vec![0u8; 512]);
}

#[test]
fn edits_go_to_the_current_grid_only() {
    let mut sim = GameOfLife::new(8, 8, StepStrategy::Raster, 0, 0).unwrap();
    sim.update();
    sim.write_area(&[1, 1, 1, 1], 2, 2, 2, 2).unwrap();
    assert_eq!(cells(&sim), expected(8, 8, &[(2, 2), (3, 2), (2, 3), (3, 3)]));
    sim.update();
    // The block survives the step, so the edit was read by it.
    assert_eq!(cells(&sim), expected(8, 8, &[(2, 2), (3, 2), (2, 3), (3, 3)]));
}

#[test]
fn write_area_rejects_wrong_payloads() {
    let mut sim = GameOfLife::new(8, 8, StepStrategy::Raster, 100, 0).unwrap();
    let before = cells(&sim);
    assert_eq!(sim.write_area(&[1, 1, 1], 0, 0, 2, 2), Err(GolError::SizeMismatch));
    assert_eq!(sim.write_area(&[1, 2, 1, 0], 0, 0, 2, 2), Err(GolError::SizeMismatch));
    assert_eq!(sim.write_area(&[1, 1, 1, 1], 7, 0, 2, 2), Err(GolError::OutOfBounds));
    assert_eq!(sim.write_area(&[1, 1, 1, 1], 0, 7, 2, 2), Err(GolError::OutOfBounds));
    // A size mismatch is reported even when the rectangle is also outside.
    assert_eq!(sim.write_area(&[1], 9, 9, 2, 2), Err(GolError::SizeMismatch));
    assert_eq!(cells(&sim), before);
    assert_eq!(sim.write_area(&[1, 1, 1, 1], 6, 6, 2, 2), Ok(()));
}

#[test]
fn read_area_rejects_unaligned_and_outside() {
    let sim = GameOfLife::new(256, 4, StepStrategy::Raster, 100, 0).unwrap();
    assert_eq!(sim.read_area(0, 0, 100, 1), Err(GolError::AlignmentError));
    assert_eq!(sim.read_area(0, 0, 255, 1), Err(GolError::AlignmentError));
    assert_eq!(sim.read_area(0, 0, 256, 5), Err(GolError::OutOfBounds));
    assert_eq!(sim.read_area(1, 0, 256, 1), Err(GolError::OutOfBounds));
    // Alignment is checked first.
    assert_eq!(sim.read_area(1000, 1000, 3, 1), Err(GolError::AlignmentError));
    assert_eq!(sim.read_area(0, 3, 256, 1), Ok(vec![0u8; 256]));
    assert_eq!(sim.read_area(0, 0, 0, 0), Ok(vec![]));
}

#[test]
fn dimension_validation() {
    assert_eq!(GameOfLife::new(0, 8, StepStrategy::Raster, 1, 0).err(), Some(GolError::InvalidDimensions));
    assert_eq!(GameOfLife::new(8, 0, StepStrategy::Compute, 1, 0).err(), Some(GolError::InvalidDimensions));
    assert_eq!(GameOfLife::new(12, 8, StepStrategy::Compute, 1, 0).err(), Some(GolError::InvalidDimensions));
    assert_eq!(GameOfLife::new(8, 20, StepStrategy::Compute, 1, 0).err(), Some(GolError::InvalidDimensions));
    let sim = GameOfLife::new(12, 20, StepStrategy::Raster, 1, 0).unwrap();
    assert_eq!(sim.get_size(), (12, 20));
    assert_eq!(cells(&sim), vec![0u8; 240]);
    let sim = GameOfLife::new(16, 24, StepStrategy::Compute, 1, 0).unwrap();
    assert_eq!(sim.get_size(), (16, 24));
}

#[test]
fn paint_sets_and_clears_cells() {
    let mut sim = GameOfLife::new(10, 8, StepStrategy::Raster, 100, 0).unwrap();
    let uv = Uv { u: UV_ONE / 2, v: UV_ONE / 4 };
    assert!(sim.paint(uv, PointerButton::Left));
    assert_eq!(cells(&sim), expected(10, 8, &[(5, 2)]));
    assert!(!sim.paint(uv, PointerButton::Other));
    assert_eq!(cells(&sim), expected(10, 8, &[(5, 2)]));
    assert!(sim.paint(uv, PointerButton::Right));
    assert_eq!(cells(&sim), expected(10, 8, &[]));
    assert!(sim.paint(Uv { u: 0, v: 0 }, PointerButton::Left));
    assert_eq!(cells(&sim), expected(10, 8, &[(0, 0)]));
}

#[test]
fn paint_outside_the_unit_square_is_a_no_op() {
    let mut sim = GameOfLife::new(10, 8, StepStrategy::Raster, 100, 0).unwrap();
    sim.place_pattern(&get_blinker(), 1, 1).unwrap();
    let before = cells(&sim);
    for uv in [
        Uv { u: -1, v: UV_ONE / 2 },
        Uv { u: UV_ONE + 1, v: UV_ONE / 2 },
        Uv { u: UV_ONE / 2, v: -UV_ONE },
        Uv { u: UV_ONE / 2, v: UV_ONE * 2 },
    ] {
        assert!(sim.paint(uv, PointerButton::Left));
        assert!(sim.paint(uv, PointerButton::Right));
        assert!(sim.paint(uv, PointerButton::Other));
        assert_eq!(cells(&sim), before);
    }
}

#[test]
fn uv_maps_to_cells_by_rounding_down() {
    assert_eq!(uv_to_cell(Uv { u: UV_ONE / 2, v: UV_ONE / 4 }, 10, 8), Some((5, 2)));
    assert_eq!(uv_to_cell(Uv { u: UV_ONE - 1, v: UV_ONE - 1 }, 10, 8), Some((9, 7)));
    assert_eq!(uv_to_cell(Uv { u: UV_ONE / 3, v: 0 }, 10, 8), Some((3, 0)));
    assert_eq!(uv_to_cell(Uv { u: UV_ONE, v: 0 }, 10, 8), Some((9, 0)));
    assert_eq!(uv_to_cell(Uv { u: UV_ONE, v: UV_ONE }, 10, 8), Some((9, 7)));
    assert_eq!(uv_to_cell(Uv { u: 0, v: 0 }, 0, 8), None);
    assert_eq!(uv_to_cell(Uv { u: -1, v: 0 }, 10, 8), None);
    assert_eq!(uv_to_cell(Uv { u: 0, v: UV_ONE + 1 }, 10, 8), None);
}

#[test]
fn place_pattern_outside_is_refused() {
    let mut sim = GameOfLife::new(8, 8, StepStrategy::Raster, 100, 0).unwrap();
    let p = Pattern { data: vec![1, 1, 1, 1], width: 2, height: 2 };
    assert_eq!(sim.place_pattern(&p, 7, 0), Err(GolError::OutOfBounds));
    assert_eq!(cells(&sim), vec![0u8; 64]);
    assert_eq!(sim.place_pattern(&p, 6, 6), Ok(()));
    assert_eq!(cells(&sim), expected(8, 8, &[(6, 6), (7, 6), (6, 7), (7, 7)]));
}

#[test]
fn strategies_agree_on_a_random_looking_grid() {
    let data: Vec<u8> = (0..16 * 16u32).map(|i| (i.wrapping_mul(2654435761u32) >> 31) as u8).collect();
    let mut a = GameOfLife::new(16, 16, StepStrategy::Raster, 1, 0).unwrap();
    let mut b = GameOfLife::new(16, 16, StepStrategy::Compute, 1, 0).unwrap();
    a.write_area(&data, 0, 0, 16, 16).unwrap();
    b.write_area(&data, 0, 0, 16, 16).unwrap();
    for _ in 0..5 {
        a.update();
        b.update();
        assert_eq!(cells(&a), cells(&b));
    }
}

#[test]
fn tile_sizes() {
    assert_eq!(StepStrategy::Raster.tile_size(), 1);
    assert_eq!(StepStrategy::Compute.tile_size(), 8);
}

#[test]
fn paint_at_the_far_edge_hits_the_last_cell() {
    let mut sim = GameOfLife::new(8, 8, StepStrategy::Raster, 100, 0).unwrap();
    assert!(sim.paint(Uv { u: UV_ONE, v: 0 }, PointerButton::Left));
    assert_eq!(cells(&sim), expected(8, 8, &[(7, 0)]));
    assert!(sim.paint(Uv { u: UV_ONE, v: UV_ONE }, PointerButton::Left));
    assert_eq!(cells(&sim), expected(8, 8, &[(7, 0), (7, 7)]));
    assert!(!sim.paint(Uv { u: UV_ONE, v: UV_ONE }, PointerButton::Other));
    assert!(sim.paint(Uv { u: UV_ONE, v: 0 }, PointerButton::Right));
    assert_eq!(cells(&sim), expected(8, 8, &[(7, 7)]));
}

#[test]
fn three_corners_complete_a_block_across_both_edges() {
    let n = 6u32;
    let seeds = [(0, 0), (n - 1, 0), (0, n - 1)];
    let mut sim = grid_with(n, n, StepStrategy::Raster, &seeds);
    sim.update();
    let block = [(0, 0), (n - 1, 0), (0, n - 1), (n - 1, n - 1)];
    assert_eq!(cells(&sim), expected(n, n, &block));
    sim.update();
    assert_eq!(cells(&sim), expected(n, n, &block));
}

#[test]
fn bar_across_the_row_edge_turns_across_the_column_edge() {
    let (w, h) = (5u32, 5u32);
    let mut sim = grid_with(w, h, StepStrategy::Raster, &[(0, h - 1), (0, 0), (0, 1)]);
    sim.update();
    assert_eq!(cells(&sim), expected(w, h, &[(w - 1, 0), (0, 0), (1, 0)]));
}

#[test]
fn corner_cell_reaches_only_its_wrapped_neighbours() {
    let n = 7u32;
    let others = [(1, 1), (2, 1), (1, 2), (6, 6), (5, 6), (3, 3), (4, 3), (3, 4)];
    let mut without = grid_with(n, n, StepStrategy::Raster, &others);
    let mut with = grid_with(n, n, StepStrategy::Raster, &others);
    with.write_area(&[1], 0, 0, 1, 1).unwrap();
    without.update();
    with.update();
    let near = |c: u32| c == n - 1 || c == 0 || c == 1;
    let mut differ = 0;
    for y in 0..n {
        for x in 0..n {
            let (a, b) = (with.get_current_view().cell(x, y), without.get_current_view().cell(x, y));
            if !(near(x) && near(y)) {
                assert_eq!(a, b, "cell ({x}, {y})");
            } else if a != b {
                differ += 1;
            }
        }
    }
    assert!(differ > 0);
}
