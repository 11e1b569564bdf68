use life_grid::color::default_palette;
use life_grid::color::Rgb;
use life_grid::grid::CellGrid;
use life_grid::patterns::pattern_blinker;
use life_grid::patterns::pattern_block;
use life_grid::patterns::pattern_glider;

fn alive_cells(g: &CellGrid) -> Vec<(usize, usize)> {
    let mut v: Vec<(usize, usize)> = Vec::new();
    for y in 0..g.height {
        for x in 0..g.width {
            if g.is_alive(x, y) {
                v.push((x, y));
            }
        }
    }
    v
}

#[test]
fn dead_grid_stays_dead() {
    let mut g = CellGrid::new(10, 10);
    for _ in 0..5 {
        g.advance();
    }
    assert_eq!(alive_cells(&g), Vec::new());
    for y in 0..10 {
        for x in 0..10 {
            assert_eq!(g.tag_of(x, y), None);
        }
    }
}

#[test]
fn block_is_a_still_life() {
    let mut g = CellGrid::new(10, 10);
    let block = pattern_block();
    g.place_pattern(&block, 4, 4, 2);
    let before = alive_cells(&g);
    assert_eq!(before, vec![(4, 4), (5, 4), (4, 5), (5, 5)]);
    g.advance();
    assert_eq!(alive_cells(&g), before);
    for &(x, y) in &before {
        assert_eq!(g.tag_of(x, y), Some(2));
    }
}

#[test]
fn blinker_oscillates_with_period_two() {
    let mut g = CellGrid::new(10, 10);
    let blinker = pattern_blinker();
    g.place_pattern(&blinker, 3, 3, 1);
    let start = alive_cells(&g);
    assert_eq!(start, vec![(3, 4), (4, 4), (5, 4)]);
    g.advance();
    assert_eq!(alive_cells(&g), vec![(4, 3), (4, 4), (4, 5)]);
    g.advance();
    assert_eq!(alive_cells(&g), start);
}

#[test]
fn survivors_keep_their_tag() {
    let mut g = CellGrid::new(10, 10);
    let block = pattern_block();
    g.place_pattern(&block, 4, 4, 5);
    g.advance();
    for &(x, y) in &[(4, 4), (5, 4), (4, 5), (5, 5)] {
        assert!(g.is_alive(x, y));
        assert_eq!(g.tag_of(x, y), Some(5));
    }
}

#[test]
fn dead_cells_have_no_tag() {
    let mut g = CellGrid::new(10, 10);
    let blinker = pattern_blinker();
    g.place_pattern(&blinker, 3, 3, 4);
    g.advance();
    // The ends of the horizontal blinker died; their tags are cleared.
    assert!(!g.is_alive(3, 4));
    assert!(!g.is_alive(5, 4));
    assert_eq!(g.tag_of(3, 4), None);
    assert_eq!(g.tag_of(5, 4), None);
}

#[test]
fn lone_cell_dies() {
    let mut g = CellGrid::new(10, 10);
    g.place_pattern(&[(0, 0)], 5, 5, 1);
    assert!(g.is_alive(5, 5));
    g.advance();
    assert_eq!(alive_cells(&g), Vec::new());
    assert_eq!(g.tag_of(5, 5), None);
}

#[test]
fn alive_iff_tagged_at_all_times() {
    let mut g = CellGrid::new(20, 20);
    g.place_pattern(&pattern_glider(), 2, 2, 3);
    g.place_pattern(&pattern_blinker(), 10, 10, 7);
    g.place_pattern(&pattern_block(), 15, 4, 1);
    for _ in 0..6 {
        for y in 0..20 {
            for x in 0..20 {
                assert_eq!(g.is_alive(x, y), g.tag_of(x, y).is_some());
            }
        }
        g.advance();
    }
}

#[test]
fn corner_cell_counts_for_all_wrapped_neighbors() {
    let mut g = CellGrid::new(10, 10);
    g.place_pattern(&[(0, 0)], 0, 0, 0);
    for &(x, y) in &[
        (9, 9),
        (9, 0),
        (0, 9),
        (1, 1),
        (1, 0),
        (0, 1),
        (9, 1),
        (1, 9),
    ] {
        assert_eq!(g.count_alive_neighbors(x, y), 1);
    }
    // A cell away from the corner is unaffected.
    assert_eq!(g.count_alive_neighbors(5, 5), 0);
    // The live cell itself has no live neighbor.
    assert_eq!(g.count_alive_neighbors(0, 0), 0);
}

#[test]
fn glider_translates_by_one_one_in_four_generations() {
    let mut g = CellGrid::new(10, 10);
    g.place_pattern(&pattern_glider(), 2, 2, 0);
    let start = alive_cells(&g);
    assert_eq!(start.len(), 5);
    for _ in 0..4 {
        g.advance();
    }
    let mut expected: Vec<(usize, usize)> = start.iter().map(|&(x, y)| (x + 1, y + 1)).collect();
    let mut moved = alive_cells(&g);
    expected.sort();
    moved.sort();
    assert_eq!(moved, expected);
}

#[test]
fn born_cell_inherits_most_frequent_neighbor_tag() {
    let mut g = CellGrid::new(10, 10);
    // A horizontal triple: tags 2, 7, 7 from left to right.
    g.place_pattern(&[(0, 0)], 1, 1, 2);
    g.place_pattern(&[(0, 0)], 2, 1, 7);
    g.place_pattern(&[(0, 0)], 3, 1, 7);
    g.advance();
    // The cells born above and below the center see tags {2, 7, 7}.
    assert!(g.is_alive(2, 0));
    assert_eq!(g.tag_of(2, 0), Some(7));
    assert!(g.is_alive(2, 2));
    assert_eq!(g.tag_of(2, 2), Some(7));
    // The surviving center keeps its own tag.
    assert!(g.is_alive(2, 1));
    assert_eq!(g.tag_of(2, 1), Some(7));
}

#[test]
fn tag_tie_breaks_toward_smallest_tag() {
    let mut g = CellGrid::new(10, 10);
    // A horizontal triple with three distinct tags: 5, 7, 2.
    g.place_pattern(&[(0, 0)], 1, 1, 5);
    g.place_pattern(&[(0, 0)], 2, 1, 7);
    g.place_pattern(&[(0, 0)], 3, 1, 2);
    g.advance();
    // Each tag occurs once among the born cell's neighbors; the smallest
    // tag wins the tie.
    assert_eq!(g.tag_of(2, 0), Some(2));
    assert_eq!(g.tag_of(2, 2), Some(2));
}

#[test]
fn out_of_bounds_placement_is_skipped() {
    let mut g = CellGrid::new(10, 10);
    g.place_pattern(&pattern_block(), 9, 9, 1);
    // Only the block's (0, 0) offset lands inside the grid; there is no
    // wraparound during placement.
    assert_eq!(alive_cells(&g), vec![(9, 9)]);
    // A placement far outside the grid changes nothing.
    g.place_pattern(&pattern_block(), usize::MAX, 0, 1);
    assert_eq!(alive_cells(&g), vec![(9, 9)]);
}

#[test]
fn later_placement_overwrites_earlier() {
    let mut g = CellGrid::new(10, 10);
    g.place_pattern(&pattern_block(), 4, 4, 1);
    g.place_pattern(&pattern_block(), 5, 5, 2);
    assert_eq!(g.tag_of(4, 4), Some(1));
    assert_eq!(g.tag_of(5, 5), Some(2));
    assert_eq!(g.tag_of(5, 4), Some(1));
    assert_eq!(g.tag_of(6, 6), Some(2));
}

#[test]
fn colors_resolve_through_the_palette() {
    let palette = default_palette();
    assert_eq!(palette.len(), 13);
    let mut g = CellGrid::new(10, 10);
    g.place_pattern(&[(0, 0)], 1, 1, 0);
    g.place_pattern(&[(0, 0)], 3, 3, 14);
    // Tag 0 maps to the first palette entry.
    assert_eq!(g.color_at(1, 1, &palette), Rgb { r: 230, g: 41, b: 55 });
    // Tag 14 wraps around the 13-entry palette to entry 1.
    assert_eq!(g.color_at(3, 3, &palette), Rgb { r: 255, g: 161, b: 0 });
    // A dead cell shows the background color.
    assert_eq!(g.color_at(5, 5, &palette), Rgb { r: 0, g: 0, b: 0 });
}

#[test]
fn single_entry_palette_renders_all_live_cells_alike() {
    let palette = vec![Rgb { r: 9, g: 9, b: 9 }];
    let mut g = CellGrid::new(10, 10);
    g.place_pattern(&[(0, 0)], 1, 1, 0);
    g.place_pattern(&[(0, 0)], 3, 3, 11);
    assert_eq!(g.color_at(1, 1, &palette), Rgb { r: 9, g: 9, b: 9 });
    assert_eq!(g.color_at(3, 3, &palette), Rgb { r: 9, g: 9, b: 9 });
}
