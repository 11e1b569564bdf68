use life_grid::grid::CellGrid;
use life_grid::patterns::pattern_beacon;
use life_grid::patterns::pattern_beehive;
use life_grid::patterns::pattern_blinker;
use life_grid::patterns::pattern_block;
use life_grid::patterns::pattern_boat;
use life_grid::patterns::pattern_glider;
use life_grid::patterns::pattern_hwss;
use life_grid::patterns::pattern_loaf;
use life_grid::patterns::pattern_lwss;
use life_grid::patterns::pattern_mwss;
use life_grid::patterns::pattern_pulsar;
use life_grid::patterns::pattern_toad;
use life_grid::patterns::pattern_tub;

#[test]
fn pattern_offsets_match_the_catalog() {
    assert_eq!(pattern_block(), vec![(0, 0), (0, 1), (1, 0), (1, 1)]);
    assert_eq!(
        pattern_beehive(),
        vec![(1, 0), (2, 0), (0, 1), (3, 1), (1, 2), (2, 2)]
    );
    assert_eq!(
        pattern_loaf(),
        vec![(1, 0), (2, 0), (0, 1), (3, 1), (1, 2), (3, 2), (2, 3)]
    );
    assert_eq!(pattern_boat(), vec![(0, 0), (1, 0), (0, 1), (2, 1), (1, 2)]);
    assert_eq!(pattern_tub(), vec![(1, 0), (0, 1), (2, 1), (1, 2)]);
    assert_eq!(pattern_blinker(), vec![(0, 1), (1, 1), (2, 1)]);
    assert_eq!(
        pattern_toad(),
        vec![(1, 0), (2, 0), (3, 0), (0, 1), (1, 1), (2, 1)]
    );
    assert_eq!(
        pattern_beacon(),
        vec![(0, 0), (1, 0), (0, 1), (1, 1), (2, 2), (3, 2), (2, 3), (3, 3)]
    );
    assert_eq!(
        pattern_glider(),
        vec![(0, 1), (1, 2), (2, 0), (2, 1), (2, 2)]
    );
    assert_eq!(
        pattern_lwss(),
        vec![(1, 0), (4, 0), (0, 1), (0, 2), (4, 2), (0, 3), (1, 3), (2, 3), (3, 3)]
    );
    assert_eq!(pattern_mwss().len(), 13);
    assert_eq!(pattern_hwss().len(), 15);
    assert_eq!(pattern_pulsar().len(), 48);
}

fn alive_count(g: &CellGrid) -> usize {
    let mut n = 0;
    for y in 0..g.height {
        for x in 0..g.width {
            if g.is_alive(x, y) {
                n += 1;
            }
        }
    }
    n
}

#[test]
fn still_lifes_are_stable() {
    for cells in [pattern_beehive(), pattern_loaf(), pattern_boat(), pattern_tub()] {
        let mut g = CellGrid::new(12, 12);
        g.place_pattern(&cells, 4, 4, 1);
        let before = alive_count(&g);
        g.advance();
        assert_eq!(alive_count(&g), before);
        for (dx, dy) in cells {
            assert!(g.is_alive(4 + dx, 4 + dy));
            assert_eq!(g.tag_of(4 + dx, 4 + dy), Some(1));
        }
    }
}

#[test]
fn toad_and_beacon_return_after_two_generations() {
    for cells in [pattern_toad(), pattern_beacon()] {
        let mut g = CellGrid::new(12, 12);
        g.place_pattern(&cells, 4, 4, 1);
        let mut before: Vec<(usize, usize)> = Vec::new();
        for y in 0..g.height {
            for x in 0..g.width {
                if g.is_alive(x, y) {
                    before.push((x, y));
                }
            }
        }
        g.advance();
        g.advance();
        let mut after: Vec<(usize, usize)> = Vec::new();
        for y in 0..g.height {
            for x in 0..g.width {
                if g.is_alive(x, y) {
                    after.push((x, y));
                }
            }
        }
        assert_eq!(before, after);
    }
}

#[test]
fn pulsar_returns_after_three_generations() {
    let mut g = CellGrid::new(20, 20);
    g.place_pattern(&pattern_pulsar(), 3, 3, 1);
    let before = alive_count(&g);
    assert_eq!(before, 48);
    g.advance();
    g.advance();
    g.advance();
    assert_eq!(alive_count(&g), 48);
    for (dx, dy) in pattern_pulsar() {
        assert!(g.is_alive(3 + dx, 3 + dy));
    }
}
