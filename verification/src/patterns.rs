//! The catalog of classic Game of Life patterns, each as a list of
//! `(dx, dy)` cell offsets to hand to `CellGrid::place_pattern`.

use vstd::prelude::*;

verus! {

/// The block, a 2x2 still life.
pub fn pattern_block() -> (p: Vec<(usize, usize)>)
    ensures
        p@ == seq![(0usize, 0usize), (0usize, 1usize), (1usize, 0usize), (1usize, 1usize)],
{
    let p: Vec<(usize, usize)> = vec![(0, 0), (0, 1), (1, 0), (1, 1)];
    proof {
        assert(p@ =~= seq![(0usize, 0usize), (0usize, 1usize), (1usize, 0usize), (1usize, 1usize)]);
    }
    p
}

/// The beehive, a still life.
pub fn pattern_beehive() -> (p: Vec<(usize, usize)>)
    ensures
        p@ == seq![
            (1usize, 0usize),
            (2usize, 0usize),
            (0usize, 1usize),
            (3usize, 1usize),
            (1usize, 2usize),
            (2usize, 2usize),
        ],
{
    let p: Vec<(usize, usize)> = vec![(1, 0), (2, 0), (0, 1), (3, 1), (1, 2), (2, 2)];
    proof {
        assert(p@ =~= seq![
            (1usize, 0usize),
            (2usize, 0usize),
            (0usize, 1usize),
            (3usize, 1usize),
            (1usize, 2usize),
            (2usize, 2usize),
        ]);
    }
    p
}

/// The loaf, a still life.
pub fn pattern_loaf() -> (p: Vec<(usize, usize)>)
    ensures
        p@ == seq![
            (1usize, 0usize),
            (2usize, 0usize),
            (0usize, 1usize),
            (3usize, 1usize),
            (1usize, 2usize),
            (3usize, 2usize),
            (2usize, 3usize),
        ],
{
    let p: Vec<(usize, usize)> = vec![(1, 0), (2, 0), (0, 1), (3, 1), (1, 2), (3, 2), (2, 3)];
    proof {
        assert(p@ =~= seq![
            (1usize, 0usize),
            (2usize, 0usize),
            (0usize, 1usize),
            (3usize, 1usize),
            (1usize, 2usize),
            (3usize, 2usize),
            (2usize, 3usize),
        ]);
    }
    p
}

/// The boat, a still life.
pub fn pattern_boat() -> (p: Vec<(usize, usize)>)
    ensures
        p@ == seq![
            (0usize, 0usize),
            (1usize, 0usize),
            (0usize, 1usize),
            (2usize, 1usize),
            (1usize, 2usize),
        ],
{
    let p: Vec<(usize, usize)> = vec![(0, 0), (1, 0), (0, 1), (2, 1), (1, 2)];
    proof {
        assert(p@ =~= seq![
            (0usize, 0usize),
            (1usize, 0usize),
            (0usize, 1usize),
            (2usize, 1usize),
            (1usize, 2usize),
        ]);
    }
    p
}

/// The tub, a still life.
pub fn pattern_tub() -> (p: Vec<(usize, usize)>)
    ensures
        p@ == seq![(1usize, 0usize), (0usize, 1usize), (2usize, 1usize), (1usize, 2usize)],
{
    let p: Vec<(usize, usize)> = vec![(1, 0), (0, 1), (2, 1), (1, 2)];
    proof {
        assert(p@ =~= seq![(1usize, 0usize), (0usize, 1usize), (2usize, 1usize), (1usize, 2usize)]);
    }
    p
}

/// The blinker, a period-2 oscillator of 3 collinear cells.
pub fn pattern_blinker() -> (p: Vec<(usize, usize)>)
    ensures
        p@ == seq![(0usize, 1usize), (1usize, 1usize), (2usize, 1usize)],
{
    let p: Vec<(usize, usize)> = vec![(0, 1), (1, 1), (2, 1)];
    proof {
        assert(p@ =~= seq![(0usize, 1usize), (1usize, 1usize), (2usize, 1usize)]);
    }
    p
}

/// The toad, a period-2 oscillator.
pub fn pattern_toad() -> (p: Vec<(usize, usize)>)
    ensures
        p@ == seq![
            (1usize, 0usize),
            (2usize, 0usize),
            (3usize, 0usize),
            (0usize, 1usize),
            (1usize, 1usize),
            (2usize, 1usize),
        ],
{
    let p: Vec<(usize, usize)> = vec![(1, 0), (2, 0), (3, 0), (0, 1), (1, 1), (2, 1)];
    proof {
        assert(p@ =~= seq![
            (1usize, 0usize),
            (2usize, 0usize),
            (3usize, 0usize),
            (0usize, 1usize),
            (1usize, 1usize),
            (2usize, 1usize),
        ]);
    }
    p
}

/// The beacon, a period-2 oscillator.
pub fn pattern_beacon() -> (p: Vec<(usize, usize)>)
    ensures
        p@ == seq![
            (0usize, 0usize),
            (1usize, 0usize),
            (0usize, 1usize),
            (1usize, 1usize),
            (2usize, 2usize),
            (3usize, 2usize),
            (2usize, 3usize),
            (3usize, 3usize),
        ],
{
    let p: Vec<(usize, usize)> = vec![(0, 0), (1, 0), (0, 1), (1, 1), (2, 2), (3, 2), (2, 3), (3, 3)];
    proof {
        assert(p@ =~= seq![
            (0usize, 0usize),
            (1usize, 0usize),
            (0usize, 1usize),
            (1usize, 1usize),
            (2usize, 2usize),
            (3usize, 2usize),
            (2usize, 3usize),
            (3usize, 3usize),
        ]);
    }
    p
}

/// The pulsar, a period-3 oscillator of 48 cells.
pub fn pattern_pulsar() -> (p: Vec<(usize, usize)>)
    ensures
        p@.len() == 48,
        p@ == pulsar_cells(),
{
    let p: Vec<(usize, usize)> = vec![
        (2, 0),
        (3, 0),
        (4, 0),
        (8, 0),
        (9, 0),
        (10, 0),
        (0, 2),
        (5, 2),
        (7, 2),
        (12, 2),
        (0, 3),
        (5, 3),
        (7, 3),
        (12, 3),
        (0, 4),
        (5, 4),
        (7, 4),
        (12, 4),
        (2, 5),
        (3, 5),
        (4, 5),
        (8, 5),
        (9, 5),
        (10, 5),
        (2, 7),
        (3, 7),
        (4, 7),
        (8, 7),
        (9, 7),
        (10, 7),
        (0, 8),
        (5, 8),
        (7, 8),
        (12, 8),
        (0, 9),
        (5, 9),
        (7, 9),
        (12, 9),
        (0, 10),
        (5, 10),
        (7, 10),
        (12, 10),
        (2, 12),
        (3, 12),
        (4, 12),
        (8, 12),
        (9, 12),
        (10, 12),
    ];
    proof {
        assert(p@ =~= pulsar_cells());
    }
    p
}

/// The pulsar's cell offsets.
pub open spec fn pulsar_cells() -> Seq<(usize, usize)> {
    seq![
        (2usize, 0usize),
        (3usize, 0usize),
        (4usize, 0usize),
        (8usize, 0usize),
        (9usize, 0usize),
        (10usize, 0usize),
        (0usize, 2usize),
        (5usize, 2usize),
        (7usize, 2usize),
        (12usize, 2usize),
        (0usize, 3usize),
        (5usize, 3usize),
        (7usize, 3usize),
        (12usize, 3usize),
        (0usize, 4usize),
        (5usize, 4usize),
        (7usize, 4usize),
        (12usize, 4usize),
        (2usize, 5usize),
        (3usize, 5usize),
        (4usize, 5usize),
        (8usize, 5usize),
        (9usize, 5usize),
        (10usize, 5usize),
        (2usize, 7usize),
        (3usize, 7usize),
        (4usize, 7usize),
        (8usize, 7usize),
        (9usize, 7usize),
        (10usize, 7usize),
        (0usize, 8usize),
        (5usize, 8usize),
        (7usize, 8usize),
        (12usize, 8usize),
        (0usize, 9usize),
        (5usize, 9usize),
        (7usize, 9usize),
        (12usize, 9usize),
        (0usize, 10usize),
        (5usize, 10usize),
        (7usize, 10usize),
        (12usize, 10usize),
        (2usize, 12usize),
        (3usize, 12usize),
        (4usize, 12usize),
        (8usize, 12usize),
        (9usize, 12usize),
        (10usize, 12usize),
    ]
}

/// The glider, which repeats its shape one cell down and right every 4
/// generations.
pub fn pattern_glider() -> (p: Vec<(usize, usize)>)
    ensures
        p@ == seq![
            (0usize, 1usize),
            (1usize, 2usize),
            (2usize, 0usize),
            (2usize, 1usize),
            (2usize, 2usize),
        ],
{
    let p: Vec<(usize, usize)> = vec![(0, 1), (1, 2), (2, 0), (2, 1), (2, 2)];
    proof {
        assert(p@ =~= seq![
            (0usize, 1usize),
            (1usize, 2usize),
            (2usize, 0usize),
            (2usize, 1usize),
            (2usize, 2usize),
        ]);
    }
    p
}

/// The lightweight spaceship.
pub fn pattern_lwss() -> (p: Vec<(usize, usize)>)
    ensures
        p@ == seq![
            (1usize, 0usize),
            (4usize, 0usize),
            (0usize, 1usize),
            (0usize, 2usize),
            (4usize, 2usize),
            (0usize, 3usize),
            (1usize, 3usize),
            (2usize, 3usize),
            (3usize, 3usize),
        ],
{
    let p: Vec<(usize, usize)> = vec![
        (1, 0),
        (4, 0),
        (0, 1),
        (0, 2),
        (4, 2),
        (0, 3),
        (1, 3),
        (2, 3),
        (3, 3),
    ];
    proof {
        assert(p@ =~= seq![
            (1usize, 0usize),
            (4usize, 0usize),
            (0usize, 1usize),
            (0usize, 2usize),
            (4usize, 2usize),
            (0usize, 3usize),
            (1usize, 3usize),
            (2usize, 3usize),
            (3usize, 3usize),
        ]);
    }
    p
}

/// The middleweight spaceship.
pub fn pattern_mwss() -> (p: Vec<(usize, usize)>)
    ensures
        p@ == seq![
            (1usize, 0usize),
            (2usize, 0usize),
            (3usize, 0usize),
            (4usize, 0usize),
            (5usize, 0usize),
            (0usize, 1usize),
            (0usize, 2usize),
            (5usize, 2usize),
            (0usize, 3usize),
            (1usize, 3usize),
            (2usize, 3usize),
            (3usize, 3usize),
            (4usize, 3usize),
        ],
{
    let p: Vec<(usize, usize)> = vec![
        (1, 0),
        (2, 0),
        (3, 0),
        (4, 0),
        (5, 0),
        (0, 1),
        (0, 2),
        (5, 2),
        (0, 3),
        (1, 3),
        (2, 3),
        (3, 3),
        (4, 3),
    ];
    proof {
        assert(p@ =~= seq![
            (1usize, 0usize),
            (2usize, 0usize),
            (3usize, 0usize),
            (4usize, 0usize),
            (5usize, 0usize),
            (0usize, 1usize),
            (0usize, 2usize),
            (5usize, 2usize),
            (0usize, 3usize),
            (1usize, 3usize),
            (2usize, 3usize),
            (3usize, 3usize),
            (4usize, 3usize),
        ]);
    }
    p
}

/// The heavyweight spaceship.
pub fn pattern_hwss() -> (p: Vec<(usize, usize)>)
    ensures
        p@ == seq![
            (1usize, 0usize),
            (2usize, 0usize),
            (3usize, 0usize),
            (4usize, 0usize),
            (5usize, 0usize),
            (6usize, 0usize),
            (0usize, 1usize),
            (0usize, 2usize),
            (6usize, 2usize),
            (0usize, 3usize),
            (1usize, 3usize),
            (2usize, 3usize),
            (3usize, 3usize),
            (4usize, 3usize),
            (5usize, 3usize),
        ],
{
    let p: Vec<(usize, usize)> = vec![
        (1, 0),
        (2, 0),
        (3, 0),
        (4, 0),
        (5, 0),
        (6, 0),
        (0, 1),
        (0, 2),
        (6, 2),
        (0, 3),
        (1, 3),
        (2, 3),
        (3, 3),
        (4, 3),
        (5, 3),
    ];
    proof {
        assert(p@ =~= seq![
            (1usize, 0usize),
            (2usize, 0usize),
            (3usize, 0usize),
            (4usize, 0usize),
            (5usize, 0usize),
            (6usize, 0usize),
            (0usize, 1usize),
            (0usize, 2usize),
            (6usize, 2usize),
            (0usize, 3usize),
            (1usize, 3usize),
            (2usize, 3usize),
            (3usize, 3usize),
            (4usize, 3usize),
            (5usize, 3usize),
        ]);
    }
    p
}

} // verus!
