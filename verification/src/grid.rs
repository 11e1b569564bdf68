//! The simulation engine: a fixed-size toroidal grid of cells, each with a
//! liveness flag and an optional color tag identifying its pattern lineage.

use crate::color::background_color;
use crate::color::untagged_color;
use crate::color::Rgb;
use vstd::prelude::*;

verus! {

/// A toroidal Game of Life grid of fixed dimensions `width` x `height`.
///
/// Two same-shaped 2D arrays hold the state: `cells[y][x]` is the liveness of
/// the cell at column `x`, row `y`, and `tags[y][x]` is its color tag.
/// A live cell always carries a tag and a dead cell never does; `new`
/// establishes that invariant and `place_pattern` and `advance` preserve it
/// (see `tags_consistent`).
pub struct CellGrid {
    pub width: usize,
    pub height: usize,
    pub cells: Vec<Vec<bool>>,
    pub tags: Vec<Vec<Option<usize>>>,
}

/// Decrement a coordinate by one with wraparound: the coordinate of the
/// left (or upper) toroidal neighbor.
pub open spec fn dec_wrap(i: int, n: int) -> int {
    if i == 0 {
        n - 1
    } else {
        i - 1
    }
}

/// Increment a coordinate by one with wraparound: the coordinate of the
/// right (or lower) toroidal neighbor.
pub open spec fn inc_wrap(i: int, n: int) -> int {
    if i == n - 1 {
        0
    } else {
        i + 1
    }
}

/// 1 if the flag is set, else 0; used to sum liveness over a neighborhood.
pub open spec fn count1(b: bool) -> nat {
    if b {
        1
    } else {
        0
    }
}

/// The standard transition rule as a function of current liveness and the
/// live-neighbor count: a live cell survives with 2 or 3 live neighbors, a
/// dead cell is born with exactly 3, every other combination is dead.
pub open spec fn rule_alive(cur: bool, n: nat) -> bool {
    n == 3 || (cur && n == 2)
}

/// Whether the option holds exactly the tag `t`.
fn opt_is(o: Option<usize>, t: usize) -> (b: bool)
    ensures
        b == (o == Some(t)),
{
    match o {
        Some(v) => v == t,
        None => false,
    }
}

/// How often the tag `t` occurs in a sequence of optional tags.
pub open spec fn occ_count(s: Seq<Option<usize>>, t: usize) -> nat
    decreases s.len(),
{
    if s.len() == 0 {
        0
    } else {
        occ_count(s.drop_last(), t) + count1(s.last() == Some(t))
    }
}

/// A tag `t` is a majority tag of `s` when it occurs, no tag occurs more
/// often, and every equally frequent tag is at least as large.
pub open spec fn is_majority_tag(s: Seq<Option<usize>>, t: usize) -> bool {
    &&& occ_count(s, t) >= 1
    &&& forall|u: usize| #[trigger] occ_count(s, u) <= occ_count(s, t)
    &&& forall|u: usize| #[trigger] occ_count(s, u) == occ_count(s, t) ==> t <= u
}

/// A tag with a positive occurrence count occurs at some position.
proof fn lemma_occ_witness(s: Seq<Option<usize>>, u: usize)
    requires
        occ_count(s, u) >= 1,
    ensures
        exists|k: int| 0 <= k < s.len() && s[k] == Some(u),
    decreases s.len(),
{
    if s.last() == Some(u) {
        assert(0 <= s.len() - 1 < s.len() && s[s.len() - 1] == Some(u));
    } else {
        lemma_occ_witness(s.drop_last(), u);
        let k = choose|k: int| 0 <= k < s.drop_last().len() && s.drop_last()[k] == Some(u);
        assert(0 <= k < s.len() && s[k] == Some(u));
    }
}

/// A tag that occurs at some position has a positive occurrence count.
pub proof fn lemma_occ_member(s: Seq<Option<usize>>, k: int, u: usize)
    requires
        0 <= k < s.len(),
        s[k] == Some(u),
    ensures
        occ_count(s, u) >= 1,
    decreases s.len(),
{
    if k == s.len() - 1 {
    } else {
        lemma_occ_member(s.drop_last(), k, u);
    }
}

/// Count the occurrences of the tag `t` in `ns`.
fn count_occ(ns: &Vec<Option<usize>>, t: usize) -> (c: u8)
    requires
        ns@.len() <= 255,
    ensures
        c == occ_count(ns@, t),
{
    let mut c: u8 = 0;
    let mut j: usize = 0;
    while j < ns.len()
        invariant
            ns@.len() <= 255,
            j <= ns@.len(),
            c as nat == occ_count(ns@.take(j as int), t),
            c <= j,
        decreases ns@.len() - j,
    {
        proof {
            assert(ns@.take(j + 1).drop_last() =~= ns@.take(j as int));
            assert(ns@.take(j + 1).last() == ns@[j as int]);
        }
        if opt_is(ns[j], t) {
            c = c + 1;
        }
        j = j + 1;
    }
    proof {
        assert(ns@.take(ns@.len() as int) =~= ns@);
    }
    c
}

/// Pick the majority tag of `ns`: the most frequent tag, and the smallest
/// among equally frequent ones; `None` when no entry carries a tag.
fn pick_majority(ns: &Vec<Option<usize>>) -> (r: Option<usize>)
    requires
        ns@.len() <= 255,
    ensures
        match r {
            Some(t) => is_majority_tag(ns@, t),
            None => forall|u: usize| #[trigger] occ_count(ns@, u) == 0,
        },
{
    let ghost s = ns@;
    let mut best: Option<usize> = None;
    let mut best_c: u8 = 0;
    let mut j: usize = 0;
    while j < ns.len()
        invariant
            s == ns@,
            s.len() <= 255,
            j <= s.len(),
            match best {
                None => best_c == 0 && (forall|k: int| 0 <= k < j ==> s[k] is None),
                Some(b) => {
                    &&& occ_count(s, b) == best_c
                    &&& best_c >= 1
                    &&& forall|k: int|
                        0 <= k < j ==> match #[trigger] s[k] {
                            Some(u) => occ_count(s, u) < best_c || (occ_count(s, u) == best_c && b
                                <= u),
                            None => true,
                        }
                },
            },
        decreases s.len() - j,
    {
        match ns[j] {
            Some(u) => {
                let c = count_occ(ns, u);
                proof {
                    lemma_occ_member(s, j as int, u);
                }
                let take = match best {
                    None => true,
                    Some(b) => c > best_c || (c == best_c && u < b),
                };
                if take {
                    best = Some(u);
                    best_c = c;
                }
            },
            None => {},
        }
        j = j + 1;
    }
    proof {
        match best {
            None => {
                assert forall|u: usize| #[trigger] occ_count(s, u) == 0 by {
                    if occ_count(s, u) >= 1 {
                        lemma_occ_witness(s, u);
                        let k = choose|k: int| 0 <= k < s.len() && s[k] == Some(u);
                        assert(s[k] is None);
                    }
                }
            },
            Some(b) => {
                assert forall|u: usize| #[trigger] occ_count(s, u) <= occ_count(s, b) by {
                    if occ_count(s, u) >= 1 {
                        lemma_occ_witness(s, u);
                        let k = choose|k: int| 0 <= k < s.len() && s[k] == Some(u);
                        assert(s[k] == Some(u));
                    }
                }
                assert forall|u: usize| #[trigger] occ_count(s, u) == occ_count(s, b) implies b
                    <= u by {
                    lemma_occ_witness(s, u);
                    let k = choose|k: int| 0 <= k < s.len() && s[k] == Some(u);
                    assert(s[k] == Some(u));
                }
            },
        }
    }
    best
}

impl CellGrid {
    /// Shape well-formedness: positive dimensions and both arrays of the
    /// announced size.
    pub open spec fn wf(self) -> bool {
        &&& self.width >= 1
        &&& self.height >= 1
        &&& self.cells@.len() == self.height
        &&& self.tags@.len() == self.height
        &&& forall|y: int|
            0 <= y < self.height ==> (#[trigger] self.cells@[y])@.len() == self.width
        &&& forall|y: int| 0 <= y < self.height ==> (#[trigger] self.tags@[y])@.len() == self.width
    }

    pub open spec fn in_bounds(self, x: int, y: int) -> bool {
        0 <= x < self.width && 0 <= y < self.height
    }

    pub open spec fn alive_at(self, x: int, y: int) -> bool {
        self.cells@[y]@[x]
    }

    pub open spec fn tag_at(self, x: int, y: int) -> Option<usize> {
        self.tags@[y]@[x]
    }

    /// Whether every cell of the grid is dead.
    pub open spec fn all_dead(self) -> bool {
        forall|x: int, y: int| self.in_bounds(x, y) ==> !(#[trigger] self.alive_at(x, y))
    }

    /// The grid-wide invariant on tags: a cell carries a color tag if and
    /// only if it is alive.
    pub open spec fn tags_consistent(self) -> bool {
        forall|x: int, y: int|
            self.in_bounds(x, y) ==> ((#[trigger] self.tag_at(x, y)) is Some == self.alive_at(
                x,
                y,
            ))
    }

    /// A fully zeroed grid: every cell dead, every tag absent.
    pub fn new(width: usize, height: usize) -> (g: CellGrid)
        requires
            width >= 1,
            height >= 1,
        ensures
            g.wf(),
            g.width == width,
            g.height == height,
            forall|x: int, y: int|
                g.in_bounds(x, y) ==> !g.alive_at(x, y) && g.tag_at(x, y) is None,
            g.tags_consistent(),
    {
        let mut cells: Vec<Vec<bool>> = Vec::new();
        let mut tags: Vec<Vec<Option<usize>>> = Vec::new();
        let mut y: usize = 0;
        while y < height
            invariant
                y <= height,
                cells@.len() == y,
                tags@.len() == y,
                forall|yy: int|
                    0 <= yy < y ==> (#[trigger] cells@[yy])@ =~= Seq::new(
                        width as nat,
                        |x: int| false,
                    ),
                forall|yy: int|
                    0 <= yy < y ==> (#[trigger] tags@[yy])@ =~= Seq::new(
                        width as nat,
                        |x: int| Option::<usize>::None,
                    ),
            decreases height - y,
        {
            let mut row_c: Vec<bool> = Vec::new();
            let mut row_t: Vec<Option<usize>> = Vec::new();
            let mut x: usize = 0;
            while x < width
                invariant
                    x <= width,
                    row_c@ =~= Seq::new(x as nat, |i: int| false),
                    row_t@ =~= Seq::new(x as nat, |i: int| Option::<usize>::None),
                decreases width - x,
            {
                row_c.push(false);
                row_t.push(None);
                x = x + 1;
            }
            cells.push(row_c);
            tags.push(row_t);
            y = y + 1;
        }
        CellGrid { width, height, cells, tags }
    }

    /// The number of live cells among the 8 toroidal (Moore) neighbors of
    /// `(x, y)`, counted in the previous-generation snapshot `self`.
    /// When a dimension is smaller than 3, wraparound makes distinct offsets
    /// reach the same physical cell, which is then counted once per offset;
    /// that double counting is accepted behavior for such grids.
    pub open spec fn neighbor_count(self, x: int, y: int) -> nat {
        let xl = dec_wrap(x, self.width as int);
        let xr = inc_wrap(x, self.width as int);
        let yu = dec_wrap(y, self.height as int);
        let yd = inc_wrap(y, self.height as int);
        count1(self.alive_at(xl, yu)) + count1(self.alive_at(x, yu)) + count1(
            self.alive_at(xr, yu),
        ) + count1(self.alive_at(xl, y)) + count1(self.alive_at(xr, y)) + count1(
            self.alive_at(xl, yd),
        ) + count1(self.alive_at(x, yd)) + count1(self.alive_at(xr, yd))
    }

    /// Liveness of `(x, y)` in the generation that follows `self`.
    pub open spec fn next_alive_at(self, x: int, y: int) -> bool {
        rule_alive(self.alive_at(x, y), self.neighbor_count(x, y))
    }

    /// The color tags of the 8 toroidal neighbors of `(x, y)`, enumerated in
    /// a fixed order: the row above left to right, then the cell's own row
    /// (left neighbor, right neighbor), then the row below left to right.
    pub open spec fn neighbor_tags(self, x: int, y: int) -> Seq<Option<usize>> {
        let xl = dec_wrap(x, self.width as int);
        let xr = inc_wrap(x, self.width as int);
        let yu = dec_wrap(y, self.height as int);
        let yd = inc_wrap(y, self.height as int);
        seq![
            self.tag_at(xl, yu),
            self.tag_at(x, yu),
            self.tag_at(xr, yu),
            self.tag_at(xl, y),
            self.tag_at(xr, y),
            self.tag_at(xl, yd),
            self.tag_at(x, yd),
            self.tag_at(xr, yd),
        ]
    }

    /// How many of the 8 neighbors of `(x, y)` carry the color tag `t`.
    pub open spec fn tag_count(self, x: int, y: int, t: usize) -> nat {
        occ_count(self.neighbor_tags(x, y), t)
    }

    /// The tag a cell born at `(x, y)` inherits: a tag carried by at least
    /// one neighbor, at least as frequent among the neighbors as every other
    /// tag, and, among equally frequent tags, the numerically smallest.
    /// The smallest-tag tie-break is this engine's documented deterministic
    /// choice among the maximal tags.
    pub open spec fn is_heir_tag(self, x: int, y: int, t: usize) -> bool {
        is_majority_tag(self.neighbor_tags(x, y), t)
    }

    /// Whether some neighbor of `(x, y)` carries a color tag at all.
    pub open spec fn has_tagged_neighbor(self, x: int, y: int) -> bool {
        exists|u: usize| #[trigger] self.tag_count(x, y, u) >= 1
    }

    /// The color-tag transition: how the tag `nt` that the cell `(x, y)`
    /// carries after one generation relates to the previous generation
    /// `self`.  A survivor keeps its tag; a born cell inherits the majority
    /// tag of its neighbors (smallest tag on ties), or the reserved fallback
    /// tag 0 in the degenerate case where no neighbor carries a tag; a dead
    /// cell carries none.
    pub open spec fn next_tag_ok(self, x: int, y: int, nt: Option<usize>) -> bool {
        if self.next_alive_at(x, y) {
            if self.alive_at(x, y) {
                nt == self.tag_at(x, y)
            } else {
                if self.has_tagged_neighbor(x, y) {
                    match nt {
                        Some(t) => self.is_heir_tag(x, y, t),
                        None => false,
                    }
                } else {
                    nt == Some(0usize)
                }
            }
        } else {
            nt is None
        }
    }

    /// The tag a cell born at `(x, y)` inherits from the previous
    /// generation `self`: the most frequent tag among its 8 neighbors,
    /// breaking ties toward the smallest tag, or `None` when no neighbor
    /// carries a tag at all.
    fn inherited_tag(&self, x: usize, y: usize) -> (r: Option<usize>)
        requires
            self.wf(),
            x < self.width,
            y < self.height,
        ensures
            match r {
                Some(t) => self.is_heir_tag(x as int, y as int, t),
                None => !self.has_tagged_neighbor(x as int, y as int),
            },
    {
        let xl = if x == 0 {
            self.width - 1
        } else {
            x - 1
        };
        let xr = if x + 1 == self.width {
            0
        } else {
            x + 1
        };
        let yu = if y == 0 {
            self.height - 1
        } else {
            y - 1
        };
        let yd = if y + 1 == self.height {
            0
        } else {
            y + 1
        };
        let mut ns: Vec<Option<usize>> = Vec::new();
        ns.push(self.tags[yu][xl]);
        ns.push(self.tags[yu][x]);
        ns.push(self.tags[yu][xr]);
        ns.push(self.tags[y][xl]);
        ns.push(self.tags[y][xr]);
        ns.push(self.tags[yd][xl]);
        ns.push(self.tags[yd][x]);
        ns.push(self.tags[yd][xr]);
        proof {
            assert(ns@ =~= self.neighbor_tags(x as int, y as int));
        }
        let r = pick_majority(&ns);
        proof {
            match r {
                Some(t) => {
                    assert(self.is_heir_tag(x as int, y as int, t));
                },
                None => {
                    assert forall|u: usize|
                        !(#[trigger] self.tag_count(x as int, y as int, u) >= 1) by {
                        assert(occ_count(ns@, u) == 0);
                    }
                },
            }
        }
        r
    }

    /// Count the live cells among the 8 toroidal neighbors of `(x, y)`.
    #[verifier::rlimit(100)]
    #[verifier::spinoff_prover]
    pub fn count_alive_neighbors(&self, x: usize, y: usize) -> (n: u8)
        requires
            self.wf(),
            x < self.width,
            y < self.height,
        ensures
            n == self.neighbor_count(x as int, y as int),
    {
        let xl = if x == 0 {
            self.width - 1
        } else {
            x - 1
        };
        let xr = if x + 1 == self.width {
            0
        } else {
            x + 1
        };
        let yu = if y == 0 {
            self.height - 1
        } else {
            y - 1
        };
        let yd = if y + 1 == self.height {
            0
        } else {
            y + 1
        };
        let n0: u8 = if self.cells[yu][xl] {
            1
        } else {
            0
        };
        let n1: u8 = if self.cells[yu][x] {
            1
        } else {
            0
        };
        let n2: u8 = if self.cells[yu][xr] {
            1
        } else {
            0
        };
        let n3: u8 = if self.cells[y][xl] {
            1
        } else {
            0
        };
        let n4: u8 = if self.cells[y][xr] {
            1
        } else {
            0
        };
        let n5: u8 = if self.cells[yd][xl] {
            1
        } else {
            0
        };
        let n6: u8 = if self.cells[yd][x] {
            1
        } else {
            0
        };
        let n7: u8 = if self.cells[yd][xr] {
            1
        } else {
            0
        };
        n0 + n1 + n2 + n3 + n4 + n5 + n6 + n7
    }

    /// The full state transition: `g2` is the generation that follows
    /// `self` when it has the same dimensions, every cell's liveness
    /// follows the transition rule, and every cell's tag follows the
    /// color-inheritance rule, each computed from `self` alone.
    pub open spec fn step_ok(self, g2: CellGrid) -> bool {
        &&& g2.width == self.width
        &&& g2.height == self.height
        &&& forall|x: int, y: int|
            self.in_bounds(x, y) ==> #[trigger] g2.alive_at(x, y) == self.next_alive_at(x, y)
        &&& forall|x: int, y: int|
            self.in_bounds(x, y) ==> self.next_tag_ok(x, y, #[trigger] g2.tag_at(x, y))
    }

    /// Compute the next generation's liveness and tag arrays from the
    /// snapshot `self`, reading only the previous generation.
    fn compute_next(&self) -> (r: (Vec<Vec<bool>>, Vec<Vec<Option<usize>>>))
        requires
            self.wf(),
        ensures
            r.0@.len() == self.height,
            r.1@.len() == self.height,
            forall|y: int| 0 <= y < self.height ==> (#[trigger] r.0@[y])@.len() == self.width,
            forall|y: int| 0 <= y < self.height ==> (#[trigger] r.1@[y])@.len() == self.width,
            forall|x: int, y: int|
                self.in_bounds(x, y) ==> r.0@[y]@[x] == self.next_alive_at(x, y),
            forall|x: int, y: int|
                self.in_bounds(x, y) ==> self.next_tag_ok(x, y, #[trigger] r.1@[y]@[x]),
    {
        let mut na: Vec<Vec<bool>> = Vec::new();
        let mut nt: Vec<Vec<Option<usize>>> = Vec::new();
        let mut y: usize = 0;
        while y < self.height
            invariant
                self.wf(),
                y <= self.height,
                na@.len() == y,
                nt@.len() == y,
                forall|yy: int| 0 <= yy < y ==> (#[trigger] na@[yy])@.len() == self.width,
                forall|yy: int| 0 <= yy < y ==> (#[trigger] nt@[yy])@.len() == self.width,
                forall|x: int, yy: int|
                    0 <= x < self.width && 0 <= yy < y ==> na@[yy]@[x] == self.next_alive_at(x, yy),
                forall|x: int, yy: int|
                    0 <= x < self.width && 0 <= yy < y ==> self.next_tag_ok(
                        x,
                        yy,
                        #[trigger] nt@[yy]@[x],
                    ),
            decreases self.height - y,
        {
            let mut row_a: Vec<bool> = Vec::new();
            let mut row_t: Vec<Option<usize>> = Vec::new();
            let mut x: usize = 0;
            while x < self.width
                invariant
                    self.wf(),
                    y < self.height,
                    x <= self.width,
                    row_a@.len() == x,
                    row_t@.len() == x,
                    forall|xx: int|
                        0 <= xx < x ==> row_a@[xx] == self.next_alive_at(xx, y as int),
                    forall|xx: int|
                        0 <= xx < x ==> self.next_tag_ok(xx, y as int, #[trigger] row_t@[xx]),
                decreases self.width - x,
            {
                let cur = self.cells[y][x];
                let n = self.count_alive_neighbors(x, y);
                let a = n == 3 || (cur && n == 2);
                let t: Option<usize> = if !a {
                    None
                } else if cur {
                    self.tags[y][x]
                } else {
                    match self.inherited_tag(x, y) {
                        Some(h) => {
                            proof {
                                // The inherited tag itself witnesses that
                                // some neighbor carries a tag.
                                assert(self.tag_count(x as int, y as int, h) >= 1);
                                assert(self.has_tagged_neighbor(x as int, y as int));
                            }
                            Some(h)
                        },
                        None => Some(0),
                    }
                };
                proof {
                    assert(a == self.next_alive_at(x as int, y as int));
                    assert(self.next_tag_ok(x as int, y as int, t));
                }
                row_a.push(a);
                row_t.push(t);
                x = x + 1;
            }
            na.push(row_a);
            nt.push(row_t);
            y = y + 1;
        }
        (na, nt)
    }

    /// Step the simulation one generation in place.
    ///
    /// The whole next generation is computed from the previous generation's
    /// snapshot before any cell is replaced, so no cell's update can observe
    /// a partially updated neighborhood.  Liveness follows the standard
    /// rule; a surviving cell keeps its tag, a born cell inherits the
    /// majority tag of its neighbors (smallest tag on ties), and a dead cell
    /// carries no tag, so the tag invariant is preserved.
    pub fn advance(&mut self)
        requires
            old(self).wf(),
        ensures
            final (self).wf(),
            old(self).step_ok(*final (self)),
            old(self).tags_consistent() ==> final (self).tags_consistent(),
    {
        let (na, nt) = self.compute_next();
        self.cells = na;
        self.tags = nt;
        proof {
            assert forall|x: int, y: int| old(self).in_bounds(x, y) implies #[trigger] self.alive_at(
                x,
                y,
            ) == old(self).next_alive_at(x, y) by {}
            assert forall|x: int, y: int| old(self).in_bounds(x, y) implies old(self).next_tag_ok(
                x,
                y,
                #[trigger] self.tag_at(x, y),
            ) by {}
            if old(self).tags_consistent() {
                assert forall|x: int, y: int| self.in_bounds(x, y) implies ((
                #[trigger] self.tag_at(x, y)) is Some == self.alive_at(x, y)) by {
                    assert(old(self).next_tag_ok(x, y, self.tag_at(x, y)));
                    assert(old(self).tag_at(x, y) is Some == old(self).alive_at(x, y));
                }
            }
        }
    }

    /// Make one cell alive with the given tag, leaving every other cell
    /// unchanged.
    fn set_cell(&mut self, x: usize, y: usize, color_tag: usize)
        requires
            old(self).wf(),
            x < old(self).width,
            y < old(self).height,
        ensures
            final (self).wf(),
            final (self).width == old(self).width,
            final (self).height == old(self).height,
            final (self).alive_at(x as int, y as int),
            final (self).tag_at(x as int, y as int) == Some(color_tag),
            forall|xx: int, yy: int|
                old(self).in_bounds(xx, yy) && !(xx == x && yy == y) ==> final (self).alive_at(
                    xx,
                    yy,
                ) == old(self).alive_at(xx, yy) && final (self).tag_at(xx, yy) == old(self).tag_at(
                    xx,
                    yy,
                ),
    {
        let row_c = &mut self.cells[y];
        row_c.set(x, true);
        let row_t = &mut self.tags[y];
        row_t.set(x, Some(color_tag));
    }

    /// Whether the placement of `cells` at origin `(ox, oy)` covers the
    /// grid coordinate `(x, y)`; offsets that land outside the grid cover
    /// nothing.
    pub open spec fn covers(cells: Seq<(usize, usize)>, ox: usize, oy: usize, x: int, y: int) -> bool {
        exists|i: int|
            0 <= i < cells.len() && ox + (#[trigger] cells[i]).0 == x && oy + cells[i].1 == y
    }

    /// Place a pattern: mark each cell `(ox + dx, oy + dy)` alive and stamp
    /// it with `color_tag`, for every offset `(dx, dy)` in `cells`.  An
    /// offset whose cell falls outside the grid is silently skipped; there
    /// is no wraparound during placement.  Overlapping placements overwrite
    /// earlier liveness and tags.
    pub fn place_pattern(
        &mut self,
        cells: &[(usize, usize)],
        origin_x: usize,
        origin_y: usize,
        color_tag: usize,
    )
        requires
            old(self).wf(),
        ensures
            final (self).wf(),
            final (self).width == old(self).width,
            final (self).height == old(self).height,
            forall|x: int, y: int|
                old(self).in_bounds(x, y) && Self::covers(cells@, origin_x, origin_y, x, y)
                    ==> final (self).alive_at(x, y) && final (self).tag_at(x, y) == Some(color_tag),
            forall|x: int, y: int|
                old(self).in_bounds(x, y) && !Self::covers(cells@, origin_x, origin_y, x, y)
                    ==> final (self).alive_at(x, y) == old(self).alive_at(x, y) && final (
                self).tag_at(x, y) == old(self).tag_at(x, y),
            old(self).tags_consistent() ==> final (self).tags_consistent(),
    {
        let ghost g0 = *old(self);
        let mut i: usize = 0;
        while i < cells.len()
            invariant
                self.wf(),
                self.width == g0.width,
                self.height == g0.height,
                i <= cells@.len(),
                forall|x: int, y: int|
                    g0.in_bounds(x, y) && Self::covers(
                        cells@.take(i as int),
                        origin_x,
                        origin_y,
                        x,
                        y,
                    ) ==> self.alive_at(x, y) && self.tag_at(x, y) == Some(color_tag),
                forall|x: int, y: int|
                    g0.in_bounds(x, y) && !Self::covers(
                        cells@.take(i as int),
                        origin_x,
                        origin_y,
                        x,
                        y,
                    ) ==> self.alive_at(x, y) == g0.alive_at(x, y) && self.tag_at(x, y)
                        == g0.tag_at(x, y),
            decreases cells@.len() - i,
        {
            let (dx, dy) = cells[i];
            // `ox + dx < width` tested without overflow: when `dx < width`,
            // `ox + dx` stays below `2 * width`, and the comparison below is
            // equivalent.
            if dx < self.width && origin_x < self.width - dx && dy < self.height && origin_y
                < self.height - dy {
                let nx = origin_x + dx;
                let ny = origin_y + dy;
                self.set_cell(nx, ny, color_tag);
            }
            proof {
                assert(cells@.take(i + 1).drop_last() =~= cells@.take(i as int));
                assert(cells@.take(i + 1).last() == cells@[i as int]);
                assert forall|x: int, y: int|
                    g0.in_bounds(x, y) && Self::covers(
                        cells@.take(i + 1),
                        origin_x,
                        origin_y,
                        x,
                        y,
                    ) implies self.alive_at(x, y) && self.tag_at(x, y) == Some(color_tag) by {
                    let k = choose|k: int|
                        0 <= k < cells@.take(i + 1).len() && origin_x + (#[trigger] cells@.take(
                            i + 1,
                        )[k]).0 == x && origin_y + cells@.take(i + 1)[k].1 == y;
                    if k < i {
                        assert(Self::covers(cells@.take(i as int), origin_x, origin_y, x, y));
                    }
                }
                assert forall|x: int, y: int|
                    g0.in_bounds(x, y) && !Self::covers(
                        cells@.take(i + 1),
                        origin_x,
                        origin_y,
                        x,
                        y,
                    ) implies self.alive_at(x, y) == g0.alive_at(x, y) && self.tag_at(x, y)
                    == g0.tag_at(x, y) by {
                    assert(!Self::covers(cells@.take(i as int), origin_x, origin_y, x, y)) by {
                        if Self::covers(cells@.take(i as int), origin_x, origin_y, x, y) {
                            let k = choose|k: int|
                                0 <= k < cells@.take(i as int).len() && origin_x + (
                                #[trigger] cells@.take(i as int)[k]).0 == x && origin_y
                                    + cells@.take(i as int)[k].1 == y;
                            assert(origin_x + (cells@.take(i + 1)[k]).0 == x && origin_y
                                + cells@.take(i + 1)[k].1 == y);
                        }
                    }
                }
            }
            i = i + 1;
        }
        proof {
            assert(cells@.take(cells@.len() as int) =~= cells@);
            if g0.tags_consistent() {
                assert forall|x: int, y: int| self.in_bounds(x, y) implies ((
                #[trigger] self.tag_at(x, y)) is Some == self.alive_at(x, y)) by {
                    assert(g0.in_bounds(x, y));
                    if Self::covers(cells@, origin_x, origin_y, x, y) {
                        assert(Self::covers(
                            cells@.take(cells@.len() as int),
                            origin_x,
                            origin_y,
                            x,
                            y,
                        ));
                        assert(self.tag_at(x, y) == Some(color_tag));
                    } else {
                        assert(!Self::covers(
                            cells@.take(cells@.len() as int),
                            origin_x,
                            origin_y,
                            x,
                            y,
                        ));
                        assert(g0.tag_at(x, y) is Some == g0.alive_at(x, y));
                    }
                }
            }
        }
    }

    /// Read-only liveness query.
    pub fn is_alive(&self, x: usize, y: usize) -> (b: bool)
        requires
            self.wf(),
            x < self.width,
            y < self.height,
        ensures
            b == self.alive_at(x as int, y as int),
    {
        self.cells[y][x]
    }

    /// The display color of `(x, y)`: a live cell shows
    /// `palette[tag % palette.len()]`, a dead cell the background color,
    /// and a live cell without a tag (unreachable while the tag invariant
    /// holds) a fixed fallback.
    pub open spec fn display_color(self, x: int, y: int, palette: Seq<Rgb>) -> Rgb {
        if self.alive_at(x, y) {
            match self.tag_at(x, y) {
                Some(t) => palette[t as int % palette.len() as int],
                None => untagged_color(),
            }
        } else {
            background_color()
        }
    }

    /// Resolve the display color of the cell `(x, y)` against `palette`.
    pub fn color_at(&self, x: usize, y: usize, palette: &[Rgb]) -> (c: Rgb)
        requires
            self.wf(),
            x < self.width,
            y < self.height,
            palette@.len() >= 1,
        ensures
            c == self.display_color(x as int, y as int, palette@),
    {
        if self.cells[y][x] {
            match self.tags[y][x] {
                Some(t) => palette[t % palette.len()],
                None => Rgb { r: 255, g: 255, b: 255 },
            }
        } else {
            Rgb { r: 0, g: 0, b: 0 }
        }
    }

    /// Read-only color-tag query.
    pub fn tag_of(&self, x: usize, y: usize) -> (t: Option<usize>)
        requires
            self.wf(),
            x < self.width,
            y < self.height,
        ensures
            t == self.tag_at(x as int, y as int),
    {
        self.tags[y][x]
    }
}

} // verus!
