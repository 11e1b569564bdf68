//! Laws of the simulation engine, stated over the same spec functions that
//! the executable functions' contracts use.

use crate::grid::dec_wrap;
use crate::grid::inc_wrap;
use crate::grid::lemma_occ_member;
use crate::grid::CellGrid;
use vstd::prelude::*;

verus! {

/// Stability of the dead state: a generation that follows an all-dead grid
/// is itself all-dead and carries no tags, so an all-dead grid stays
/// all-dead under any number of steps.
pub proof fn lemma_dead_state_stable(g: CellGrid, g2: CellGrid)
    requires
        g.wf(),
        g.all_dead(),
        g.step_ok(g2),
    ensures
        g2.all_dead(),
        forall|x: int, y: int| g2.in_bounds(x, y) ==> (#[trigger] g2.tag_at(x, y)) is None,
{
    let w = g.width as int;
    let h = g.height as int;
    assert forall|x: int, y: int| g2.in_bounds(x, y) implies !(#[trigger] g2.alive_at(x, y)) by {
        assert(!g.alive_at(dec_wrap(x, w), dec_wrap(y, h)));
        assert(!g.alive_at(x, dec_wrap(y, h)));
        assert(!g.alive_at(inc_wrap(x, w), dec_wrap(y, h)));
        assert(!g.alive_at(dec_wrap(x, w), y));
        assert(!g.alive_at(inc_wrap(x, w), y));
        assert(!g.alive_at(dec_wrap(x, w), inc_wrap(y, h)));
        assert(!g.alive_at(x, inc_wrap(y, h)));
        assert(!g.alive_at(inc_wrap(x, w), inc_wrap(y, h)));
        assert(g.neighbor_count(x, y) == 0);
    }
    assert forall|x: int, y: int| g2.in_bounds(x, y) implies (#[trigger] g2.tag_at(x, y)) is None by {
        assert(g.next_tag_ok(x, y, g2.tag_at(x, y)));
        assert(!g2.alive_at(x, y));
    }
}

/// Tag conservation under survival: a cell alive both before and after a
/// step keeps its color tag.
pub proof fn lemma_survival_keeps_tag(g: CellGrid, g2: CellGrid, x: int, y: int)
    requires
        g.step_ok(g2),
        g.in_bounds(x, y),
        g.alive_at(x, y),
        g2.alive_at(x, y),
    ensures
        g2.tag_at(x, y) == g.tag_at(x, y),
{
    assert(g.next_tag_ok(x, y, g2.tag_at(x, y)));
}

/// Tag clearing on death: a cell dead after a step carries no tag.
pub proof fn lemma_death_clears_tag(g: CellGrid, g2: CellGrid, x: int, y: int)
    requires
        g.step_ok(g2),
        g.in_bounds(x, y),
        !g2.alive_at(x, y),
    ensures
        g2.tag_at(x, y) is None,
{
    assert(g.next_tag_ok(x, y, g2.tag_at(x, y)));
}

/// The tag invariant is preserved by a step: when every cell of `g` is
/// tagged exactly if it is alive, the same holds of the generation that
/// follows.
pub proof fn lemma_step_preserves_tag_invariant(g: CellGrid, g2: CellGrid)
    requires
        g.step_ok(g2),
        g.tags_consistent(),
    ensures
        g2.tags_consistent(),
{
    assert forall|x: int, y: int| g2.in_bounds(x, y) implies ((#[trigger] g2.tag_at(x, y)) is Some
        == g2.alive_at(x, y)) by {
        assert(g.in_bounds(x, y));
        assert(g.next_tag_ok(x, y, g2.tag_at(x, y)));
        assert(g2.alive_at(x, y) == g.next_alive_at(x, y));
        assert(g.tag_at(x, y) is Some == g.alive_at(x, y));
    }
}

/// Toroidal wraparound: a live cell is counted in the live-neighbor count
/// of each of the 8 toroidally adjacent positions, so a live corner cell
/// contributes to the counts of the opposite corner and edges.
pub proof fn lemma_live_cell_reaches_neighbors(g: CellGrid, x: int, y: int)
    requires
        g.wf(),
        g.in_bounds(x, y),
        g.alive_at(x, y),
    ensures
        g.neighbor_count(dec_wrap(x, g.width as int), dec_wrap(y, g.height as int)) >= 1,
        g.neighbor_count(x, dec_wrap(y, g.height as int)) >= 1,
        g.neighbor_count(inc_wrap(x, g.width as int), dec_wrap(y, g.height as int)) >= 1,
        g.neighbor_count(dec_wrap(x, g.width as int), y) >= 1,
        g.neighbor_count(inc_wrap(x, g.width as int), y) >= 1,
        g.neighbor_count(dec_wrap(x, g.width as int), inc_wrap(y, g.height as int)) >= 1,
        g.neighbor_count(x, inc_wrap(y, g.height as int)) >= 1,
        g.neighbor_count(inc_wrap(x, g.width as int), inc_wrap(y, g.height as int)) >= 1,
{
    let w = g.width as int;
    let h = g.height as int;
    assert(inc_wrap(dec_wrap(x, w), w) == x);
    assert(dec_wrap(inc_wrap(x, w), w) == x);
    assert(inc_wrap(dec_wrap(y, h), h) == y);
    assert(dec_wrap(inc_wrap(y, h), h) == y);
}

/// While the tag invariant holds, a cell born by the birth rule always has
/// a tagged neighbor to inherit from: the reserved fallback tag is never
/// used on a consistent grid.
pub proof fn lemma_born_cell_has_tagged_neighbor(g: CellGrid, x: int, y: int)
    requires
        g.wf(),
        g.tags_consistent(),
        g.in_bounds(x, y),
        !g.alive_at(x, y),
        g.next_alive_at(x, y),
    ensures
        g.has_tagged_neighbor(x, y),
{
    let w = g.width as int;
    let h = g.height as int;
    let xl = dec_wrap(x, w);
    let xr = inc_wrap(x, w);
    let yu = dec_wrap(y, h);
    let yd = inc_wrap(y, h);
    assert(g.neighbor_count(x, y) == 3);
    let s = g.neighbor_tags(x, y);
    if g.alive_at(xl, yu) {
        assert(g.tag_at(xl, yu) is Some);
        let u = g.tag_at(xl, yu)->Some_0;
        lemma_occ_member(s, 0, u);
        assert(g.tag_count(x, y, u) >= 1);
    } else if g.alive_at(x, yu) {
        assert(g.tag_at(x, yu) is Some);
        let u = g.tag_at(x, yu)->Some_0;
        lemma_occ_member(s, 1, u);
        assert(g.tag_count(x, y, u) >= 1);
    } else if g.alive_at(xr, yu) {
        assert(g.tag_at(xr, yu) is Some);
        let u = g.tag_at(xr, yu)->Some_0;
        lemma_occ_member(s, 2, u);
        assert(g.tag_count(x, y, u) >= 1);
    } else if g.alive_at(xl, y) {
        assert(g.tag_at(xl, y) is Some);
        let u = g.tag_at(xl, y)->Some_0;
        lemma_occ_member(s, 3, u);
        assert(g.tag_count(x, y, u) >= 1);
    } else if g.alive_at(xr, y) {
        assert(g.tag_at(xr, y) is Some);
        let u = g.tag_at(xr, y)->Some_0;
        lemma_occ_member(s, 4, u);
        assert(g.tag_count(x, y, u) >= 1);
    } else if g.alive_at(xl, yd) {
        assert(g.tag_at(xl, yd) is Some);
        let u = g.tag_at(xl, yd)->Some_0;
        lemma_occ_member(s, 5, u);
        assert(g.tag_count(x, y, u) >= 1);
    } else if g.alive_at(x, yd) {
        assert(g.tag_at(x, yd) is Some);
        let u = g.tag_at(x, yd)->Some_0;
        lemma_occ_member(s, 6, u);
        assert(g.tag_count(x, y, u) >= 1);
    } else {
        assert(g.alive_at(xr, yd));
        assert(g.tag_at(xr, yd) is Some);
        let u = g.tag_at(xr, yd)->Some_0;
        lemma_occ_member(s, 7, u);
        assert(g.tag_count(x, y, u) >= 1);
    }
}

} // verus!
