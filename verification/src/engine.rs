use vstd::prelude::*;

use crate::color::{base_color, highlight_color, initial_color};
use crate::color::{spec_base_color, spec_highlight_color, spec_initial_color};
use crate::color::Color;
use crate::table::GeneTable;

verus! {

/// How far the threshold may drift, in hundredths of an expression unit,
/// before the dirty-check orders a recomputation. A coarse hysteresis band:
/// sub-band slider ticks do not recolor the cloud. Tunable; one whole
/// expression unit here.
pub const THRESHOLD_BAND: i64 = 100;

/// Whether cell `cell` is highlighted: some selected gene covers the cell
/// and its expression value there strictly exceeds the threshold. Genes
/// whose vector does not cover the cell contribute nothing.
pub open spec fn spec_classify(
    vals: Seq<Seq<i64>>,
    selection: Seq<bool>,
    threshold: i64,
    cell: int,
) -> bool {
    exists|g: int|
        0 <= g < vals.len() && 0 <= g < selection.len() && selection[g] && 0 <= cell
            < vals[g].len() && vals[g][cell] > threshold
}

/// The color a cell wears for a given classification.
pub open spec fn spec_color_of(highlighted: bool) -> Color {
    if highlighted {
        spec_highlight_color()
    } else {
        spec_base_color()
    }
}

/// The full color array: one entry per cell, index-aligned with the point
/// positions.
pub open spec fn spec_colors(
    vals: Seq<Seq<i64>>,
    selection: Seq<bool>,
    threshold: i64,
    n_cells: nat,
) -> Seq<Color> {
    Seq::new(n_cells, |cell: int| spec_color_of(spec_classify(vals, selection, threshold, cell)))
}

/// Whether the inputs have drifted far enough from the last computed
/// snapshot to warrant recoloring: any change of selection, or a threshold
/// move of more than the band.
pub open spec fn spec_dirty(
    cur_selection: Seq<bool>,
    cur_threshold: i64,
    last_selection: Seq<bool>,
    last_threshold: i64,
) -> bool {
    ||| cur_selection != last_selection
    ||| cur_threshold - last_threshold > THRESHOLD_BAND
    ||| last_threshold - cur_threshold > THRESHOLD_BAND
}

/// The selection and threshold that produced the colors currently on
/// screen. The next frame's dirty-check diffs against this.
pub struct Snapshot {
    pub selection: Vec<bool>,
    pub threshold: i64,
}

/// Whether two selection states agree entirely.
#[verifier::loop_isolation(false)]
pub fn selection_eq(a: &Vec<bool>, b: &Vec<bool>) -> (r: bool)
    ensures
        r == (a@ == b@),
{
    if a.len() != b.len() {
        return false;
    }
    let n = a.len();
    for i in 0..n
        invariant
            forall|k: int| 0 <= k < i ==> a@[k] == b@[k],
    {
        if a[i] != b[i] {
            return false;
        }
    }
    proof {
        assert(a@ =~= b@);
    }
    true
}

/// A private copy of a selection state, kept in the snapshot.
#[verifier::loop_isolation(false)]
fn copy_selection(src: &Vec<bool>) -> (r: Vec<bool>)
    ensures
        r@ == src@,
{
    let mut r: Vec<bool> = Vec::new();
    let n = src.len();
    for i in 0..n
        invariant
            r@.len() == i,
            forall|k: int| 0 <= k < i ==> r@[k] == src@[k],
    {
        r.push(src[i]);
    }
    proof {
        assert(r@ =~= src@);
    }
    r
}

/// The color array the viewer starts with: every cell in the initial color.
#[verifier::loop_isolation(false)]
pub fn initial_colors(n_cells: usize) -> (c: Vec<Color>)
    ensures
        c@.len() == n_cells,
        forall|i: int| 0 <= i < n_cells ==> c@[i] == spec_initial_color(),
{
    let mut c: Vec<Color> = Vec::new();
    for i in 0..n_cells
        invariant
            c@.len() == i,
            forall|k: int| 0 <= k < i ==> c@[k] == spec_initial_color(),
    {
        c.push(initial_color());
    }
    c
}

impl GeneTable {
    /// Classifies one cell against the current selection and threshold: true
    /// when any selected gene's expression at the cell strictly exceeds the
    /// threshold. Pure; a gene that does not cover the cell is skipped.
    #[verifier::loop_isolation(false)]
    pub fn classify(&self, selection: &Vec<bool>, threshold: i64, cell: usize) -> (r: bool)
        requires
            selection@.len() == self.vals().len(),
        ensures
            r == spec_classify(self.vals(), selection@, threshold, cell as int),
    {
        let n = self.len();
        for g in 0..n
            invariant
                forall|k: int|
                    0 <= k < g ==> !(selection@[k] && cell < self.vals()[k].len()
                        && self.vals()[k][cell as int] > threshold),
        {
            if selection[g] {
                let m = self.values_len(g);
                if cell < m {
                    let v = self.value_at(g, cell);
                    if v > threshold {
                        return true;
                    }
                }
            }
        }
        false
    }

    /// Builds the color array for every cell in `0..n_cells`: highlighted
    /// cells get the highlight color, the rest the base color. The result
    /// always has exactly `n_cells` entries, index-aligned with the cells.
    #[verifier::loop_isolation(false)]
    pub fn compute_colors(&self, selection: &Vec<bool>, threshold: i64, n_cells: usize) -> (c: Vec<
        Color,
    >)
        requires
            selection@.len() == self.vals().len(),
        ensures
            c@.len() == n_cells,
            c@ == spec_colors(self.vals(), selection@, threshold, n_cells as nat),
    {
        let mut c: Vec<Color> = Vec::new();
        for cell in 0..n_cells
            invariant
                c@.len() == cell,
                forall|k: int|
                    0 <= k < cell ==> c@[k] == spec_color_of(
                        spec_classify(self.vals(), selection@, threshold, k),
                    ),
        {
            if self.classify(selection, threshold, cell) {
                c.push(highlight_color());
            } else {
                c.push(base_color());
            }
        }
        proof {
            assert(c@ =~= spec_colors(self.vals(), selection@, threshold, n_cells as nat));
        }
        c
    }

    /// The per-frame entry point. Diffs the current selection and threshold
    /// against the snapshot of the last computation; when they have drifted
    /// (any selection change, or a threshold move beyond the band), rebuilds
    /// the color array and updates the snapshot. When clean, returns `None`
    /// and leaves the snapshot untouched: the caller keeps the colors it
    /// already has.
    pub fn recompute_if_dirty(
        &self,
        selection: &Vec<bool>,
        threshold: i64,
        n_cells: usize,
        last: &mut Snapshot,
    ) -> (r: Option<Vec<Color>>)
        requires
            selection@.len() == self.vals().len(),
        ensures
            (r is Some) == spec_dirty(
                selection@,
                threshold,
                old(last).selection@,
                old(last).threshold,
            ),
            match r {
                Some(colors) => colors@ == spec_colors(
                    self.vals(),
                    selection@,
                    threshold,
                    n_cells as nat,
                ) && final(last).selection@ == selection@ && final(last).threshold == threshold,
                None => final(last).selection@ == old(last).selection@ && final(last).threshold
                    == old(last).threshold,
            },
    {
        let same_selection = selection_eq(selection, &last.selection);
        let diff: i128 = (threshold as i128) - (last.threshold as i128);
        let dirty = !same_selection || diff > THRESHOLD_BAND as i128 || diff < -(
        THRESHOLD_BAND as i128);
        if dirty {
            let colors = self.compute_colors(selection, threshold, n_cells);
            last.selection = copy_selection(selection);
            last.threshold = threshold;
            Some(colors)
        } else {
            None
        }
    }
}

/// The cells of `0..n_cells` that classify as highlighted.
pub open spec fn highlighted_cells(
    vals: Seq<Seq<i64>>,
    selection: Seq<bool>,
    threshold: i64,
    n_cells: nat,
) -> Set<int> {
    Set::new(|cell: int| 0 <= cell < n_cells && spec_classify(vals, selection, threshold, cell))
}

/// Classification is deterministic: it is a pure function of the table, the
/// selection and the threshold, so any two results computed from identical
/// inputs coincide.
pub proof fn lemma_classify_deterministic(
    vals: Seq<Seq<i64>>,
    selection: Seq<bool>,
    threshold: i64,
    cell: int,
    r1: bool,
    r2: bool,
)
    requires
        r1 == spec_classify(vals, selection, threshold, cell),
        r2 == spec_classify(vals, selection, threshold, cell),
    ensures
        r1 == r2,
{
}

/// With no gene selected, no cell is highlighted, whatever the threshold.
pub proof fn lemma_nothing_selected_nothing_highlighted(
    vals: Seq<Seq<i64>>,
    selection: Seq<bool>,
    threshold: i64,
    cell: int,
)
    requires
        forall|g: int| 0 <= g < selection.len() ==> !selection[g],
    ensures
        !spec_classify(vals, selection, threshold, cell),
{
}

/// Raising the threshold never highlights a new cell: a cell highlighted at
/// the higher threshold was already highlighted at the lower one.
pub proof fn lemma_raising_threshold_monotone(
    vals: Seq<Seq<i64>>,
    selection: Seq<bool>,
    lo: i64,
    hi: i64,
    cell: int,
)
    requires
        lo <= hi,
        spec_classify(vals, selection, hi, cell),
    ensures
        spec_classify(vals, selection, lo, cell),
{
    let g = choose|g: int|
        0 <= g < vals.len() && 0 <= g < selection.len() && selection[g] && 0 <= cell
            < vals[g].len() && vals[g][cell] > hi;
    assert(vals[g][cell] > lo);
}

/// For a fixed selection, raising the threshold only moves cells out of the
/// highlight: the highlighted set at the higher threshold is a subset of the
/// one at the lower threshold, so it holds fewer or equally many cells.
pub proof fn lemma_raising_threshold_shrinks_highlight(
    vals: Seq<Seq<i64>>,
    selection: Seq<bool>,
    lo: i64,
    hi: i64,
    n_cells: nat,
)
    requires
        lo <= hi,
    ensures
        highlighted_cells(vals, selection, hi, n_cells).subset_of(
            highlighted_cells(vals, selection, lo, n_cells),
        ),
        highlighted_cells(vals, selection, hi, n_cells).len() <= highlighted_cells(
            vals,
            selection,
            lo,
            n_cells,
        ).len(),
{
    let at_hi = highlighted_cells(vals, selection, hi, n_cells);
    let at_lo = highlighted_cells(vals, selection, lo, n_cells);
    assert forall|cell: int| at_hi.contains(cell) implies at_lo.contains(cell) by {
        lemma_raising_threshold_monotone(vals, selection, lo, hi, cell);
    }
    let all = vstd::set_lib::set_int_range(0, n_cells as int);
    vstd::set_lib::lemma_int_range(0, n_cells as int);
    assert(at_lo.subset_of(all));
    vstd::set_lib::lemma_len_subset(at_lo, all);
    vstd::set_lib::lemma_len_subset(at_hi, at_lo);
}

/// Dirty-check idempotence: with the selection unchanged and the threshold
/// moved by no more than the band, the dirty-check stays clean, so a
/// repeated recomputation finds nothing to do.
pub proof fn lemma_unchanged_inputs_stay_clean(
    selection: Seq<bool>,
    cur_threshold: i64,
    last_threshold: i64,
)
    requires
        -THRESHOLD_BAND <= cur_threshold - last_threshold <= THRESHOLD_BAND,
    ensures
        !spec_dirty(selection, cur_threshold, selection, last_threshold),
{
}

/// The band is strict: with an unchanged selection, a threshold move of
/// exactly the band width stays clean, and a move one step past it is dirty.
pub proof fn lemma_band_boundary(
    selection: Seq<bool>,
    last_threshold: i64,
    at_band: i64,
    past_band: i64,
)
    requires
        at_band - last_threshold == THRESHOLD_BAND,
        past_band - last_threshold == THRESHOLD_BAND + 1,
    ensures
        !spec_dirty(selection, at_band, selection, last_threshold),
        spec_dirty(selection, past_band, selection, last_threshold),
{
}

} // verus!
