use vstd::prelude::*;

verus! {

/// One expression channel: a label and its per-cell expression values, in
/// hundredths of an expression unit. The vector may cover fewer cells than
/// the point cloud holds; a cell past its end has no reading for this gene.
struct Gene {
    label: String,
    values: Vec<i64>,
}

/// The gene-expression table: each gene's label and expression vector, in a
/// fixed, stable order. Labels are unique. The table is read-only once the
/// dataset is loaded; the selection state is indexed positionally against
/// the same gene order.
pub struct GeneTable {
    genes: Vec<Gene>,
}

impl GeneTable {
    /// The gene labels, in table order.
    pub closed spec fn labels(&self) -> Seq<Seq<char>> {
        Seq::new(self.genes@.len(), |g: int| self.genes@[g].label@)
    }

    /// The expression vectors, in table order.
    pub closed spec fn vals(&self) -> Seq<Seq<i64>> {
        Seq::new(self.genes@.len(), |g: int| self.genes@[g].values@)
    }

    /// Well-formed: no two genes share a label.
    pub open spec fn wf(&self) -> bool {
        forall|i: int, j: int|
            0 <= i < j < self.labels().len() ==> self.labels()[i] != self.labels()[j]
    }

    /// Where label `lab` sits in the table, when it is present at all.
    pub open spec fn label_index(&self, lab: Seq<char>) -> int {
        choose|g: int| 0 <= g < self.labels().len() && self.labels()[g] == lab
    }

    /// Whether some gene carries label `lab`.
    pub open spec fn has_label(&self, lab: Seq<char>) -> bool {
        exists|g: int| 0 <= g < self.labels().len() && self.labels()[g] == lab
    }

    pub fn new() -> (t: GeneTable)
        ensures
            t.labels() == Seq::<Seq<char>>::empty(),
            t.vals() == Seq::<Seq<i64>>::empty(),
            t.wf(),
    {
        let t = GeneTable { genes: Vec::new() };
        proof {
            assert(t.labels() =~= Seq::<Seq<char>>::empty());
            assert(t.vals() =~= Seq::<Seq<i64>>::empty());
        }
        t
    }

    /// How many genes the table holds.
    pub fn len(&self) -> (n: usize)
        ensures
            n == self.labels().len(),
            n == self.vals().len(),
    {
        self.genes.len()
    }

    /// The label of gene `g`.
    pub fn label_at(&self, g: usize) -> (l: &String)
        requires
            g < self.labels().len(),
        ensures
            l@ == self.labels()[g as int],
    {
        &self.genes[g].label
    }

    /// How many cells gene `g`'s expression vector covers.
    pub fn values_len(&self, g: usize) -> (n: usize)
        requires
            g < self.vals().len(),
        ensures
            n == self.vals()[g as int].len(),
    {
        self.genes[g].values.len()
    }

    /// Gene `g`'s expression value at cell `cell`.
    pub fn value_at(&self, g: usize, cell: usize) -> (v: i64)
        requires
            g < self.vals().len(),
            cell < self.vals()[g as int].len(),
        ensures
            v == self.vals()[g as int][cell as int],
    {
        self.genes[g].values[cell]
    }

    /// A copy of every label, in table order, for the control panel.
    #[verifier::loop_isolation(false)]
    pub fn labels_vec(&self) -> (ls: Vec<String>)
        ensures
            ls@.len() == self.labels().len(),
            forall|g: int| 0 <= g < ls@.len() ==> ls@[g]@ == self.labels()[g],
    {
        let mut ls: Vec<String> = Vec::new();
        let n = self.genes.len();
        for g in 0..n
            invariant
                ls@.len() == g,
                forall|k: int| 0 <= k < g ==> ls@[k]@ == self.labels()[k],
        {
            ls.push(self.genes[g].label.clone());
        }
        ls
    }

    /// Looks the label up; returns its position when present.
    #[verifier::loop_isolation(false)]
    pub fn find_label(&self, label: &String) -> (r: Option<usize>)
        ensures
            match r {
                Some(g) => g < self.labels().len() && self.labels()[g as int] == label@
                    && forall|k: int| 0 <= k < g ==> self.labels()[k] != label@,
                None => !self.has_label(label@),
            },
    {
        let n = self.genes.len();
        for g in 0..n
            invariant
                forall|k: int| 0 <= k < g ==> self.labels()[k] != label@,
        {
            if self.genes[g].label == *label {
                return Some(g);
            }
        }
        None
    }

    /// Appends one more reading to gene `g`'s expression vector.
    pub fn append_value(&mut self, g: usize, value: i64)
        requires
            g < old(self).vals().len(),
        ensures
            final(self).labels() == old(self).labels(),
            final(self).vals() == old(self).vals().update(
                g as int,
                old(self).vals()[g as int].push(value),
            ),
            final(self).wf() == old(self).wf(),
    {
        let gene = &mut self.genes[g];
        gene.values.push(value);
        proof {
            assert(final(self).labels() =~= old(self).labels());
            assert(final(self).vals() =~= old(self).vals().update(
                g as int,
                old(self).vals()[g as int].push(value),
            ));
        }
    }

    /// Sets gene `label`'s expression vector: replaces the vector of an
    /// existing gene of that label, or appends a new gene at the end.
    pub fn insert_gene(&mut self, label: String, values: Vec<i64>)
        requires
            old(self).wf(),
        ensures
            final(self).wf(),
            old(self).has_label(label@) ==> final(self).labels() == old(self).labels()
                && final(self).vals() == old(self).vals().update(
                old(self).label_index(label@),
                values@,
            ),
            !old(self).has_label(label@) ==> final(self).labels() == old(self).labels().push(
                label@,
            ) && final(self).vals() == old(self).vals().push(values@),
    {
        match self.find_label(&label) {
            Some(g) => {
                proof {
                    assert(old(self).has_label(label@));
                    let gi = old(self).label_index(label@);
                    assert(0 <= gi < old(self).labels().len() && old(self).labels()[gi] == label@);
                    assert(gi == g as int);
                }
                let gene = &mut self.genes[g];
                gene.values = values;
                proof {
                    assert(final(self).labels() =~= old(self).labels());
                    assert(final(self).vals() =~= old(self).vals().update(g as int, values@));
                }
            },
            None => {
                self.genes.push(Gene { label, values });
                proof {
                    assert(final(self).labels() =~= old(self).labels().push(label@));
                    assert(final(self).vals() =~= old(self).vals().push(values@));
                }
            },
        }
    }

    /// Adds a gene at the end of the table. The label must be new.
    pub fn push_gene(&mut self, label: String, values: Vec<i64>)
        requires
            !old(self).has_label(label@),
        ensures
            final(self).labels() == old(self).labels().push(label@),
            final(self).vals() == old(self).vals().push(values@),
            old(self).wf() ==> final(self).wf(),
    {
        self.genes.push(Gene { label, values });
        proof {
            assert(final(self).labels() =~= old(self).labels().push(label@));
            assert(final(self).vals() =~= old(self).vals().push(values@));
        }
    }
}

/// The views of a list of labels.
pub open spec fn label_views(labels: Seq<String>) -> Seq<Seq<char>> {
    Seq::new(labels.len(), |i: int| labels[i]@)
}

/// The distinct labels that `indices` references, in order of first
/// reference. Entry `i` of the raw dataset arrays is one reading for the
/// gene labeled `labels[indices[i]]`.
pub open spec fn referenced_labels(labels: Seq<Seq<char>>, indices: Seq<u32>) -> Seq<Seq<char>>
    decreases indices.len(),
{
    if indices.len() == 0 {
        Seq::empty()
    } else {
        let rest = referenced_labels(labels, indices.drop_last());
        let lab = labels[indices.last() as int];
        if rest.contains(lab) {
            rest
        } else {
            rest.push(lab)
        }
    }
}

/// The expression vector that the raw dataset arrays give the gene labeled
/// `lab`: the values whose index references `lab`, in reading order.
pub open spec fn grouped_values(
    labels: Seq<Seq<char>>,
    indices: Seq<u32>,
    values: Seq<i64>,
    lab: Seq<char>,
) -> Seq<i64>
    decreases indices.len(),
{
    if indices.len() == 0 {
        Seq::empty()
    } else {
        let rest = grouped_values(labels, indices.drop_last(), values.drop_last(), lab);
        if labels[indices.last() as int] == lab {
            rest.push(values.last())
        } else {
            rest
        }
    }
}

/// A label that `indices` never references has an empty grouped vector.
proof fn lemma_unreferenced_label_empty(
    labels: Seq<Seq<char>>,
    indices: Seq<u32>,
    values: Seq<i64>,
    lab: Seq<char>,
)
    requires
        !referenced_labels(labels, indices).contains(lab),
    ensures
        grouped_values(labels, indices, values, lab) == Seq::<i64>::empty(),
    decreases indices.len(),
{
    if indices.len() == 0 {
    } else {
        let rest = referenced_labels(labels, indices.drop_last());
        let last_lab = labels[indices.last() as int];
        assert(!rest.contains(lab) && last_lab != lab) by {
            if rest.contains(lab) || last_lab == lab {
                let full = referenced_labels(labels, indices);
                if rest.contains(lab) {
                    let w = choose|w: int| 0 <= w < rest.len() && rest[w] == lab;
                    assert(full[w] == lab);
                } else {
                    assert(full == rest.push(lab));
                    assert(full[full.len() - 1] == lab);
                }
                assert(full.contains(lab));
            }
        }
        lemma_unreferenced_label_empty(labels, indices.drop_last(), values.drop_last(), lab);
    }
}

/// Assembles the gene-expression table from the three raw dataset arrays:
/// the gene labels, one gene index per reading, and the readings themselves.
/// Reading `i` appends `values[i]` to the gene labeled `labels[indices[i]]`.
/// Returns `None` when some reading's index lies outside `labels`: such a
/// dataset is malformed and the load fails as a whole.
#[verifier::loop_isolation(false)]
pub fn build_expression_table(labels: &Vec<String>, indices: &Vec<u32>, values: &Vec<i64>) -> (r:
    Option<GeneTable>)
    requires
        indices@.len() == values@.len(),
    ensures
        match r {
            Some(t) => {
                &&& t.wf()
                &&& forall|i: int| 0 <= i < indices@.len() ==> indices@[i] < labels@.len()
                &&& t.labels() == referenced_labels(label_views(labels@), indices@)
                &&& t.vals().len() == t.labels().len()
                &&& forall|g: int|
                    0 <= g < t.labels().len() ==> t.vals()[g] == grouped_values(
                        label_views(labels@),
                        indices@,
                        values@,
                        t.labels()[g],
                    )
            },
            None => exists|i: int| 0 <= i < indices@.len() && indices@[i] >= labels@.len(),
        },
{
    let ghost lviews = label_views(labels@);
    let mut t = GeneTable::new();
    let n = indices.len();
    for i in 0..n
        invariant
            t.wf(),
            t.labels() == referenced_labels(lviews, indices@.take(i as int)),
            t.vals().len() == t.labels().len(),
            forall|g: int|
                0 <= g < t.labels().len() ==> t.vals()[g] == grouped_values(
                    lviews,
                    indices@.take(i as int),
                    values@.take(i as int),
                    t.labels()[g],
                ),
            forall|k: int| 0 <= k < i ==> indices@[k] < labels@.len(),
    {
        let idx = indices[i];
        if idx as usize >= labels.len() {
            return None;
        }
        let label = &labels[idx as usize];
        let v = values[i];
        proof {
            assert(indices@.take(i + 1).drop_last() =~= indices@.take(i as int));
            assert(values@.take(i + 1).drop_last() =~= values@.take(i as int));
            assert(indices@.take(i + 1).last() == indices@[i as int]);
            assert(values@.take(i + 1).last() == values@[i as int]);
            assert(lviews[idx as int] == label@);
        }
        let found = t.find_label(label);
        match found {
            Some(g) => {
                proof {
                    assert(t.labels().contains(label@));
                    assert(referenced_labels(lviews, indices@.take(i + 1)) == t.labels());
                    assert forall|g2: int|
                        0 <= g2 < t.labels().len() && g2 != g implies t.labels()[g2] != label@ by {
                        assert(t.labels()[g as int] == label@);
                    }
                }
                t.append_value(g, v);
            },
            None => {
                proof {
                    assert(!t.labels().contains(label@)) by {
                        if t.labels().contains(label@) {
                            let w = choose|w: int|
                                0 <= w < t.labels().len() && t.labels()[w] == label@;
                            assert(t.has_label(label@));
                        }
                    }
                    lemma_unreferenced_label_empty(
                        lviews,
                        indices@.take(i as int),
                        values@.take(i as int),
                        label@,
                    );
                }
                let mut vs: Vec<i64> = Vec::new();
                vs.push(v);
                t.push_gene(label.clone(), vs);
            },
        }
    }
    proof {
        assert(indices@.take(n as int) =~= indices@);
        assert(values@.take(n as int) =~= values@);
    }
    Some(t)
}

} // verus!
