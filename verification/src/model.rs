//! The clustering model and the medoid-swap optimization loop.
//!
//! A `KMedoids` model is populated once by ingestion, then optimized by
//! repeated sweeps. One sweep tries, for every medoid position in order, the
//! best single-entity substitution and applies it immediately when it
//! strictly lowers the running total cost; swaps made earlier in a sweep are
//! visible to later evaluations of the same sweep, and the sweep search is
//! always evaluated against the live medoid set, so the running cost always
//! equals the cost of the live set. The loop converges when a full sweep
//! leaves the medoid set unchanged.

use vstd::pervasive::VecAdditionalExecFns;
use vstd::prelude::*;

use rand::Rng;

use crate::assign::assign_indices;
use crate::assign::cost_indices;
use crate::assign::distinct_seq;
use crate::assign::find_name;
use crate::assign::find_pos;
use crate::assign::first_pos;
use crate::assign::lemma_cost_nonneg;
use crate::assign::lemma_first_pos_from_correct;
use crate::assign::lemma_name_pos_from_correct;
use crate::assign::matrix_wf;
use crate::assign::medoid_indices;
use crate::assign::medoids_wf;
use crate::assign::name_pos;
use crate::assign::resolve_names;
use crate::assign::rows_view;
use crate::assign::set_cost;
use crate::assign::spec_assign;
use crate::assign::spec_cost;
use crate::errors::KmError;
use crate::parse::cell_ok;
use crate::parse::digits_val;
use crate::parse::parse_cell;

verus! {

/// The trial medoid sequence of a swap: the candidate takes the place of the
/// medoid at position `p`, so the cluster label of that position is kept.
pub open spec fn swap_seq(m: Seq<usize>, p: int, c: usize) -> Seq<usize> {
    m.update(p, c)
}

/// The total cost that a swap would produce: the cost of the trial medoid
/// sequence on its own from-scratch nearest-medoid assignment.
pub open spec fn trial_cost(m: Seq<usize>, d: Seq<Seq<u64>>, n: nat, p: int, c: usize) -> int {
    set_cost(swap_seq(m, p, c), d, n)
}

/// The best swap candidate for position `p` among entities `[0, t)`: entity
/// `0` is the seed default (evaluated even when it is a medoid), every other
/// current medoid is skipped, and a candidate wins only by a strictly lower
/// trial cost, so the earliest candidate wins ties.
pub open spec fn best_cand_upto(m: Seq<usize>, d: Seq<Seq<u64>>, n: nat, p: int, t: int) -> (
    usize,
    int,
)
    decreases t,
{
    if t <= 1 {
        (0usize, trial_cost(m, d, n, p, 0))
    } else {
        let prev = best_cand_upto(m, d, n, p, t - 1);
        let v = (t - 1) as usize;
        if first_pos(m, v) >= m.len() && trial_cost(m, d, n, p, v) < prev.1 {
            (v, trial_cost(m, d, n, p, v))
        } else {
            prev
        }
    }
}

/// The best swap candidate for position `p` over the whole entity list.
pub open spec fn spec_best_cand(m: Seq<usize>, d: Seq<Seq<u64>>, n: nat, p: int) -> (usize, int) {
    best_cand_upto(m, d, n, p, n as int)
}

/// One position of a sweep: the best candidate's swap is applied exactly when
/// it strictly lowers the running cost and the candidate is not itself a
/// current medoid (the latter keeps the medoid set duplicate-free; it can
/// only bind for the seed default, since the search skips medoids).
pub open spec fn sweep_step(m: Seq<usize>, c: int, d: Seq<Seq<u64>>, n: nat, p: int) -> (
    Seq<usize>,
    int,
) {
    let bc = spec_best_cand(m, d, n, p);
    if bc.1 < c && first_pos(m, bc.0) >= m.len() {
        (swap_seq(m, p, bc.0), bc.1)
    } else {
        (m, c)
    }
}

/// The live medoid sequence and running cost after the first `p` positions
/// of a sweep that started from `m` with running cost `c`.
pub open spec fn sweep_upto(m: Seq<usize>, c: int, d: Seq<Seq<u64>>, n: nat, p: int) -> (
    Seq<usize>,
    int,
)
    decreases p,
{
    if p <= 0 {
        (m, c)
    } else {
        let prev = sweep_upto(m, c, d, n, p - 1);
        sweep_step(prev.0, prev.1, d, n, p - 1)
    }
}

/// The result of one full sweep: every medoid position is processed in order.
pub open spec fn spec_sweep(m: Seq<usize>, c: int, d: Seq<Seq<u64>>, n: nat) -> (Seq<usize>, int) {
    sweep_upto(m, c, d, n, m.len() as int)
}

/// The best candidate's reported cost is the trial cost of that candidate.
pub proof fn lemma_best_cand_cost(m: Seq<usize>, d: Seq<Seq<u64>>, n: nat, p: int, t: int)
    ensures
        best_cand_upto(m, d, n, p, t).1 == trial_cost(m, d, n, p, best_cand_upto(m, d, n, p, t).0),
    decreases t,
{
    if t > 1 {
        lemma_best_cand_cost(m, d, n, p, t - 1);
    }
}

/// A sweep that changes nothing keeps the running cost; one that changes
/// the medoid set strictly lowers it, and to a non-negative value. This is
/// what makes the optimization loop terminate.
pub proof fn lemma_sweep_progress(m: Seq<usize>, c: int, d: Seq<Seq<u64>>, n: nat, p: int)
    requires
        0 <= p <= m.len(),
    ensures
        sweep_upto(m, c, d, n, p).0 == m ==> sweep_upto(m, c, d, n, p).1 == c,
        sweep_upto(m, c, d, n, p).0 != m ==> 0 <= sweep_upto(m, c, d, n, p).1 < c,
    decreases p,
{
    if p > 0 {
        lemma_sweep_progress(m, c, d, n, p - 1);
        lemma_sweep_upto_frame(m, c, d, n, p - 1);
        let prev = sweep_upto(m, c, d, n, p - 1);
        let cur = sweep_upto(m, c, d, n, p);
        assert(cur == sweep_step(prev.0, prev.1, d, n, p - 1));
        let bc = spec_best_cand(prev.0, d, n, p - 1);
        if bc.1 < prev.1 && first_pos(prev.0, bc.0) >= prev.0.len() {
            lemma_first_pos_from_correct(prev.0, bc.0, 0);
            let trial = swap_seq(prev.0, p - 1, bc.0);
            lemma_best_cand_cost(prev.0, d, n, p - 1, n as int);
            if n >= 1 {
                lemma_cost_nonneg(
                    trial,
                    spec_assign(trial, d, n),
                    d,
                    spec_assign(trial, d, n).len() as int,
                );
            } else {
                assert(bc.1 == spec_cost(trial, spec_assign(trial, d, n), d));
                assert(spec_assign(trial, d, n).len() == 0);
            }
            assert(bc.1 >= 0);
            assert(prev.0[p - 1] != bc.0);
            assert(cur.0[p - 1] == bc.0);
            if prev.0 == m {
                assert(cur.0[p - 1] != m[p - 1]);
                assert(cur.0 != m);
            } else {
                if forall|q: int| 0 <= q < p - 1 ==> prev.0[q] == m[q] {
                    assert(prev.0 =~= m);
                    assert(false);
                }
                let q0 = choose|q: int| 0 <= q < p - 1 && prev.0[q] != m[q];
                assert(cur.0[q0] == prev.0[q0]);
                assert(cur.0 != m);
            }
        }
    }
}

/// The medoid sequence that the optimization loop reaches from `m` with
/// running cost `c`: sweeps repeat until one leaves the sequence unchanged.
/// Every changing sweep strictly lowers the non-negative running cost, so
/// the recursion is finite.
pub open spec fn spec_fit(m: Seq<usize>, c: int, d: Seq<Seq<u64>>, n: nat) -> Seq<usize>
    decreases c,
    via spec_fit_decreases
{
    let s = spec_sweep(m, c, d, n);
    if s.0 == m {
        m
    } else {
        spec_fit(s.0, s.1, d, n)
    }
}

#[via_fn]
proof fn spec_fit_decreases(m: Seq<usize>, c: int, d: Seq<Seq<u64>>, n: nat) {
    lemma_sweep_progress(m, c, d, n, m.len() as int);
}

/// A sweep never touches positions it has not reached yet.
pub proof fn lemma_sweep_upto_frame(m: Seq<usize>, c: int, d: Seq<Seq<u64>>, n: nat, p: int)
    requires
        0 <= p <= m.len(),
    ensures
        sweep_upto(m, c, d, n, p).0.len() == m.len(),
        forall|q: int| p <= q < m.len() ==> sweep_upto(m, c, d, n, p).0[q] == m[q],
    decreases p,
{
    if p > 0 {
        lemma_sweep_upto_frame(m, c, d, n, p - 1);
        let prev = sweep_upto(m, c, d, n, p - 1);
        assert(sweep_upto(m, c, d, n, p) == sweep_step(prev.0, prev.1, d, n, p - 1));
    }
}

/// Evaluates one swap: builds the trial medoid sequence, recomputes the full
/// assignment from scratch, and returns its total cost.
fn eval_swap(medoids: &Vec<usize>, p: usize, cand: usize, n: usize, d: &Vec<Vec<u64>>) -> (c: u128)
    requires
        matrix_wf(rows_view(d@), n as nat),
        medoids_wf(medoids@, n as nat),
        p < medoids@.len(),
        cand < n,
    ensures
        c as int == trial_cost(medoids@, rows_view(d@), n as nat, p as int, cand),
{
    let mut trial: Vec<usize> = Vec::new();
    let mut i: usize = 0;
    while i < medoids.len()
        invariant
            i <= medoids@.len(),
            trial@.len() == i,
            p < medoids@.len(),
            forall|q: int|
                0 <= q < i ==> trial@[q] == (if q == p {
                    cand
                } else {
                    medoids@[q]
                }),
        decreases medoids@.len() - i,
    {
        if i == p {
            trial.push(cand);
        } else {
            trial.push(medoids[i]);
        }
        i = i + 1;
    }
    proof {
        assert(trial@ =~= swap_seq(medoids@, p as int, cand));
    }
    let labels = assign_indices(&trial, n, d);
    cost_indices(&trial, &labels, d)
}

/// Finds the best swap candidate for medoid position `p`: the entity whose
/// substitution yields the lowest trial cost, the first entity serving as the
/// default candidate and earlier entities winning ties.
fn best_candidate(medoids: &Vec<usize>, p: usize, n: usize, d: &Vec<Vec<u64>>) -> (res: (
    usize,
    u128,
))
    requires
        matrix_wf(rows_view(d@), n as nat),
        medoids_wf(medoids@, n as nat),
        p < medoids@.len(),
        n >= 1,
    ensures
        (res.0, res.1 as int) == spec_best_cand(medoids@, rows_view(d@), n as nat, p as int),
        res.0 < n,
{
    let mut best: usize = 0;
    let mut best_c: u128 = eval_swap(medoids, p, 0, n, d);
    let mut t: usize = 1;
    while t < n
        invariant
            1 <= t <= n,
            matrix_wf(rows_view(d@), n as nat),
            medoids_wf(medoids@, n as nat),
            p < medoids@.len(),
            best < t,
            (best, best_c as int) == best_cand_upto(
                medoids@,
                rows_view(d@),
                n as nat,
                p as int,
                t as int,
            ),
        decreases n - t,
    {
        let pos = find_pos(medoids, t);
        if pos >= medoids.len() {
            let c = eval_swap(medoids, p, t, n, d);
            if c < best_c {
                best = t;
                best_c = c;
            }
        }
        t = t + 1;
    }
    (best, best_c)
}

/// The clustering model: the name index (`nodes`, position = matrix index),
/// the square distance matrix, the live medoid sequence, the entity-to-label
/// assignment, and the cluster count `k`. Populated once by `init`, then
/// mutated only by the optimization loop.
pub struct KMedoids {
    medoids: Vec<usize>,
    node_labels: Vec<usize>,
    nodes: Vec<String>,
    dist_matrix: Vec<Vec<u64>>,
    k: usize,
}

/// The mathematical view of a model: the medoid sequence, the assignment,
/// the name index, the distance matrix as a sequence of rows, and `k`.
pub struct ModelView {
    pub medoids: Seq<usize>,
    pub node_labels: Seq<usize>,
    pub nodes: Seq<String>,
    pub dist: Seq<Seq<u64>>,
    pub k: int,
}

impl View for KMedoids {
    type V = ModelView;

    closed spec fn view(&self) -> ModelView {
        ModelView {
            medoids: self.medoids@,
            node_labels: self.node_labels@,
            nodes: self.nodes@,
            dist: rows_view(self.dist_matrix@),
            k: self.k as int,
        }
    }
}

impl KMedoids {
    /// Well-formedness of the model: the matrix is square over the entity
    /// set, names are unique, medoids are distinct valid indices, `k` is the
    /// medoid count, and the stored assignment — once one exists — is exactly
    /// the nearest-medoid assignment of the live medoid sequence.
    pub open spec fn wf(&self) -> bool {
        let n = self@.nodes.len();
        &&& matrix_wf(self@.dist, n)
        &&& forall|i: int, j: int| 0 <= i < j < n ==> self@.nodes[i]@ != self@.nodes[j]@
        &&& forall|p: int| 0 <= p < self@.medoids.len() ==> (self@.medoids[p] as nat) < n
        &&& distinct_seq(self@.medoids)
        &&& self@.k == self@.medoids.len()
        &&& self@.node_labels.len() == 0 || {
            &&& self@.medoids.len() >= 1
            &&& self@.node_labels == spec_assign(self@.medoids, self@.dist, n)
            &&& forall|v: int|
                0 <= v < self@.node_labels.len() ==> (self@.node_labels[v] as int)
                    < self@.medoids.len()
        }
    }

    /// An empty model: no entities, no matrix, no medoids, no assignment.
    pub fn new() -> (res: KMedoids)
        ensures
            res.wf(),
            res@.nodes.len() == 0,
            res@.dist.len() == 0,
            res@.medoids.len() == 0,
            res@.node_labels.len() == 0,
            res@.k == 0,
    {
        KMedoids {
            medoids: Vec::new(),
            node_labels: Vec::new(),
            nodes: Vec::new(),
            dist_matrix: Vec::new(),
            k: 0,
        }
    }

    /// Ingests a labeled distance table: the first row and first column hold
    /// entity names around a corner cell, the interior holds the distances.
    /// The header names (and matching row order) define the name index; each
    /// interior cell must be a non-negative integer distance. The first cell
    /// that is not, in row-major order, is reported as a `ParseError`
    /// carrying that cell's raw text, and the model is left unchanged.
    pub fn init(&mut self, labeled_matrix: &Vec<Vec<String>>) -> (res: Result<(), KmError>)
        requires
            old(self)@.nodes.len() == 0,
            old(self)@.dist.len() == 0,
            old(self)@.medoids.len() == 0,
            old(self)@.node_labels.len() == 0,
            old(self)@.k == 0,
            labeled_matrix@.len() >= 1,
            forall|r: int|
                0 <= r < labeled_matrix@.len() ==> (#[trigger] labeled_matrix@[r]@.len())
                    == labeled_matrix@.len(),
            forall|i: int, j: int|
                1 <= i < j < labeled_matrix@.len() ==> labeled_matrix@[0]@[i]@
                    != labeled_matrix@[0]@[j]@,
        ensures
            (res is Ok) <==> (forall|r: int, c: int|
                1 <= r < labeled_matrix@.len() && 1 <= c < labeled_matrix@.len()
                    ==> cell_ok(#[trigger] labeled_matrix@[r]@[c]@)),
            res is Ok ==> {
                let n = labeled_matrix@.len() - 1;
                &&& final(self).wf()
                &&& final(self)@.nodes.len() == n
                &&& forall|i: int|
                    0 <= i < n ==> final(self)@.nodes[i]@ == labeled_matrix@[0]@[i + 1]@
                &&& final(self)@.dist.len() == n
                &&& forall|r: int, c: int|
                    0 <= r < n && 0 <= c < n ==> final(self)@.dist[r][c] as int == digits_val(
                        #[trigger] labeled_matrix@[r + 1]@[c + 1]@,
                    )
                &&& final(self)@.medoids.len() == 0
                &&& final(self)@.node_labels.len() == 0
                &&& final(self)@.k == 0
            },
            res matches Err(e) ==> {
                &&& *final(self) == *old(self)
                &&& exists|r: int, c: int|
                    {
                        &&& 1 <= r < labeled_matrix@.len()
                        &&& 1 <= c < labeled_matrix@.len()
                        &&& !cell_ok(#[trigger] labeled_matrix@[r]@[c]@)
                        &&& (e matches KmError::ParseError(t) && t@ == labeled_matrix@[r]@[c]@)
                        &&& forall|r2: int, c2: int|
                            1 <= r2 < labeled_matrix@.len() && 1 <= c2 < labeled_matrix@.len() && (
                            r2 < r || (r2 == r && c2 < c)) ==> cell_ok(
                                #[trigger] labeled_matrix@[r2]@[c2]@,
                            )
                    }
            },
    {
        let size = labeled_matrix.len();
        let mut new_nodes: Vec<String> = Vec::new();
        let mut i: usize = 1;
        while i < size
            invariant
                1 <= i <= size,
                size == labeled_matrix@.len(),
                labeled_matrix@[0]@.len() == size,
                new_nodes@.len() == i - 1,
                forall|q: int| 0 <= q < i - 1 ==> new_nodes@[q]@ == labeled_matrix@[0]@[q + 1]@,
            decreases size - i,
        {
            let header = &labeled_matrix[0];
            new_nodes.push(header[i].clone());
            i = i + 1;
        }
        let mut new_matrix: Vec<Vec<u64>> = Vec::new();
        let mut r: usize = 1;
        while r < size
            invariant
                1 <= r <= size,
                size == labeled_matrix@.len(),
                forall|r2: int|
                    0 <= r2 < size ==> (#[trigger] labeled_matrix@[r2]@.len()) == size,
                new_matrix@.len() == r - 1,
                forall|r2: int|
                    0 <= r2 < r - 1 ==> (#[trigger] new_matrix@[r2]@.len()) == size - 1,
                forall|r2: int, c2: int|
                    0 <= r2 < r - 1 && 0 <= c2 < size - 1 ==> (#[trigger] new_matrix@[r2]@[c2])
                        as int == digits_val(labeled_matrix@[r2 + 1]@[c2 + 1]@),
                forall|r2: int, c2: int|
                    1 <= r2 < r && 1 <= c2 < size ==> cell_ok(
                        #[trigger] labeled_matrix@[r2]@[c2]@,
                    ),
            decreases size - r,
        {
            let mut row: Vec<u64> = Vec::new();
            let mut c: usize = 1;
            while c < size
                invariant
                    1 <= c <= size,
                    1 <= r < size,
                    size == labeled_matrix@.len(),
                    labeled_matrix@[r as int]@.len() == size,
                    row@.len() == c - 1,
                    forall|c2: int|
                        0 <= c2 < c - 1 ==> (#[trigger] row@[c2]) as int == digits_val(
                            labeled_matrix@[r as int]@[c2 + 1]@,
                        ),
                    forall|c2: int|
                        1 <= c2 < c ==> cell_ok(#[trigger] labeled_matrix@[r as int]@[c2]@),
                    forall|r2: int, c2: int|
                        1 <= r2 < r && 1 <= c2 < size ==> cell_ok(
                            #[trigger] labeled_matrix@[r2]@[c2]@,
                        ),
                decreases size - c,
            {
                let row_ref = &labeled_matrix[r];
                match parse_cell(row_ref[c].as_str()) {
                    Ok(v) => {
                        row.push(v);
                    },
                    Err(e) => {
                        proof {
                            let rr = r as int;
                            let cc = c as int;
                            assert(!cell_ok(labeled_matrix@[rr]@[cc]@));
                            assert(forall|r2: int, c2: int|
                                1 <= r2 < labeled_matrix@.len() && 1 <= c2 < labeled_matrix@.len()
                                    && (r2 < rr || (r2 == rr && c2 < cc)) ==> cell_ok(
                                    #[trigger] labeled_matrix@[r2]@[c2]@,
                                ));
                        }
                        return Err(e);
                    },
                }
                c = c + 1;
            }
            new_matrix.push(row);
            r = r + 1;
        }
        self.nodes = new_nodes;
        self.dist_matrix = new_matrix;
        proof {
            let n = labeled_matrix@.len() - 1;
            assert forall|rr: int, cc: int| 0 <= rr < n && 0 <= cc < n implies rows_view(
                self.dist_matrix@,
            )[rr][cc] as int == digits_val(labeled_matrix@[rr + 1]@[cc + 1]@) by {
                assert(rows_view(self.dist_matrix@)[rr] == self.dist_matrix@[rr]@);
            }
            assert(matrix_wf(rows_view(self.dist_matrix@), self.nodes@.len()));
        }
        Ok(())
    }

    /// Evaluates one candidate swap by name: the trial medoid list is
    /// `medoids` with `medoid` replaced by `node` at the same position
    /// (preserving label semantics), and the result is the total cost that a
    /// from-scratch assignment and cost pass produce on the trial list.
    pub fn swap_cost(&self, medoids: &Vec<String>, medoid: &String, node: &String) -> (res: Result<
        u128,
        KmError,
    >)
        requires
            self.wf(),
            medoids@.len() >= 1,
            name_pos(medoids@, medoid@) < medoids@.len(),
        ensures
            (res is Ok) <==> ((forall|j: int|
                0 <= j < medoids@.len() ==> #[trigger] name_pos(self@.nodes, medoids@[j]@)
                    < self@.nodes.len()) && name_pos(self@.nodes, node@) < self@.nodes.len()),
            res matches Ok(c) ==> c as int == trial_cost(
                medoid_indices(medoids@, self@.nodes),
                self@.dist,
                self@.nodes.len(),
                name_pos(medoids@, medoid@),
                name_pos(self@.nodes, node@) as usize,
            ),
            res matches Err(e) ==> (e matches KmError::UnknownEntity(_)),
    {
        let p = find_name(medoids, medoid);
        let mids = match resolve_names(medoids, &self.nodes) {
            Ok(mids) => mids,
            Err(e) => {
                return Err(e);
            },
        };
        let cand = find_name(&self.nodes, node);
        proof {
            lemma_name_pos_from_correct(self.nodes@, node@, 0);
        }
        if cand >= self.nodes.len() {
            return Err(KmError::UnknownEntity(node.clone()));
        }
        proof {
            assert forall|q: int| 0 <= q < mids@.len() implies (mids@[q] as nat)
                < self@.nodes.len() by {
                lemma_name_pos_from_correct(self.nodes@, medoids@[q]@, 0);
            }
        }
        Ok(eval_swap(&mids, p, cand, self.nodes.len(), &self.dist_matrix))
    }

    /// One optimization sweep over the live medoid set: for each medoid
    /// position in order, the best single-entity substitution is applied
    /// immediately when its trial cost is strictly below the running cost
    /// (and the candidate is not already a medoid). The running cost never
    /// increases, and it strictly decreases whenever the sweep changes the
    /// medoid set.
    pub fn sweep(&mut self, current_cost: u128) -> (res: (u128, bool))
        requires
            old(self).wf(),
            old(self)@.medoids.len() >= 1,
            old(self)@.nodes.len() >= 1,
            old(self)@.node_labels.len() == 0,
            current_cost as int == set_cost(
                old(self)@.medoids,
                old(self)@.dist,
                old(self)@.nodes.len(),
            ),
        ensures
            final(self).wf(),
            final(self)@.nodes == old(self)@.nodes,
            final(self)@.dist == old(self)@.dist,
            final(self)@.node_labels == old(self)@.node_labels,
            final(self)@.k == old(self)@.k,
            final(self)@.medoids.len() == old(self)@.medoids.len(),
            (final(self)@.medoids, res.0 as int) == spec_sweep(
                old(self)@.medoids,
                current_cost as int,
                old(self)@.dist,
                old(self)@.nodes.len(),
            ),
            res.0 as int == set_cost(final(self)@.medoids, old(self)@.dist, old(self)@.nodes.len()),
            res.0 <= current_cost,
            res.1 <==> final(self)@.medoids != old(self)@.medoids,
            !res.1 ==> res.0 == current_cost,
            res.1 ==> res.0 < current_cost,
    {
        let ghost m0 = self.medoids@;
        let ghost c0 = current_cost as int;
        let ghost dd = self@.dist;
        let ghost nn = self@.nodes.len();
        let n = self.nodes.len();
        let k = self.medoids.len();
        let mut cost_now = current_cost;
        let mut changed = false;
        let mut p: usize = 0;
        while p < k
            invariant
                p <= k,
                k == m0.len(),
                k == self.medoids@.len(),
                n == nn,
                nn >= 1,
                k >= 1,
                matrix_wf(dd, nn),
                dd == rows_view(self.dist_matrix@),
                self.nodes == old(self).nodes,
                self.dist_matrix == old(self).dist_matrix,
                self.node_labels == old(self).node_labels,
                self.k == old(self).k,
                self.nodes@.len() == nn,
                forall|q: int| 0 <= q < k ==> (self.medoids@[q] as nat) < nn,
                distinct_seq(self.medoids@),
                (self.medoids@, cost_now as int) == sweep_upto(m0, c0, dd, nn, p as int),
                cost_now as int == set_cost(self.medoids@, dd, nn),
                cost_now <= current_cost,
                changed <==> self.medoids@ != m0,
                !changed ==> cost_now == current_cost,
                changed ==> cost_now < current_cost,
            decreases k - p,
        {
            let ghost m_prev = self.medoids@;
            let ghost c_prev = cost_now as int;
            let (cand, cand_cost) = best_candidate(&self.medoids, p, n, &self.dist_matrix);
            let pos = find_pos(&self.medoids, cand);
            proof {
                lemma_first_pos_from_correct(self.medoids@, cand, 0);
            }
            if cand_cost < cost_now && pos >= self.medoids.len() {
                proof {
                    lemma_best_cand_cost(m_prev, dd, nn, p as int, nn as int);
                    lemma_sweep_upto_frame(m0, c0, dd, nn, p as int);
                    assert(m_prev[p as int] == m0[p as int]);
                    assert(forall|q: int| 0 <= q < m_prev.len() ==> m_prev[q] != cand);
                }
                self.medoids.set(p, cand);
                cost_now = cand_cost;
                changed = true;
                proof {
                    assert(self.medoids@ == swap_seq(m_prev, p as int, cand));
                    assert forall|q1: int, q2: int|
                        0 <= q1 < q2 < self.medoids@.len() implies self.medoids@[q1]
                        != self.medoids@[q2] by {
                        if q1 != p && q2 != p {
                            assert(m_prev[q1] != m_prev[q2]);
                        }
                    }
                    assert(self.medoids@[p as int] != m0[p as int]);
                    assert(self.medoids@ != m0);
                }
            }
            p = p + 1;
            proof {
                assert(sweep_upto(m0, c0, dd, nn, p as int) == sweep_step(
                    m_prev,
                    c_prev,
                    dd,
                    nn,
                    p as int - 1,
                ));
            }
        }
        (cost_now, changed)
    }

    /// Runs the optimization loop from a caller-supplied initial medoid
    /// sequence: sweeps repeat until one leaves the medoid set unchanged.
    /// The loop terminates because every changing sweep strictly lowers the
    /// total cost, a non-negative integer. On return the stored assignment is
    /// the nearest-medoid assignment of the final medoid set, the final cost
    /// is no higher than the initial one, and the final set is a fixpoint of
    /// the sweep.
    pub fn fit_from(&mut self, initial: Vec<usize>)
        requires
            old(self).wf(),
            old(self)@.medoids.len() == 0,
            old(self)@.node_labels.len() == 0,
            old(self)@.nodes.len() >= 1,
            1 <= initial@.len() <= old(self)@.nodes.len(),
            forall|p: int| 0 <= p < initial@.len() ==> (initial@[p] as nat) < old(self)@.nodes.len(),
            distinct_seq(initial@),
        ensures
            final(self).wf(),
            final(self)@.nodes == old(self)@.nodes,
            final(self)@.dist == old(self)@.dist,
            final(self)@.medoids.len() == initial@.len(),
            final(self)@.k == initial@.len(),
            final(self)@.node_labels == spec_assign(
                final(self)@.medoids,
                old(self)@.dist,
                old(self)@.nodes.len(),
            ),
            set_cost(final(self)@.medoids, old(self)@.dist, old(self)@.nodes.len()) <= set_cost(
                initial@,
                old(self)@.dist,
                old(self)@.nodes.len(),
            ),
            spec_sweep(
                final(self)@.medoids,
                set_cost(final(self)@.medoids, old(self)@.dist, old(self)@.nodes.len()),
                old(self)@.dist,
                old(self)@.nodes.len(),
            ).0 == final(self)@.medoids,
            final(self)@.medoids == spec_fit(
                initial@,
                set_cost(initial@, old(self)@.dist, old(self)@.nodes.len()),
                old(self)@.dist,
                old(self)@.nodes.len(),
            ),
    {
        let ghost dd = old(self)@.dist;
        let ghost nn = old(self)@.nodes.len();
        let ghost init = initial@;
        self.medoids = initial;
        self.k = self.medoids.len();
        let n = self.nodes.len();
        let labels0 = assign_indices(&self.medoids, n, &self.dist_matrix);
        let mut cost_now: u128 = cost_indices(&self.medoids, &labels0, &self.dist_matrix);
        let ghost c0 = cost_now as int;
        loop
            invariant
                self.wf(),
                self@.nodes == old(self)@.nodes,
                self@.node_labels.len() == 0,
                self@.nodes.len() == nn,
                self@.dist == dd,
                nn >= 1,
                self@.medoids.len() == init.len(),
                1 <= init.len(),
                cost_now as int == set_cost(self@.medoids, dd, nn),
                cost_now as int <= set_cost(init, dd, nn),
                c0 == set_cost(init, dd, nn),
                spec_fit(init, c0, dd, nn) == spec_fit(self@.medoids, cost_now as int, dd, nn),
            ensures
                self.wf(),
                self@.nodes == old(self)@.nodes,
                self@.node_labels.len() == 0,
                self@.nodes.len() == nn,
                self@.dist == dd,
                self@.medoids.len() == init.len(),
                cost_now as int == set_cost(self@.medoids, dd, nn),
                cost_now as int <= set_cost(init, dd, nn),
                spec_sweep(self@.medoids, cost_now as int, dd, nn).0 == self@.medoids,
                self@.medoids == spec_fit(init, c0, dd, nn),
            decreases cost_now,
        {
            let ghost m_entry = self@.medoids;
            let ghost c_entry = cost_now as int;
            let (c2, swept) = self.sweep(cost_now);
            cost_now = c2;
            proof {
                assert(spec_fit(m_entry, c_entry, dd, nn) == (if spec_sweep(
                    m_entry,
                    c_entry,
                    dd,
                    nn,
                ).0 == m_entry {
                    m_entry
                } else {
                    spec_fit(self@.medoids, cost_now as int, dd, nn)
                }));
            }
            if !swept {
                break;
            }
        }
        self.node_labels = assign_indices(&self.medoids, n, &self.dist_matrix);
    }

    /// Fits the model: validates `k`, draws `k` distinct random entities as
    /// the initial medoid set, and runs the optimization loop to
    /// convergence. Succeeds exactly when `1 <= k <= n`; a `k` of zero or
    /// above the entity count is rejected as `InvalidK` with the model left
    /// unchanged.
    pub fn fit(&mut self, k: u64) -> (res: Result<(), KmError>)
        requires
            old(self).wf(),
            old(self)@.medoids.len() == 0,
            old(self)@.node_labels.len() == 0,
        ensures
            (res is Ok) <==> (1 <= k as int <= old(self)@.nodes.len()),
            res matches Err(e) ==> (*final(self) == *old(self) && e matches KmError::InvalidK),
            res is Ok ==> {
                &&& final(self).wf()
                &&& final(self)@.nodes == old(self)@.nodes
                &&& final(self)@.dist == old(self)@.dist
                &&& final(self)@.medoids.len() == k as int
                &&& final(self)@.k == k as int
                &&& final(self)@.node_labels == spec_assign(
                    final(self)@.medoids,
                    old(self)@.dist,
                    old(self)@.nodes.len(),
                )
                &&& spec_sweep(
                    final(self)@.medoids,
                    set_cost(final(self)@.medoids, old(self)@.dist, old(self)@.nodes.len()),
                    old(self)@.dist,
                    old(self)@.nodes.len(),
                ).0 == final(self)@.medoids
            },
    {
        let n = self.nodes.len();
        if k == 0 || k > n as u64 {
            return Err(KmError::InvalidK);
        }
        let kk: usize = k as usize;
        let initial = choose_medoids(n, kk);
        self.fit_from(initial);
        Ok(())
    }

    /// The names, in name-index order, of the entities assigned to the given
    /// cluster label.
    pub fn cluster_members(&self, label: usize) -> (res: Vec<String>)
        requires
            self.wf(),
            self@.node_labels.len() == self@.nodes.len(),
        ensures
            res@ == cluster_of(self@.nodes, self@.node_labels, label, self@.nodes.len() as int),
    {
        let mut res: Vec<String> = Vec::new();
        let n = self.nodes.len();
        let mut v: usize = 0;
        while v < n
            invariant
                v <= n,
                n == self.nodes@.len(),
                self.node_labels@.len() == n,
                res@ == cluster_of(self.nodes@, self.node_labels@, label, v as int),
            decreases n - v,
        {
            if self.node_labels[v] == label {
                res.push(self.nodes[v].clone());
            }
            v = v + 1;
        }
        res
    }

    /// The number of entities in the name index.
    pub fn num_entities(&self) -> (n: usize)
        ensures
            n == self@.nodes.len(),
    {
        self.nodes.len()
    }

    /// The matrix index of a named entity, if the name is known.
    pub fn index_of(&self, name: &str) -> (r: Option<usize>)
        ensures
            match r {
                Some(i) => i as int == name_pos(self@.nodes, name@) && (i as int)
                    < self@.nodes.len(),
                None => name_pos(self@.nodes, name@) == self@.nodes.len(),
            },
    {
        let owned = name.to_owned();
        let p = find_name(&self.nodes, &owned);
        proof {
            lemma_name_pos_from_correct(self.nodes@, owned@, 0);
        }
        if p < self.nodes.len() {
            Some(p)
        } else {
            None
        }
    }

    /// One cell of the distance matrix.
    pub fn distance(&self, i: usize, j: usize) -> (r: u64)
        requires
            self.wf(),
            (i as int) < self@.nodes.len(),
            (j as int) < self@.nodes.len(),
        ensures
            r == self@.dist[i as int][j as int],
    {
        proof {
            assert(self@.dist[i as int] == self.dist_matrix@[i as int]@);
        }
        let row = &self.dist_matrix[i];
        row[j]
    }

    /// The live medoid sequence, as entity indices.
    pub fn medoids(&self) -> (r: &Vec<usize>)
        ensures
            r@ == self@.medoids,
    {
        &self.medoids
    }

    /// The stored assignment: one label per entity, in name-index order;
    /// empty until the model has been fitted.
    pub fn labels(&self) -> (r: &Vec<usize>)
        ensures
            r@ == self@.node_labels,
    {
        &self.node_labels
    }

    /// The label of a named entity, or `None` when the name is unknown or no
    /// assignment has been computed yet.
    pub fn label_of(&self, name: &str) -> (r: Option<usize>)
        requires
            self.wf(),
        ensures
            match r {
                Some(l) => {
                    &&& name_pos(self@.nodes, name@) < self@.nodes.len()
                    &&& self@.node_labels.len() == self@.nodes.len()
                    &&& l == self@.node_labels[name_pos(self@.nodes, name@)]
                },
                None => name_pos(self@.nodes, name@) == self@.nodes.len()
                    || self@.node_labels.len() == 0,
            },
    {
        let owned = name.to_owned();
        let p = find_name(&self.nodes, &owned);
        proof {
            lemma_name_pos_from_correct(self.nodes@, owned@, 0);
        }
        if p < self.nodes.len() && self.node_labels.len() == self.nodes.len() {
            Some(self.node_labels[p])
        } else {
            None
        }
    }

    /// The total cost of the stored assignment against the live medoid set.
    pub fn total_cost(&self) -> (c: u128)
        requires
            self.wf(),
            self@.medoids.len() >= 1,
            self@.node_labels.len() == self@.nodes.len(),
        ensures
            c as int == spec_cost(self@.medoids, self@.node_labels, self@.dist),
            c as int == set_cost(self@.medoids, self@.dist, self@.nodes.len()),
    {
        cost_indices(&self.medoids, &self.node_labels, &self.dist_matrix)
    }
}

/// The names, in name-index order, of the first `t` entities whose label is
/// `label`.
pub open spec fn cluster_of(nodes: Seq<String>, labels: Seq<usize>, label: usize, t: int) -> Seq<
    String,
>
    decreases t,
{
    if t <= 0 {
        Seq::empty()
    } else {
        let prev = cluster_of(nodes, labels, label, t - 1);
        if labels[t - 1] == label {
            prev.push(nodes[t - 1])
        } else {
            prev
        }
    }
}

/// A sweep never raises the running cost, however far it has progressed.
pub proof fn lemma_sweep_cost_nonincrease(m: Seq<usize>, c: int, d: Seq<Seq<u64>>, n: nat, p: int)
    ensures
        sweep_upto(m, c, d, n, p).1 <= c,
    decreases p,
{
    if p > 0 {
        lemma_sweep_cost_nonincrease(m, c, d, n, p - 1);
    }
}

/// Relies on rand::thread_rng and rand::Rng::gen_range: draws one value
/// uniformly from the range [0, bound). The range is non-empty, so the call
/// does not panic; nothing more is assumed of the outcome.
#[verifier::external_body]
fn rand_below(bound: usize) -> (r: usize)
    requires
        bound >= 1,
    ensures
        r < bound,
{
    rand::thread_rng().gen_range(0..bound)
}

/// Draws `k` distinct entity indices uniformly at random, by a partial
/// Fisher-Yates shuffle of the full index pool.
fn choose_medoids(n: usize, k: usize) -> (res: Vec<usize>)
    requires
        1 <= k <= n,
    ensures
        res@.len() == k,
        distinct_seq(res@),
        forall|p: int| 0 <= p < k ==> (res@[p] as nat) < n,
{
    let mut pool: Vec<usize> = Vec::new();
    let mut i: usize = 0;
    while i < n
        invariant
            i <= n,
            pool@.len() == i,
            forall|q: int| 0 <= q < i ==> (pool@[q] as int) == q,
        decreases n - i,
    {
        pool.push(i);
        i = i + 1;
    }
    let mut t: usize = 0;
    while t < k
        invariant
            t <= k,
            k <= n,
            pool@.len() == n,
            distinct_seq(pool@),
            forall|q: int| 0 <= q < n ==> (pool@[q] as nat) < n,
        decreases k - t,
    {
        let r = rand_below(n - t);
        let j = t + r;
        let ghost before = pool@;
        let a = pool[t];
        let b = pool[j];
        pool.set(t, b);
        pool.set(j, a);
        proof {
            assert forall|q1: int, q2: int| 0 <= q1 < q2 < pool@.len() implies pool@[q1]
                != pool@[q2] by {
                assert(before[q1] != before[q2]);
                if q1 != t && q1 != j && q2 != t && q2 != j {
                    assert(pool@[q1] == before[q1] && pool@[q2] == before[q2]);
                }
            }
        }
        t = t + 1;
    }
    let mut res: Vec<usize> = Vec::new();
    let mut t2: usize = 0;
    while t2 < k
        invariant
            t2 <= k,
            k <= pool@.len(),
            res@.len() == t2,
            distinct_seq(pool@),
            forall|q: int| 0 <= q < pool@.len() ==> (pool@[q] as nat) < n,
            forall|q: int| 0 <= q < t2 ==> res@[q] == pool@[q],
        decreases k - t2,
    {
        res.push(pool[t2]);
        t2 = t2 + 1;
    }
    res
}

} // verus!
