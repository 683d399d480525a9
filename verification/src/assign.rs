//! Nearest-medoid assignment and total-cost computation.
//!
//! The engine works on dense indices: entity `v` is row and column `v` of the
//! distance matrix, and the name index (an ordered list of unique names)
//! translates between names and indices. A medoid's position in the medoid
//! sequence is its cluster label.

use vstd::prelude::*;

use crate::errors::KmError;

verus! {

/// The rows of an executable matrix, as a sequence of sequences.
pub open spec fn rows_view(d: Seq<Vec<u64>>) -> Seq<Seq<u64>> {
    Seq::new(d.len(), |i: int| d[i]@)
}

/// A well-formed distance matrix for `n` entities: square, `n` by `n`.
pub open spec fn matrix_wf(d: Seq<Seq<u64>>, n: nat) -> bool {
    d.len() == n && forall|i: int| 0 <= i < n ==> d[i].len() == n
}

/// A well-formed medoid sequence for `n` entities: non-empty, every medoid a
/// valid entity index.
pub open spec fn medoids_wf(m: Seq<usize>, n: nat) -> bool {
    m.len() >= 1 && forall|p: int| 0 <= p < m.len() ==> (m[p] as nat) < n
}

/// No entity appears twice.
pub open spec fn distinct_seq(m: Seq<usize>) -> bool {
    forall|p: int, q: int| 0 <= p < q < m.len() ==> m[p] != m[q]
}

/// The first position at or after `t` where `m` holds `v`, or `m.len()` if
/// there is none.
pub open spec fn first_pos_from(m: Seq<usize>, v: usize, t: int) -> int
    decreases m.len() - t,
{
    if t < 0 || t >= m.len() {
        m.len() as int
    } else if m[t] == v {
        t
    } else {
        first_pos_from(m, v, t + 1)
    }
}

/// The first position where `m` holds `v`, or `m.len()` if there is none.
pub open spec fn first_pos(m: Seq<usize>, v: usize) -> int {
    first_pos_from(m, v, 0)
}

/// The label of the medoid nearest to entity `v` among the first `t` medoids,
/// scanning in order and keeping the running minimum under strict `<`, so the
/// earliest medoid wins ties. Label `0` is the seed.
pub open spec fn nearest_upto(m: Seq<usize>, d: Seq<Seq<u64>>, v: int, t: int) -> int
    decreases t,
{
    if t <= 1 {
        0
    } else {
        let b = nearest_upto(m, d, v, t - 1);
        if d[v][m[t - 1] as int] < d[v][m[b] as int] {
            t - 1
        } else {
            b
        }
    }
}

/// The cluster label of entity `v` under medoid sequence `m`: a medoid is
/// labelled with its own (first) position in `m`, every other entity with the
/// label of its nearest medoid.
pub open spec fn node_label(m: Seq<usize>, d: Seq<Seq<u64>>, v: usize) -> int {
    if first_pos(m, v) < m.len() {
        first_pos(m, v)
    } else {
        nearest_upto(m, d, v as int, m.len() as int)
    }
}

/// The full entity-to-label assignment for `n` entities.
pub open spec fn spec_assign(m: Seq<usize>, d: Seq<Seq<u64>>, n: nat) -> Seq<usize> {
    Seq::new(n, |v: int| node_label(m, d, v as usize) as usize)
}

/// The sum, over the first `t` entities, of the distance from each entity to
/// its assigned medoid.
pub open spec fn cost_upto(m: Seq<usize>, labels: Seq<usize>, d: Seq<Seq<u64>>, t: int) -> int
    decreases t,
{
    if t <= 0 {
        0
    } else {
        cost_upto(m, labels, d, t - 1) + d[t - 1][m[labels[t - 1] as int] as int]
    }
}

/// The total cost of an assignment: the sum over every entity of the distance
/// to its assigned medoid.
pub open spec fn spec_cost(m: Seq<usize>, labels: Seq<usize>, d: Seq<Seq<u64>>) -> int {
    cost_upto(m, labels, d, labels.len() as int)
}

/// The cost a medoid sequence earns on its own nearest-medoid assignment.
pub open spec fn set_cost(m: Seq<usize>, d: Seq<Seq<u64>>, n: nat) -> int {
    spec_cost(m, spec_assign(m, d, n), d)
}

/// Every assigned label is a valid cluster label, in `[0, k)`.
pub proof fn lemma_labels_in_range(m: Seq<usize>, d: Seq<Seq<u64>>, v: int, t: int)
    requires
        1 <= t <= m.len(),
    ensures
        0 <= nearest_upto(m, d, v, t) < t,
    decreases t,
{
    if t > 1 {
        lemma_labels_in_range(m, d, v, t - 1);
    }
}

/// `first_pos_from` finds a position holding `v`, and none earlier.
pub proof fn lemma_first_pos_from_correct(m: Seq<usize>, v: usize, t: int)
    requires
        0 <= t <= m.len(),
    ensures
        t <= first_pos_from(m, v, t) <= m.len(),
        first_pos_from(m, v, t) < m.len() ==> m[first_pos_from(m, v, t)] == v,
        forall|q: int| t <= q < first_pos_from(m, v, t) ==> m[q] != v,
    decreases m.len() - t,
{
    if t < m.len() && m[t] != v {
        lemma_first_pos_from_correct(m, v, t + 1);
    }
}

/// Medoid self-label invariant: under a duplicate-free medoid sequence, the
/// medoid at position `p` is assigned label `p`, its own position.
pub proof fn lemma_medoid_self_label(m: Seq<usize>, d: Seq<Seq<u64>>, n: nat, p: int)
    requires
        medoids_wf(m, n),
        distinct_seq(m),
        m.len() <= usize::MAX,
        0 <= p < m.len(),
    ensures
        spec_assign(m, d, n)[m[p] as int] == p,
{
    let v = m[p];
    lemma_first_pos_from_correct(m, v, 0);
    let f = first_pos(m, v);
    assert(f <= m.len());
    if f >= m.len() {
        assert(m[p] != v);
        assert(false);
    }
    assert(m[f] == v);
    if f < p {
        assert(m[f] != m[p]);
        assert(false);
    } else if f > p {
        assert(m[p] != v);
        assert(false);
    }
    assert((m[p] as nat) < n);
    assert(spec_assign(m, d, n)[m[p] as int] == node_label(m, d, v) as usize);
    assert(node_label(m, d, v) == p);
}

/// Determinism of assignment: for a fixed medoid sequence, distance matrix
/// and entity count, the nearest-medoid assignment is one mathematical
/// value, so any two computed assignments agree, call after call.
pub proof fn lemma_assign_deterministic(
    labels1: Seq<usize>,
    labels2: Seq<usize>,
    m: Seq<usize>,
    d: Seq<Seq<u64>>,
    n: nat,
)
    requires
        labels1 == spec_assign(m, d, n),
        labels2 == spec_assign(m, d, n),
    ensures
        labels1 == labels2,
{
}

/// Total cost is never negative: distances are non-negative, and the cost is
/// their sum.
pub proof fn lemma_cost_nonneg(m: Seq<usize>, labels: Seq<usize>, d: Seq<Seq<u64>>, t: int)
    ensures
        cost_upto(m, labels, d, t) >= 0,
    decreases t,
{
    if t > 0 {
        lemma_cost_nonneg(m, labels, d, t - 1);
    }
}

/// Finds the first position of `v` in `m`, or `m.len()` if `v` is absent.
pub fn find_pos(m: &Vec<usize>, v: usize) -> (r: usize)
    ensures
        r as int == first_pos(m@, v),
{
    let mut i: usize = 0;
    while i < m.len()
        invariant
            i <= m@.len(),
            first_pos(m@, v) == first_pos_from(m@, v, i as int),
        decreases m@.len() - i,
    {
        if m[i] == v {
            return i;
        }
        i = i + 1;
    }
    i
}

/// Computes the nearest-medoid assignment for all `n` entities: each medoid
/// gets its own position in `m` as its label, every other entity the label of
/// its closest medoid, earliest medoid winning ties.
pub fn assign_indices(m: &Vec<usize>, n: usize, d: &Vec<Vec<u64>>) -> (labels: Vec<usize>)
    requires
        matrix_wf(rows_view(d@), n as nat),
        medoids_wf(m@, n as nat),
    ensures
        labels@ == spec_assign(m@, rows_view(d@), n as nat),
        labels@.len() == n,
        forall|v: int| 0 <= v < n ==> (labels@[v] as int) < m@.len(),
{
    let dd = Ghost(rows_view(d@));
    let mut labels: Vec<usize> = Vec::new();
    let mut v: usize = 0;
    while v < n
        invariant
            v <= n,
            labels@.len() == v,
            matrix_wf(dd@, n as nat),
            medoids_wf(m@, n as nat),
            dd@ == rows_view(d@),
            forall|w: int| 0 <= w < v ==> labels@[w] == spec_assign(m@, dd@, n as nat)[w],
            forall|w: int| 0 <= w < v ==> (labels@[w] as int) < m@.len(),
        decreases n - v,
    {
        let p = find_pos(m, v);
        proof {
            lemma_first_pos_from_correct(m@, v, 0);
        }
        let lab: usize;
        if p < m.len() {
            lab = p;
        } else {
            proof {
                assert(dd@[v as int] == d@[v as int]@);
            }
            let mut best: usize = 0;
            let mut best_d: u64 = d[v][m[0]];
            let mut t: usize = 1;
            while t < m.len()
                invariant
                    1 <= t <= m@.len(),
                    matrix_wf(dd@, n as nat),
                    medoids_wf(m@, n as nat),
                    dd@ == rows_view(d@),
                    v < n,
                    (best as int) == nearest_upto(m@, dd@, v as int, t as int),
                    best < t,
                    best_d == dd@[v as int][m@[best as int] as int],
                decreases m@.len() - t,
            {
                proof {
                    assert(dd@[v as int] == d@[v as int]@);
                }
                let dist_t = d[v][m[t]];
                if dist_t < best_d {
                    best = t;
                    best_d = dist_t;
                }
                t = t + 1;
            }
            lab = best;
            proof {
                lemma_labels_in_range(m@, dd@, v as int, m@.len() as int);
            }
        }
        labels.push(lab);
        v = v + 1;
    }
    proof {
        assert(labels@ =~= spec_assign(m@, dd@, n as nat));
    }
    labels
}

/// Sums the distance from every entity to its assigned medoid. The result is
/// exact: a `u128` cannot overflow on a sum of at most `usize::MAX` distances
/// that each fit in a `u64`.
pub fn cost_indices(m: &Vec<usize>, labels: &Vec<usize>, d: &Vec<Vec<u64>>) -> (c: u128)
    requires
        matrix_wf(rows_view(d@), d@.len() as nat),
        labels@.len() == d@.len(),
        forall|v: int| 0 <= v < labels@.len() ==> (labels@[v] as int) < m@.len(),
        forall|p: int| 0 <= p < m@.len() ==> (m@[p] as int) < d@.len(),
    ensures
        c as int == spec_cost(m@, labels@, rows_view(d@)),
{
    let dd = Ghost(rows_view(d@));
    let n = labels.len();
    let mut c: u128 = 0;
    let mut v: usize = 0;
    while v < n
        invariant
            v <= n,
            n == labels@.len(),
            n == d@.len(),
            matrix_wf(dd@, n as nat),
            dd@ == rows_view(d@),
            forall|w: int| 0 <= w < labels@.len() ==> (labels@[w] as int) < m@.len(),
            forall|p: int| 0 <= p < m@.len() ==> (m@[p] as int) < d@.len(),
            c as int == cost_upto(m@, labels@, dd@, v as int),
            c as int <= (v as int) * 0xffff_ffff_ffff_ffff,
        decreases n - v,
    {
        proof {
            assert(dd@[v as int] == d@[v as int]@);
        }
        let dist = d[v][m[labels[v]]];
        proof {
            assert((v as int + 1) * 0xffff_ffff_ffff_ffff == (v as int) * 0xffff_ffff_ffff_ffff
                + 0xffff_ffff_ffff_ffff) by (nonlinear_arith);
            assert((v as int) * 0xffff_ffff_ffff_ffff <= 0xffff_ffff_ffff_ffff
                * 0xffff_ffff_ffff_ffff) by (nonlinear_arith)
                requires 0 <= v as int <= 0xffff_ffff_ffff_ffff;
        }
        c = c + (dist as u128);
        v = v + 1;
    }
    c
}

/// The index of each medoid name in the name index: position `j` of the
/// result resolves the `j`-th medoid name, or holds `names.len()` if the
/// name is unknown.
pub open spec fn medoid_indices(ms: Seq<String>, names: Seq<String>) -> Seq<usize> {
    Seq::new(ms.len(), |j: int| name_pos(names, ms[j]@) as usize)
}

/// The first position at or after `t` where `names` holds the name `x`, or
/// `names.len()` if there is none.
pub open spec fn name_pos_from(names: Seq<String>, x: Seq<char>, t: int) -> int
    decreases names.len() - t,
{
    if t < 0 || t >= names.len() {
        names.len() as int
    } else if names[t]@ == x {
        t
    } else {
        name_pos_from(names, x, t + 1)
    }
}

/// The first position where `names` holds the name `x`, or `names.len()` if
/// the name is absent.
pub open spec fn name_pos(names: Seq<String>, x: Seq<char>) -> int {
    name_pos_from(names, x, 0)
}

/// `name_pos_from` finds a position holding `x`, and none earlier.
pub proof fn lemma_name_pos_from_correct(names: Seq<String>, x: Seq<char>, t: int)
    requires
        0 <= t <= names.len(),
    ensures
        t <= name_pos_from(names, x, t) <= names.len(),
        name_pos_from(names, x, t) < names.len() ==> names[name_pos_from(names, x, t)]@ == x,
        forall|q: int| t <= q < name_pos_from(names, x, t) ==> names[q]@ != x,
    decreases names.len() - t,
{
    if t < names.len() && names[t]@ != x {
        lemma_name_pos_from_correct(names, x, t + 1);
    }
}

/// Finds the index of a name in the name index, or `nodes.len()` if the name
/// is unknown.
pub fn find_name(nodes: &Vec<String>, x: &String) -> (r: usize)
    ensures
        r as int == name_pos(nodes@, x@),
{
    let mut i: usize = 0;
    while i < nodes.len()
        invariant
            i <= nodes@.len(),
            name_pos(nodes@, x@) == name_pos_from(nodes@, x@, i as int),
        decreases nodes@.len() - i,
    {
        if nodes[i] == *x {
            return i;
        }
        i = i + 1;
    }
    i
}

/// Resolves each medoid name to its entity index; the first unknown name is
/// reported as `UnknownEntity`.
pub fn resolve_names(medoids: &Vec<String>, nodes: &Vec<String>) -> (res: Result<
    Vec<usize>,
    KmError,
>)
    ensures
        match res {
            Ok(mids) => {
                &&& mids@ == medoid_indices(medoids@, nodes@)
                &&& forall|j: int|
                    0 <= j < medoids@.len() ==> name_pos(nodes@, medoids@[j]@) < nodes@.len()
            },
            Err(e) => {
                &&& exists|j: int|
                    {
                        &&& 0 <= j < medoids@.len()
                        &&& #[trigger] name_pos(nodes@, medoids@[j]@) == nodes@.len()
                        &&& (e matches KmError::UnknownEntity(t) && t@ == medoids@[j]@)
                        &&& forall|j2: int|
                            0 <= j2 < j ==> name_pos(nodes@, medoids@[j2]@) < nodes@.len()
                    }
            },
        },
{
    let mut mids: Vec<usize> = Vec::new();
    let mut j: usize = 0;
    while j < medoids.len()
        invariant
            j <= medoids@.len(),
            mids@.len() == j,
            forall|j2: int|
                0 <= j2 < j ==> {
                    &&& #[trigger] name_pos(nodes@, medoids@[j2]@) < nodes@.len()
                    &&& mids@[j2] as int == name_pos(nodes@, medoids@[j2]@)
                },
        decreases medoids@.len() - j,
    {
        let p = find_name(nodes, &medoids[j]);
        proof {
            lemma_name_pos_from_correct(nodes@, medoids@[j as int]@, 0);
        }
        if p >= nodes.len() {
            proof {
                assert(name_pos(nodes@, medoids@[j as int]@) == nodes@.len());
            }
            return Err(KmError::UnknownEntity(medoids[j].clone()));
        }
        mids.push(p);
        j = j + 1;
    }
    proof {
        assert(mids@ =~= medoid_indices(medoids@, nodes@));
    }
    Ok(mids)
}

/// Computes the entity-to-label assignment for a medoid set given by name.
/// The result is a label per entity, in name-index order; it is a pure
/// function of the arguments, so repeated calls agree. Fails only when a
/// medoid name is missing from the name index.
pub fn assign_identities(medoids: &Vec<String>, nodes: &Vec<String>, dist_matrix: &Vec<
    Vec<u64>,
>) -> (res: Result<Vec<usize>, KmError>)
    requires
        medoids@.len() >= 1,
        matrix_wf(rows_view(dist_matrix@), nodes@.len() as nat),
    ensures
        match res {
            Ok(labels) => {
                &&& labels@ == spec_assign(
                    medoid_indices(medoids@, nodes@),
                    rows_view(dist_matrix@),
                    nodes@.len() as nat,
                )
                &&& forall|j: int|
                    0 <= j < medoids@.len() ==> name_pos(nodes@, medoids@[j]@) < nodes@.len()
            },
            Err(e) => {
                &&& e matches KmError::UnknownEntity(_)
                &&& exists|j: int|
                    0 <= j < medoids@.len() && #[trigger] name_pos(nodes@, medoids@[j]@)
                        == nodes@.len()
            },
        },
{
    let mids = match resolve_names(medoids, nodes) {
        Ok(mids) => mids,
        Err(e) => {
            return Err(e);
        },
    };
    proof {
        assert forall|p: int| 0 <= p < mids@.len() implies (mids@[p] as nat)
            < nodes@.len() by {
            lemma_name_pos_from_correct(nodes@, medoids@[p]@, 0);
        }
    }
    Ok(assign_indices(&mids, nodes.len(), dist_matrix))
}

/// Sums, over every entity, the distance between that entity and the medoid
/// its label points at. Fails only when a medoid name is missing from the
/// name index.
pub fn cost(medoids: &Vec<String>, node_labels: &Vec<usize>, nodes: &Vec<String>, dist_matrix: &Vec<
    Vec<u64>,
>) -> (res: Result<u128, KmError>)
    requires
        matrix_wf(rows_view(dist_matrix@), nodes@.len() as nat),
        node_labels@.len() == nodes@.len(),
        forall|v: int| 0 <= v < node_labels@.len() ==> (node_labels@[v] as int) < medoids@.len(),
    ensures
        match res {
            Ok(c) => {
                &&& c as int == spec_cost(
                    medoid_indices(medoids@, nodes@),
                    node_labels@,
                    rows_view(dist_matrix@),
                )
                &&& c >= 0
            },
            Err(e) => {
                &&& e matches KmError::UnknownEntity(_)
                &&& exists|j: int|
                    0 <= j < medoids@.len() && #[trigger] name_pos(nodes@, medoids@[j]@)
                        == nodes@.len()
            },
        },
{
    let mids = match resolve_names(medoids, nodes) {
        Ok(mids) => mids,
        Err(e) => {
            return Err(e);
        },
    };
    proof {
        assert forall|p: int| 0 <= p < mids@.len() implies (mids@[p] as int)
            < dist_matrix@.len() by {
            lemma_name_pos_from_correct(nodes@, medoids@[p]@, 0);
        }
    }
    Ok(cost_indices(&mids, node_labels, dist_matrix))
}

} // verus!
