//! Node indexing and MNA system assembly.
//!
//! `build_node_map` assigns a dense zero-based index to every distinct
//! non-ground node label, in first-appearance order over the element list.
//! `build_op_matrix` allocates the `(N+M) x (N+M)` system (`N` node
//! unknowns, `M` voltage-source branch unknowns) and applies each
//! element's stamp.  A cell holds the exact sequence of contributions
//! stamped into it — a conductance `±1/r` or a unit `±1` — so the
//! assembled structure is stated without any floating-point arithmetic;
//! the driver sums the contributions numerically before solving.

use vstd::prelude::*;
use vstd::string::*;
use crate::chars::str_eq;
use crate::num::{Num, NumV, zero_num, zero_numv};
use crate::elements::{Element, ElementV, nodes_of};
use crate::inputsource::{InputSource, InputSourceV};

verus! {

/// The reference (ground) node label, never assigned an index.
pub open spec fn ground() -> Seq<char> {
    seq!['0']
}

fn is_ground(label: &String) -> (r: bool)
    ensures
        r == (label@ == ground()),
{
    let s = label.as_str();
    if s.unicode_len() == 1 && s.get_char(0) == '0' {
        assert(label@ =~= ground());
        true
    } else {
        assert(label@ != ground());
        false
    }
}

/// The label list extended by one node: ground and already-present labels
/// change nothing; a new label is appended.
pub open spec fn add_label(acc: Seq<Seq<char>>, l: Seq<char>) -> Seq<Seq<char>> {
    if l == ground() || acc.contains(l) {
        acc
    } else {
        acc.push(l)
    }
}

/// The label list after scanning elements `i..`, starting from `acc`;
/// each element contributes `node1` then `node2`.
pub open spec fn spec_node_labels_from(els: Seq<ElementV>, i: int, acc: Seq<Seq<char>>)
    -> Seq<Seq<char>>
    decreases els.len() - i,
    when 0 <= i
{
    if i >= els.len() {
        acc
    } else {
        let nodes = nodes_of(els[i]);
        spec_node_labels_from(els, i + 1, add_label(add_label(acc, nodes.0), nodes.1))
    }
}

/// The distinct non-ground node labels of an element list, in
/// first-appearance order.
pub open spec fn spec_node_labels(els: Seq<ElementV>) -> Seq<Seq<char>> {
    spec_node_labels_from(els, 0, Seq::empty())
}

/// A well-formed label list: pairwise distinct, and never the ground
/// label.
pub open spec fn labels_wf(acc: Seq<Seq<char>>) -> bool {
    (forall|a: int, b: int| 0 <= a < b < acc.len() ==> acc[a] != acc[b])
        && (forall|a: int| 0 <= a < acc.len() ==> acc[a] != ground())
}

proof fn lemma_add_label_wf(acc: Seq<Seq<char>>, l: Seq<char>)
    requires
        labels_wf(acc),
    ensures
        labels_wf(add_label(acc, l)),
{
    if !(l == ground() || acc.contains(l)) {
        let r = acc.push(l);
        assert forall|a: int, b: int| 0 <= a < b < r.len() implies r[a] != r[b] by {
            if b < acc.len() {
            } else {
                assert(r[b] == l);
                assert(!acc.contains(l));
                assert(acc[a] != l);
            }
        }
    }
}

proof fn lemma_node_labels_from_wf(els: Seq<ElementV>, i: int, acc: Seq<Seq<char>>)
    requires
        0 <= i <= els.len(),
        labels_wf(acc),
    ensures
        labels_wf(spec_node_labels_from(els, i, acc)),
    decreases els.len() - i,
{
    if i < els.len() {
        let nodes = nodes_of(els[i]);
        lemma_add_label_wf(acc, nodes.0);
        lemma_add_label_wf(add_label(acc, nodes.0), nodes.1);
        lemma_node_labels_from_wf(els, i + 1, add_label(add_label(acc, nodes.0), nodes.1));
    }
}

/// Node indexing is injective and excludes ground: no two distinct labels
/// share an index (the list is duplicate-free), and `"0"` is never given
/// one.
pub proof fn lemma_node_labels_injective(els: Seq<ElementV>)
    ensures
        labels_wf(spec_node_labels(els)),
{
    lemma_node_labels_from_wf(els, 0, Seq::empty());
}

proof fn lemma_node_labels_from_grows(els: Seq<ElementV>, i: int, acc: Seq<Seq<char>>,
    x: Seq<char>)
    requires
        0 <= i <= els.len(),
        acc.contains(x),
    ensures
        spec_node_labels_from(els, i, acc).contains(x),
    decreases els.len() - i,
{
    if i < els.len() {
        let nodes = nodes_of(els[i]);
        let acc1 = add_label(acc, nodes.0);
        let acc2 = add_label(acc1, nodes.1);
        assert(acc1.contains(x)) by {
            if acc1 != acc {
                let w = choose|w: int| 0 <= w < acc.len() && acc[w] == x;
                assert(acc1[w] == x);
            }
        }
        assert(acc2.contains(x)) by {
            if acc2 != acc1 {
                let w = choose|w: int| 0 <= w < acc1.len() && acc1[w] == x;
                assert(acc2[w] == x);
            }
        }
        lemma_node_labels_from_grows(els, i + 1, acc2, x);
    }
}

/// Every non-ground node of every element appears in the label list.
pub proof fn lemma_node_labels_complete(els: Seq<ElementV>, i: int, acc: Seq<Seq<char>>, k: int)
    requires
        0 <= i <= k < els.len(),
    ensures
        nodes_of(els[k]).0 != ground()
            ==> spec_node_labels_from(els, i, acc).contains(nodes_of(els[k]).0),
        nodes_of(els[k]).1 != ground()
            ==> spec_node_labels_from(els, i, acc).contains(nodes_of(els[k]).1),
    decreases els.len() - i,
{
    let nodes = nodes_of(els[i]);
    let acc1 = add_label(acc, nodes.0);
    let acc2 = add_label(acc1, nodes.1);
    if i == k {
        if nodes.0 != ground() {
            assert(acc1.contains(nodes.0)) by {
                if !acc.contains(nodes.0) {
                    assert(acc1[acc.len() as int] == nodes.0);
                } else {
                    let w = choose|w: int| 0 <= w < acc.len() && acc[w] == nodes.0;
                    assert(acc1[w] == nodes.0);
                }
            }
            assert(acc2.contains(nodes.0)) by {
                let w = choose|w: int| 0 <= w < acc1.len() && acc1[w] == nodes.0;
                assert(acc2[w] == nodes.0);
            }
            lemma_node_labels_from_grows(els, i + 1, acc2, nodes.0);
        }
        if nodes.1 != ground() {
            assert(acc2.contains(nodes.1)) by {
                if !acc1.contains(nodes.1) {
                    assert(acc2[acc1.len() as int] == nodes.1);
                } else {
                    let w = choose|w: int| 0 <= w < acc1.len() && acc1[w] == nodes.1;
                    assert(acc2[w] == nodes.1);
                }
            }
            lemma_node_labels_from_grows(els, i + 1, acc2, nodes.1);
        }
    } else {
        lemma_node_labels_complete(els, i + 1, acc2, k);
    }
}

/// First index of `l` in `labels[i..]`.
pub open spec fn spec_index_of_from(labels: Seq<Seq<char>>, l: Seq<char>, i: int) -> Option<int>
    decreases labels.len() - i,
{
    if i < 0 || i >= labels.len() {
        None
    } else if labels[i] == l {
        Some(i)
    } else {
        spec_index_of_from(labels, l, i + 1)
    }
}

/// The index a label is mapped to: its first position in the label list.
pub open spec fn spec_index_of(labels: Seq<Seq<char>>, l: Seq<char>) -> Option<int> {
    spec_index_of_from(labels, l, 0)
}

pub proof fn lemma_index_of_from_props(labels: Seq<Seq<char>>, l: Seq<char>, i: int)
    requires
        0 <= i <= labels.len(),
    ensures
        match spec_index_of_from(labels, l, i) {
            Some(w) => i <= w < labels.len() && labels[w] == l,
            None => forall|k: int| i <= k < labels.len() ==> labels[k] != l,
        },
    decreases labels.len() - i,
{
    if i < labels.len() && labels[i] != l {
        lemma_index_of_from_props(labels, l, i + 1);
    }
}

/// A contained label has an index; an index always points back at its
/// label.
pub proof fn lemma_index_of_contains(labels: Seq<Seq<char>>, l: Seq<char>)
    ensures
        labels.contains(l) <==> spec_index_of(labels, l) is Some,
        spec_index_of(labels, l) matches Some(w) ==> 0 <= w < labels.len() && labels[w] == l,
{
    lemma_index_of_from_props(labels, l, 0);
    if labels.contains(l) {
        let w = choose|w: int| 0 <= w < labels.len() && labels[w] == l;
        if spec_index_of(labels, l) is None {
            assert(labels[w] != l);
        }
    }
    if spec_index_of(labels, l) is Some {
        let w = spec_index_of(labels, l).unwrap();
        assert(labels[w] == l);
    }
}

/// Both of an element's nodes are indexed by `labels`, unless ground.
pub open spec fn node_covered(labels: Seq<Seq<char>>, e: ElementV) -> bool {
    (nodes_of(e).0 != ground() ==> spec_index_of(labels, nodes_of(e).0) is Some)
        && (nodes_of(e).1 != ground() ==> spec_index_of(labels, nodes_of(e).1) is Some)
}

/// The label list indexes every non-ground node that any element of the
/// list references — all a node-index map owes the MNA builder.
pub open spec fn covers(labels: Seq<Seq<char>>, els: Seq<ElementV>) -> bool {
    forall|k: int| 0 <= k < els.len() ==> node_covered(labels, #[trigger] els[k])
}

/// The label list `build_node_map` produces covers its own element list.
pub proof fn lemma_node_labels_cover(els: Seq<ElementV>)
    ensures
        covers(spec_node_labels(els), els),
{
    let labels = spec_node_labels(els);
    assert forall|k: int| 0 <= k < els.len() implies node_covered(labels, #[trigger] els[k]) by {
        lemma_node_labels_complete(els, 0, Seq::empty(), k);
        lemma_index_of_contains(labels, nodes_of(els[k]).0);
        lemma_index_of_contains(labels, nodes_of(els[k]).1);
    }
}

/// Two distinct labels never share an index: each index points back at
/// its own label.
pub proof fn lemma_index_mapping_injective(labels: Seq<Seq<char>>, l1: Seq<char>, l2: Seq<char>)
    requires
        l1 != l2,
        spec_index_of(labels, l1) is Some,
        spec_index_of(labels, l2) is Some,
    ensures
        spec_index_of(labels, l1) != spec_index_of(labels, l2),
{
    lemma_index_of_contains(labels, l1);
    lemma_index_of_contains(labels, l2);
}

/// The ground label `"0"` is never a key of the node-index mapping.
pub proof fn lemma_ground_never_indexed(els: Seq<ElementV>)
    ensures
        spec_index_of(spec_node_labels(els), ground()) is None,
{
    let labels = spec_node_labels(els);
    lemma_node_labels_injective(els);
    lemma_index_of_contains(labels, ground());
    if labels.contains(ground()) {
        let w = choose|w: int| 0 <= w < labels.len() && labels[w] == ground();
        assert(labels[w] != ground());
    }
}

/// The node-index map: node labels in first-appearance order; a label's
/// index is its position.
#[derive(Debug)]
pub struct NodeMap {
    pub labels: Vec<String>,
}

impl NodeMap {
    /// The number of indexed nodes.
    pub fn len(&self) -> (n: usize)
        ensures
            n == self.labels@.len(),
    {
        self.labels.len()
    }

    /// The index assigned to `label`, if any.
    pub fn index_of(&self, label: &str) -> (r: Option<usize>)
        ensures
            match r {
                Some(ix) => spec_index_of(self.labels.deep_view(), label@) == Some(ix as int),
                None => spec_index_of(self.labels.deep_view(), label@) is None,
            },
    {
        let ghost dv = self.labels.deep_view();
        let n = self.labels.len();
        let mut i: usize = 0;
        while i < n
            invariant
                0 <= i <= n,
                n == self.labels@.len(),
                dv == self.labels.deep_view(),
                dv.len() == n,
                forall|k: int| 0 <= k < i ==> dv[k] != label@,
                spec_index_of(dv, label@) == spec_index_of_from(dv, label@, i as int),
            decreases n - i,
        {
            assert(dv[i as int] == self.labels@[i as int]@);
            if str_eq(self.labels[i].as_str(), label) {
                return Some(i);
            }
            i += 1;
        }
        None
    }
}

fn contains_label(labels: &Vec<String>, l: &String) -> (r: bool)
    ensures
        r == labels.deep_view().contains(l@),
{
    let ghost dv = labels.deep_view();
    let n = labels.len();
    let mut i: usize = 0;
    while i < n
        invariant
            0 <= i <= n,
            n == labels@.len(),
            dv == labels.deep_view(),
            dv.len() == n,
            forall|k: int| 0 <= k < i ==> dv[k] != l@,
        decreases n - i,
    {
        assert(dv[i as int] == labels@[i as int]@);
        if str_eq(labels[i].as_str(), l.as_str()) {
            assert(dv.contains(l@)) by {
                assert(dv[i as int] == l@);
            }
            return true;
        }
        i += 1;
    }
    assert(!dv.contains(l@));
    false
}

fn add_node(labels: &mut Vec<String>, node: &String)
    ensures
        final(labels).deep_view() == add_label(old(labels).deep_view(), node@),
{
    let g = is_ground(node);
    if !g && !contains_label(labels, node) {
        let ghost pre = labels.deep_view();
        labels.push(node.clone());
        assert(labels.deep_view() =~~= pre.push(node@));
    }
}

/// Scan the element list in order and give every distinct non-ground node
/// label the next dense index, starting at 0.
pub fn build_node_map(elements: &Vec<Element>) -> (nm: NodeMap)
    ensures
        nm.labels.deep_view() == spec_node_labels(elements.deep_view()),
{
    let ghost ev = elements.deep_view();
    let mut labels: Vec<String> = Vec::new();
    assert(labels.deep_view() =~~= Seq::<Seq<char>>::empty());
    let mut i: usize = 0;
    while i < elements.len()
        invariant
            0 <= i <= elements@.len(),
            ev == elements.deep_view(),
            ev.len() == elements@.len(),
            spec_node_labels(ev) == spec_node_labels_from(ev, i as int, labels.deep_view()),
        decreases elements@.len() - i,
    {
        assert(ev[i as int] == elements@[i as int]@);
        let (node1, node2): (&String, &String) = match &elements[i] {
            Element::Resistor { node1, node2, .. } => (node1, node2),
            Element::Capacitor { node1, node2, .. } => (node1, node2),
            Element::Inductor { node1, node2, .. } => (node1, node2),
            Element::VoltageSource { node1, node2, .. } => (node1, node2),
        };
        assert(node1@ == nodes_of(ev[i as int]).0);
        assert(node2@ == nodes_of(ev[i as int]).1);
        add_node(&mut labels, node1);
        add_node(&mut labels, node2);
        i += 1;
    }
    NodeMap { labels }
}

/// One contribution stamped into a system cell.  A cell's numeric value
/// is the sum of its contributions, in stamp order.
#[derive(Debug)]
pub enum Stamp {
    /// `±1/resistance` — a resistor's conductance.
    Conductance { neg: bool, resistance: Num },
    /// `±1` — an inductor's unit conductance or a voltage-source
    /// coupling coefficient.
    Unit { neg: bool },
}

/// Mathematical image of a `Stamp`.
pub enum StampV {
    Conductance { neg: bool, resistance: NumV },
    Unit { neg: bool },
}

impl View for Stamp {
    type V = StampV;

    open spec fn view(&self) -> StampV {
        match self {
            Stamp::Conductance { neg, resistance } => StampV::Conductance {
                neg: *neg,
                resistance: resistance@,
            },
            Stamp::Unit { neg } => StampV::Unit { neg: *neg },
        }
    }
}

impl DeepView for Stamp {
    type V = StampV;

    open spec fn deep_view(&self) -> StampV {
        self.view()
    }
}

/// The matrix with one more contribution accumulated into cell `(i, j)`.
pub open spec fn mat_add(m: Seq<Seq<Seq<StampV>>>, i: int, j: int, st: StampV)
    -> Seq<Seq<Seq<StampV>>> {
    m.update(i, m[i].update(j, m[i][j].push(st)))
}

/// The matrix with cell `(i, j)` overwritten by a single contribution.
pub open spec fn mat_set(m: Seq<Seq<Seq<StampV>>>, i: int, j: int, st: StampV)
    -> Seq<Seq<Seq<StampV>>> {
    m.update(i, m[i].update(j, seq![st]))
}

/// The number of voltage sources among the first `i` elements — the
/// position of element `i`'s auxiliary row, when element `i` is a source.
pub open spec fn vs_before(els: Seq<ElementV>, i: int) -> int
    decreases i,
{
    if i <= 0 {
        0
    } else {
        vs_before(els, i - 1) + (if els[i - 1] is VoltageSource {
            1int
        } else {
            0int
        })
    }
}

pub proof fn lemma_vs_before_nonneg(els: Seq<ElementV>, i: int)
    requires
        0 <= i,
    ensures
        0 <= vs_before(els, i) <= i,
    decreases i,
{
    if i > 0 {
        lemma_vs_before_nonneg(els, i - 1);
    }
}

pub proof fn lemma_vs_before_bounds(els: Seq<ElementV>, i: int, j: int)
    requires
        0 <= i <= j,
    ensures
        vs_before(els, i) <= vs_before(els, j) <= vs_before(els, i) + (j - i),
        0 <= vs_before(els, i) <= i,
    decreases j - i,
{
    lemma_vs_before_nonneg(els, i);
    if i < j {
        lemma_vs_before_bounds(els, i, j - 1);
    }
}

/// The symmetric two-node stamp: `plus` on both diagonal cells and
/// `minus` on both off-diagonal cells when neither node is ground; `plus`
/// on the one diagonal cell when exactly one node is non-ground.
pub open spec fn stamp_pair(
    m: Seq<Seq<Seq<StampV>>>,
    labels: Seq<Seq<char>>,
    node1: Seq<char>,
    node2: Seq<char>,
    plus: StampV,
    minus: StampV,
) -> Seq<Seq<Seq<StampV>>> {
    if node1 != ground() && node2 != ground() {
        let i1 = spec_index_of(labels, node1).unwrap();
        let i2 = spec_index_of(labels, node2).unwrap();
        mat_add(mat_add(mat_add(mat_add(m, i1, i1, plus), i2, i2, plus), i1, i2, minus),
            i2, i1, minus)
    } else if node1 != ground() {
        let i1 = spec_index_of(labels, node1).unwrap();
        mat_add(m, i1, i1, plus)
    } else if node2 != ground() {
        let i2 = spec_index_of(labels, node2).unwrap();
        mat_add(m, i2, i2, plus)
    } else {
        m
    }
}

/// The voltage-source coupling stamp: `+1` entries tying `node1`'s row
/// and the auxiliary row, `-1` entries for `node2`, set symmetrically.
pub open spec fn stamp_vsource_mat(
    m: Seq<Seq<Seq<StampV>>>,
    labels: Seq<Seq<char>>,
    node1: Seq<char>,
    node2: Seq<char>,
    aux: int,
) -> Seq<Seq<Seq<StampV>>> {
    let m1 = if node1 != ground() {
        let i1 = spec_index_of(labels, node1).unwrap();
        mat_set(mat_set(m, i1, aux, StampV::Unit { neg: false }), aux, i1,
            StampV::Unit { neg: false })
    } else {
        m
    };
    if node2 != ground() {
        let i2 = spec_index_of(labels, node2).unwrap();
        mat_set(mat_set(m1, i2, aux, StampV::Unit { neg: true }), aux, i2,
            StampV::Unit { neg: true })
    } else {
        m1
    }
}

/// The operating-point value of a waveform: its DC component, 0 for every
/// other variant.
pub open spec fn dc_value(w: InputSourceV) -> NumV {
    match w {
        InputSourceV::DC { voltage } => voltage,
        _ => zero_numv(),
    }
}

/// The system after stamping elements `i..` into state `(m, rhs)`.
pub open spec fn spec_stamp_from(
    els: Seq<ElementV>,
    i: int,
    labels: Seq<Seq<char>>,
    m: Seq<Seq<Seq<StampV>>>,
    rhs: Seq<NumV>,
) -> (Seq<Seq<Seq<StampV>>>, Seq<NumV>)
    decreases els.len() - i,
    when 0 <= i
{
    if i >= els.len() {
        (m, rhs)
    } else {
        match els[i] {
            ElementV::Resistor { node1, node2, resistance, .. } => spec_stamp_from(
                els,
                i + 1,
                labels,
                stamp_pair(m, labels, node1, node2,
                    StampV::Conductance { neg: false, resistance },
                    StampV::Conductance { neg: true, resistance }),
                rhs,
            ),
            ElementV::Capacitor { .. } => spec_stamp_from(els, i + 1, labels, m, rhs),
            ElementV::Inductor { node1, node2, .. } => spec_stamp_from(
                els,
                i + 1,
                labels,
                stamp_pair(m, labels, node1, node2, StampV::Unit { neg: false },
                    StampV::Unit { neg: true }),
                rhs,
            ),
            ElementV::VoltageSource { node1, node2, vtype, .. } => {
                let aux = labels.len() + vs_before(els, i);
                spec_stamp_from(
                    els,
                    i + 1,
                    labels,
                    stamp_vsource_mat(m, labels, node1, node2, aux),
                    rhs.update(aux, dc_value(vtype)),
                )
            },
        }
    }
}

/// A capacitor contributes nothing to the DC system: stamping it leaves
/// the matrix and the right-hand side exactly as they were.
pub proof fn lemma_capacitor_no_stamp(
    els: Seq<ElementV>,
    i: int,
    labels: Seq<Seq<char>>,
    m: Seq<Seq<Seq<StampV>>>,
    rhs: Seq<NumV>,
)
    requires
        0 <= i < els.len(),
        els[i] is Capacitor,
    ensures
        spec_stamp_from(els, i, labels, m, rhs) == spec_stamp_from(els, i + 1, labels, m, rhs),
{
}

/// The side of the assembled system: one row per indexed node plus one
/// per voltage source.
pub open spec fn spec_op_size(els: Seq<ElementV>, labels: Seq<Seq<char>>) -> int {
    labels.len() + vs_before(els, els.len() as int)
}

/// The empty system of side `size`: every cell without contributions,
/// every right-hand-side entry zero.
pub open spec fn spec_empty_system(size: int) -> (Seq<Seq<Seq<StampV>>>, Seq<NumV>) {
    (
        Seq::new(size as nat, |a: int| Seq::new(size as nat, |b: int| Seq::<StampV>::empty())),
        Seq::new(size as nat, |a: int| zero_numv()),
    )
}

/// The assembled MNA system of an element list under a node labelling.
pub open spec fn spec_build_op(els: Seq<ElementV>, labels: Seq<Seq<char>>)
    -> (Seq<Seq<Seq<StampV>>>, Seq<NumV>) {
    let init = spec_empty_system(spec_op_size(els, labels));
    spec_stamp_from(els, 0, labels, init.0, init.1)
}

/// The assembled DC operating-point system.  Rows and columns `0..N` are
/// node voltages; rows `N..N+M` are voltage-source branch unknowns, in
/// source order.
#[derive(Debug)]
pub struct OpSystem {
    /// The number `N` of indexed (non-ground) nodes.
    pub num_nodes: usize,
    /// The `(N+M) x (N+M)` matrix, each cell the exact sequence of its
    /// stamped contributions.
    pub matrix: Vec<Vec<Vec<Stamp>>>,
    /// The right-hand side: zero everywhere but at the auxiliary row of
    /// each DC voltage source.
    pub rhs: Vec<Num>,
}

fn mat_push(m: &mut Vec<Vec<Vec<Stamp>>>, i: usize, j: usize, st: Stamp)
    requires
        i < old(m)@.len(),
        j < old(m)@[i as int]@.len(),
    ensures
        final(m).deep_view() == mat_add(old(m).deep_view(), i as int, j as int, st@),
        final(m)@.len() == old(m)@.len(),
        forall|a: int| 0 <= a < old(m)@.len() ==> final(m)@[a]@.len() == old(m)@[a]@.len(),
{
    let ghost pre = m.deep_view();
    let ghost sv = st@;
    let mut row: Vec<Vec<Stamp>> = m.remove(i);
    let mut cell: Vec<Stamp> = row.remove(j);
    cell.push(st);
    row.insert(j, cell);
    m.insert(i, row);
    proof {
        assert(m@ =~= old(m)@.update(i as int, m@[i as int]));
        assert(m@[i as int]@ =~= old(m)@[i as int]@.update(j as int, m@[i as int]@[j as int]));
        assert(m.deep_view() =~~= mat_add(pre, i as int, j as int, sv));
    }
}

fn mat_overwrite(m: &mut Vec<Vec<Vec<Stamp>>>, i: usize, j: usize, st: Stamp)
    requires
        i < old(m)@.len(),
        j < old(m)@[i as int]@.len(),
    ensures
        final(m).deep_view() == mat_set(old(m).deep_view(), i as int, j as int, st@),
        final(m)@.len() == old(m)@.len(),
        forall|a: int| 0 <= a < old(m)@.len() ==> final(m)@[a]@.len() == old(m)@[a]@.len(),
{
    let ghost pre = m.deep_view();
    let ghost sv = st@;
    let mut row: Vec<Vec<Stamp>> = m.remove(i);
    let _discarded: Vec<Stamp> = row.remove(j);
    let mut cell: Vec<Stamp> = Vec::new();
    cell.push(st);
    row.insert(j, cell);
    m.insert(i, row);
    proof {
        assert(m@ =~= old(m)@.update(i as int, m@[i as int]));
        assert(m@[i as int]@ =~= old(m)@[i as int]@.update(j as int, m@[i as int]@[j as int]));
        assert(cell@.map(|_k: int, s: Stamp| s.deep_view()) =~= seq![sv]);
        assert(m.deep_view() =~~= mat_set(pre, i as int, j as int, sv));
    }
}

fn rhs_write(rhs: &mut Vec<Num>, i: usize, v: Num)
    requires
        i < old(rhs)@.len(),
    ensures
        final(rhs).deep_view() == old(rhs).deep_view().update(i as int, v@),
        final(rhs)@.len() == old(rhs)@.len(),
{
    let ghost pre = rhs.deep_view();
    let ghost vv = v@;
    let _discarded: Num = rhs.remove(i);
    rhs.insert(i, v);
    proof {
        assert(rhs@ =~= old(rhs)@.update(i as int, rhs@[i as int]));
        assert(rhs.deep_view() =~~= pre.update(i as int, vv));
    }
}

fn index_of_must(node_map: &NodeMap, label: &String) -> (ix: usize)
    requires
        spec_index_of(node_map.labels.deep_view(), label@) is Some,
    ensures
        ix as int == spec_index_of(node_map.labels.deep_view(), label@).unwrap(),
        ix < node_map.labels@.len(),
{
    proof {
        lemma_index_of_contains(node_map.labels.deep_view(), label@);
    }
    match node_map.index_of(label.as_str()) {
        Some(ix) => ix,
        None => vstd::pervasive::unreached(),
    }
}

fn stamp_pair_exec(
    m: &mut Vec<Vec<Vec<Stamp>>>,
    node_map: &NodeMap,
    node1: &String,
    node2: &String,
    plus: Stamp,
    minus: Stamp,
)
    requires
        node1@ != ground() ==> spec_index_of(node_map.labels.deep_view(), node1@) is Some,
        node2@ != ground() ==> spec_index_of(node_map.labels.deep_view(), node2@) is Some,
        node_map.labels@.len() <= old(m)@.len(),
        forall|a: int| 0 <= a < old(m)@.len() ==> #[trigger] old(m)@[a]@.len() == old(m)@.len(),
    ensures
        final(m).deep_view() == stamp_pair(old(m).deep_view(), node_map.labels.deep_view(),
            node1@, node2@, plus@, minus@),
        final(m)@.len() == old(m)@.len(),
        forall|a: int| 0 <= a < old(m)@.len() ==> #[trigger] final(m)@[a]@.len()
            == old(m)@[a]@.len(),
{
    let g1 = is_ground(node1);
    let g2 = is_ground(node2);
    if !g1 && !g2 {
        let i1 = index_of_must(node_map, node1);
        let i2 = index_of_must(node_map, node2);
        let ghost pv = plus@;
        let ghost mv = minus@;
        let plus2 = dup_stamp(&plus);
        let minus2 = dup_stamp(&minus);
        mat_push(m, i1, i1, plus);
        mat_push(m, i2, i2, plus2);
        mat_push(m, i1, i2, minus);
        mat_push(m, i2, i1, minus2);
    } else if !g1 {
        let i1 = index_of_must(node_map, node1);
        mat_push(m, i1, i1, plus);
    } else if !g2 {
        let i2 = index_of_must(node_map, node2);
        mat_push(m, i2, i2, plus);
    }
}

fn dup_stamp(st: &Stamp) -> (r: Stamp)
    ensures
        r@ == st@,
{
    match st {
        Stamp::Conductance { neg, resistance } => Stamp::Conductance {
            neg: *neg,
            resistance: resistance.duplicate(),
        },
        Stamp::Unit { neg } => Stamp::Unit { neg: *neg },
    }
}

fn stamp_vsource_exec(
    m: &mut Vec<Vec<Vec<Stamp>>>,
    node_map: &NodeMap,
    node1: &String,
    node2: &String,
    aux: usize,
)
    requires
        node1@ != ground() ==> spec_index_of(node_map.labels.deep_view(), node1@) is Some,
        node2@ != ground() ==> spec_index_of(node_map.labels.deep_view(), node2@) is Some,
        node_map.labels@.len() <= old(m)@.len(),
        aux < old(m)@.len(),
        forall|a: int| 0 <= a < old(m)@.len() ==> #[trigger] old(m)@[a]@.len() == old(m)@.len(),
    ensures
        final(m).deep_view() == stamp_vsource_mat(old(m).deep_view(),
            node_map.labels.deep_view(), node1@, node2@, aux as int),
        final(m)@.len() == old(m)@.len(),
        forall|a: int| 0 <= a < old(m)@.len() ==> #[trigger] final(m)@[a]@.len()
            == old(m)@[a]@.len(),
{
    let g1 = is_ground(node1);
    if !g1 {
        let i1 = index_of_must(node_map, node1);
        mat_overwrite(m, i1, aux, Stamp::Unit { neg: false });
        mat_overwrite(m, aux, i1, Stamp::Unit { neg: false });
    }
    let g2 = is_ground(node2);
    if !g2 {
        let i2 = index_of_must(node_map, node2);
        mat_overwrite(m, i2, aux, Stamp::Unit { neg: true });
        mat_overwrite(m, aux, i2, Stamp::Unit { neg: true });
    }
}

/// Allocate the `(N+M) x (N+M)` system and apply each element's stamp in
/// element order: resistors accumulate `±1/r`, inductors accumulate unit
/// conductances, capacitors stamp nothing, and each voltage source sets
/// its coupling entries and its right-hand-side DC value.
pub fn build_op_matrix(elements: &Vec<Element>, node_map: &NodeMap) -> (out: OpSystem)
    requires
        covers(node_map.labels.deep_view(), elements.deep_view()),
        spec_op_size(elements.deep_view(), node_map.labels.deep_view()) <= usize::MAX,
    ensures
        out.num_nodes == node_map.labels@.len(),
        out.matrix@.len() == spec_op_size(elements.deep_view(), node_map.labels.deep_view()),
        out.rhs@.len() == out.matrix@.len(),
        forall|a: int| 0 <= a < out.matrix@.len() ==> #[trigger] out.matrix@[a]@.len()
            == out.matrix@.len(),
        (out.matrix.deep_view(), out.rhs.deep_view()) == spec_build_op(elements.deep_view(),
            node_map.labels.deep_view()),
{
    let ghost ev = elements.deep_view();
    let ghost lv = node_map.labels.deep_view();
    let n = node_map.len();

    let mut mcount: usize = 0;
    let mut i: usize = 0;
    while i < elements.len()
        invariant
            0 <= i <= elements@.len(),
            ev == elements.deep_view(),
            ev.len() == elements@.len(),
            mcount == vs_before(ev, i as int),
            mcount <= i,
        decreases elements@.len() - i,
    {
        assert(ev[i as int] == elements@[i as int]@);
        match &elements[i] {
            Element::VoltageSource { .. } => {
                mcount += 1;
            },
            _ => {},
        }
        i += 1;
    }
    let ghost size_spec = spec_op_size(ev, lv);
    assert(n + mcount == size_spec);
    let size = n + mcount;

    let mut matrix: Vec<Vec<Vec<Stamp>>> = Vec::new();
    let mut a: usize = 0;
    while a < size
        invariant
            0 <= a <= size,
            matrix@.len() == a,
            forall|x: int| 0 <= x < a ==> #[trigger] matrix@[x]@.len() == size,
            matrix.deep_view() =~~= Seq::new(a as nat, |x: int| Seq::new(size as nat,
                |y: int| Seq::<StampV>::empty())),
        decreases size - a,
    {
        let mut row: Vec<Vec<Stamp>> = Vec::new();
        let mut b: usize = 0;
        while b < size
            invariant
                0 <= b <= size,
                row@.len() == b,
                row.deep_view() =~~= Seq::new(b as nat, |y: int| Seq::<StampV>::empty()),
            decreases size - b,
        {
            let ghost prow = row.deep_view();
            let cell: Vec<Stamp> = Vec::new();
            row.push(cell);
            proof {
                assert forall|y: int| 0 <= y < b + 1 implies
                    row.deep_view()[y] =~= Seq::<StampV>::empty() by {
                    if y < b {
                        assert(prow[y] == Seq::new(b as nat, |q: int|
                            Seq::<StampV>::empty())[y]);
                    } else {
                        assert(row@[y] == cell);
                    }
                }
                assert(row.deep_view() =~~= Seq::new((b + 1) as nat, |y: int|
                    Seq::<StampV>::empty()));
            }
            b += 1;
        }
        let ghost pmat = matrix.deep_view();
        let ghost rowv = row.deep_view();
        matrix.push(row);
        proof {
            let lam = Seq::new(size as nat, |y: int| Seq::<StampV>::empty());
            assert forall|x: int| 0 <= x < a + 1 implies
                matrix.deep_view()[x] =~~= lam by {
                if x < a {
                    assert(pmat[x] == Seq::new(a as nat, |q: int| Seq::new(size as nat,
                        |y: int| Seq::<StampV>::empty()))[x]);
                } else {
                    assert(matrix.deep_view()[x] == rowv);
                }
            }
            assert(matrix.deep_view() =~~= Seq::new((a + 1) as nat, |x: int|
                Seq::new(size as nat, |y: int| Seq::<StampV>::empty())));
        }
        a += 1;
    }

    let mut rhs: Vec<Num> = Vec::new();
    let mut c: usize = 0;
    while c < size
        invariant
            0 <= c <= size,
            rhs@.len() == c,
            rhs.deep_view() =~~= Seq::new(c as nat, |x: int| zero_numv()),
        decreases size - c,
    {
        let ghost prhs = rhs.deep_view();
        let z = zero_num();
        rhs.push(z);
        proof {
            assert forall|x: int| 0 <= x < c + 1 implies
                rhs.deep_view()[x] == zero_numv() by {
                if x < c {
                    assert(prhs[x] == Seq::new(c as nat, |q: int| zero_numv())[x]);
                } else {
                    assert(rhs@[x] == z);
                }
            }
            assert(rhs.deep_view() =~~= Seq::new((c + 1) as nat, |x: int| zero_numv()));
        }
        c += 1;
    }

    proof {
        assert(matrix.deep_view() =~~= spec_empty_system(size_spec).0);
        assert(rhs.deep_view() =~~= spec_empty_system(size_spec).1);
    }

    let mut seen: usize = 0;
    let mut k: usize = 0;
    while k < elements.len()
        invariant
            0 <= k <= elements@.len(),
            ev == elements.deep_view(),
            ev.len() == elements@.len(),
            lv == node_map.labels.deep_view(),
            covers(lv, ev),
            n == lv.len(),
            size == spec_op_size(ev, lv),
            seen == vs_before(ev, k as int),
            matrix@.len() == size,
            forall|x: int| 0 <= x < size ==> #[trigger] matrix@[x]@.len() == size,
            rhs@.len() == size,
            spec_build_op(ev, lv) == spec_stamp_from(ev, k as int, lv, matrix.deep_view(),
                rhs.deep_view()),
        decreases elements@.len() - k,
    {
        assert(ev[k as int] == elements@[k as int]@);
        proof {
            assert(node_covered(lv, ev[k as int]));
            lemma_index_of_contains(lv, nodes_of(ev[k as int]).0);
            lemma_index_of_contains(lv, nodes_of(ev[k as int]).1);
            lemma_vs_before_nonneg(ev, ev.len() as int);
            assert(node_map.labels@.len() == lv.len());
        }
        match &elements[k] {
            Element::Resistor { node1, node2, resistance, .. } => {
                let plus = Stamp::Conductance { neg: false, resistance: resistance.duplicate() };
                let minus = Stamp::Conductance { neg: true, resistance: resistance.duplicate() };
                stamp_pair_exec(&mut matrix, node_map, node1, node2, plus, minus);
            },
            Element::Capacitor { .. } => {},
            Element::Inductor { node1, node2, .. } => {
                stamp_pair_exec(&mut matrix, node_map, node1, node2, Stamp::Unit { neg: false },
                    Stamp::Unit { neg: true });
            },
            Element::VoltageSource { node1, node2, vtype, .. } => {
                proof {
                    lemma_vs_before_bounds(ev, k as int + 1, ev.len() as int);
                    lemma_vs_before_bounds(ev, k as int, k as int + 1);
                }
                let aux = n + seen;
                stamp_vsource_exec(&mut matrix, node_map, node1, node2, aux);
                let v = match vtype {
                    InputSource::DC { voltage } => voltage.duplicate(),
                    _ => zero_num(),
                };
                rhs_write(&mut rhs, aux, v);
                seen += 1;
            },
        }
        k += 1;
    }
    OpSystem { num_nodes: n, matrix, rhs }
}

/// A square matrix of side `size` at its top two levels.
pub open spec fn matrix_sized(m: Seq<Seq<Seq<StampV>>>, size: int) -> bool {
    m.len() == size && (forall|a: int| 0 <= a < size ==> #[trigger] m[a].len() == size)
}

/// The node block `0..n` of the matrix is symmetric, cell for cell.
pub open spec fn node_symmetric(m: Seq<Seq<Seq<StampV>>>, n: int) -> bool {
    forall|i: int, j: int| 0 <= i < n && 0 <= j < n ==> #[trigger] m[i][j] == m[j][i]
}

proof fn lemma_mat_add_cells(m: Seq<Seq<Seq<StampV>>>, i: int, j: int, st: StampV, size: int)
    requires
        matrix_sized(m, size),
        0 <= i < size,
        0 <= j < size,
    ensures
        matrix_sized(mat_add(m, i, j, st), size),
        mat_add(m, i, j, st)[i][j] == m[i][j].push(st),
        forall|a: int, b: int| 0 <= a < size && 0 <= b < size && !(a == i && b == j)
            ==> #[trigger] mat_add(m, i, j, st)[a][b] == m[a][b],
{
}

proof fn lemma_stamp_pair_symmetric(
    m: Seq<Seq<Seq<StampV>>>,
    labels: Seq<Seq<char>>,
    node1: Seq<char>,
    node2: Seq<char>,
    plus: StampV,
    minus: StampV,
    n: int,
    size: int,
)
    requires
        matrix_sized(m, size),
        node_symmetric(m, n),
        labels.len() == n <= size,
        node1 != ground() ==> spec_index_of(labels, node1) is Some,
        node2 != ground() ==> spec_index_of(labels, node2) is Some,
    ensures
        matrix_sized(stamp_pair(m, labels, node1, node2, plus, minus), size),
        node_symmetric(stamp_pair(m, labels, node1, node2, plus, minus), n),
{
    lemma_index_of_contains(labels, node1);
    lemma_index_of_contains(labels, node2);
    let r = stamp_pair(m, labels, node1, node2, plus, minus);
    if node1 != ground() && node2 != ground() {
        let i1 = spec_index_of(labels, node1).unwrap();
        let i2 = spec_index_of(labels, node2).unwrap();
        let m1 = mat_add(m, i1, i1, plus);
        let m2 = mat_add(m1, i2, i2, plus);
        let m3 = mat_add(m2, i1, i2, minus);
        let m4 = mat_add(m3, i2, i1, minus);
        lemma_mat_add_cells(m, i1, i1, plus, size);
        lemma_mat_add_cells(m1, i2, i2, plus, size);
        lemma_mat_add_cells(m2, i1, i2, minus, size);
        lemma_mat_add_cells(m3, i2, i1, minus, size);
        assert forall|i: int, j: int| 0 <= i < n && 0 <= j < n implies
            #[trigger] r[i][j] == r[j][i] by {
            assert(m[i][j] == m[j][i]);
            assert(m[i1][i2] == m[i2][i1]);
        }
    } else if node1 != ground() {
        let i1 = spec_index_of(labels, node1).unwrap();
        lemma_mat_add_cells(m, i1, i1, plus, size);
        assert forall|i: int, j: int| 0 <= i < n && 0 <= j < n implies
            #[trigger] r[i][j] == r[j][i] by {
            assert(m[i][j] == m[j][i]);
        }
    } else if node2 != ground() {
        let i2 = spec_index_of(labels, node2).unwrap();
        lemma_mat_add_cells(m, i2, i2, plus, size);
        assert forall|i: int, j: int| 0 <= i < n && 0 <= j < n implies
            #[trigger] r[i][j] == r[j][i] by {
            assert(m[i][j] == m[j][i]);
        }
    }
}

proof fn lemma_stamp_from_symmetric(
    els: Seq<ElementV>,
    i: int,
    labels: Seq<Seq<char>>,
    m: Seq<Seq<Seq<StampV>>>,
    rhs: Seq<NumV>,
    size: int,
)
    requires
        0 <= i <= els.len(),
        forall|k: int| 0 <= k < els.len() ==> els[k] is Resistor,
        covers(labels, els),
        labels.len() <= size,
        matrix_sized(m, size),
        node_symmetric(m, labels.len() as int),
    ensures
        node_symmetric(spec_stamp_from(els, i, labels, m, rhs).0, labels.len() as int),
    decreases els.len() - i,
{
    if i < els.len() {
        let nodes = nodes_of(els[i]);
        assert(node_covered(labels, els[i]));
        lemma_index_of_contains(labels, nodes.0);
        lemma_index_of_contains(labels, nodes.1);
        match els[i] {
            ElementV::Resistor { node1, node2, resistance, .. } => {
                let plus = StampV::Conductance { neg: false, resistance };
                let minus = StampV::Conductance { neg: true, resistance };
                lemma_stamp_pair_symmetric(m, labels, node1, node2, plus, minus,
                    labels.len() as int, size);
                lemma_stamp_from_symmetric(els, i + 1, labels,
                    stamp_pair(m, labels, node1, node2, plus, minus), rhs, size);
            },
            _ => {
                assert(false);
            },
        }
    }
}

/// A resistor-only network yields a symmetric matrix: with no
/// voltage-source rows, every cell `(i, j)` of the assembled matrix holds
/// exactly the contributions of its mirror cell `(j, i)`.  This holds for
/// any node-index map that covers the elements' nodes; in particular for
/// the one `build_node_map` produces (`lemma_node_labels_cover`).
pub proof fn lemma_resistor_only_symmetric(els: Seq<ElementV>, labels: Seq<Seq<char>>)
    requires
        forall|k: int| 0 <= k < els.len() ==> els[k] is Resistor,
        covers(labels, els),
    ensures
        node_symmetric(spec_build_op(els, labels).0, labels.len() as int),
{
    let size = spec_op_size(els, labels);
    let init = spec_empty_system(size);
    lemma_vs_before_nonneg(els, els.len() as int);
    assert(matrix_sized(init.0, size));
    assert(node_symmetric(init.0, labels.len() as int));
    lemma_stamp_from_symmetric(els, 0, labels, init.0, init.1, size);
}

} // verus!
