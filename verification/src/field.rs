//! The central data structure: a collection of geometric edges that behaves
//! like an element of a vector space.
//!
//! A `FractalField` supports pointwise addition, negation and complex scalar
//! multiplication of the edge payloads, and condenses into a
//! `FractalSignature` for classification and scoring.

use vstd::prelude::*;
use crate::complex::{
    Complex, amp_of, phase_of, lemma_amp_range, lemma_phase_range, spec_add, spec_mul, spec_neg,
};
use crate::graphedge::GraphEdge;
use crate::numeric::{floor_div, sat64, sat_to_i64};
use crate::random::rand_between;
use crate::signature::FractalSignature;
use crate::vec3::Vec3;

verus! {

/// A collection of edges that represents a coherent state or pattern.
#[derive(Debug)]
pub struct FractalField {
    pub edges: Vec<GraphEdge>,
}

/// The absolute value of a phase.
pub open spec fn abs_phase(p: int) -> int {
    if p >= 0 {
        p
    } else {
        -p
    }
}

/// One edge's contribution to the entropy proxy: its amplitude times the
/// magnitude of its phase, rescaled to centi-units.
pub open spec fn entropy_term(d: Complex) -> int {
    amp_of(d) * abs_phase(phase_of(d)) / 100
}

/// The saturating sum of edge amplitudes.
pub open spec fn amp_sum(s: Seq<GraphEdge>) -> int
    decreases s.len(),
{
    if s.len() == 0 {
        0
    } else {
        sat64(amp_sum(s.drop_last()) + amp_of(s.last().data))
    }
}

/// The saturating sum of edge phases.
pub open spec fn phase_sum(s: Seq<GraphEdge>) -> int
    decreases s.len(),
{
    if s.len() == 0 {
        0
    } else {
        sat64(phase_sum(s.drop_last()) + phase_of(s.last().data))
    }
}

/// The saturating sum of entropy contributions.
pub open spec fn entropy_sum(s: Seq<GraphEdge>) -> int
    decreases s.len(),
{
    if s.len() == 0 {
        0
    } else {
        sat64(entropy_sum(s.drop_last()) + entropy_term(s.last().data))
    }
}

/// The least edge depth, starting from the largest representable depth.
pub open spec fn min_depth(s: Seq<GraphEdge>) -> int
    decreases s.len(),
{
    if s.len() == 0 {
        u32::MAX as int
    } else if s.last().depth < min_depth(s.drop_last()) {
        s.last().depth as int
    } else {
        min_depth(s.drop_last())
    }
}

/// The greatest edge depth, starting from zero.
pub open spec fn max_depth(s: Seq<GraphEdge>) -> int
    decreases s.len(),
{
    if s.len() == 0 {
        0
    } else if s.last().depth > max_depth(s.drop_last()) {
        s.last().depth as int
    } else {
        max_depth(s.drop_last())
    }
}

/// The pointwise sum of two edge sequences: one edge per shared position,
/// geometry from the left operand, payloads added.
pub open spec fn spec_field_add(a: Seq<GraphEdge>, b: Seq<GraphEdge>) -> Seq<GraphEdge> {
    Seq::new(
        if a.len() <= b.len() { a.len() } else { b.len() },
        |i: int| GraphEdge { data: spec_add(a[i].data, b[i].data), ..a[i] },
    )
}

/// The pointwise negation of an edge sequence's payloads.
pub open spec fn spec_field_neg(a: Seq<GraphEdge>) -> Seq<GraphEdge> {
    Seq::new(a.len(), |i: int| GraphEdge { data: spec_neg(a[i].data), ..a[i] })
}

/// The pointwise scaling of an edge sequence's payloads by a complex scalar.
pub open spec fn spec_field_scale(a: Seq<GraphEdge>, scalar: Complex) -> Seq<GraphEdge> {
    Seq::new(a.len(), |i: int| GraphEdge { data: spec_mul(a[i].data, scalar), ..a[i] })
}

/// The single edge of the identity field: one unit along the x axis with a
/// real unit payload.
pub open spec fn identity_edge() -> GraphEdge {
    GraphEdge {
        origin: Vec3 { x: 0, y: 0, z: 0 },
        direction: Vec3 { x: 100, y: 0, z: 0 },
        length: 100,
        depth: 0,
        data: Complex { re: 100, im: 0 },
    }
}

/// The signature of a field, as a mathematical value.
pub open spec fn spec_signature(s: Seq<GraphEdge>) -> FractalSignature {
    FractalSignature {
        total_amplitude: amp_sum(s) as i64,
        average_phase: (if s.len() == 0 { 0int } else { phase_sum(s) / s.len() as int }) as i64,
        entropy: entropy_sum(s) as i64,
        edge_count: s.len() as usize,
        depth_range: (min_depth(s) as u32, max_depth(s) as u32),
    }
}

/// The amplitude total is never negative.
pub proof fn lemma_amp_sum_nonneg(s: Seq<GraphEdge>)
    ensures
        0 <= amp_sum(s) <= i64::MAX as int,
    decreases s.len(),
{
    if s.len() > 0 {
        lemma_amp_sum_nonneg(s.drop_last());
        lemma_amp_range(s.last().data);
    }
}

/// The entropy total is never negative.
pub proof fn lemma_entropy_sum_nonneg(s: Seq<GraphEdge>)
    ensures
        0 <= entropy_sum(s) <= i64::MAX as int,
    decreases s.len(),
{
    if s.len() > 0 {
        lemma_entropy_sum_nonneg(s.drop_last());
        let d = s.last().data;
        lemma_amp_range(d);
        lemma_phase_range(d);
        assert(0 <= amp_of(d) * abs_phase(phase_of(d))) by (nonlinear_arith)
            requires 0 <= amp_of(d), 0 <= abs_phase(phase_of(d));
        vstd::arithmetic::div_mod::lemma_div_pos_is_pos(
            amp_of(d) * abs_phase(phase_of(d)), 100);
    }
}

/// The phase total stays in the i64 range.
pub proof fn lemma_phase_sum_range(s: Seq<GraphEdge>)
    ensures
        i64::MIN as int <= phase_sum(s) <= i64::MAX as int,
    decreases s.len(),
{
    if s.len() > 0 {
        lemma_phase_sum_range(s.drop_last());
    }
}

impl FractalField {
    /// The zero vector: a field with no edges.
    pub fn zero() -> (r: FractalField)
        ensures
            r.edges@.len() == 0,
    {
        FractalField { edges: Vec::new() }
    }

    /// The identity vector: a field with a single unit edge along the x axis
    /// whose payload is the real unit.
    pub fn one() -> (r: FractalField)
        ensures
            r.edges@ == seq![identity_edge()],
    {
        let mut edges: Vec<GraphEdge> = Vec::new();
        edges.push(GraphEdge {
            origin: Vec3 { x: 0, y: 0, z: 0 },
            direction: Vec3 { x: 100, y: 0, z: 0 },
            length: 100,
            depth: 0,
            data: Complex { re: 100, im: 0 },
        });
        proof {
            assert(edges@ =~= seq![identity_edge()]);
        }
        FractalField { edges }
    }

    /// A field with a single randomized edge: the length is between a tenth
    /// of a unit and ten units, the depth between one and four, and the
    /// payload components within ten units of zero.
    pub fn random() -> (r: FractalField)
        ensures
            r.edges@.len() == 1,
            10 <= r.edges@[0].length < 1000,
            1 <= r.edges@[0].depth < 5,
            -1000 <= r.edges@[0].data.re < 1000,
            -1000 <= r.edges@[0].data.im < 1000,
    {
        let mut edges: Vec<GraphEdge> = Vec::new();
        edges.push(GraphEdge {
            origin: Vec3::random(),
            direction: Vec3::random(),
            length: rand_between(10, 1000) as i32,
            depth: rand_between(1, 5) as u32,
            data: Complex::new(
                rand_between(-1000, 1000) as i32,
                rand_between(-1000, 1000) as i32,
            ),
        });
        FractalField { edges }
    }

    /// Whether the field is effectively zero: every edge payload is exactly
    /// the zero complex value.
    pub fn is_zero(&self) -> (r: bool)
        ensures
            r == forall|i: int|
                0 <= i < self.edges@.len() ==> (#[trigger] self.edges@[i].data)
                    == (Complex { re: 0, im: 0 }),
    {
        let n: usize = self.edges.len();
        let mut k: usize = 0;
        while k < n
            invariant
                k <= n,
                n == self.edges@.len(),
                forall|i: int|
                    0 <= i < k ==> (#[trigger] self.edges@[i].data) == (Complex { re: 0, im: 0 }),
            decreases n - k,
        {
            let d: Complex = self.edges[k].data;
            if !(d.re == 0 && d.im == 0) {
                return false;
            }
            k = k + 1;
        }
        true
    }

    /// Pointwise addition of the payloads of two fields. The result has one
    /// edge per position the two fields share; geometric properties are
    /// taken from `self` and only the payloads are combined.
    pub fn add(&self, rhs: &FractalField) -> (r: FractalField)
        ensures
            r.edges@ == spec_field_add(self.edges@, rhs.edges@),
    {
        let n: usize = if self.edges.len() <= rhs.edges.len() {
            self.edges.len()
        } else {
            rhs.edges.len()
        };
        let mut edges: Vec<GraphEdge> = Vec::new();
        let mut k: usize = 0;
        while k < n
            invariant
                k <= n,
                n <= self.edges@.len(),
                n <= rhs.edges@.len(),
                edges@.len() == k,
                forall|i: int| 0 <= i < k ==> #[trigger] edges@[i] == (GraphEdge {
                    data: spec_add(self.edges@[i].data, rhs.edges@[i].data),
                    ..self.edges@[i]
                }),
            decreases n - k,
        {
            let a: GraphEdge = self.edges[k];
            let b: GraphEdge = rhs.edges[k];
            edges.push(GraphEdge { data: a.data.add(b.data), ..a });
            k = k + 1;
        }
        proof {
            assert(edges@ =~= spec_field_add(self.edges@, rhs.edges@));
        }
        FractalField { edges }
    }

    /// Pointwise negation of every payload.
    pub fn neg(&self) -> (r: FractalField)
        ensures
            r.edges@ == spec_field_neg(self.edges@),
    {
        let n: usize = self.edges.len();
        let mut edges: Vec<GraphEdge> = Vec::new();
        let mut k: usize = 0;
        while k < n
            invariant
                k <= n,
                n == self.edges@.len(),
                edges@.len() == k,
                forall|i: int| 0 <= i < k ==> #[trigger] edges@[i] == (GraphEdge {
                    data: spec_neg(self.edges@[i].data),
                    ..self.edges@[i]
                }),
            decreases n - k,
        {
            let a: GraphEdge = self.edges[k];
            edges.push(GraphEdge { data: a.data.neg(), ..a });
            k = k + 1;
        }
        proof {
            assert(edges@ =~= spec_field_neg(self.edges@));
        }
        FractalField { edges }
    }

    /// Scales every payload by a complex scalar.
    pub fn scale(&self, scalar: Complex) -> (r: FractalField)
        ensures
            r.edges@ == spec_field_scale(self.edges@, scalar),
    {
        let n: usize = self.edges.len();
        let mut edges: Vec<GraphEdge> = Vec::new();
        let mut k: usize = 0;
        while k < n
            invariant
                k <= n,
                n == self.edges@.len(),
                edges@.len() == k,
                forall|i: int| 0 <= i < k ==> #[trigger] edges@[i] == (GraphEdge {
                    data: spec_mul(self.edges@[i].data, scalar),
                    ..self.edges@[i]
                }),
            decreases n - k,
        {
            let a: GraphEdge = self.edges[k];
            edges.push(GraphEdge { data: a.data.mul(scalar), ..a });
            k = k + 1;
        }
        proof {
            assert(edges@ =~= spec_field_scale(self.edges@, scalar));
        }
        FractalField { edges }
    }

    /// Condenses the field into its signature: the saturating totals of
    /// amplitude, phase and entropy contribution, the floor average of the
    /// phases, and the range of edge depths.
    pub fn signature(&self) -> (r: FractalSignature)
        ensures
            r == spec_signature(self.edges@),
    {
        let n: usize = self.edges.len();
        let mut total_amp: i64 = 0;
        let mut total_phase: i64 = 0;
        let mut entropy: i64 = 0;
        let mut min_d: u32 = u32::MAX;
        let mut max_d: u32 = 0;
        let mut k: usize = 0;
        while k < n
            invariant
                k <= n,
                n == self.edges@.len(),
                total_amp as int == amp_sum(self.edges@.subrange(0, k as int)),
                total_phase as int == phase_sum(self.edges@.subrange(0, k as int)),
                entropy as int == entropy_sum(self.edges@.subrange(0, k as int)),
                min_d as int == min_depth(self.edges@.subrange(0, k as int)),
                max_d as int == max_depth(self.edges@.subrange(0, k as int)),
            decreases n - k,
        {
            let e: GraphEdge = self.edges[k];
            let a: u32 = e.data.amp();
            let p: i32 = e.data.phase();
            proof {
                lemma_amp_range(e.data);
                lemma_phase_range(e.data);
            }
            let ap: i32 = if p >= 0 { p } else { -p };
            proof {
                assert(0 <= a as int * ap as int <= 0x1_0000_0000 * 200) by (nonlinear_arith)
                    requires 0 <= a <= u32::MAX, 0 <= ap <= 200;
            }
            let term: i128 = floor_div(a as i128 * ap as i128, 100);
            total_amp = sat_to_i64(total_amp as i128 + a as i128);
            total_phase = sat_to_i64(total_phase as i128 + p as i128);
            entropy = sat_to_i64(entropy as i128 + term);
            if e.depth < min_d {
                min_d = e.depth;
            }
            if e.depth > max_d {
                max_d = e.depth;
            }
            proof {
                let prefix = self.edges@.subrange(0, k as int);
                let next = self.edges@.subrange(0, k as int + 1);
                assert(next.drop_last() =~= prefix);
                assert(next.last() == self.edges@[k as int]);
            }
            k = k + 1;
        }
        proof {
            assert(self.edges@.subrange(0, n as int) =~= self.edges@);
        }
        let average_phase: i64 = if n == 0 {
            0
        } else {
            sat_to_i64(floor_div(total_phase as i128, n as i128))
        };
        proof {
            if n > 0 {
                lemma_quotient_in_i64(total_phase as int, n as int);
            }
            lemma_amp_sum_nonneg(self.edges@);
            lemma_entropy_sum_nonneg(self.edges@);
        }
        FractalSignature {
            total_amplitude: total_amp,
            average_phase,
            entropy,
            edge_count: n,
            depth_range: (min_d, max_d),
        }
    }
}

/// Dividing an i64 value by a positive count keeps it in the i64 range.
pub proof fn lemma_quotient_in_i64(x: int, d: int)
    requires
        i64::MIN <= x <= i64::MAX,
        1 <= d,
    ensures
        i64::MIN <= x / d <= i64::MAX,
        sat64(x / d) == x / d,
{
    vstd::arithmetic::div_mod::lemma_div_is_ordered(x, i64::MAX as int, d);
    vstd::arithmetic::div_mod::lemma_div_is_ordered(i64::MIN as int, x, d);
    vstd::arithmetic::div_mod::lemma_div_is_ordered_by_denominator(i64::MAX as int, 1, d);
    lemma_div_neg_bound(i64::MIN as int, d);
}

/// Floor division of a negative value by a positive divisor never goes below
/// the value itself.
proof fn lemma_div_neg_bound(x: int, d: int)
    requires
        x <= 0,
        1 <= d,
    ensures
        x <= x / d,
{
    vstd::arithmetic::div_mod::lemma_fundamental_div_mod(x, d);
    let q = x / d;
    let r = x % d;
    vstd::arithmetic::div_mod::lemma_mod_bound(x, d);
    if q < x {
        assert(d * q + r < x) by (nonlinear_arith)
            requires q < x, q <= -1, 1 <= d, 0 <= r < d, x <= 0;
        assert(false);
    }
}

impl Clone for FractalField {
    /// An exact copy: the clone has the same edges.
    fn clone(&self) -> (r: Self)
        ensures
            r.edges@ == self.edges@,
    {
        let n: usize = self.edges.len();
        let mut edges: Vec<GraphEdge> = Vec::new();
        let mut k: usize = 0;
        while k < n
            invariant
                k <= n,
                n == self.edges@.len(),
                edges@.len() == k,
                forall|i: int| 0 <= i < k ==> #[trigger] edges@[i] == self.edges@[i],
            decreases n - k,
        {
            edges.push(self.edges[k]);
            k = k + 1;
        }
        proof {
            assert(edges@ =~= self.edges@);
        }
        FractalField { edges }
    }
}

impl PartialEq for FractalField {
    /// Two fields are equal when their edge sequences are equal.
    fn eq(&self, other: &Self) -> (r: bool) {
        let n: usize = self.edges.len();
        if n != other.edges.len() {
            return false;
        }
        let mut k: usize = 0;
        while k < n
            invariant
                k <= n,
                n == self.edges@.len(),
                n == other.edges@.len(),
                forall|i: int| 0 <= i < k ==> self.edges@[i] == other.edges@[i],
            decreases n - k,
        {
            let a: GraphEdge = self.edges[k];
            let b: GraphEdge = other.edges[k];
            if !(a == b) {
                return false;
            }
            k = k + 1;
        }
        proof {
            assert(self.edges@ =~= other.edges@);
        }
        true
    }
}

impl vstd::std_specs::cmp::PartialEqSpecImpl for FractalField {
    open spec fn obeys_eq_spec() -> bool {
        true
    }

    open spec fn eq_spec(&self, other: &FractalField) -> bool {
        self.edges@ == other.edges@
    }
}

} // verus!
