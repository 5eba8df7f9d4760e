//! The core capability traits of the generative system.
//!
//! `Critic`, `Generator` and `MutationStrategy` are the extension points a
//! caller implements to plug domain logic into the evolutionary loop. Each
//! trait pairs its executable methods with spec functions so that the
//! orchestration code can be verified against whatever implementation a
//! caller supplies.

use vstd::prelude::*;
use vstd::string::{StrSliceExecFns, StringExecFns};
use crate::atom::{Metadata, TagSet};
use crate::complex::Complex;
use crate::field::{FractalField, entropy_sum, lemma_entropy_sum_nonneg, spec_signature};
use crate::graphedge::GraphEdge;
use crate::signature::FractalSignature;

verus! {

/// A trait for types that behave like elements of a vector space.
///
/// The operations saturate at the component range, as everywhere in this
/// crate; the contracts of each implementing type state the exact results.
pub trait VectorSpace: Sized {
    /// The additive identity element.
    fn zero() -> Self;

    /// Componentwise addition.
    fn add(&self, other: &Self) -> Self;

    /// Componentwise subtraction.
    fn sub(&self, other: &Self) -> Self;

    /// Componentwise negation.
    fn neg(&self) -> Self;

    /// Multiplication by a complex scalar.
    fn scale(&self, scalar: Complex) -> Self;
}

impl VectorSpace for FractalField {
    fn zero() -> Self {
        FractalField::zero()
    }

    fn add(&self, other: &Self) -> Self {
        FractalField::add(self, other)
    }

    fn sub(&self, other: &Self) -> Self {
        FractalField::add(self, &FractalField::neg(other))
    }

    fn neg(&self) -> Self {
        FractalField::neg(self)
    }

    fn scale(&self, scalar: Complex) -> Self {
        FractalField::scale(self, scalar)
    }
}

/// A trait for objects that condense into a descriptive signature.
pub trait HasSignature: Sized {
    /// The signature as a mathematical value.
    spec fn sig_spec(&self) -> FractalSignature;

    /// Computes the signature.
    fn signature(&self) -> (r: FractalSignature)
        ensures
            r == self.sig_spec(),
    ;
}

impl HasSignature for FractalField {
    /// An empty field has an all-zero signature here, with a zero depth
    /// range rather than the sentinel range the inherent method uses.
    open spec fn sig_spec(&self) -> FractalSignature {
        if self.edges@.len() == 0 {
            FractalSignature {
                total_amplitude: 0,
                average_phase: 0,
                entropy: 0,
                edge_count: 0,
                depth_range: (0, 0),
            }
        } else {
            spec_signature(self.edges@)
        }
    }

    fn signature(&self) -> (r: FractalSignature)
        ensures
            r == self.sig_spec(),
    {
        if self.edges.len() == 0 {
            FractalSignature {
                total_amplitude: 0,
                average_phase: 0,
                entropy: 0,
                edge_count: 0,
                depth_range: (0, 0),
            }
        } else {
            FractalField::signature(self)
        }
    }
}

/// The label a critic gives to a signature it considers symmetric.
pub open spec fn label_symmetric() -> Seq<char> {
    "symmetric"@
}

/// The label for a high-entropy signature.
pub open spec fn label_chaotic() -> Seq<char> {
    "chaotic"@
}

/// The label for everything else.
pub open spec fn label_structured() -> Seq<char> {
    "structured"@
}

/// The default classification rule: symmetric signatures are labelled
/// first, then signatures whose entropy exceeds ten whole units are
/// chaotic, and the rest are structured.
pub open spec fn default_label(sig: FractalSignature) -> Seq<char> {
    if sig.average_phase == 0 || sig.average_phase == 200 || sig.average_phase == -200 {
        label_symmetric()
    } else if sig.entropy > 1000 {
        label_chaotic()
    } else {
        label_structured()
    }
}

/// A critic evaluates a field and assigns it a score; higher is better.
/// Scores are in centi-units and must be a function of the field alone, so
/// that a suite's composite score is well defined.
pub trait Critic: Sized {
    /// The score this critic assigns to a field with the given edges, as a
    /// mathematical value. Stating it over the edge sequence makes the score
    /// a function of the field's contents, so equal fields score equally.
    spec fn score_spec(&self, edges: Seq<GraphEdge>) -> int;

    /// The label this critic gives a signature, as a mathematical value.
    spec fn classify_spec(&self, signature: FractalSignature) -> Seq<char>;

    /// Every score lies in the i32 score range.
    proof fn score_in_range(&self, edges: Seq<GraphEdge>)
        ensures
            i32::MIN as int <= self.score_spec(edges) <= i32::MAX as int,
    ;

    /// Scores a field.
    fn score(&self, field: &FractalField) -> (r: i32)
        ensures
            r as int == self.score_spec(field.edges@),
    ;

    /// Classifies a signature into a category label.
    fn classify(&self, signature: &FractalSignature) -> (r: String)
        ensures
            r@ == self.classify_spec(*signature),
    ;
}

/// A critic that rewards symmetry and penalizes entropy: one whole unit for
/// a symmetric signature, minus a tenth of the entropy.
pub struct SymmetryCritic;

/// The score `SymmetryCritic` assigns to a field.
pub open spec fn symmetry_score(s: Seq<GraphEdge>) -> int {
    let sig = spec_signature(s);
    let bonus: int = if sig.average_phase == 0 || sig.average_phase == 200
        || sig.average_phase == -200 {
        100
    } else {
        0
    };
    crate::numeric::sat32(bonus - sig.entropy as int / 10)
}

impl Critic for SymmetryCritic {
    open spec fn score_spec(&self, edges: Seq<GraphEdge>) -> int {
        symmetry_score(edges)
    }

    open spec fn classify_spec(&self, signature: FractalSignature) -> Seq<char> {
        default_label(signature)
    }

    proof fn score_in_range(&self, edges: Seq<GraphEdge>) {
    }

    fn score(&self, field: &FractalField) -> (r: i32)
        ensures
            r as int == self.score_spec(field.edges@),
    {
        let sig: FractalSignature = FractalField::signature(field);
        let bonus: i64 = if sig.is_symmetric() { 100 } else { 0 };
        proof {
            lemma_entropy_sum_nonneg(field.edges@);
        }
        let penalty: i64 = sig.entropy / 10;
        crate::numeric::sat_to_i32(bonus as i128 - penalty as i128)
    }

    fn classify(&self, signature: &FractalSignature) -> (r: String)
        ensures
            r@ == self.classify_spec(*signature),
    {
        classify_by_default(signature)
    }
}

/// A critic that rewards high entropy.
pub struct EntropyCritic;

impl Critic for EntropyCritic {
    open spec fn score_spec(&self, edges: Seq<GraphEdge>) -> int {
        crate::numeric::sat32(entropy_sum(edges))
    }

    open spec fn classify_spec(&self, signature: FractalSignature) -> Seq<char> {
        default_label(signature)
    }

    proof fn score_in_range(&self, edges: Seq<GraphEdge>) {
    }

    fn score(&self, field: &FractalField) -> (r: i32)
        ensures
            r as int == self.score_spec(field.edges@),
    {
        let sig: FractalSignature = FractalField::signature(field);
        crate::numeric::sat_to_i32(sig.entropy as i128)
    }

    fn classify(&self, signature: &FractalSignature) -> (r: String)
        ensures
            r@ == self.classify_spec(*signature),
    {
        classify_by_default(signature)
    }
}

/// One of the two concrete critics, so that a single suite can mix them.
pub enum CriticKind {
    Symmetry(SymmetryCritic),
    Entropy(EntropyCritic),
}

impl Critic for CriticKind {
    open spec fn score_spec(&self, edges: Seq<GraphEdge>) -> int {
        match self {
            CriticKind::Symmetry(c) => c.score_spec(edges),
            CriticKind::Entropy(c) => c.score_spec(edges),
        }
    }

    open spec fn classify_spec(&self, signature: FractalSignature) -> Seq<char> {
        match self {
            CriticKind::Symmetry(c) => c.classify_spec(signature),
            CriticKind::Entropy(c) => c.classify_spec(signature),
        }
    }

    proof fn score_in_range(&self, edges: Seq<GraphEdge>) {
        match self {
            CriticKind::Symmetry(c) => c.score_in_range(edges),
            CriticKind::Entropy(c) => c.score_in_range(edges),
        }
    }

    fn score(&self, field: &FractalField) -> (r: i32)
        ensures
            r as int == self.score_spec(field.edges@),
    {
        match self {
            CriticKind::Symmetry(c) => c.score(field),
            CriticKind::Entropy(c) => c.score(field),
        }
    }

    fn classify(&self, signature: &FractalSignature) -> (r: String)
        ensures
            r@ == self.classify_spec(*signature),
    {
        match self {
            CriticKind::Symmetry(c) => c.classify(signature),
            CriticKind::Entropy(c) => c.classify(signature),
        }
    }
}

/// The shared executable form of the default classification rule.
fn classify_by_default(signature: &FractalSignature) -> (r: String)
    ensures
        r@ == default_label(*signature),
{
    if signature.average_phase == 0 || signature.average_phase == 200
        || signature.average_phase == -200 {
        String::from_str("symmetric")
    } else if signature.entropy > 1000 {
        String::from_str("chaotic")
    } else {
        String::from_str("structured")
    }
}

/// A generator produces batches of candidate fields.
///
/// `wf` is whatever the implementation needs of its own configuration (for
/// example, positive mutation weights); `spawns_nonempty` says whether every
/// produced batch is guaranteed to hold at least one candidate. The two
/// content postconditions are each implementation's own promise about what
/// its populations look like, in the way `MutationStrategy::mutate_post`
/// describes a single mutation.
pub trait Generator: Sized {
    /// The implementation's own well-formedness condition.
    spec fn wf(&self) -> bool;

    /// Whether every produced population is non-empty.
    spec fn spawns_nonempty(&self) -> bool;

    /// What this generator promises of an initial population.
    spec fn generate_post(&self, out: Seq<FractalField>) -> bool;

    /// What this generator promises of a population bred from a parent.
    spec fn mutate_post(&self, parent: FractalField, out: Seq<FractalField>) -> bool;

    /// Produces an initial set of candidates from scratch.
    fn generate(&self) -> (r: Vec<FractalField>)
        requires
            self.wf(),
        ensures
            self.spawns_nonempty() ==> r@.len() > 0,
            self.generate_post(r@),
    ;

    /// Mutates an existing field to produce a new set of candidates.
    fn mutate(&self, field: &FractalField) -> (r: Vec<FractalField>)
        requires
            self.wf(),
        ensures
            self.spawns_nonempty() ==> r@.len() > 0,
            self.mutate_post(*field, r@),
    ;
}

/// A fractal, recursively structured space of semantic units.
///
/// The transformation and filtering steps live on the implementing types as
/// generic methods, since they take caller-supplied rules and filters.
pub trait FractalQuantumSpace: Sized {
    type SemanticUnit;

    /// The current resonance depth of the space.
    fn resonance_depth(&self) -> usize;

    /// The units at a given depth, in order.
    fn project(&self, depth: usize) -> Vec<Self::SemanticUnit>;

    /// The space's condensed signature.
    fn fractal_signature(&self) -> FractalSignature;
}

/// Comparing objects by their meaning rather than by strict equality.
pub trait SemanticEq: Sized {
    /// What semantic equality means for this type.
    spec fn semantic_eq_spec(&self, other: &Self) -> bool;

    /// Decides semantic equality.
    fn semantic_eq(&self, other: &Self) -> (r: bool)
        ensures
            r == self.semantic_eq_spec(other),
    ;
}

/// A single, specific mutation algorithm.
///
/// `mutate_post` is the implementation's own promise about its output; a
/// stochastic strategy states here only what holds of every draw.
pub trait MutationStrategy: Sized {
    /// What this strategy promises of a mutated result.
    spec fn mutate_post(&self, input: &FractalField, output: &FractalField) -> bool;

    /// Transforms one field into one mutated field.
    fn mutate(&self, field: &FractalField) -> (r: FractalField)
        ensures
            self.mutate_post(field, &r),
    ;
}

/// The product of two i64 values stays strictly inside the i128 range.
pub(crate) proof fn lemma_i64_product_in_i128(a: int, b: int)
    requires
        i64::MIN <= a <= i64::MAX,
        i64::MIN <= b <= i64::MAX,
    ensures
        -0x4000_0000_0000_0000_0000_0000_0000_0000 < a * b,
        a * b < 0x4000_0000_0000_0000_0000_0000_0000_0001,
{
    assert(-0x4000_0000_0000_0000_0000_0000_0000_0000 < a * b
        && a * b < 0x4000_0000_0000_0000_0000_0000_0000_0001) by (nonlinear_arith)
        requires
            -0x8000_0000_0000_0000i128 <= a <= 0x7FFF_FFFF_FFFF_FFFFi128,
            -0x8000_0000_0000_0000i128 <= b <= 0x7FFF_FFFF_FFFF_FFFFi128;
}

/// Whether two metadata records carry the same text.
pub open spec fn metadata_eq(a: &Metadata, b: &Metadata) -> bool {
    &&& a.domain@ == b.domain@
    &&& (match (a.description, b.description) {
        (Some(x), Some(y)) => x@ == y@,
        (None, None) => true,
        _ => false,
    })
}

/// Decides `metadata_eq`.
pub fn metadata_equal(a: &Metadata, b: &Metadata) -> (r: bool)
    ensures
        r == metadata_eq(a, b),
{
    if !crate::text::str_eq(a.domain.as_str(), b.domain.as_str()) {
        return false;
    }
    match (&a.description, &b.description) {
        (Some(x), Some(y)) => crate::text::str_eq(x.as_str(), y.as_str()),
        (None, None) => true,
        _ => false,
    }
}

/// The base trait for high-level fractal objects.
pub trait Fractal: Sized {
    /// What equality of two such fractals means.
    spec fn eq_spec(&self, other: &Self) -> bool;

    /// The governing resonance law, as a mathematical value.
    spec fn law_spec(&self) -> crate::resonance::ResonanceLaw;

    /// The resonance score, as a mathematical value.
    spec fn score_spec(&self) -> int;

    /// The identifying name, as a mathematical value.
    spec fn id_spec(&self) -> Seq<char>;

    /// Whether this fractal equals another of the same kind.
    fn is_equal(&self, other: &Self) -> (r: bool)
        ensures
            r == self.eq_spec(other),
    ;

    /// The law governing this fractal's resonance.
    fn resonance_law(&self) -> (r: crate::resonance::ResonanceLaw)
        ensures
            r == self.law_spec(),
    ;

    /// The fractal's resonance score, in centi-units.
    fn resonance_score(&self) -> (r: i64)
        ensures
            r as int == self.score_spec(),
    ;

    /// The fractal's tags.
    fn tags(&self) -> &TagSet;

    /// The fractal's metadata.
    fn metadata(&self) -> &Metadata;

    /// The identifying name.
    fn id(&self) -> (r: &str)
        ensures
            r@ == self.id_spec(),
    ;

    /// The child fractals; the concrete fractals here have none.
    fn children(&self) -> Vec<FractalType>;
}

/// The operation connecting a member to a collection.
#[derive(Debug, Clone, Copy, PartialEq, Eq, Structural)]
pub enum Operation {
    /// Additive.
    Union,
    /// Subtractive.
    Difference,
    /// Multiplicative.
    Intersection,
}

/// A concrete Mandelbrot-set fractal; coordinates and zoom in centi-units.
#[derive(Debug)]
pub struct Mandelbrot {
    pub center_re: i64,
    pub center_im: i64,
    pub zoom: i64,
    pub metadata: Metadata,
    pub tags: TagSet,
}

/// Whether two Mandelbrot fractals carry the same data.
pub open spec fn mandelbrot_eq(a: &Mandelbrot, b: &Mandelbrot) -> bool {
    &&& a.center_re == b.center_re
    &&& a.center_im == b.center_im
    &&& a.zoom == b.zoom
    &&& metadata_eq(&a.metadata, &b.metadata)
    &&& a.tags.spec_tags() == b.tags.spec_tags()
}

/// The magnitude of a value.
pub open spec fn abs_of(x: int) -> int {
    if x >= 0 {
        x
    } else {
        -x
    }
}

impl Mandelbrot {
    /// A specialized multiplication representing a geometric
    /// transformation: the centers add, the zooms multiply, and the
    /// metadata and tags come from the left operand.
    pub fn transform_by(&self, other: &Mandelbrot) -> (r: Mandelbrot)
        ensures
            r.center_re as int == crate::numeric::sat64(self.center_re + other.center_re),
            r.center_im as int == crate::numeric::sat64(self.center_im + other.center_im),
            r.zoom as int == crate::numeric::sat64(self.zoom * other.zoom / 100),
            metadata_eq(&r.metadata, &self.metadata),
            r.tags.spec_tags() == self.tags.spec_tags(),
    {
        proof {
            lemma_i64_product_in_i128(self.zoom as int, other.zoom as int);
        }
        Mandelbrot {
            center_re: crate::numeric::sat_to_i64(self.center_re as i128 + other.center_re as i128),
            center_im: crate::numeric::sat_to_i64(self.center_im as i128 + other.center_im as i128),
            zoom: crate::numeric::sat_to_i64(
                crate::numeric::floor_div(self.zoom as i128 * other.zoom as i128, 100)),
            metadata: self.metadata.clone(),
            tags: self.tags.clone(),
        }
    }
}

impl Clone for Mandelbrot {
    /// A copy that means the same fractal.
    fn clone(&self) -> (r: Self)
        ensures
            mandelbrot_eq(&r, self),
    {
        Mandelbrot {
            center_re: self.center_re,
            center_im: self.center_im,
            zoom: self.zoom,
            metadata: self.metadata.clone(),
            tags: self.tags.clone(),
        }
    }
}

impl Fractal for Mandelbrot {
    open spec fn eq_spec(&self, other: &Self) -> bool {
        mandelbrot_eq(self, other)
    }

    open spec fn law_spec(&self) -> crate::resonance::ResonanceLaw {
        crate::resonance::ResonanceLaw::Echo
    }

    /// Coherence grows with the zoom and falls with the center's distance
    /// from the origin.
    open spec fn score_spec(&self) -> int {
        crate::numeric::sat64(
            self.zoom * 100 / (100 + abs_of(self.center_re as int) + abs_of(self.center_im as int)))
    }

    open spec fn id_spec(&self) -> Seq<char> {
        "Mandelbrot"@
    }

    fn is_equal(&self, other: &Self) -> (r: bool)
        ensures
            r == self.eq_spec(other),
    {
        self.center_re == other.center_re && self.center_im == other.center_im
            && self.zoom == other.zoom && metadata_equal(&self.metadata, &other.metadata)
            && self.tags.semantic_eq(&other.tags)
    }

    fn resonance_law(&self) -> (r: crate::resonance::ResonanceLaw)
        ensures
            r == self.law_spec(),
    {
        crate::resonance::ResonanceLaw::Echo
    }

    fn resonance_score(&self) -> (r: i64)
        ensures
            r as int == self.score_spec(),
    {
        let re_abs: i128 = if self.center_re >= 0 {
            self.center_re as i128
        } else {
            -(self.center_re as i128)
        };
        let im_abs: i128 = if self.center_im >= 0 {
            self.center_im as i128
        } else {
            -(self.center_im as i128)
        };
        crate::numeric::sat_to_i64(
            crate::numeric::floor_div(self.zoom as i128 * 100, 100 + re_abs + im_abs))
    }

    fn tags(&self) -> &TagSet {
        &self.tags
    }

    fn metadata(&self) -> &Metadata {
        &self.metadata
    }

    fn id(&self) -> (r: &str)
        ensures
            r@ == self.id_spec(),
    {
        "Mandelbrot"
    }

    fn children(&self) -> Vec<FractalType> {
        Vec::new()
    }
}

/// A concrete iterated-function-system fractal.
#[derive(Debug)]
pub struct IFS {
    pub transform_count: u32,
    pub metadata: Metadata,
    pub tags: TagSet,
}

/// Whether two iterated-function systems carry the same data.
pub open spec fn ifs_eq(a: &IFS, b: &IFS) -> bool {
    &&& a.transform_count == b.transform_count
    &&& metadata_eq(&a.metadata, &b.metadata)
    &&& a.tags.spec_tags() == b.tags.spec_tags()
}

impl IFS {
    /// A specialized multiplication representing function composition: the
    /// transform counts multiply (saturating), and the metadata and tags
    /// come from the left operand.
    pub fn compose_with(&self, other: &IFS) -> (r: IFS)
        ensures
            r.transform_count as int == crate::numeric::sat_u32(
                self.transform_count * other.transform_count),
            metadata_eq(&r.metadata, &self.metadata),
            r.tags.spec_tags() == self.tags.spec_tags(),
    {
        proof {
            assert(self.transform_count as int * other.transform_count as int
                <= 0xFFFF_FFFFi64 * 0xFFFF_FFFFi64) by (nonlinear_arith)
                requires
                    self.transform_count <= 0xFFFF_FFFFu32,
                    other.transform_count <= 0xFFFF_FFFFu32,
            ;
            assert(0 <= self.transform_count as int * other.transform_count as int)
                by (nonlinear_arith);
        }
        IFS {
            transform_count: crate::numeric::sat_to_u32(
                self.transform_count as u64 * other.transform_count as u64),
            metadata: self.metadata.clone(),
            tags: self.tags.clone(),
        }
    }
}

impl Clone for IFS {
    /// A copy that means the same fractal.
    fn clone(&self) -> (r: Self)
        ensures
            ifs_eq(&r, self),
    {
        IFS {
            transform_count: self.transform_count,
            metadata: self.metadata.clone(),
            tags: self.tags.clone(),
        }
    }
}

impl Fractal for IFS {
    open spec fn eq_spec(&self, other: &Self) -> bool {
        ifs_eq(self, other)
    }

    open spec fn law_spec(&self) -> crate::resonance::ResonanceLaw {
        crate::resonance::ResonanceLaw::FractalGrowth
    }

    /// One whole unit of resonance per registered transformation.
    open spec fn score_spec(&self) -> int {
        self.transform_count as int * 100
    }

    open spec fn id_spec(&self) -> Seq<char> {
        "IFS"@
    }

    fn is_equal(&self, other: &Self) -> (r: bool)
        ensures
            r == self.eq_spec(other),
    {
        self.transform_count == other.transform_count
            && metadata_equal(&self.metadata, &other.metadata)
            && self.tags.semantic_eq(&other.tags)
    }

    fn resonance_law(&self) -> (r: crate::resonance::ResonanceLaw)
        ensures
            r == self.law_spec(),
    {
        crate::resonance::ResonanceLaw::FractalGrowth
    }

    fn resonance_score(&self) -> (r: i64)
        ensures
            r as int == self.score_spec(),
    {
        self.transform_count as i64 * 100
    }

    fn tags(&self) -> &TagSet {
        &self.tags
    }

    fn metadata(&self) -> &Metadata {
        &self.metadata
    }

    fn id(&self) -> (r: &str)
        ensures
            r@ == self.id_spec(),
    {
        "IFS"
    }

    fn children(&self) -> Vec<FractalType> {
        Vec::new()
    }
}

/// The closed set of concrete fractal kinds; it stands in wherever a
/// runtime-polymorphic fractal is wanted.
#[derive(Debug)]
pub enum FractalType {
    Mandelbrot(Mandelbrot),
    IFS(IFS),
}

/// Whether two fractal values are the same kind with the same data.
pub open spec fn ft_eq(a: &FractalType, b: &FractalType) -> bool {
    match (a, b) {
        (FractalType::Mandelbrot(m1), FractalType::Mandelbrot(m2)) => mandelbrot_eq(m1, m2),
        (FractalType::IFS(i1), FractalType::IFS(i2)) => ifs_eq(i1, i2),
        _ => false,
    }
}

/// Every fractal value equals itself.
pub proof fn lemma_ft_eq_reflexive(a: &FractalType)
    ensures
        ft_eq(a, a),
{
}

impl Clone for FractalType {
    /// A copy that means the same fractal.
    fn clone(&self) -> (r: Self)
        ensures
            ft_eq(&r, self),
    {
        match self {
            FractalType::Mandelbrot(m) => FractalType::Mandelbrot(m.clone()),
            FractalType::IFS(i) => FractalType::IFS(i.clone()),
        }
    }
}

impl Fractal for FractalType {
    open spec fn eq_spec(&self, other: &Self) -> bool {
        ft_eq(self, other)
    }

    open spec fn law_spec(&self) -> crate::resonance::ResonanceLaw {
        match self {
            FractalType::Mandelbrot(m) => m.law_spec(),
            FractalType::IFS(i) => i.law_spec(),
        }
    }

    open spec fn score_spec(&self) -> int {
        match self {
            FractalType::Mandelbrot(m) => m.score_spec(),
            FractalType::IFS(i) => i.score_spec(),
        }
    }

    open spec fn id_spec(&self) -> Seq<char> {
        match self {
            FractalType::Mandelbrot(m) => m.id_spec(),
            FractalType::IFS(i) => i.id_spec(),
        }
    }

    fn is_equal(&self, other: &Self) -> (r: bool)
        ensures
            r == self.eq_spec(other),
    {
        match (self, other) {
            (FractalType::Mandelbrot(m1), FractalType::Mandelbrot(m2)) => m1.is_equal(m2),
            (FractalType::IFS(i1), FractalType::IFS(i2)) => i1.is_equal(i2),
            _ => false,
        }
    }

    fn resonance_law(&self) -> (r: crate::resonance::ResonanceLaw)
        ensures
            r == self.law_spec(),
    {
        match self {
            FractalType::Mandelbrot(m) => m.resonance_law(),
            FractalType::IFS(i) => i.resonance_law(),
        }
    }

    fn resonance_score(&self) -> (r: i64)
        ensures
            r as int == self.score_spec(),
    {
        match self {
            FractalType::Mandelbrot(m) => m.resonance_score(),
            FractalType::IFS(i) => i.resonance_score(),
        }
    }

    fn tags(&self) -> &TagSet {
        match self {
            FractalType::Mandelbrot(m) => &m.tags,
            FractalType::IFS(i) => &i.tags,
        }
    }

    fn metadata(&self) -> &Metadata {
        match self {
            FractalType::Mandelbrot(m) => &m.metadata,
            FractalType::IFS(i) => &i.metadata,
        }
    }

    fn id(&self) -> (r: &str)
        ensures
            r@ == self.id_spec(),
    {
        match self {
            FractalType::Mandelbrot(m) => m.id(),
            FractalType::IFS(i) => i.id(),
        }
    }

    fn children(&self) -> Vec<FractalType> {
        Vec::new()
    }
}

/// A member of a collection: a fractal paired with an operation.
#[derive(Debug)]
pub struct CollectionMember {
    pub fractal: FractalType,
    pub operation: Operation,
}

impl Clone for CollectionMember {
    /// A copy that means the same member.
    fn clone(&self) -> (r: Self)
        ensures
            ft_eq(&r.fractal, &self.fractal),
            r.operation == self.operation,
    {
        CollectionMember { fractal: self.fractal.clone(), operation: self.operation }
    }
}

/// A complex object created by combining multiple fractals.
#[derive(Debug)]
pub struct FractalCollection {
    pub members: Vec<CollectionMember>,
}

impl Clone for FractalCollection {
    /// A copy with memberwise-equal contents.
    fn clone(&self) -> (r: Self)
        ensures
            r.members@.len() == self.members@.len(),
            forall|i: int| 0 <= i < self.members@.len() ==> {
                &&& ft_eq(&(#[trigger] r.members@[i]).fractal, &self.members@[i].fractal)
                &&& r.members@[i].operation == self.members@[i].operation
            },
    {
        let n: usize = self.members.len();
        let mut members: Vec<CollectionMember> = Vec::new();
        let mut k: usize = 0;
        while k < n
            invariant
                k <= n,
                n == self.members@.len(),
                members@.len() == k,
                forall|i: int| 0 <= i < k ==> {
                    &&& ft_eq(&(#[trigger] members@[i]).fractal, &self.members@[i].fractal)
                    &&& members@[i].operation == self.members@[i].operation
                },
            decreases n - k,
        {
            members.push(self.members[k].clone());
            k = k + 1;
        }
        FractalCollection { members }
    }
}

impl Default for FractalCollection {
    /// An empty collection.
    fn default() -> (r: Self)
        ensures
            r.members@.len() == 0,
    {
        FractalCollection { members: Vec::new() }
    }
}

/// Combines two fractals into a collection representing their union.
pub fn add_fractals(a: &FractalType, b: &FractalType) -> (r: FractalCollection)
    ensures
        r.members@.len() == 2,
        ft_eq(&r.members@[0].fractal, a),
        r.members@[0].operation == Operation::Union,
        ft_eq(&r.members@[1].fractal, b),
        r.members@[1].operation == Operation::Union,
{
    let mut members: Vec<CollectionMember> = Vec::new();
    members.push(CollectionMember { fractal: a.clone(), operation: Operation::Union });
    members.push(CollectionMember { fractal: b.clone(), operation: Operation::Union });
    FractalCollection { members }
}

/// Combines two fractals to represent `A / B`: a union with an
/// intersection.
pub fn divide_fractals(a: &FractalType, b: &FractalType) -> (r: FractalCollection)
    ensures
        r.members@.len() == 2,
        ft_eq(&r.members@[0].fractal, a),
        r.members@[0].operation == Operation::Union,
        ft_eq(&r.members@[1].fractal, b),
        r.members@[1].operation == Operation::Intersection,
{
    let mut members: Vec<CollectionMember> = Vec::new();
    members.push(CollectionMember { fractal: a.clone(), operation: Operation::Union });
    members.push(CollectionMember { fractal: b.clone(), operation: Operation::Intersection });
    FractalCollection { members }
}

/// Combines two fractals to represent `A - B`.
pub fn sub_fractals(a: &FractalType, b: &FractalType) -> (r: FractalCollection)
    ensures
        r.members@.len() == 2,
        ft_eq(&r.members@[0].fractal, a),
        r.members@[0].operation == Operation::Union,
        ft_eq(&r.members@[1].fractal, b),
        r.members@[1].operation == Operation::Difference,
{
    let mut members: Vec<CollectionMember> = Vec::new();
    members.push(CollectionMember { fractal: a.clone(), operation: Operation::Union });
    members.push(CollectionMember { fractal: b.clone(), operation: Operation::Difference });
    FractalCollection { members }
}

/// Combines two fractals to represent `A * B` at the collection level.
pub fn mul_fractals(a: &FractalType, b: &FractalType) -> (r: FractalCollection)
    ensures
        r.members@.len() == 2,
        ft_eq(&r.members@[0].fractal, a),
        r.members@[0].operation == Operation::Union,
        ft_eq(&r.members@[1].fractal, b),
        r.members@[1].operation == Operation::Intersection,
{
    let mut members: Vec<CollectionMember> = Vec::new();
    members.push(CollectionMember { fractal: a.clone(), operation: Operation::Union });
    members.push(CollectionMember { fractal: b.clone(), operation: Operation::Intersection });
    FractalCollection { members }
}

} // verus!
