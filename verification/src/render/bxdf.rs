//! Scattering at a surface point: the categories of lobes, the lobes, and
//! the container that mixes up to eight of them.
use vstd::prelude::*;
use std::sync::Arc;
use bumpalo::Bump;
use crate::scalar::Scalar;
use crate::geometry::interaction::Intersection;
use crate::geometry::normal::Normal3;
use crate::geometry::vector::Vector3;
use crate::render::spectrum::Spectrum;
use crate::render::bxdfs::fresnel::FresnelSpecular;
use crate::render::bxdfs::lambert::{LambertianReflection, LambertianTransmission};
use crate::render::bxdfs::microfacet::{MicrofacetReflection, MicrofacetTransmission};
use crate::render::bxdfs::oren_nayar::OrenNayar;
use crate::render::bxdfs::specular::{SpecularReflection, SpecularTransmission};

verus! {

/// A bump arena: memory that is handed out piece by piece and released all
/// at once.
#[verifier::external_type_specification]
#[verifier::external_body]
pub struct ExBump<const MIN_ALIGN: usize>(Bump<MIN_ALIGN>);

/// `Bump::alloc`: moves the value into the arena and returns the exclusive
/// reference to it, which lives as long as the borrow of the arena. The
/// value behind the reference is the value that was passed in.
#[verifier::external_body]
pub(crate) fn arena_alloc<'a, T>(arena: &'a Bump, value: T) -> (r: &'a mut T)
    ensures
        *r == value,
{
    arena.alloc(value)
}

/// The most lobes one surface point can have.
pub const MAX_BXDF: usize = 8;

/// No property.
pub const NONE: u8 = 0b0000_0000;

/// The lobe sends light back to the side it came from.
pub const REFLECTION: u8 = 0b0000_0001;

/// The lobe sends light through the surface.
pub const TRANSMISSION: u8 = 0b0000_0010;

/// The lobe scatters widely.
pub const DIFFUSE: u8 = 0b0000_0100;

/// The lobe scatters around one direction.
pub const GLOSSY: u8 = 0b0000_1000;

/// The lobe scatters into one direction only.
pub const SPECULAR: u8 = 0b0001_0000;

/// Every property.
pub const ALL: u8 = 0b0001_1111;

/// A set of the five lobe properties: reflection or transmission, and
/// diffuse, glossy or specular.
#[derive(Clone, Copy, Debug, PartialEq, Eq, Structural)]
pub struct BxDFCategory {
    pub bits: u8,
}

impl BxDFCategory {
    /// The category with exactly the properties whose bits are set.
    pub open spec fn of(bits: u8) -> Self {
        BxDFCategory { bits }
    }

    /// Every property of `other` is a property of `self`.
    pub open spec fn contains_spec(self, other: Self) -> bool {
        self.bits & other.bits == other.bits
    }

    /// The properties of either.
    pub open spec fn union_spec(self, other: Self) -> Self {
        BxDFCategory { bits: self.bits | other.bits }
    }

    pub fn from_bits(bits: u8) -> (r: Self)
        ensures
            r == Self::of(bits),
    {
        BxDFCategory { bits }
    }

    pub fn bits(&self) -> (r: u8)
        ensures
            r == self.bits,
    {
        self.bits
    }

    pub fn contains(&self, other: Self) -> (r: bool)
        ensures
            r == self.contains_spec(other),
    {
        self.bits & other.bits == other.bits
    }

    pub fn union(self, other: Self) -> (r: Self)
        ensures
            r == self.union_spec(other),
    {
        BxDFCategory { bits: self.bits | other.bits }
    }
}

/// What sampling a lobe or a mixture of lobes gives: the scattered light,
/// the direction it comes from, the density with which that direction was
/// chosen, and the properties of the lobe that chose it.
#[derive(Clone, Copy, Debug)]
pub struct BxDFSample {
    pub value: Spectrum,
    pub incoming: Vector3,
    pub probability_distribution: Scalar,
    pub category: BxDFCategory,
}

impl BxDFSample {
    /// No light from no direction, with density zero.
    pub open spec fn empty_spec() -> Self {
        BxDFSample {
            value: Spectrum::black_spec(),
            incoming: Vector3::origin(),
            probability_distribution: Scalar { bits: 0 },
            category: BxDFCategory::of(NONE),
        }
    }

    pub fn empty() -> (r: Self)
        ensures
            r == Self::empty_spec(),
    {
        BxDFSample {
            value: Spectrum::black(),
            incoming: Vector3::zero(),
            probability_distribution: Scalar::zero_value(),
            category: BxDFCategory::from_bits(NONE),
        }
    }
}

/// Another lobe with its light scaled, channel by channel.
#[derive(Clone, Debug)]
pub struct ScaledBxDF {
    pub original: Arc<BxDFInstance>,
    pub scale: Spectrum,
}

/// One scattering lobe.
#[derive(Clone, Debug)]
pub enum BxDFInstance {
    ScaledBxDF(ScaledBxDF),
    SpecularReflection(SpecularReflection),
    SpecularTransmission(SpecularTransmission),
    FresnelSpecular(FresnelSpecular),
    LambertianReflection(LambertianReflection),
    LambertianTransmission(LambertianTransmission),
    OrenNayar(OrenNayar),
    MicrofacetReflection(MicrofacetReflection),
    MicrofacetTransmission(MicrofacetTransmission),
}

impl BxDFInstance {
    /// The properties of the lobe; a scaled lobe has those of the lobe it
    /// scales.
    pub open spec fn category_spec(self) -> BxDFCategory
        decreases self,
    {
        match self {
            BxDFInstance::ScaledBxDF(s) => s.original.category_spec(),
            BxDFInstance::SpecularReflection(_) => BxDFCategory::of(SPECULAR | REFLECTION),
            BxDFInstance::SpecularTransmission(_) => BxDFCategory::of(SPECULAR | TRANSMISSION),
            BxDFInstance::FresnelSpecular(_) => BxDFCategory::of(REFLECTION | TRANSMISSION | SPECULAR),
            BxDFInstance::LambertianReflection(_) => BxDFCategory::of(REFLECTION | DIFFUSE),
            BxDFInstance::LambertianTransmission(_) => BxDFCategory::of(TRANSMISSION | DIFFUSE),
            BxDFInstance::OrenNayar(_) => BxDFCategory::of(REFLECTION | DIFFUSE),
            BxDFInstance::MicrofacetReflection(_) => BxDFCategory::of(REFLECTION | GLOSSY),
            BxDFInstance::MicrofacetTransmission(_) => BxDFCategory::of(TRANSMISSION | GLOSSY),
        }
    }

    pub fn category(&self) -> (r: BxDFCategory)
        ensures
            r == self.category_spec(),
        decreases *self,
    {
        match self {
            BxDFInstance::ScaledBxDF(s) => s.original.category(),
            BxDFInstance::SpecularReflection(b) => b.category(),
            BxDFInstance::SpecularTransmission(b) => b.category(),
            BxDFInstance::FresnelSpecular(b) => b.category(),
            BxDFInstance::LambertianReflection(b) => b.category(),
            BxDFInstance::LambertianTransmission(b) => b.category(),
            BxDFInstance::OrenNayar(b) => b.category(),
            BxDFInstance::MicrofacetReflection(b) => b.category(),
            BxDFInstance::MicrofacetTransmission(b) => b.category(),
        }
    }
}

impl ScaledBxDF {
    pub fn category(&self) -> (r: BxDFCategory)
        ensures
            r == self.original.category_spec(),
    {
        self.original.category()
    }
}


/// The lobes among the first `n` of `lobes` whose properties all belong to
/// `category`, in their order.
pub open spec fn matching_prefix(lobes: Seq<BxDFInstance>, category: BxDFCategory, n: int) -> Seq<
    BxDFInstance,
>
    decreases n,
{
    if n <= 0 {
        Seq::empty()
    } else {
        let rest = matching_prefix(lobes, category, n - 1);
        if category.contains_spec(lobes[n - 1].category_spec()) {
            rest.push(lobes[n - 1])
        } else {
            rest
        }
    }
}

/// The lobes whose properties all belong to `category`.
pub open spec fn matching(lobes: Seq<BxDFInstance>, category: BxDFCategory) -> Seq<BxDFInstance> {
    matching_prefix(lobes, category, lobes.len() as int)
}

/// Whether a lobe takes part in scattering between two directions: a lobe
/// that reflects does where both directions are on the same side of the
/// surface, one that transmits where they are on opposite sides.
pub open spec fn takes_part(lobe: BxDFCategory, is_reflection: bool) -> bool {
    (is_reflection && lobe.contains_spec(BxDFCategory::of(REFLECTION))) || (!is_reflection
        && lobe.contains_spec(BxDFCategory::of(TRANSMISSION)))
}

/// The matching lobes among the first `n` that take part.
pub open spec fn contributing_prefix(
    lobes: Seq<BxDFInstance>,
    category: BxDFCategory,
    is_reflection: bool,
    n: int,
) -> Seq<BxDFInstance>
    decreases n,
{
    if n <= 0 {
        Seq::empty()
    } else {
        let rest = contributing_prefix(lobes, category, is_reflection, n - 1);
        let c = lobes[n - 1].category_spec();
        if category.contains_spec(c) && takes_part(c, is_reflection) {
            rest.push(lobes[n - 1])
        } else {
            rest
        }
    }
}

/// The lobes that are summed when the scattering between two directions is
/// evaluated: none for an outgoing direction in the surface (`outgoing_z`
/// zero), else the matching lobes that take part.
pub open spec fn contributing(
    lobes: Seq<BxDFInstance>,
    outgoing_z: Scalar,
    category: BxDFCategory,
    is_reflection: bool,
) -> Seq<BxDFInstance> {
    if outgoing_z.zero() {
        Seq::empty()
    } else {
        contributing_prefix(lobes, category, is_reflection, lobes.len() as int)
    }
}

/// The lobe that a sample falls on.
pub struct LobeChoice<'a> {
    /// The place of the lobe among the matching lobes.
    pub index: usize,
    /// How many lobes matched.
    pub matching: usize,
    pub component: &'a BxDFInstance,
}

/// What becomes of the sample that the chosen lobe has drawn.
#[derive(Clone, Copy, Debug, PartialEq, Eq, Structural)]
pub enum SampleFinish {
    /// Nothing: the empty sample is returned.
    Empty,
    /// The lobe's own value and density are returned (a specular lobe).
    Keep,
    /// The value is the sum over all lobes that take part, and, where
    /// `average_pdf` is set, the density is the mean over the matching
    /// lobes.
    Mixture { average_pdf: bool },
}

pub open spec fn sample_finish_spec(
    lobe: BxDFCategory,
    matching: usize,
    outgoing_z: Scalar,
    lobe_pdf: Scalar,
) -> SampleFinish {
    if outgoing_z.zero() || lobe_pdf.zero() {
        SampleFinish::Empty
    } else if lobe.contains_spec(BxDFCategory::of(SPECULAR)) {
        SampleFinish::Keep
    } else {
        SampleFinish::Mixture { average_pdf: matching > 1 }
    }
}

/// The scattering at one surface point: a local frame and up to
/// `MAX_BXDF` lobes.
pub struct BSDF<'a> {
    /// How much light bends at the boundary; 1 for opaque surfaces.
    index_of_refraction: Scalar,
    /// The normal of the geometry.
    geometric_normal: Normal3,
    /// The normal used for shading.
    shading_normal: Normal3,
    /// The first tangent of the orthonormal frame.
    tangent_s: Vector3,
    /// The second tangent of the orthonormal frame.
    tangent_t: Vector3,
    /// How many lobes have been added.
    num_components: usize,
    /// The lobes, the added ones first.
    components: [Option<&'a BxDFInstance>; MAX_BXDF],
}

impl<'a> BSDF<'a> {
    /// The added lobes fill the front of the array and nothing follows them.
    pub closed spec fn wf(&self) -> bool {
        &&& self.num_components <= MAX_BXDF
        &&& forall|i: int|
            0 <= i < MAX_BXDF ==> ((#[trigger] self.components[i]) is Some <==> i
                < self.num_components)
    }

    /// The lobes in the order in which they were added.
    pub closed spec fn lobes(&self) -> Seq<BxDFInstance> {
        Seq::new(self.num_components as nat, |i: int| *self.components[i].unwrap())
    }

    pub closed spec fn refraction(&self) -> Scalar {
        self.index_of_refraction
    }

    /// The geometric normal, the shading normal and the two tangents.
    pub closed spec fn frame(&self) -> (Normal3, Normal3, Vector3, Vector3) {
        (self.geometric_normal, self.shading_normal, self.tangent_s, self.tangent_t)
    }

    /// An empty container in the arena. The normals are those of the
    /// intersection; `tangents` is the orthonormal pair that completes the
    /// shading normal to a frame.
    pub fn new(
        arena: &'a Bump,
        intersection: &Intersection,
        tangents: (Vector3, Vector3),
        index_of_refraction: Scalar,
    ) -> (r: &'a mut Self)
        ensures
            r.wf(),
            r.lobes() == Seq::<BxDFInstance>::empty(),
            r.refraction() == index_of_refraction,
            r.frame() == (intersection.normal, intersection.shading_normal, tangents.0, tangents.1),
    {
        let r = arena_alloc(
            arena,
            BSDF {
                index_of_refraction,
                geometric_normal: intersection.normal,
                shading_normal: intersection.shading_normal,
                tangent_s: tangents.0,
                tangent_t: tangents.1,
                num_components: 0,
                components: [None, None, None, None, None, None, None, None],
            },
        );
        assert(r.lobes() =~= Seq::<BxDFInstance>::empty());
        r
    }

    pub fn index_of_refraction(&self) -> (r: Scalar)
        ensures
            r == self.refraction(),
    {
        self.index_of_refraction
    }

    pub fn geometric_normal(&self) -> (r: Normal3)
        ensures
            r == self.frame().0,
    {
        self.geometric_normal
    }

    pub fn shading_normal(&self) -> (r: Normal3)
        ensures
            r == self.frame().1,
    {
        self.shading_normal
    }

    pub fn tangents(&self) -> (r: (Vector3, Vector3))
        ensures
            r == (self.frame().2, self.frame().3),
    {
        (self.tangent_s, self.tangent_t)
    }

    pub fn num_components(&self) -> (r: usize)
        requires
            self.wf(),
        ensures
            r == self.lobes().len(),
            r <= MAX_BXDF,
    {
        self.num_components
    }

    /// Adds a lobe behind those that are there.
    pub fn add_component(&mut self, bxdf: &'a BxDFInstance)
        requires
            old(self).wf(),
            old(self).lobes().len() < MAX_BXDF,
        ensures
            final(self).wf(),
            final(self).lobes() == old(self).lobes().push(*bxdf),
            final(self).refraction() == old(self).refraction(),
            final(self).frame() == old(self).frame(),
    {
        self.components[self.num_components] = Some(bxdf);
        self.num_components += 1;
        assert(self.lobes() =~= old(self).lobes().push(*bxdf));
    }

    /// The walk over the lobes that match `category`.
    pub fn matching_components(&self, category: BxDFCategory) -> (r: BxDFIterator<'_>)
        requires
            self.wf(),
        ensures
            r.curr == 0,
            r.category == category,
            r.components@.len() == MAX_BXDF,
            forall|i: int|
                0 <= i < self.lobes().len() ==> r.components@[i] == Some(&#[trigger] self.lobes()[i]),
            forall|i: int|
                self.lobes().len() <= i < MAX_BXDF ==> (#[trigger] r.components@[i]) is None,
    {
        BxDFIterator { curr: 0, components: self.components.as_slice(), category }
    }

    /// How many lobes match `category`.
    pub fn count_matching(&self, category: BxDFCategory) -> (r: usize)
        requires
            self.wf(),
        ensures
            r == matching(self.lobes(), category).len(),
            r <= self.lobes().len(),
    {
        let mut count: usize = 0;
        let mut i: usize = 0;
        while i < self.num_components
            invariant
                self.wf(),
                i <= self.num_components,
                count <= i,
                count == matching_prefix(self.lobes(), category, i as int).len(),
            decreases self.num_components - i,
        {
            match self.components[i] {
                Some(c) => {
                    assert(self.lobes()[i as int] == *c);
                    if category.contains(c.category()) {
                        count += 1;
                    }
                },
                None => {},
            }
            i += 1;
        }
        count
    }

    /// The lobe at place `k` among the lobes that match `category`.
    pub fn nth_matching(&self, category: BxDFCategory, k: usize) -> (r: Option<&'a BxDFInstance>)
        requires
            self.wf(),
        ensures
            k < matching(self.lobes(), category).len() ==> r == Some(
                &matching(self.lobes(), category)[k as int],
            ),
            k >= matching(self.lobes(), category).len() ==> r is None,
    {
        let mut count: usize = 0;
        let mut i: usize = 0;
        while i < self.num_components
            invariant
                self.wf(),
                i <= self.num_components,
                count <= i,
                count <= k,
                count == matching_prefix(self.lobes(), category, i as int).len(),
            decreases self.num_components - i,
        {
            match self.components[i] {
                Some(c) => {
                    assert(self.lobes()[i as int] == *c);
                    if category.contains(c.category()) {
                        if count == k {
                            proof {
                                lemma_matching_prefix_grows(
                                    self.lobes(),
                                    category,
                                    i as int + 1,
                                    self.lobes().len() as int,
                                );
                                assert(matching_prefix(self.lobes(), category, i as int + 1)[k as int]
                                    == *c);
                            }
                            return Some(c);
                        }
                        count += 1;
                    }
                },
                None => {},
            }
            i += 1;
        }
        None
    }

    /// Starts a sample: picks the lobe that the sample falls on. `scaled` is
    /// the sample's first coordinate times the number of matching lobes,
    /// rounded down; the lobe at that place among the matching lobes is
    /// chosen, the last one where `scaled` is beyond it. Where no lobe
    /// matches, the sample is the empty sample: black, with density zero.
    pub fn sample_function(&self, scaled: usize, category: BxDFCategory) -> (r: Result<
        LobeChoice<'a>,
        BxDFSample,
    >)
        requires
            self.wf(),
        ensures
            matching(self.lobes(), category).len() == 0 ==> r == Err::<LobeChoice<'a>, BxDFSample>(
                BxDFSample::empty_spec(),
            ),
            matching(self.lobes(), category).len() > 0 ==> r is Ok && ({
                let n = matching(self.lobes(), category).len() as int;
                let k = if scaled < n - 1 {
                    scaled as int
                } else {
                    n - 1
                };
                &&& r->Ok_0.matching == n
                &&& r->Ok_0.index == k
                &&& *r->Ok_0.component == matching(self.lobes(), category)[k]
            }),
    {
        let matching_components = self.count_matching(category);
        if matching_components == 0 {
            return Err(BxDFSample::empty());
        }
        let chosen_idx = if scaled < matching_components - 1 {
            scaled
        } else {
            matching_components - 1
        };
        match self.nth_matching(category, chosen_idx) {
            Some(component) => Ok(
                LobeChoice { index: chosen_idx, matching: matching_components, component },
            ),
            None => Err(BxDFSample::empty()),
        }
    }

    /// Ends a sample, from what the chosen lobe has drawn: the empty sample
    /// for an outgoing direction in the surface or a density of zero; the
    /// lobe's own sample for a specular lobe; else the mixture of all lobes
    /// that take part, whose density is averaged where more than one lobe
    /// matched.
    pub fn finish_sample(choice: &LobeChoice<'a>, outgoing_z: Scalar, lobe_pdf: Scalar) -> (r:
        SampleFinish)
        ensures
            r == sample_finish_spec(
                choice.component.category_spec(),
                choice.matching,
                outgoing_z,
                lobe_pdf,
            ),
    {
        let zero = Scalar::zero_value();
        if outgoing_z.equals(zero) || lobe_pdf.equals(zero) {
            SampleFinish::Empty
        } else if choice.component.category().contains(BxDFCategory::from_bits(SPECULAR)) {
            SampleFinish::Keep
        } else {
            SampleFinish::Mixture { average_pdf: choice.matching > 1 }
        }
    }

    /// The lobes whose values are summed for the scattering between two
    /// directions. `outgoing_z` is the outgoing direction's component along
    /// the shading normal; `is_reflection` says whether both directions are
    /// on the same side of the geometric normal.
    pub fn contributing_components(
        &self,
        outgoing_z: Scalar,
        category: BxDFCategory,
        is_reflection: bool,
    ) -> (r: Vec<&'a BxDFInstance>)
        requires
            self.wf(),
        ensures
            r@.len() == contributing(self.lobes(), outgoing_z, category, is_reflection).len(),
            forall|i: int|
                0 <= i < r@.len() ==> *#[trigger] r@[i] == contributing(
                    self.lobes(),
                    outgoing_z,
                    category,
                    is_reflection,
                )[i],
    {
        let mut result: Vec<&'a BxDFInstance> = Vec::new();
        if outgoing_z.equals(Scalar::zero_value()) {
            return result;
        }
        let mut i: usize = 0;
        while i < self.num_components
            invariant
                self.wf(),
                i <= self.num_components,
                result@.len() == contributing_prefix(
                    self.lobes(),
                    category,
                    is_reflection,
                    i as int,
                ).len(),
                forall|j: int|
                    0 <= j < result@.len() ==> *#[trigger] result@[j] == contributing_prefix(
                        self.lobes(),
                        category,
                        is_reflection,
                        i as int,
                    )[j],
            decreases self.num_components - i,
        {
            match self.components[i] {
                Some(c) => {
                    assert(self.lobes()[i as int] == *c);
                    let component_category = c.category();
                    let is_reflective = component_category.contains(
                        BxDFCategory::from_bits(REFLECTION),
                    );
                    let is_transmissive = component_category.contains(
                        BxDFCategory::from_bits(TRANSMISSION),
                    );
                    if category.contains(component_category) && ((is_reflection && is_reflective)
                        || (!is_reflection && is_transmissive)) {
                        result.push(c);
                    }
                },
                None => {},
            }
            i += 1;
        }
        result
    }
}

/// A matching lobe keeps its place among the matching lobes when more lobes
/// follow.
pub proof fn lemma_matching_prefix_grows(
    lobes: Seq<BxDFInstance>,
    category: BxDFCategory,
    n: int,
    m: int,
)
    requires
        0 <= n <= m,
    ensures
        matching_prefix(lobes, category, n).len() <= matching_prefix(lobes, category, m).len(),
        forall|j: int|
            0 <= j < matching_prefix(lobes, category, n).len() ==> matching_prefix(
                lobes,
                category,
                m,
            )[j] == #[trigger] matching_prefix(lobes, category, n)[j],
    decreases m - n,
{
    if n < m {
        lemma_matching_prefix_grows(lobes, category, n, m - 1);
    }
}

/// A container none of whose lobes match gives the empty sample for every
/// sample point: black, with density zero.
pub proof fn lemma_no_match_is_empty(lobes: Seq<BxDFInstance>, category: BxDFCategory, n: int)
    requires
        0 <= n <= lobes.len(),
        forall|i: int| 0 <= i < n ==> !category.contains_spec((#[trigger] lobes[i]).category_spec()),
    ensures
        matching_prefix(lobes, category, n).len() == 0,
    decreases n,
{
    if n > 0 {
        lemma_no_match_is_empty(lobes, category, n - 1);
    }
}

/// The walk over the lobes of a container that match a category.
pub struct BxDFIterator<'a> {
    pub components: &'a [Option<&'a BxDFInstance>],
    pub curr: usize,
    pub category: BxDFCategory,
}

impl<'a> BxDFIterator<'a> {
    /// The lobe at place `i` is there and does not match.
    pub open spec fn passed_over(self, i: int) -> bool {
        self.components@[i] is Some && !self.category.contains_spec(
            self.components@[i].unwrap().category_spec(),
        )
    }

    /// Steps to the next matching lobe and returns it; `None` once the
    /// lobes are used up, which the first vacant place or the end of the
    /// array shows.
    pub fn next(&mut self) -> (r: Option<&'a BxDFInstance>)
        ensures
            final(self).components == old(self).components,
            final(self).category == old(self).category,
            old(self).curr >= old(self).components@.len() ==> final(self).curr == old(self).curr
                && r is None,
            old(self).curr < old(self).components@.len() ==> {
                &&& old(self).curr <= final(self).curr <= old(self).components@.len()
                &&& match r {
                    Some(c) => {
                        &&& final(self).curr > old(self).curr
                        &&& old(self).components@[final(self).curr - 1] == Some(c)
                        &&& old(self).category.contains_spec(c.category_spec())
                        &&& forall|j: int|
                            old(self).curr <= j < final(self).curr - 1 ==> old(self).passed_over(j)
                    },
                    None => {
                        &&& final(self).curr == old(self).components@.len() || old(
                            self,
                        ).components@[final(self).curr as int] is None
                        &&& forall|j: int|
                            old(self).curr <= j < final(self).curr ==> old(self).passed_over(j)
                    },
                }
            },
    {
        loop
            invariant
                self.components == old(self).components,
                self.category == old(self).category,
                old(self).curr <= self.curr,
                old(self).curr < old(self).components@.len() ==> self.curr <= self.components@.len(),
                old(self).curr >= old(self).components@.len() ==> self.curr == old(self).curr,
                forall|j: int| old(self).curr <= j < self.curr ==> old(self).passed_over(j),
            decreases self.components@.len() - self.curr,
        {
            if self.curr >= self.components.len() {
                return None;
            }
            match self.components[self.curr] {
                Some(component) => {
                    self.curr += 1;
                    if self.category.contains(component.category()) {
                        return Some(component);
                    }
                },
                None => {
                    return None;
                },
            }
        }
    }
}

} // verus!
