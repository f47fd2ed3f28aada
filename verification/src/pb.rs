//! Data model of the request protocol: the operation tagged union and the
//! `ImageSpec` pipeline container, together with the validated builders.

use vstd::prelude::*;

verus! {

/// How a resize operation scales the image.
#[derive(Clone, Copy, Debug, PartialEq, Eq, Structural)]
pub enum ResizeType {
    Normal,
    SeamCarve,
}

/// Interpolation kernel used by a normal (non-seam-carve) resize.
/// `Undefined` is the safe default and maps to the primitive's own default.
#[derive(Clone, Copy, Debug, PartialEq, Eq, Structural)]
pub enum SampleFilter {
    Undefined,
    Nearest,
    Triangle,
    CatmullRom,
    Gaussian,
    Lanczos3,
}

/// Named pixel filter. `Unspecified` is the no-op sentinel, so that tokens
/// carrying a filter unknown to this build are survived rather than rejected.
#[derive(Clone, Copy, Debug, PartialEq, Eq, Structural)]
pub enum Filter {
    Unspecified,
    Oceanic,
    Islands,
    Marine,
}

/// Payload of a resize operation.
#[derive(Clone, Copy, Debug, PartialEq, Eq, Structural)]
pub struct Resize {
    pub width: u32,
    pub height: u32,
    pub rtype: ResizeType,
    pub filter: SampleFilter,
}

/// The recognized operation payloads.
#[derive(Clone, Copy, Debug, PartialEq, Eq, Structural)]
pub enum SpecData {
    Resize(Resize),
    Filter(Filter),
}

/// One pipeline step. `data` is `None` for an operation kind unknown to this
/// decoder: such a step decodes successfully and is applied as a no-op.
#[derive(Clone, Copy, Debug, PartialEq, Eq, Structural)]
pub struct Spec {
    pub data: Option<SpecData>,
}

/// An ordered pipeline of operations; the order is the execution order.
#[derive(Clone, Debug)]
pub struct ImageSpec {
    pub specs: Vec<Spec>,
}

impl ImageSpec {
    /// Wraps an ordered list of operations with no additional validation.
    pub fn new(specs: Vec<Spec>) -> (r: ImageSpec)
        ensures
            r.specs@ == specs@,
    {
        ImageSpec { specs }
    }
}

impl PartialEq for ImageSpec {
    fn eq(&self, other: &ImageSpec) -> (r: bool) {
        let n = self.specs.len();
        if n != other.specs.len() {
            return false;
        }
        let mut i: usize = 0;
        while i < n
            invariant
                0 <= i <= n,
                n == self.specs@.len(),
                n == other.specs@.len(),
                forall|j: int| 0 <= j < i ==> self.specs@[j] == other.specs@[j],
            decreases n - i,
        {
            if self.specs[i] != other.specs[i] {
                return false;
            }
            i = i + 1;
        }
        proof {
            assert(self.specs@ =~= other.specs@);
        }
        true
    }
}

impl vstd::std_specs::cmp::PartialEqSpecImpl for ImageSpec {
    open spec fn obeys_eq_spec() -> bool {
        true
    }

    open spec fn eq_spec(&self, other: &ImageSpec) -> bool {
        self.specs@ == other.specs@
    }
}

impl Spec {
    /// Builds a content-aware resize. The sampling filter has no effect for
    /// this resize type, so it is pinned to the `Undefined` sentinel.
    pub fn new_resize_seam_carve(width: u32, height: u32) -> (s: Spec)
        ensures
            s == (Spec {
                data: Some(SpecData::Resize(Resize {
                    width,
                    height,
                    rtype: ResizeType::SeamCarve,
                    filter: SampleFilter::Undefined,
                })),
            }),
    {
        Spec {
            data: Some(SpecData::Resize(Resize {
                width,
                height,
                rtype: ResizeType::SeamCarve,
                filter: SampleFilter::Undefined,
            })),
        }
    }

    /// Builds a normal resize with the given sampling filter. Never fails;
    /// dimension validation is deferred to the engine.
    pub fn new_resize(width: u32, height: u32, filter: SampleFilter) -> (s: Spec)
        ensures
            s == (Spec {
                data: Some(SpecData::Resize(Resize {
                    width,
                    height,
                    rtype: ResizeType::Normal,
                    filter,
                })),
            }),
    {
        Spec {
            data: Some(SpecData::Resize(Resize {
                width,
                height,
                rtype: ResizeType::Normal,
                filter,
            })),
        }
    }

    /// Builds a named-filter operation.
    pub fn new_filter(filter: Filter) -> (s: Spec)
        ensures
            s == (Spec { data: Some(SpecData::Filter(filter)) }),
    {
        Spec { data: Some(SpecData::Filter(filter)) }
    }
}

/// The string key under which the imaging primitive knows a named filter;
/// `None` for the no-op sentinel.
pub open spec fn filter_key(f: Filter) -> Option<Seq<char>> {
    match f {
        Filter::Unspecified => None,
        Filter::Oceanic => Some("oceanic"@),
        Filter::Islands => Some("islands"@),
        Filter::Marine => Some("marine"@),
    }
}

impl Filter {
    /// Maps the filter to the primitive's string key; the `Unspecified`
    /// sentinel has none and is applied as a no-op.
    pub fn to_str(&self) -> (r: Option<&str>)
        ensures
            match r {
                None => filter_key(*self) is None,
                Some(s) => filter_key(*self) == Some(s@),
            },
    {
        match self {
            Filter::Unspecified => None,
            Filter::Oceanic => Some("oceanic"),
            Filter::Islands => Some("islands"),
            Filter::Marine => Some("marine"),
        }
    }
}

} // verus!
