//! The rendering-engine abstraction: a single-use object holding pixel
//! state, which applies decoded operations strictly in order and is then
//! consumed exactly once to produce output bytes.

use vstd::prelude::*;
use crate::pb::{Spec, SpecData};

verus! {

/// Output container formats an engine can finalize into.
#[derive(Clone, Copy, Debug, PartialEq, Eq, Structural)]
pub enum OutputFormat {
    Png,
    /// JPEG with the given quality.
    Jpeg(u8),
}

/// Errors of the engine layer.
#[derive(Clone, Copy, Debug, PartialEq, Eq, Structural)]
pub enum EngineError {
    /// The source bytes cannot be loaded into a pixel buffer.
    UnsupportedSourceFormat,
    /// A requested width or height is zero or exceeds `MAX_DIM`.
    OutOfRangeDimensions,
}

/// Largest target dimension a resize operation may request.
pub const MAX_DIM: u32 = 65535;

/// Abstract pixel state of an engine: an RGBA byte buffer and its size.
pub struct EngineState {
    pub pixels: Seq<u8>,
    pub width: u32,
    pub height: u32,
}

pub open spec fn dims_ok(w: u32, h: u32) -> bool {
    1 <= w <= MAX_DIM && 1 <= h <= MAX_DIM
}

/// Whether one pipeline step passes the engine's dimension validation.
pub open spec fn spec_op_ok(s: Spec) -> bool {
    match s.data {
        Some(SpecData::Resize(r)) => dims_ok(r.width, r.height),
        _ => true,
    }
}

/// The contract every renderer satisfies: `apply` walks the decoded pipeline
/// strictly in order over the engine's own step semantics, treating
/// unrecognized operations as no-ops, and `generate` consumes the engine,
/// finalizing the pixel state into container bytes exactly once.
pub trait Engine: Sized {
    /// Abstract pixel state of this engine.
    spec fn state(&self) -> EngineState;

    /// Well-formedness of the engine's internal data.
    spec fn inv(&self) -> bool;

    /// This engine's semantics of one pipeline step.
    spec fn step(st: EngineState, s: Spec) -> EngineState;

    /// This engine's finalization of a state into container bytes.
    spec fn render(st: EngineState, format: OutputFormat) -> Seq<u8>;

    /// Running a pipeline from a state: the fold of `step` over the
    /// operations in order, stopped at the first step failing validation;
    /// either way the state reached is carried in the result.
    spec fn run(st: EngineState, specs: Seq<Spec>) -> Result<EngineState, EngineState>;

    /// Every engine's `run` is exactly that fold: nothing on the empty
    /// pipeline, a validation stop on a bad head, one `step` otherwise.
    proof fn lemma_run(st: EngineState, specs: Seq<Spec>)
        ensures
            specs.len() == 0 ==> Self::run(st, specs) == Ok::<EngineState, EngineState>(st),
            specs.len() > 0 && !spec_op_ok(specs[0]) ==> Self::run(st, specs)
                == Err::<EngineState, EngineState>(st),
            specs.len() > 0 && spec_op_ok(specs[0]) ==> Self::run(st, specs) == Self::run(
                Self::step(st, specs[0]),
                specs.drop_first(),
            ),
    ;

    /// Applies each operation strictly in sequence; a step with out-of-range
    /// dimensions stops the run and is reported, earlier steps staying
    /// applied.
    fn apply(&mut self, specs: &[Spec]) -> (r: Result<(), EngineError>)
        requires
            old(self).inv(),
        ensures
            final(self).inv(),
            match r {
                Ok(u) => Self::run(old(self).state(), specs@) matches Ok(st)
                    && final(self).state() == st,
                Err(e) => e == EngineError::OutOfRangeDimensions && (Self::run(
                    old(self).state(),
                    specs@,
                ) matches Err(st) && final(self).state() == st),
            },
    ;

    /// Consumes the engine and returns the bytes of the current image in the
    /// requested container format.
    fn generate(self, format: &OutputFormat) -> (r: Vec<u8>)
        requires
            self.inv(),
        ensures
            r@ == Self::render(self.state(), *format),
    ;
}

/// One transform capability per operation payload type: engines support new
/// operation kinds by adding an implementation rather than changing the
/// dispatch code.
pub trait SpecTransform<T>: Engine {
    /// Validation this payload must pass before the transform runs.
    spec fn op_ok(op: &T) -> bool;

    /// The engine's semantics of this payload.
    spec fn op_model(st: EngineState, op: &T) -> EngineState;

    fn transform(&mut self, op: &T)
        requires
            old(self).inv(),
            Self::op_ok(op),
        ensures
            final(self).inv(),
            final(self).state() == Self::op_model(old(self).state(), op),
    ;
}

} // verus!
