//! Transducers: composable transformations of reducing functions.
//!
//! A *transducer* turns a reducing (step) function for one element type into
//! a reducing function for another, independently of the process that will
//! drive it.  The two canonical transducers are [`mapping`] and
//! [`filtering`]; [`transduce`] drives a transducer over a vector by a left
//! fold; and [`compose`] is the standalone function-composition utility used
//! to build new functions out of existing ones.  The laws the library obeys
//! are stated and proved once and for all in [`laws`].

pub mod compose;
pub mod laws;
pub mod step;
pub mod transducer;
pub mod transform;

pub use compose::Composed;
pub use compose::Lifted;
pub use compose::UnaryFn;
pub use compose::compose;
pub use compose::lift;
pub use step::Append;
pub use step::LiftedStep;
pub use step::StepFn;
pub use transducer::Transducer;
pub use transducer::TransducerSpec;
pub use transducer::transduce;
pub use transform::FilterStep;
pub use transform::Filtering;
pub use transform::MapStep;
pub use transform::Mapping;
pub use transform::filtering;
pub use transform::mapping;
