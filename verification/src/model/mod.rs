//! The data that the runtime plans, exchanges and reports.
//!
//! Every type that the runtime builds or copies has a model, a type of the same
//! name with the suffix `View` in which strings are character sequences and
//! vectors are sequences. `deep_view` gives the model of a value; contracts speak
//! of models, and a clone has the model of its source.

pub mod autotune;
pub mod communication;
pub mod design;
pub mod launch;
pub mod partition;
pub mod placement;
pub mod protocol;
pub mod runtime;
pub mod session;
pub mod surrogate;
pub mod topology;
