//! Dynamically typed component storage.
//!
//! An [`EcstaticStorage`] keeps components of any number of types. Each component is owned by an
//! id, and an id owns at most one component of each type. What a storage keeps for a type `T` is
//! modelled by [`model::Store`], and the functions of the storage are specified by the functions
//! of the model. [`laws`] states what follows for the storage as a whole.

pub mod component;
pub mod error;
pub mod laws;
pub mod model;
pub mod storable;
pub mod storage;
pub mod trusted;
mod type_map;

pub use component::Empty;
pub use error::ErrStorage;
pub use storable::{same_type_as, Storable};
pub use storage::EcstaticStorage;
