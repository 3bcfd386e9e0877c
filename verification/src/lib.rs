//! Scene-graph and buffer bookkeeping for a real-time renderer: regions of one
//! linear buffer, the queue of pending mutations against them, and the models
//! whose geometry lives in those regions.

pub mod action;
pub mod allocator;
pub mod geometry;
pub mod layout;
pub mod model;
pub mod queue;
pub mod regions;
pub mod transform;
pub mod tree;
pub mod vertex;

pub use action::{ModifyAction, Mutation};
pub use geometry::{IndexedGeometry, SimpleGeometry};
pub use model::{BaseModel, Model, ModelState};
pub use transform::{Rotate, Scale, Transform, Translate};
pub use tree::TreeModel;
pub use vertex::Vertex;
