use vstd::prelude::*;

pub mod error;
pub mod laws;
pub mod node;
pub mod path;
pub mod pathfinder;
pub mod util;
pub mod validator;

pub use error::{FieldError, FieldResult};
pub use node::Node;

verus! {

} // verus!
