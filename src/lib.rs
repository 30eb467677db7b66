//! An interactive to-do list: the task model, the routing of input events to
//! model operations, the layout of what is drawn, and the loading of the stored
//! list, each with its contract.
pub mod model;
pub mod router;
pub mod render;
pub mod store;
pub mod laws;
