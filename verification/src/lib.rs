//! A node for a line-delimited request/response protocol: the envelope that
//! every message travels in, the correlation of replies with requests, and the
//! state machine by which a node answers.

pub mod body;
pub mod ident;
pub mod laws;
pub mod message;
pub mod model;
pub mod node;
pub mod response;
pub mod topology;

pub use body::{Body, BodyView};
pub use message::{Envelope, Message, Payload};
pub use model::{NodeError, NodeKind, NodeState, Run};
pub use node::Node;
pub use response::Response;
pub use topology::Topology;
