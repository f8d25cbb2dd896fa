//! An in-memory, mutable property graph: nodes connected by typed, optionally
//! weighted edges, where each node owns its outgoing edge records and carries
//! a payload of text entries, binary entries, both, or none.

mod clock;
pub mod edge;
pub mod graph;
pub mod ids;
pub mod node;
pub mod store;

pub use edge::Edge;
pub use edge::EdgeSetter;
pub use edge::EdgeType;
pub use graph::Graph;
pub use node::DataError;
pub use node::DataKind;
pub use node::DataValue;
pub use node::Node;
pub use node::NodeData;
pub use node::NodeType;
pub use store::Store;
