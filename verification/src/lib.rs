//! Runtime core of a change-data-capture engine: the record model, the
//! incremental aggregation kernel, the source sender/listener pair and the
//! commit coordination that cuts epochs and checkpoints.

pub mod errors;
pub mod epoch;
pub mod order;
pub mod decimal;
pub mod field;
pub mod record;
pub mod encoding;
pub mod channel;
pub mod multiset;
mod tree;
pub mod aggregation;
pub mod shadow;
pub mod node;
pub mod coordinator;
pub mod source_node;
pub mod protocol;
