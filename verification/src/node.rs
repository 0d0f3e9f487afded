use vstd::prelude::*;
use crate::channel::SourceChannelForwarder;
use crate::errors::ExecutionError;

verus! {

/// Name of a node of the dataflow graph: an optional namespace and an
/// identifier.
#[derive(Debug, PartialEq, Eq)]
pub struct NodeHandle {
    pub ns: Option<u16>,
    pub id: String,
}

/// Mathematical value of a [`NodeHandle`].
pub struct NodeHandleView {
    pub ns: Option<u16>,
    pub id: Seq<char>,
}

impl View for NodeHandle {
    type V = NodeHandleView;

    open spec fn view(&self) -> NodeHandleView {
        NodeHandleView { ns: self.ns, id: self.id@ }
    }
}

impl NodeHandle {
    /// The handle of the node `id` in the namespace `ns`.
    pub fn new(ns: Option<u16>, id: String) -> (handle: Self)
        ensures
            handle@ == (NodeHandleView { ns, id: id@ }),
    {
        NodeHandle { ns, id }
    }
}

impl Clone for NodeHandle {
    fn clone(&self) -> (copy: Self)
        ensures
            copy@ == self@,
    {
        NodeHandle { ns: self.ns, id: self.id.clone() }
    }
}

/// A connector: the origin of the operations of one source.
///
/// What a connector does is its own business. It is told where to resume
/// and must then hand over no operation at or before that place.
pub trait Source {
    /// Whether the connector, told to resume from `resume_from`, can end
    /// with `outcome`. Each connector says for itself what it can end
    /// with; one that says nothing can end with anything.
    open spec fn ends_with(
        &self,
        resume_from: Option<(u64, u64)>,
        outcome: Result<(), ExecutionError>,
    ) -> bool {
        true
    }

    /// Produces the source's operations and hands each to `forwarder`,
    /// starting behind `resume_from` where one is given. Returns when the
    /// source is exhausted or has failed.
    fn start<F: SourceChannelForwarder>(
        &self,
        forwarder: &mut F,
        resume_from: Option<(u64, u64)>,
    ) -> (outcome: Result<(), ExecutionError>)
        ensures
            self.ends_with(resume_from, outcome),
    ;
}

} // verus!
