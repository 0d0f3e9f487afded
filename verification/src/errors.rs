use vstd::prelude::*;

verus! {

/// Failures that stop a source, a listener or a coordinator.
///
/// Every one of them is fatal for the unit that meets it and is handed
/// upward unchanged.
#[derive(Debug, PartialEq, Eq)]
pub enum ExecutionError {
    /// The listener found its channel closed while the source was still
    /// supposed to be running: the sender side died abnormally.
    ChannelDisconnected,
    /// A lower-level failure (persistence, forwarding, epoch assignment),
    /// with the text of the cause.
    InternalError(String),
    /// A failure raised inside a connector, with the text it reported.
    ConnectorError(String),
}

/// Mathematical value of an [`ExecutionError`].
pub enum ExecutionErrorView {
    ChannelDisconnected,
    InternalError(Seq<char>),
    ConnectorError(Seq<char>),
}

impl View for ExecutionError {
    type V = ExecutionErrorView;

    open spec fn view(&self) -> ExecutionErrorView {
        match self {
            ExecutionError::ChannelDisconnected => ExecutionErrorView::ChannelDisconnected,
            ExecutionError::InternalError(text) => ExecutionErrorView::InternalError(text@),
            ExecutionError::ConnectorError(text) => ExecutionErrorView::ConnectorError(text@),
        }
    }
}

impl Clone for ExecutionError {
    fn clone(&self) -> (copy: Self)
        ensures
            copy@ == self@,
    {
        match self {
            ExecutionError::ChannelDisconnected => ExecutionError::ChannelDisconnected,
            ExecutionError::InternalError(text) => ExecutionError::InternalError(text.clone()),
            ExecutionError::ConnectorError(text) => ExecutionError::ConnectorError(text.clone()),
        }
    }
}

} // verus!
