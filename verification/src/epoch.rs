use vstd::prelude::*;
use crate::errors::ExecutionError;
use crate::errors::ExecutionErrorView;

verus! {

/// Position of an operation in its source: the transaction it belongs to and
/// its place inside that transaction.
#[derive(Clone, Copy, Debug, PartialEq, Eq, Structural)]
pub struct OpIdentifier {
    pub txid: u64,
    pub seq_in_tx: u64,
}

impl OpIdentifier {
    /// The position `seq_in_tx` of the transaction `txid`.
    pub fn new(txid: u64, seq_in_tx: u64) -> (id: Self)
        ensures
            id.txid == txid,
            id.seq_in_tx == seq_in_tx,
    {
        OpIdentifier { txid, seq_in_tx }
    }

    /// `self` comes strictly before `other` in the source's stream.
    pub open spec fn precedes(self, other: OpIdentifier) -> bool {
        self.txid < other.txid || (self.txid == other.txid && self.seq_in_tx < other.seq_in_tx)
    }

    /// `self` is `other` or comes before it.
    pub open spec fn at_or_before(self, other: OpIdentifier) -> bool {
        self == other || self.precedes(other)
    }

    /// Whether `self` is `other` or comes before it.
    pub fn is_at_or_before(&self, other: &OpIdentifier) -> (r: bool)
        ensures
            r == self.at_or_before(*other),
    {
        self.txid < other.txid || (self.txid == other.txid && self.seq_in_tx <= other.seq_in_tx)
    }
}

/// Mathematical value of an [`EpochManager`].
pub struct EpochManagerView {
    /// The number of sources that feed the pipeline.
    pub num_sources: nat,
    /// The identifier that the next epoch gets.
    pub next: nat,
    /// The number of sources that have terminated.
    pub terminated: nat,
}

impl EpochManagerView {
    /// The manager after one more epoch was assigned.
    pub open spec fn advanced(self) -> EpochManagerView {
        EpochManagerView { next: self.next + 1, ..self }
    }

    /// The manager after one more source reported its termination. A
    /// report beyond the number of sources changes nothing.
    pub open spec fn with_termination(self) -> EpochManagerView {
        if self.terminated < self.num_sources {
            EpochManagerView { terminated: self.terminated + 1, ..self }
        } else {
            self
        }
    }

    /// Every source has terminated: the pipeline can be torn down.
    pub open spec fn all_terminated(self) -> bool {
        self.terminated >= self.num_sources
    }

    /// The manager after `n` more epochs were assigned.
    pub open spec fn advanced_by(self, n: nat) -> EpochManagerView
        decreases n,
    {
        if n == 0 {
            self
        } else {
            self.advanced_by((n - 1) as nat).advanced()
        }
    }
}

/// The error of an epoch manager whose identifiers are used up.
pub open spec fn epochs_exhausted() -> ExecutionErrorView {
    ExecutionErrorView::InternalError("epoch identifiers exhausted"@)
}

/// The one piece of state that all sources of a pipeline share: it hands
/// out the identifiers of epochs and counts the sources that are done.
///
/// Whoever shares a manager between threads serialises the calls; each
/// call is then one step of the counter described here.
#[derive(Debug)]
pub struct EpochManager {
    num_sources: usize,
    next: u64,
    terminated: usize,
}

impl View for EpochManager {
    type V = EpochManagerView;

    closed spec fn view(&self) -> EpochManagerView {
        EpochManagerView {
            num_sources: self.num_sources as nat,
            next: self.next as nat,
            terminated: self.terminated as nat,
        }
    }
}

impl EpochManager {
    /// What holds of every manager that this module hands out.
    pub open spec fn wf(&self) -> bool {
        self@.terminated <= self@.num_sources
    }

    /// A manager for a pipeline of `num_sources` sources; its first epoch
    /// gets the identifier 0.
    pub fn new(num_sources: usize) -> (manager: Self)
        ensures
            manager.wf(),
            manager@ == (EpochManagerView { num_sources: num_sources as nat, next: 0, terminated: 0 }),
    {
        EpochManager { num_sources, next: 0, terminated: 0 }
    }

    /// A manager for a pipeline of `num_sources` sources that goes on where
    /// an earlier run left off: its first epoch gets the identifier `next`.
    pub fn starting_at(num_sources: usize, next: u64) -> (manager: Self)
        ensures
            manager.wf(),
            manager@ == (EpochManagerView {
                num_sources: num_sources as nat,
                next: next as nat,
                terminated: 0,
            }),
    {
        EpochManager { num_sources, next, terminated: 0 }
    }

    /// Assigns the next epoch and returns its identifier. Fails, and
    /// changes nothing, once the identifiers are used up.
    pub fn advance(&mut self) -> (r: Result<u64, ExecutionError>)
        requires
            old(self).wf(),
        ensures
            final(self).wf(),
            old(self)@.next < u64::MAX ==> r == Ok::<u64, ExecutionError>(old(self)@.next as u64),
            old(self)@.next < u64::MAX ==> final(self)@ == old(self)@.advanced(),
            old(self)@.next >= u64::MAX ==> r is Err && r->Err_0@ == epochs_exhausted(),
            old(self)@.next >= u64::MAX ==> final(self)@ == old(self)@,
    {
        if self.next < u64::MAX {
            let id: u64 = self.next;
            self.next = self.next + 1;
            Ok(id)
        } else {
            Err(ExecutionError::InternalError("epoch identifiers exhausted".to_string()))
        }
    }

    /// Records that one more source has terminated, and tells whether all
    /// of them have.
    pub fn source_terminated(&mut self) -> (all: bool)
        requires
            old(self).wf(),
        ensures
            final(self).wf(),
            final(self)@ == old(self)@.with_termination(),
            all == final(self)@.all_terminated(),
    {
        if self.terminated < self.num_sources {
            self.terminated = self.terminated + 1;
        }
        self.terminated >= self.num_sources
    }

    /// Whether every source has terminated.
    pub fn all_terminated(&self) -> (all: bool)
        ensures
            all == self@.all_terminated(),
    {
        self.terminated >= self.num_sources
    }
}

/// Epoch identifiers are handed out without repetition and without gaps:
/// the epoch assigned after `n` others gets the identifier `n` places
/// above the first, whatever else the manager saw in between.
pub proof fn lemma_epochs_consecutive(manager: EpochManagerView, n: nat)
    ensures
        manager.advanced_by(n).next == manager.next + n,
        manager.advanced_by(n).num_sources == manager.num_sources,
        manager.advanced_by(n).terminated == manager.terminated,
    decreases n,
{
    if n > 0 {
        lemma_epochs_consecutive(manager, (n - 1) as nat);
    }
}

/// Two epochs assigned at different times never share an identifier.
pub proof fn lemma_epochs_distinct(manager: EpochManagerView, m: nat, n: nat)
    requires
        m != n,
    ensures
        manager.advanced_by(m).next != manager.advanced_by(n).next,
{
    lemma_epochs_consecutive(manager, m);
    lemma_epochs_consecutive(manager, n);
}

} // verus!
