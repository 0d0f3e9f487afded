use dozer_core::epoch::{EpochManager, OpIdentifier};
use dozer_core::errors::ExecutionError;

#[test]
fn epochs_come_without_repetition_and_without_gaps() {
    let mut manager = EpochManager::new(2);
    for expected in 0..100u64 {
        assert_eq!(manager.advance(), Ok(expected));
    }
}

#[test]
fn a_manager_goes_on_where_an_earlier_run_left_off() {
    let mut manager = EpochManager::starting_at(1, 41);
    assert_eq!(manager.advance(), Ok(41));
    assert_eq!(manager.advance(), Ok(42));
}

#[test]
fn used_up_identifiers_are_an_error() {
    let mut manager = EpochManager::starting_at(1, u64::MAX - 1);
    assert_eq!(manager.advance(), Ok(u64::MAX - 1));
    let exhausted = ExecutionError::InternalError("epoch identifiers exhausted".to_string());
    assert_eq!(manager.advance(), Err(exhausted.clone()));
    assert_eq!(manager.advance(), Err(exhausted));
    assert!(!manager.all_terminated());
}

#[test]
fn the_pipeline_is_torn_down_when_every_source_is_done() {
    let mut manager = EpochManager::new(2);
    assert!(!manager.all_terminated());
    assert!(!manager.source_terminated());
    assert!(!manager.all_terminated());
    assert_eq!(manager.advance(), Ok(0));
    assert!(manager.source_terminated());
    assert!(manager.all_terminated());
    // A report too many changes nothing.
    assert!(manager.source_terminated());
    assert_eq!(manager.advance(), Ok(1));
}

#[test]
fn a_pipeline_without_sources_is_done_at_once() {
    assert!(EpochManager::new(0).all_terminated());
}

#[test]
fn positions_are_ordered_by_transaction_then_sequence() {
    let at = |txid, seq_in_tx| OpIdentifier::new(txid, seq_in_tx);
    assert!(at(5, 3).is_at_or_before(&at(5, 3)));
    assert!(at(5, 2).is_at_or_before(&at(5, 3)));
    assert!(at(4, 9).is_at_or_before(&at(5, 3)));
    assert!(!at(5, 4).is_at_or_before(&at(5, 3)));
    assert!(!at(6, 0).is_at_or_before(&at(5, 3)));
    assert_eq!(at(7, 8), OpIdentifier { txid: 7, seq_in_tx: 8 });
}

#[test]
fn errors_are_copied_with_their_text() {
    let e = ExecutionError::InternalError("disk full".to_string());
    assert_eq!(e.clone(), e);
    assert_eq!(ExecutionError::ChannelDisconnected.clone(), ExecutionError::ChannelDisconnected);
    assert_ne!(
        ExecutionError::ConnectorError("x".to_string()),
        ExecutionError::InternalError("x".to_string())
    );
}
