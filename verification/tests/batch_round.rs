use zk_6358_runner::batch::{DbStoredTx, PrepareError};
use zk_6358_runner::runner::{BatchCursor, BatchError, FetchRequest};

fn txs_from(next: u128, n: usize) -> Vec<DbStoredTx> {
    (0..n).map(|i| DbStoredTx { id: Some(next + i as u128), block_height: i as u64 }).collect()
}

#[test]
fn cursor_at_the_first_transaction_is_at_the_beginning() {
    assert!(BatchCursor::new(1, 0).is_beginning());
    assert!(!BatchCursor::new(2, 0).is_beginning());
    assert!(!BatchCursor::new(0, 5).is_beginning());
}

#[test]
fn fetch_plan_asks_for_the_next_transactions() {
    let cursor = BatchCursor::new(17, 3);
    assert_eq!(cursor.plan_fetch(8), Ok(FetchRequest { from_tx_seq_id: 17, count: 8 }));
    assert_eq!(cursor.plan_fetch(4), Ok(FetchRequest { from_tx_seq_id: 17, count: 4 }));
}

#[test]
fn fetch_plan_refuses_a_size_that_is_not_a_power_of_two() {
    let cursor = BatchCursor::new(1, 1);
    assert_eq!(cursor.plan_fetch(6), Err(BatchError::NotPowerOfTwo));
    assert_eq!(cursor.plan_fetch(0), Err(BatchError::NotPowerOfTwo));
}

#[test]
fn a_failed_fetch_is_a_database_error() {
    let cursor = BatchCursor::new(1, 1);
    let res = cursor.complete_batch::<u8>(4, None, Vec::new());
    assert_eq!(res, Err(BatchError::DatabaseError));
}

#[test]
fn fetched_transactions_become_a_batch() {
    let cursor = BatchCursor::new(5, 1);
    let txs = txs_from(5, 8);
    let conv: Vec<Result<usize, String>> = (0..8).map(Ok).collect();
    assert_eq!(cursor.complete_batch(8, Some(&txs), conv), Ok((0..8).collect::<Vec<_>>()));
}

#[test]
fn too_few_fetched_transactions_are_reported() {
    let cursor = BatchCursor::new(5, 1);
    let txs = txs_from(5, 2);
    let conv: Vec<Result<usize, String>> = (0..2).map(Ok).collect();
    assert_eq!(
        cursor.complete_batch(4, Some(&txs), conv),
        Err(BatchError::Prepare(PrepareError::NotEnoughTransactions { required: 4, got: 2 }))
    );
}

#[test]
fn fetched_transactions_out_of_sequence_are_reported() {
    let cursor = BatchCursor::new(5, 1);
    let txs = txs_from(6, 4);
    let conv: Vec<Result<usize, String>> = (0..4).map(Ok).collect();
    assert_eq!(
        cursor.complete_batch(4, Some(&txs), conv),
        Err(BatchError::Prepare(PrepareError::SequenceIdMismatch { index: 0 }))
    );
}

#[test]
fn a_planned_round_prepares_a_power_of_two_batch() {
    let cursor = BatchCursor::new(1, 0);
    assert!(cursor.plan_fetch(16).is_ok());
    let txs = txs_from(1, 13);
    let conv: Vec<Result<usize, String>> = (0..13).map(Ok).collect();
    let batch = cursor.complete_batch(16, Some(&txs), conv).unwrap();
    assert_eq!(batch.len(), 8);
    assert!(batch.len().is_power_of_two());
}
