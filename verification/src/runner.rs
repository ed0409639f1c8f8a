//! The decisions of one batch execution round.
//!
//! A round first checks the requested batch size and asks the executor
//! database for that many transactions from the next sequence id on; it then
//! prepares a batch out of what came back. The database call itself is made
//! by the caller between the two steps.
use vstd::prelude::*;
use crate::batch;
use crate::batch::{
    DbStoredTx, PrepareError, TESTNET_CHUNK_SIZE, check_log2_strict, prepare_txs,
    lemma_prepare_len_is_largest_fit, lemma_prepare_len_power_of_two,
};

verus! {

/// Where the proof store stands: the sequence id of the next transaction to
/// prove and the id of the next batch.
#[derive(Clone, Copy, Debug, PartialEq, Eq, Structural)]
pub struct BatchCursor {
    pub next_tx_seq_id: u128,
    pub next_batch_id: u64,
}

/// A request for `count` stored transactions from sequence id
/// `from_tx_seq_id` on.
#[derive(Clone, Copy, Debug, PartialEq, Eq, Structural)]
pub struct FetchRequest {
    pub from_tx_seq_id: u128,
    pub count: usize,
}

/// Why a batch execution round failed.
#[derive(Debug, PartialEq, Eq)]
pub enum BatchError {
    /// The requested batch size is not a power of two.
    NotPowerOfTwo,
    /// The executor database returned nothing.
    DatabaseError,
    /// The returned transactions did not make a batch.
    Prepare(PrepareError),
}

/// The outcome of preparing the fetched transactions, as [`prepare_txs`]
/// states it, with its error wrapped into [`BatchError::Prepare`].
pub open spec fn prepared_as_specified<T>(
    next_tx_seq_id: u128,
    txs: Seq<DbStoredTx>,
    converted: Seq<Result<T, String>>,
    expected_batch_size: usize,
    res: Result<Vec<T>, BatchError>,
) -> bool {
    match batch::prepare_len(expected_batch_size as nat, txs.len()) {
        None => res == Err::<Vec<T>, BatchError>(
            BatchError::Prepare(
                PrepareError::NotEnoughTransactions {
                    required: expected_batch_size,
                    got: txs.len() as usize,
                },
            ),
        ),
        Some(p) => {
            &&& res is Ok <==> batch::all_accepted(next_tx_seq_id, txs, converted, p as int)
            &&& res matches Ok(v) ==> v@ == batch::converted_prefix(converted, p as int)
            &&& !(res matches Err(BatchError::NotPowerOfTwo))
            &&& !(res matches Err(BatchError::DatabaseError))
            &&& !(res matches Err(BatchError::Prepare(PrepareError::NotEnoughTransactions { .. })))
            &&& res matches Err(BatchError::Prepare(PrepareError::SequenceIdMismatch { index }))
                ==> {
                &&& index < p
                &&& batch::all_accepted(next_tx_seq_id, txs, converted, index as int)
                &&& !batch::seq_id_in_place(next_tx_seq_id, txs[index as int], index as int)
            }
            &&& res matches Err(BatchError::Prepare(PrepareError::ConversionFailed { index, reason }))
                ==> {
                &&& index < p
                &&& batch::all_accepted(next_tx_seq_id, txs, converted, index as int)
                &&& batch::seq_id_in_place(next_tx_seq_id, txs[index as int], index as int)
                &&& converted[index as int] == Err::<T, String>(reason)
            }
        },
    }
}

/// A round whose fetch was planned (so the requested size is a power of
/// two) and whose batch was prepared yields a power-of-two number of
/// transactions, no fewer than the chunk size and no more than requested or
/// fetched.
pub proof fn lemma_round_batch_size<T>(
    next_tx_seq_id: u128,
    txs: Seq<DbStoredTx>,
    converted: Seq<Result<T, String>>,
    expected_batch_size: usize,
    res: Result<Vec<T>, BatchError>,
)
    requires
        batch::is_power_of_two(expected_batch_size as int),
        converted.len() == txs.len(),
        prepared_as_specified(next_tx_seq_id, txs, converted, expected_batch_size, res),
        res is Ok,
    ensures
        batch::is_power_of_two(res->Ok_0@.len() as int),
        TESTNET_CHUNK_SIZE <= res->Ok_0@.len() <= expected_batch_size,
        res->Ok_0@.len() <= txs.len(),
{
    lemma_prepare_len_is_largest_fit(expected_batch_size as nat, txs.len());
    lemma_prepare_len_power_of_two(expected_batch_size as nat, txs.len());
}

impl BatchCursor {
    /// A cursor at the given next transaction and batch ids.
    pub fn new(next_tx_seq_id: u128, next_batch_id: u64) -> (cursor: Self)
        ensures
            cursor == (BatchCursor { next_tx_seq_id, next_batch_id }),
    {
        BatchCursor { next_tx_seq_id, next_batch_id }
    }

    /// Nothing has been proved yet: the next transaction is the first one.
    pub fn is_beginning(&self) -> (res: bool)
        ensures
            res == (self.next_tx_seq_id == 1),
    {
        1 == self.next_tx_seq_id
    }

    /// The first step of a round: refuses a batch size that is not a power of
    /// two, and otherwise asks for that many transactions from the next
    /// sequence id on.
    pub fn plan_fetch(&self, expected_batch_size: usize) -> (res: Result<FetchRequest, BatchError>)
        ensures
            res is Ok <==> batch::is_power_of_two(expected_batch_size as int),
            res matches Ok(req) ==> req == (FetchRequest {
                from_tx_seq_id: self.next_tx_seq_id,
                count: expected_batch_size,
            }),
            res matches Err(e) ==> e == BatchError::NotPowerOfTwo,
    {
        if !check_log2_strict(expected_batch_size as u128) {
            return Err(BatchError::NotPowerOfTwo);
        }
        Ok(FetchRequest { from_tx_seq_id: self.next_tx_seq_id, count: expected_batch_size })
    }

    /// The second step of a round: `fetched` is what the database returned
    /// for the request, `None` where it failed, and `converted[i]` is the
    /// conversion of the `i`-th fetched transaction. A failed fetch is a
    /// database error; otherwise the batch is prepared as [`prepare_txs`]
    /// does it.
    pub fn complete_batch<T>(
        &self,
        expected_batch_size: usize,
        fetched: Option<&Vec<DbStoredTx>>,
        converted: Vec<Result<T, String>>,
    ) -> (res: Result<Vec<T>, BatchError>)
        requires
            fetched matches Some(txs) ==> {
                &&& converted.len() == txs.len()
                &&& self.next_tx_seq_id + txs.len() <= u128::MAX + 1
            },
        ensures
            fetched is None ==> res == Err::<Vec<T>, BatchError>(BatchError::DatabaseError),
            fetched matches Some(txs) ==> prepared_as_specified(
                self.next_tx_seq_id,
                txs@,
                converted@,
                expected_batch_size,
                res,
            ),
    {
        match fetched {
            None => Err(BatchError::DatabaseError),
            Some(txs) => match prepare_txs(
                self.next_tx_seq_id,
                txs,
                converted,
                expected_batch_size,
            ) {
                Ok(v) => Ok(v),
                Err(e) => Err(BatchError::Prepare(e)),
            },
        }
    }
}

} // verus!
