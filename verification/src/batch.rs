//! Choosing and checking a batch of executed transactions.
//!
//! A batch is taken from the transactions that the executor database returns
//! for the next sequence ids. Its size is the requested size, halved as often
//! as needed until the database holds enough transactions, and never below
//! [`TESTNET_CHUNK_SIZE`]. Every transaction of the batch must carry the
//! sequence id that its position implies and must convert into a signed
//! transaction; the first one that does not decides the error.
use vstd::prelude::*;
use vstd::arithmetic::power2::{is_pow2, is_pow2_exists, is_pow2_equiv, pow2, lemma_pow2_pos, lemma_pow2_unfold};
use vstd::arithmetic::div_mod::lemma_div_denominator;

verus! {

/// The smallest batch that is ever proved.
pub const TESTNET_CHUNK_SIZE: usize = 4;

/// What the batch logic reads of a transaction stored by the executor:
/// its sequence id, where the database holds one, and its block height.
#[derive(Clone, Copy, Debug, PartialEq, Eq, Structural)]
pub struct DbStoredTx {
    pub id: Option<u128>,
    pub block_height: u64,
}

/// The span of blocks and transaction sequence ids that a batch covers.
#[derive(Clone, Copy, Debug, PartialEq, Eq, Structural)]
pub struct BatchRange {
    pub start_block_height: u64,
    pub start_tx_seq_id: u128,
    pub end_block_height: u64,
    pub end_tx_seq_id: u128,
}

/// Why a batch could not be prepared.
#[derive(Debug, PartialEq, Eq)]
pub enum PrepareError {
    /// No halving of the requested size that is at least the chunk size fits
    /// in the transactions at hand.
    NotEnoughTransactions { required: usize, got: usize },
    /// The transaction at `index` carries a sequence id other than the
    /// next expected sequence id plus `index`.
    SequenceIdMismatch { index: usize },
    /// The transaction at `index` could not be converted; `reason` is what
    /// the conversion reported.
    ConversionFailed { index: usize, reason: String },
}

/// Whether `n` is a power of two, `2^k` for some `k >= 0`.
pub open spec fn is_power_of_two(n: int) -> bool {
    is_pow2_exists(n)
}

/// Returns whether `n` is a power of two (`2^k` for some `k >= 0`).
pub fn check_log2_strict(n: u128) -> (res: bool)
    ensures
        res == is_power_of_two(n as int),
{
    let mut m: u128 = n;
    while m > 1 && m % 2 == 0
        invariant
            is_pow2(m as int) == is_pow2(n as int),
        decreases m,
    {
        proof {
            reveal(is_pow2);
        }
        m = m / 2;
    }
    proof {
        reveal(is_pow2);
        is_pow2_equiv(n as int);
    }
    m == 1
}

/// `expected` halved `k` times, rounding down each time.
pub open spec fn halved(expected: nat, k: nat) -> nat
    decreases k,
{
    if k == 0 {
        expected
    } else {
        halved(expected, (k - 1) as nat) / 2
    }
}

/// The `k`-th halving of `expected` is a batch size that can be used when
/// `available` transactions are at hand.
pub open spec fn fits(expected: nat, available: nat, k: nat) -> bool {
    TESTNET_CHUNK_SIZE <= halved(expected, k) <= available
}

/// The `k`-th halving fits and no earlier halving does.
pub open spec fn is_first_fit(expected: nat, available: nat, k: nat) -> bool {
    &&& fits(expected, available, k)
    &&& forall|j: nat| j < k ==> !fits(expected, available, j)
}

/// The size of the batch taken from `available` transactions when
/// `expected` were asked for: the first (and so the largest) halving of
/// `expected` that fits, or `None` where none does.
pub open spec fn prepare_len(expected: nat, available: nat) -> Option<nat> {
    if exists|k: nat| fits(expected, available, k) {
        Some(halved(expected, choose|k: nat| is_first_fit(expected, available, k)))
    } else {
        None
    }
}

/// Halving `k` times is dividing by `2^k`.
pub proof fn lemma_halved_is_division(expected: nat, k: nat)
    ensures
        halved(expected, k) == expected / pow2(k),
    decreases k,
{
    if k > 0 {
        lemma_halved_is_division(expected, (k - 1) as nat);
        lemma_pow2_pos((k - 1) as nat);
        lemma_pow2_unfold(k);
        lemma_div_denominator(expected as int, pow2((k - 1) as nat) as int, 2);
        assert(pow2((k - 1) as nat) * 2 == pow2(k));
    } else {
        assert(pow2(0) == 1) by {
            vstd::arithmetic::power2::lemma2_to64();
        }
    }
}

/// Halving more often never gives a larger size.
pub proof fn lemma_halved_non_increasing(expected: nat, j: nat, k: nat)
    requires
        j <= k,
    ensures
        halved(expected, k) <= halved(expected, j),
    decreases k - j,
{
    if j < k {
        lemma_halved_non_increasing(expected, j, (k - 1) as nat);
    }
}

/// At most one index is the first that fits.
pub proof fn lemma_first_fit_unique(expected: nat, available: nat, k1: nat, k2: nat)
    requires
        is_first_fit(expected, available, k1),
        is_first_fit(expected, available, k2),
    ensures
        k1 == k2,
{
    if k1 < k2 {
        assert(!fits(expected, available, k1));
    } else if k2 < k1 {
        assert(!fits(expected, available, k2));
    }
}

/// The size that [`prepare_len`] picks is the largest halving of `expected`
/// that fits, and a size is picked exactly when some halving fits.
pub proof fn lemma_prepare_len_is_largest_fit(expected: nat, available: nat)
    ensures
        prepare_len(expected, available) is None <==> forall|k: nat| !fits(expected, available, k),
        prepare_len(expected, available) matches Some(p) ==> {
            &&& TESTNET_CHUNK_SIZE <= p <= available
            &&& p <= expected
            &&& exists|k: nat| fits(expected, available, k) && halved(expected, k) == p
            &&& forall|k: nat| fits(expected, available, k) ==> halved(expected, k) <= p
        },
{
    if exists|k: nat| fits(expected, available, k) {
        let k0 = choose|k: nat| fits(expected, available, k);
        let kf = first_fit_exists(expected, available, k0);
        lemma_first_fit_unique(
            expected,
            available,
            kf,
            choose|k: nat| is_first_fit(expected, available, k),
        );
        lemma_halved_non_increasing(expected, 0, kf);
        assert forall|k: nat| fits(expected, available, k) implies halved(expected, k) <= halved(
            expected,
            kf,
        ) by {
            if k < kf {
                assert(!fits(expected, available, k));
            } else {
                lemma_halved_non_increasing(expected, kf, k);
            }
        }
    }
}

/// Where some halving fits, one of them is the first that fits.
proof fn first_fit_exists(expected: nat, available: nat, k: nat) -> (kf: nat)
    requires
        fits(expected, available, k),
    ensures
        is_first_fit(expected, available, kf),
        kf <= k,
    decreases k,
{
    if forall|j: nat| j < k ==> !fits(expected, available, j) {
        k
    } else {
        let j = choose|j: nat| j < k && fits(expected, available, j);
        first_fit_exists(expected, available, j)
    }
}

/// When `expected` itself fits, the batch has the requested size.
pub proof fn lemma_full_batch_when_enough(expected: nat, available: nat)
    requires
        TESTNET_CHUNK_SIZE <= expected <= available,
    ensures
        prepare_len(expected, available) == Some(expected),
{
    assert(is_first_fit(expected, available, 0));
    lemma_first_fit_unique(expected, available, 0, choose|k: nat| is_first_fit(expected, available, k));
}

/// Halving a power of two down to no less than the chunk size keeps it a
/// power of two.
proof fn lemma_halved_power_of_two(expected: nat, k: nat)
    requires
        is_pow2(expected as int),
        halved(expected, k) >= TESTNET_CHUNK_SIZE,
    ensures
        is_pow2(halved(expected, k) as int),
    decreases k,
{
    if k > 0 {
        let prev = halved(expected, (k - 1) as nat);
        assert(prev >= halved(expected, k)) by {
            lemma_halved_non_increasing(expected, (k - 1) as nat, k);
        }
        lemma_halved_power_of_two(expected, (k - 1) as nat);
        reveal(is_pow2);
    }
}

/// A batch taken for a power-of-two request has a power-of-two size.
pub proof fn lemma_prepare_len_power_of_two(expected: nat, available: nat)
    requires
        is_power_of_two(expected as int),
    ensures
        prepare_len(expected, available) matches Some(p) ==> is_power_of_two(p as int),
{
    if exists|k: nat| fits(expected, available, k) {
        let k0 = choose|k: nat| fits(expected, available, k);
        let kf = first_fit_exists(expected, available, k0);
        lemma_first_fit_unique(expected, available, kf, choose|k: nat| is_first_fit(expected, available, k));
        is_pow2_equiv(expected as int);
        lemma_halved_power_of_two(expected, kf);
        is_pow2_equiv(halved(expected, kf) as int);
    }
}

/// Chooses the size of the next batch: `expected_batch_size` halved until
/// it is at most `available`, provided it stays at least the chunk size.
pub fn choose_prepare_len(expected_batch_size: usize, available: usize) -> (res: Option<usize>)
    ensures
        res matches Some(p) ==> prepare_len(expected_batch_size as nat, available as nat) == Some(
            p as nat,
        ),
        res is None ==> prepare_len(expected_batch_size as nat, available as nat) is None,
{
    let ghost e = expected_batch_size as nat;
    let ghost a = available as nat;
    let mut len = expected_batch_size;
    let ghost mut k: nat = 0;
    while len >= TESTNET_CHUNK_SIZE && available < len
        invariant
            len == halved(e, k),
            a == available,
            forall|j: nat| j < k ==> halved(e, j) > a,
        decreases len,
    {
        len = len / 2;
        proof {
            k = k + 1;
        }
    }
    if len < TESTNET_CHUNK_SIZE {
        proof {
            assert forall|j: nat| !fits(e, a, j) by {
                if j >= k {
                    lemma_halved_non_increasing(e, k, j);
                }
            }
        }
        None
    } else {
        proof {
            assert(is_first_fit(e, a, k));
            lemma_first_fit_unique(e, a, k, choose|j: nat| is_first_fit(e, a, j));
        }
        Some(len)
    }
}

/// The transaction at `index` carries no sequence id, or the one that its
/// position implies.
pub open spec fn seq_id_in_place(next_tx_seq_id: u128, tx: DbStoredTx, index: int) -> bool {
    tx.id matches Some(id) ==> id == next_tx_seq_id + index
}

/// The transaction at `index` passes both checks of batch preparation.
pub open spec fn tx_accepted<T>(
    next_tx_seq_id: u128,
    txs: Seq<DbStoredTx>,
    converted: Seq<Result<T, String>>,
    index: int,
) -> bool {
    &&& seq_id_in_place(next_tx_seq_id, txs[index], index)
    &&& converted[index] is Ok
}

/// All transactions before `n` pass both checks.
pub open spec fn all_accepted<T>(
    next_tx_seq_id: u128,
    txs: Seq<DbStoredTx>,
    converted: Seq<Result<T, String>>,
    n: int,
) -> bool {
    forall|i: int| 0 <= i < n ==> tx_accepted(next_tx_seq_id, txs, converted, i)
}

/// The converted transactions of the first `n` entries, in order.
pub open spec fn converted_prefix<T>(converted: Seq<Result<T, String>>, n: int) -> Seq<T> {
    converted.take(n).map_values(|r: Result<T, String>| r->Ok_0)
}

/// Prepares a batch out of `db_stored_txs`, the transactions stored from
/// sequence id `next_tx_seq_id` on, where `converted[i]` is the conversion of
/// `db_stored_txs[i]` into a signed transaction.
///
/// The batch size is [`prepare_len`] of the requested and the available
/// count. The transactions of the batch are checked in order, the sequence id
/// before the conversion; the first failure is the error. On success the
/// converted transactions of the batch are returned, in order.
pub fn prepare_txs<T>(
    next_tx_seq_id: u128,
    db_stored_txs: &Vec<DbStoredTx>,
    converted: Vec<Result<T, String>>,
    expected_batch_size: usize,
) -> (res: Result<Vec<T>, PrepareError>)
    requires
        converted.len() == db_stored_txs.len(),
        next_tx_seq_id + db_stored_txs.len() <= u128::MAX + 1,
    ensures
        match prepare_len(expected_batch_size as nat, db_stored_txs.len() as nat) {
            None => res == Err::<Vec<T>, PrepareError>(
                PrepareError::NotEnoughTransactions {
                    required: expected_batch_size,
                    got: db_stored_txs.len(),
                },
            ),
            Some(p) => {
                &&& res is Ok <==> all_accepted(next_tx_seq_id, db_stored_txs@, converted@, p as int)
                &&& res matches Ok(v) ==> v@ == converted_prefix(converted@, p as int)
                &&& res matches Ok(v) ==> {
                    &&& v@.len() == p
                    &&& forall|i: int| 0 <= i < p ==> converted@[i] == Ok::<T, String>(#[trigger] v@[i])
                }
                &&& !(res matches Err(PrepareError::NotEnoughTransactions { .. }))
                &&& res matches Err(PrepareError::SequenceIdMismatch { index }) ==> {
                    &&& index < p
                    &&& all_accepted(next_tx_seq_id, db_stored_txs@, converted@, index as int)
                    &&& !seq_id_in_place(next_tx_seq_id, db_stored_txs@[index as int], index as int)
                }
                &&& res matches Err(PrepareError::ConversionFailed { index, reason }) ==> {
                    &&& index < p
                    &&& all_accepted(next_tx_seq_id, db_stored_txs@, converted@, index as int)
                    &&& seq_id_in_place(next_tx_seq_id, db_stored_txs@[index as int], index as int)
                    &&& converted@[index as int] == Err::<T, String>(reason)
                }
            },
        },
{
    let p = match choose_prepare_len(expected_batch_size, db_stored_txs.len()) {
        None => {
            return Err(
                PrepareError::NotEnoughTransactions {
                    required: expected_batch_size,
                    got: db_stored_txs.len(),
                },
            );
        },
        Some(p) => p,
    };
    proof {
        lemma_prepare_len_is_largest_fit(expected_batch_size as nat, db_stored_txs.len() as nat);
    }
    let ghost orig = converted@;
    let mut rest = converted;
    let mut out: Vec<T> = Vec::new();
    let mut i: usize = 0;
    while i < p
        invariant
            i <= p,
            p <= db_stored_txs.len(),
            prepare_len(expected_batch_size as nat, db_stored_txs.len() as nat) == Some(p as nat),
            orig == converted@,
            orig.len() == db_stored_txs.len(),
            next_tx_seq_id + db_stored_txs.len() <= u128::MAX + 1,
            rest@ == orig.skip(i as int),
            out@ == converted_prefix(orig, i as int),
            all_accepted(next_tx_seq_id, db_stored_txs@, orig, i as int),
        decreases p - i,
    {
        let tx = &db_stored_txs[i];
        if let Some(id) = tx.id {
            if next_tx_seq_id + (i as u128) != id {
                proof {
                    assert(!tx_accepted(next_tx_seq_id, db_stored_txs@, orig, i as int));
                }
                return Err(PrepareError::SequenceIdMismatch { index: i });
            }
        }
        let r = rest.remove(0);
        assert(r == orig[i as int]);
        match r {
            Ok(t) => {
                out.push(t);
            },
            Err(reason) => {
                proof {
                    assert(!tx_accepted(next_tx_seq_id, db_stored_txs@, orig, i as int));
                }
                return Err(PrepareError::ConversionFailed { index: i, reason });
            },
        }
        proof {
            assert(orig.skip(i as int).remove(0) =~= orig.skip(i + 1));
            assert(converted_prefix(orig, i + 1) =~= converted_prefix(orig, i as int).push(
                orig[i as int]->Ok_0,
            ));
        }
        i = i + 1;
    }
    proof {
        assert forall|j: int| 0 <= j < p implies orig[j] == Ok::<T, String>(#[trigger] out@[j]) by {
            assert(tx_accepted(next_tx_seq_id, db_stored_txs@, orig, j));
        }
    }
    Ok(out)
}

/// The batch range of a non-empty run of transactions: the block height and
/// sequence id of its first and of its last transaction.
pub open spec fn batch_range_of(txs: Seq<DbStoredTx>) -> BatchRange {
    BatchRange {
        start_block_height: txs[0].block_height,
        start_tx_seq_id: txs[0].id->0,
        end_block_height: txs.last().block_height,
        end_tx_seq_id: txs.last().id->0,
    }
}

/// The batch range of the prepared transactions. Both the first and the last
/// of them must carry a sequence id.
pub fn get_batch_range(prepared_db_tx: &[DbStoredTx]) -> (range: BatchRange)
    requires
        prepared_db_tx.len() > 0,
        prepared_db_tx@[0].id is Some,
        prepared_db_tx@.last().id is Some,
    ensures
        range == batch_range_of(prepared_db_tx@),
        range.start_block_height == prepared_db_tx@[0].block_height,
        range.end_block_height == prepared_db_tx@[prepared_db_tx@.len() - 1].block_height,
        Some(range.start_tx_seq_id) == prepared_db_tx@[0].id,
        Some(range.end_tx_seq_id) == prepared_db_tx@[prepared_db_tx@.len() - 1].id,
{
    let last_idx = prepared_db_tx.len() - 1;
    let first = &prepared_db_tx[0];
    let last = &prepared_db_tx[last_idx];
    let start_tx_seq_id = match first.id {
        Some(id) => id,
        None => 0,
    };
    let end_tx_seq_id = match last.id {
        Some(id) => id,
        None => 0,
    };
    BatchRange {
        start_block_height: first.block_height,
        start_tx_seq_id,
        end_block_height: last.block_height,
        end_tx_seq_id,
    }
}

/// The range of a run of transactions starts at the block and sequence id of
/// its first transaction and ends at the block and sequence id of its last
/// one, however many transactions share a block.
pub proof fn lemma_batch_range_endpoints(txs: Seq<DbStoredTx>)
    requires
        txs.len() > 0,
        txs[0].id is Some,
        txs[txs.len() - 1].id is Some,
    ensures
        batch_range_of(txs).start_block_height == txs[0].block_height,
        batch_range_of(txs).end_block_height == txs[txs.len() - 1].block_height,
        Some(batch_range_of(txs).start_tx_seq_id) == txs[0].id,
        Some(batch_range_of(txs).end_tx_seq_id) == txs[txs.len() - 1].id,
{
}

/// A prepared batch is a run of consecutive sequence ids: where its first and
/// last transactions carry ids, its range starts at `next_tx_seq_id` and ends
/// `p - 1` ids later, `p` being the batch size.
pub proof fn lemma_batch_range_is_consecutive<T>(
    next_tx_seq_id: u128,
    txs: Seq<DbStoredTx>,
    converted: Seq<Result<T, String>>,
    p: nat,
)
    requires
        0 < p <= txs.len(),
        all_accepted(next_tx_seq_id, txs, converted, p as int),
        txs[0].id is Some,
        txs[p - 1].id is Some,
    ensures
        batch_range_of(txs.take(p as int)).start_tx_seq_id == next_tx_seq_id,
        batch_range_of(txs.take(p as int)).end_tx_seq_id == next_tx_seq_id + p - 1,
{
    assert(tx_accepted(next_tx_seq_id, txs, converted, 0));
    assert(tx_accepted(next_tx_seq_id, txs, converted, p - 1));
}

} // verus!
