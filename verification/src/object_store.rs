//! The commands of the interactive proof object-store tool.
//!
//! The tool first asks for a bucket type, `local` or `remote`, and for a
//! local bucket then asks for an operation, of which there is one: `reset`,
//! which empties the stored KZG proofs.
use vstd::prelude::*;

verus! {

/// Where the proof objects are kept.
#[derive(Clone, Copy, Debug, PartialEq, Eq, Structural)]
pub enum BucketType {
    Local,
    Remote,
}

/// What to do with a local bucket.
#[derive(Clone, Copy, Debug, PartialEq, Eq, Structural)]
pub enum StoreOperation {
    /// Empties the stored KZG proofs.
    Reset,
}

/// The bucket type that an input line names: exactly `local` or `remote`.
pub fn parse_bucket_type(line: &str) -> (bucket: Option<BucketType>)
    ensures
        bucket == Some(BucketType::Local) <==> line@ == "local"@,
        bucket == Some(BucketType::Remote) <==> line@ == "remote"@,
        bucket is None <==> (line@ != "local"@ && line@ != "remote"@),
{
    proof {
        reveal_strlit("local");
        reveal_strlit("remote");
        assert("local"@.len() != "remote"@.len());
    }
    let given = line.to_owned();
    if given == "local".to_owned() {
        Some(BucketType::Local)
    } else if given == "remote".to_owned() {
        Some(BucketType::Remote)
    } else {
        None
    }
}

/// The operation that an input line names: exactly `reset`.
pub fn parse_store_operation(line: &str) -> (op: Option<StoreOperation>)
    ensures
        op == Some(StoreOperation::Reset) <==> line@ == "reset"@,
        op is None <==> line@ != "reset"@,
{
    let given = line.to_owned();
    if given == "reset".to_owned() {
        Some(StoreOperation::Reset)
    } else {
        None
    }
}

} // verus!
