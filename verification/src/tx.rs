//! The transaction snapshot a validator judges: the consumed cells with
//! their witnesses and attachment headers, the produced cells, and the
//! header dependencies that bound the current time.
//!
//! The ledger runtime hands a validator exactly these observations;
//! the validators are pure functions over them. A script's group is the
//! set of cells whose type script hash equals the running script's own
//! hash.

use vstd::prelude::*;

use crate::error::Error;
use crate::records::ScriptDesc;

verus! {

/// The fields of a block header that the validators read.
#[derive(Clone, Copy)]
pub struct Header {
    pub number: u64,
    pub timestamp: u64,
}

/// A consumed cell, with the outpoint it spends, its witness's
/// `input_type` field, and the header of the block it was attached to
/// (absent when the transaction declares none).
pub struct CellInput {
    pub out_point: Vec<u8>,
    pub capacity: u64,
    pub lock: ScriptDesc,
    pub lock_hash: Vec<u8>,
    pub type_hash: Option<Vec<u8>>,
    pub type_args: Option<Vec<u8>>,
    pub data: Vec<u8>,
    pub witness_input_type: Option<Vec<u8>>,
    pub header: Option<Header>,
}

/// A produced cell.
pub struct CellOutput {
    pub capacity: u64,
    pub lock: ScriptDesc,
    pub lock_hash: Vec<u8>,
    pub type_hash: Option<Vec<u8>>,
    pub type_script: Option<ScriptDesc>,
    pub data: Vec<u8>,
}

/// The transaction snapshot.
pub struct Transaction {
    pub inputs: Vec<CellInput>,
    pub outputs: Vec<CellOutput>,
    pub header_deps: Vec<Header>,
}

/// Input `i` belongs to the group of the script with hash `h`.
pub open spec fn input_in_group(tx: Transaction, h: Seq<u8>, i: int) -> bool {
    &&& 0 <= i < tx.inputs@.len()
    &&& tx.inputs@[i].type_hash is Some
    &&& tx.inputs@[i].type_hash->0@ == h
}

/// Output `i` belongs to the group of the script with hash `h`.
pub open spec fn output_in_group(tx: Transaction, h: Seq<u8>, i: int) -> bool {
    &&& 0 <= i < tx.outputs@.len()
    &&& tx.outputs@[i].type_hash is Some
    &&& tx.outputs@[i].type_hash->0@ == h
}

/// At most one cell of the group on each side.
pub open spec fn at_most_one_group_cell(tx: Transaction, h: Seq<u8>) -> bool {
    &&& forall|i: int, j: int|
        input_in_group(tx, h, i) && input_in_group(tx, h, j) ==> i == j
    &&& forall|i: int, j: int|
        output_in_group(tx, h, i) && output_in_group(tx, h, j) ==> i == j
}

/// Finds the first input whose type script hash is `h`.
pub fn find_input_by_type_hash(tx: &Transaction, h: &Vec<u8>) -> (r: Option<usize>)
    ensures
        match r {
            Some(i) => input_in_group(*tx, h@, i as int) && forall|j: int|
                0 <= j < i ==> !input_in_group(*tx, h@, j),
            None => forall|j: int| !input_in_group(*tx, h@, j),
        },
{
    let n = tx.inputs.len();
    let mut i: usize = 0;
    while i < n
        invariant
            0 <= i <= n,
            n == tx.inputs@.len(),
            forall|j: int| 0 <= j < i ==> !input_in_group(*tx, h@, j),
        decreases n - i,
    {
        match &tx.inputs[i].type_hash {
            Some(th) => {
                if crate::util::bytes_eq(th.as_slice(), h.as_slice()) {
                    return Some(i);
                }
            },
            None => {},
        }
        i += 1;
    }
    None
}

/// Finds the first output whose type script hash is `h`.
pub fn find_output_by_type_hash(tx: &Transaction, h: &Vec<u8>) -> (r: Option<usize>)
    ensures
        match r {
            Some(i) => output_in_group(*tx, h@, i as int) && forall|j: int|
                0 <= j < i ==> !output_in_group(*tx, h@, j),
            None => forall|j: int| !output_in_group(*tx, h@, j),
        },
{
    let n = tx.outputs.len();
    let mut i: usize = 0;
    while i < n
        invariant
            0 <= i <= n,
            n == tx.outputs@.len(),
            forall|j: int| 0 <= j < i ==> !output_in_group(*tx, h@, j),
        decreases n - i,
    {
        match &tx.outputs[i].type_hash {
            Some(th) => {
                if crate::util::bytes_eq(th.as_slice(), h.as_slice()) {
                    return Some(i);
                }
            },
            None => {},
        }
        i += 1;
    }
    None
}

/// Finds the next group input after index `after`.
pub fn find_next_input_by_type_hash(tx: &Transaction, h: &Vec<u8>, after: usize) -> (r: Option<
    usize,
>)
    ensures
        match r {
            Some(i) => after < i && input_in_group(*tx, h@, i as int) && forall|j: int|
                after < j < i ==> !input_in_group(*tx, h@, j),
            None => forall|j: int| after < j ==> !input_in_group(*tx, h@, j),
        },
{
    let n = tx.inputs.len();
    if after >= n {
        return None;
    }
    let mut i: usize = after + 1;
    while i < n
        invariant
            after < i <= n,
            n == tx.inputs@.len(),
            forall|j: int| after < j < i ==> !input_in_group(*tx, h@, j),
        decreases n - i,
    {
        match &tx.inputs[i].type_hash {
            Some(th) => {
                if crate::util::bytes_eq(th.as_slice(), h.as_slice()) {
                    return Some(i);
                }
            },
            None => {},
        }
        i += 1;
    }
    None
}

/// Finds the next group output after index `after`.
pub fn find_next_output_by_type_hash(tx: &Transaction, h: &Vec<u8>, after: usize) -> (r: Option<
    usize,
>)
    ensures
        match r {
            Some(i) => after < i && output_in_group(*tx, h@, i as int) && forall|j: int|
                after < j < i ==> !output_in_group(*tx, h@, j),
            None => forall|j: int| after < j ==> !output_in_group(*tx, h@, j),
        },
{
    let n = tx.outputs.len();
    if after >= n {
        return None;
    }
    let mut i: usize = after + 1;
    while i < n
        invariant
            after < i <= n,
            n == tx.outputs@.len(),
            forall|j: int| after < j < i ==> !output_in_group(*tx, h@, j),
        decreases n - i,
    {
        match &tx.outputs[i].type_hash {
            Some(th) => {
                if crate::util::bytes_eq(th.as_slice(), h.as_slice()) {
                    return Some(i);
                }
            },
            None => {},
        }
        i += 1;
    }
    None
}

/// Finds the first output with the given lock hash.
pub fn find_output_by_lock_hash(tx: &Transaction, h: &Vec<u8>) -> (r: Option<usize>)
    ensures
        match r {
            Some(i) => 0 <= i < tx.outputs@.len() && tx.outputs@[i as int].lock_hash@ == h@
                && forall|j: int| 0 <= j < i ==> (#[trigger] tx.outputs@[j]).lock_hash@ != h@,
            None => forall|j: int|
                0 <= j < tx.outputs@.len() ==> (#[trigger] tx.outputs@[j]).lock_hash@ != h@,
        },
{
    let n = tx.outputs.len();
    let mut i: usize = 0;
    while i < n
        invariant
            0 <= i <= n,
            n == tx.outputs@.len(),
            forall|j: int| 0 <= j < i ==> (#[trigger] tx.outputs@[j]).lock_hash@ != h@,
        decreases n - i,
    {
        if crate::util::bytes_eq(tx.outputs[i].lock_hash.as_slice(), h.as_slice()) {
            return Some(i);
        }
        i += 1;
    }
    None
}

/// Rejects a transaction with more than one channel cell of this script
/// in the inputs or in the outputs.
pub fn verify_max_one_channel(tx: &Transaction, own_hash: &Vec<u8>) -> (r: Result<(), Error>)
    ensures
        r is Ok <==> at_most_one_group_cell(*tx, own_hash@),
        r is Err ==> r == Err::<(), Error>(Error::MoreThanOneChannel),
{
    match find_input_by_type_hash(tx, own_hash) {
        Some(first) => {
            match find_next_input_by_type_hash(tx, own_hash, first) {
                Some(_) => {
                    return Err(Error::MoreThanOneChannel);
                },
                None => {},
            }
        },
        None => {},
    }
    match find_output_by_type_hash(tx, own_hash) {
        Some(first) => {
            match find_next_output_by_type_hash(tx, own_hash, first) {
                Some(_) => {
                    return Err(Error::MoreThanOneChannel);
                },
                None => {},
            }
        },
        None => {},
    }
    proof {
        assert forall|i: int, j: int|
            input_in_group(*tx, own_hash@, i) && input_in_group(*tx, own_hash@, j) implies i
            == j by {}
    }
    Ok(())
}

/// The maximum timestamp among the first `i` header dependencies.
pub open spec fn max_dep_ts_prefix(hs: Seq<Header>, i: int) -> int
    decreases i,
{
    if i <= 0 {
        0
    } else if hs[i - 1].timestamp > max_dep_ts_prefix(hs, i - 1) {
        hs[i - 1].timestamp as int
    } else {
        max_dep_ts_prefix(hs, i - 1)
    }
}

/// The "current time" a validator sees: the maximum timestamp among the
/// transaction's header dependencies, zero when there are none.
pub open spec fn current_time(tx: Transaction) -> int {
    max_dep_ts_prefix(tx.header_deps@, tx.header_deps@.len() as int)
}

/// Computes the current time from the header dependencies.
pub fn find_closest_current_time(tx: &Transaction) -> (r: u64)
    ensures
        r == current_time(*tx),
{
    let mut latest: u64 = 0;
    let n = tx.header_deps.len();
    let mut i: usize = 0;
    while i < n
        invariant
            0 <= i <= n,
            n == tx.header_deps@.len(),
            latest == max_dep_ts_prefix(tx.header_deps@, i as int),
        decreases n - i,
    {
        let ts = tx.header_deps[i].timestamp;
        if ts > latest {
            latest = ts;
        }
        i += 1;
    }
    latest
}

/// The transaction consumes the given outpoint.
pub open spec fn consumes_outpoint(tx: Transaction, op: Seq<u8>) -> bool {
    exists|i: int| 0 <= i < tx.inputs@.len() && (#[trigger] tx.inputs@[i]).out_point@ == op
}

/// Rejects unless the thread token's outpoint is consumed by the
/// transaction; this makes an accepted opening unrepeatable, since an
/// outpoint can be consumed only once.
pub fn verify_thread_token_integrity(tx: &Transaction, thread_token: &Vec<u8>) -> (r: Result<
    (),
    Error,
>)
    ensures
        r is Ok <==> consumes_outpoint(*tx, thread_token@),
        r is Err ==> r == Err::<(), Error>(Error::InvalidThreadToken),
{
    let n = tx.inputs.len();
    let mut i: usize = 0;
    while i < n
        invariant
            0 <= i <= n,
            n == tx.inputs@.len(),
            forall|j: int| 0 <= j < i ==> (#[trigger] tx.inputs@[j]).out_point@ != thread_token@,
        decreases n - i,
    {
        if crate::util::bytes_eq(tx.inputs[i].out_point.as_slice(), thread_token.as_slice()) {
            return Ok(());
        }
        i += 1;
    }
    Err(Error::InvalidThreadToken)
}

/// The time lock of the cell consumed at group input `idx` has expired:
/// the attachment header is known and its timestamp plus the duration
/// is at most the current time.
pub open spec fn time_lock_expired(tx: Transaction, idx: int, duration: u64) -> bool {
    &&& tx.inputs@[idx].header is Some
    &&& tx.inputs@[idx].header->0.timestamp + duration <= current_time(tx)
}

/// Rejects unless the time lock on the consumed channel cell has
/// expired against the header dependencies.
pub fn verify_time_lock_expired(tx: &Transaction, idx: usize, duration: u64) -> (r: Result<
    (),
    Error,
>)
    requires
        idx < tx.inputs@.len(),
    ensures
        r is Ok <==> time_lock_expired(*tx, idx as int, duration),
        r is Err ==> r == Err::<(), Error>(Error::TimeLockNotExpired),
{
    let old_ts: u64 = match &tx.inputs[idx].header {
        Some(h) => h.timestamp,
        None => {
            return Err(Error::TimeLockNotExpired);
        },
    };
    let now = find_closest_current_time(tx);
    match old_ts.checked_add(duration) {
        Some(deadline) => {
            if deadline <= now {
                Ok(())
            } else {
                Err(Error::TimeLockNotExpired)
            }
        },
        None => {
            // the deadline exceeds any representable time
            assert(current_time(*tx) <= u64::MAX);
            Err(Error::TimeLockNotExpired)
        },
    }
}

} // verus!
