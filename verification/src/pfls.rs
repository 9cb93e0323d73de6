//! The funds lock script: a funds cell can be unlocked only by a
//! transaction that also consumes the paired channel cell.
//!
//! The args hold the channel type script's hash; the script accepts
//! exactly when some input carries a type script with that hash. All
//! balance rules are the channel type script's business.

use vstd::prelude::*;

use crate::error::Error;
use crate::tx::{Transaction, input_in_group, find_input_by_type_hash};

verus! {

/// The funds lock script accepts: the args are a 32-byte channel type
/// script hash and some input carries that type script.
pub open spec fn pfls_accepts(tx: Transaction, args: Seq<u8>) -> bool {
    &&& args.len() == 32
    &&& exists|i: int| input_in_group(tx, args, i)
}

/// Rejects unless an input consumes a cell of the channel named by the
/// args.
pub fn verify_pcts_in_inputs(tx: &Transaction, pcts_script_hash: &Vec<u8>) -> (r: Result<
    (),
    Error,
>)
    ensures
        r is Ok <==> exists|i: int| input_in_group(*tx, pcts_script_hash@, i),
        r is Err ==> r == Err::<(), Error>(Error::PCTSNotFound),
{
    match find_input_by_type_hash(tx, pcts_script_hash) {
        Some(i) => {
            proof {
                assert(input_in_group(*tx, pcts_script_hash@, i as int));
            }
            Ok(())
        },
        None => Err(Error::PCTSNotFound),
    }
}

/// The funds lock script's verdict on a transaction.
pub fn pfls_validate(tx: &Transaction, args: &Vec<u8>) -> (r: Result<(), Error>)
    ensures
        r is Ok <==> pfls_accepts(*tx, args@),
{
    if args.len() == 0 {
        return Err(Error::NoArgs);
    }
    if args.len() != 32 {
        return Err(Error::Encoding);
    }
    verify_pcts_in_inputs(tx, args)
}

} // verus!
