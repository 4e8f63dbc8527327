//! Settings of a scoring session: the engine's API version, the operations a
//! pipeline is asked for, and the number of rows per batch.
use vstd::prelude::*;

use crate::error::MojoError;

verus! {

/// Smallest batch size that the size heuristic picks.
pub const MIN_BATCH_SIZE: usize = 1000;

/// Batch size when the size of the input cannot be known.
pub const DEFAULT_BATCH_SIZE: usize = MIN_BATCH_SIZE * 10;

/// Assumed average length of a CSV record, in bytes.
pub const AVERAGE_RECORD_BYTES: u64 = 50;

/// Type of a set of transform operations, one bit each.
#[allow(non_camel_case_types)]
pub type MOJO_Transform_Operations_Type = u64;

/// The transform operations that a pipeline can be asked for.
#[allow(non_camel_case_types)]
pub struct MOJO_Transform_Operations;

impl MOJO_Transform_Operations {
    /// normal prediction
    pub const PREDICT: MOJO_Transform_Operations_Type = 1;

    /// prediction interval
    pub const INTERVAL: MOJO_Transform_Operations_Type = 2;

    /// SHAP values
    pub const CONTRIBS_RAW: MOJO_Transform_Operations_Type = 4;

    /// SHAP values mapped to original features
    pub const CONTRIBS_ORIGINAL: MOJO_Transform_Operations_Type = 8;
}

/// The batch size picked for an input of `input_len` bytes (`None` when that
/// cannot be known) and an explicit choice `batch_size` (0 for none).
pub open spec fn chosen_batch_size(input_len: Option<u64>, batch_size: usize) -> int {
    if batch_size != 0 {
        batch_size as int
    } else {
        match input_len {
            None => DEFAULT_BATCH_SIZE as int,
            Some(len) => {
                let estimate = len as int / AVERAGE_RECORD_BYTES as int;
                if estimate < MIN_BATCH_SIZE {
                    MIN_BATCH_SIZE as int
                } else if estimate > usize::MAX {
                    usize::MAX as int
                } else {
                    estimate
                }
            },
        }
    }
}

/// Picks how many rows a frame holds: the explicit choice when there is one;
/// else an estimate of the number of records from the input's size in
/// bytes, at least `MIN_BATCH_SIZE`; else `DEFAULT_BATCH_SIZE`.
pub fn batch_size_magic(input_len: Option<u64>, batch_size: usize) -> (r: usize)
    ensures
        r == chosen_batch_size(input_len, batch_size),
        r > 0,
{
    if batch_size != 0 {
        return batch_size;
    }
    match input_len {
        None => DEFAULT_BATCH_SIZE,
        Some(len) => {
            let estimate = len / AVERAGE_RECORD_BYTES;
            if estimate < MIN_BATCH_SIZE as u64 {
                MIN_BATCH_SIZE
            } else if estimate > usize::MAX as u64 {
                usize::MAX
            } else {
                estimate as usize
            }
        },
    }
}

/// Whether an engine library of this API version can be used: its version
/// starts with `2.`.
pub open spec fn is_supported_api(version: Seq<char>) -> bool {
    version.len() >= 2 && version[0] == '2' && version[1] == '.'
}

/// Accepts the engine library `libfile` when its API version `version` is
/// supported.
pub fn check_api_version(libfile: &str, version: &str) -> (r: Result<(), MojoError>)
    ensures
        r is Ok <==> is_supported_api(version@),
        r matches Err(e) ==> (e matches MojoError::UnsupportedApi(f, v) && f@ == libfile@ && v@ == version@),
{
    if version.unicode_len() >= 2 && version.get_char(0) == '2' && version.get_char(1) == '.' {
        Ok(())
    } else {
        Err(MojoError::UnsupportedApi(libfile.to_owned(), version.to_owned()))
    }
}

} // verus!
