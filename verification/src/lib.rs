//! Intelligence layer for Solana memecoin sniping: persistence, ingestion and
//! analysis, over one shared SQLite database.
//!
//! - [`db`]: the schema, its idempotent set-up and the reset of recomputable tables.
//! - [`ingest`]: writes on-chain observations to the RAW and FACT-LIKE tables.
//!   Append-only.
//! - [`analyze`]: computes the DERIVED RECOMPUTABLE tables (clusters, profiles,
//!   predictions), detects passthrough nodes and drives the analysis queue.
//!
//! Write boundary: the ingestor never writes a derived table nor the queue; the
//! analyser never writes a RAW or FACT-LIKE table (it only reads them). See
//! [`writes`]: each writer runs only statements whose table is one of its own.

use vstd::prelude::*;
use std::time::{Duration, SystemTime, SystemTimeError};

pub mod analyze;
pub mod db;
pub mod ingest;
pub mod sql;
pub mod text;
pub mod writes;

verus! {

#[verifier::external_type_specification]
#[verifier::external_body]
pub struct ExSystemTime(SystemTime);

#[verifier::external_type_specification]
#[verifier::external_body]
pub struct ExSystemTimeError(SystemTimeError);

/// `SystemTime::now`: the current time of the system clock, which nothing here
/// can predict: nothing is stated of it.
#[verifier::external_body]
fn system_now() -> (t: SystemTime) {
    SystemTime::now()
}

/// `SystemTime::duration_since(UNIX_EPOCH)`: the time elapsed since the Unix epoch,
/// or an error when `t` lies before it. `SystemTime` is opaque here: nothing is
/// stated of the result.
#[verifier::external_body]
fn elapsed_since_epoch(t: SystemTime) -> (r: Result<Duration, SystemTimeError>) {
    t.duration_since(SystemTime::UNIX_EPOCH)
}

/// `Duration::as_millis`: the whole milliseconds of `d`. `Duration` is opaque
/// here: nothing is stated of the result.
#[verifier::external_body]
fn whole_millis(d: Duration) -> (ms: u128) {
    d.as_millis()
}

/// The milliseconds elapsed since the Unix epoch, truncated to `i64` as an `as`
/// cast does; `0` when `elapsed` is absent (a clock set before the epoch).
pub fn unix_ms_from_elapsed(elapsed: Option<u128>) -> (ms: i64)
    ensures
        ms == match elapsed {
            Some(m) => m as i64,
            None => 0,
        },
{
    match elapsed {
        Some(m) => m as i64,
        None => 0,
    }
}

/// Current time in Unix milliseconds.
///
/// Stamps `trade_outcome.ingested_unix_ms` and `analysis_queue.updated_unix_ms`.
/// Observation times (`raw_token_launch.seen_unix_ms`) come from the source, never
/// from here.
pub fn now_unix_ms() -> (ms: i64) {
    let elapsed = match elapsed_since_epoch(system_now()) {
        Ok(d) => Some(whole_millis(d)),
        Err(_) => None,
    };
    unix_ms_from_elapsed(elapsed)
}

} // verus!
