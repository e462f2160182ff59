//! Small demonstrations kept with the server: two services that answer a
//! request id after a delay and an answer that combines theirs, and the
//! supervisor that restarts two named worker threads when they end.
//!
//! The delays and threads are the caller's; the values are computed here.

use vstd::prelude::*;
use crate::text::str_equal;

verus! {

/// The first service's answer for `id`.
pub fn api1_answer(id: i32) -> (r: i32)
    requires
        id + 777 <= i32::MAX,
    ensures
        r == id + 777,
{
    id + 777
}

/// The second service's answer for `id`.
pub fn api2_answer(id: i32) -> (r: i32)
    requires
        i32::MIN <= id * 4 <= i32::MAX,
    ensures
        r == id * 4,
{
    id * 4
}

/// The combined answer: the first service's answer in the digits above
/// the fifth, the second's below.
pub fn combined_answer(result1: i32, result2: i32) -> (r: i32)
    requires
        i32::MIN <= 100000 * result1 <= i32::MAX,
        i32::MIN <= 100000 * result1 + result2 <= i32::MAX,
    ensures
        r == 100000 * result1 + result2,
{
    100000 * result1 + result2
}

/// The supervised worker threads.
#[derive(Debug, Clone, Copy, PartialEq, Eq, Structural)]
pub enum Watched {
    /// `watek_pierwszy`, which ends after three seconds.
    First,
    /// `watek_drugi`, which ends after ten seconds.
    Second,
}

/// The worker to start again when the thread named `thread_id` ended;
/// none for a name that no worker has.
pub fn worker_to_restart(thread_id: &str) -> (r: Option<Watched>)
    ensures
        r == (if thread_id@ == "watek_pierwszy"@ {
            Some(Watched::First)
        } else if thread_id@ == "watek_drugi"@ {
            Some(Watched::Second)
        } else {
            None
        }),
{
    if str_equal(thread_id, "watek_pierwszy") {
        Some(Watched::First)
    } else if str_equal(thread_id, "watek_drugi") {
        Some(Watched::Second)
    } else {
        None
    }
}

} // verus!
