//! Taking lines in: each line that gives a reading updates the store, each
//! other line is skipped.

use crate::parser::{parse_line, reading_of_line, Rejection};
use crate::reading::{Sample, SampleView};
use crate::store::{distinct_keys, lemma_upserted_lookup, lookup, upserted, Store};
use vstd::prelude::*;

verus! {

/// The readings kept after `line` came in at the time `now`: the reading
/// that the line gives, stamped with `now`, is taken in; a line that gives
/// none changes nothing.
pub open spec fn ingested(entries: Seq<SampleView>, line: Seq<char>, now: u128) -> Seq<SampleView> {
    match reading_of_line(line) {
        Ok(reading) => upserted(entries, reading.stamped(now)),
        Err(_) => entries,
    }
}

/// Reads one line of the decoder's output at the time `now` (milliseconds
/// since the epoch). The time of the reading is `now`, whatever the line
/// says.
pub fn read_line(line: &str, now: u128) -> (r: Result<Sample, Rejection>)
    ensures
        match reading_of_line(line@) {
            Ok(reading) => r is Ok && r.unwrap()@ == reading.stamped(now),
            Err(e) => r == Err::<Sample, Rejection>(e),
        },
{
    match parse_line(line) {
        Ok(reading) => Ok(reading.stamped(now)),
        Err(e) => Err(e),
    }
}

/// Takes in one line of the decoder's output, read at the time `now`
/// (milliseconds since the epoch). The time of the reading is `now`,
/// whatever the line says. A line that gives no reading leaves the store as
/// it was, and the reason comes back.
pub fn ingest_line(store: &mut Store, line: &str, now: u128) -> (r: Result<(), Rejection>)
    ensures
        final(store)@ == ingested(old(store)@, line@, now),
        match reading_of_line(line@) {
            Ok(_) => r is Ok,
            Err(e) => r == Err::<(), Rejection>(e),
        },
{
    match read_line(line, now) {
        Ok(reading) => {
            store.upsert(reading);
            Ok(())
        },
        Err(e) => Err(e),
    }
}

/// A line that gives no reading is skipped: the store is as it was, and
/// the lines after it are taken in as if it had never come.
pub proof fn lemma_rejected_line_is_skipped(
    entries: Seq<SampleView>,
    bad: Seq<char>,
    bad_time: u128,
    next: Seq<char>,
    next_time: u128,
)
    requires
        reading_of_line(bad) is Err,
    ensures
        ingested(entries, bad, bad_time) == entries,
        ingested(ingested(entries, bad, bad_time), next, next_time) == ingested(
            entries,
            next,
            next_time,
        ),
{
}

/// A line that gives a reading is taken in, whatever came before: the store
/// then keeps that reading for its device, with the time at which the line
/// was read.
pub proof fn lemma_accepted_line_is_kept(entries: Seq<SampleView>, line: Seq<char>, now: u128)
    requires
        distinct_keys(entries),
        reading_of_line(line) is Ok,
    ensures
        lookup(ingested(entries, line, now), reading_of_line(line).unwrap().key()) == Some(
            reading_of_line(line).unwrap().stamped(now),
        ),
{
    lemma_upserted_lookup(entries, reading_of_line(line).unwrap().stamped(now));
}

} // verus!
