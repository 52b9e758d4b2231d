//! The most recent batch of failures in a log.

use vstd::prelude::*;
use vstd::string::*;
use crate::error::LogError;
use crate::record::{decoded_line, is_error, records, ErrorLog, ErrorLogView};
use crate::text::{lines_of, split_lines, texts};

verus! {

/// The records of the lines that decode, in the order of the lines. A line
/// that does not decode is left out and hides no other line.
pub open spec fn decoded_lines(lines: Seq<Seq<char>>) -> Seq<ErrorLogView>
    decreases lines.len(),
{
    if lines.len() == 0 {
        Seq::empty()
    } else {
        let earlier = decoded_lines(lines.drop_last());
        match decoded_line(lines.last()) {
            Some(r) => earlier.push(r),
            None => earlier,
        }
    }
}

/// Walking back from the last record while the timestamp is `key`: the
/// records of kind `error` that are met, latest first.
pub open spec fn batch_back(log: Seq<ErrorLogView>, key: i64) -> Seq<ErrorLogView>
    decreases log.len(),
{
    if log.len() == 0 || log.last().timestamp != key {
        Seq::empty()
    } else if is_error(log.last()) {
        seq![log.last()] + batch_back(log.drop_last(), key)
    } else {
        batch_back(log.drop_last(), key)
    }
}

/// The latest batch of a log: the errors among the records at its end that
/// share the timestamp of the last record, latest first.
pub open spec fn last_batch_of(log: Seq<ErrorLogView>) -> Seq<ErrorLogView> {
    if log.len() == 0 {
        Seq::empty()
    } else {
        batch_back(log, log.last().timestamp)
    }
}

/// What extraction makes of a log text.
pub open spec fn extraction_of(text: Seq<char>) -> Result<Seq<ErrorLogView>, LogError> {
    let batch = last_batch_of(decoded_lines(lines_of(text)));
    if text.len() == 0 {
        Err(LogError::NoLogs)
    } else if batch.len() == 0 {
        Err(LogError::NothingToExplain)
    } else {
        Ok(batch)
    }
}

/// Every record of a batch is an error stamped with the batch's key.
pub proof fn lemma_batch_members(log: Seq<ErrorLogView>, key: i64)
    ensures
        forall|k: int|
            0 <= k < batch_back(log, key).len() ==> {
                &&& is_error(#[trigger] batch_back(log, key)[k])
                &&& batch_back(log, key)[k].timestamp == key
                &&& log.contains(batch_back(log, key)[k])
            },
    decreases log.len(),
{
    if log.len() == 0 || log.last().timestamp != key {
    } else {
        let rest = log.drop_last();
        lemma_batch_members(rest, key);
        assert forall|k: int| 0 <= k < batch_back(log, key).len() implies {
            &&& is_error(#[trigger] batch_back(log, key)[k])
            &&& batch_back(log, key)[k].timestamp == key
            &&& log.contains(batch_back(log, key)[k])
        } by {
            let b = batch_back(log, key);
            let inner = batch_back(rest, key);
            if is_error(log.last()) && k == 0 {
                assert(b[0] == log[log.len() - 1]);
            } else {
                let j = if is_error(log.last()) {
                    k - 1
                } else {
                    k
                };
                assert(b[k] == inner[j]);
                assert(rest.contains(inner[j]));
                let w = choose|w: int| 0 <= w < rest.len() && rest[w] == inner[j];
                assert(log[w] == inner[j]);
            }
        }
    }
}

/// No error of the latest timestamp is lost: where every record carries
/// `key`, each error among them is in the batch.
pub proof fn lemma_batch_keeps_every_error(log: Seq<ErrorLogView>, key: i64)
    requires
        forall|k: int| 0 <= k < log.len() ==> (#[trigger] log[k]).timestamp == key,
    ensures
        forall|k: int|
            0 <= k < log.len() && is_error(#[trigger] log[k]) ==> batch_back(log, key).contains(
                log[k],
            ),
    decreases log.len(),
{
    if log.len() > 0 {
        let rest = log.drop_last();
        let inner = batch_back(rest, key);
        let b = batch_back(log, key);
        assert forall|k: int| 0 <= k < rest.len() implies (#[trigger] rest[k]).timestamp == key by {
            assert(rest[k] == log[k]);
        }
        lemma_batch_keeps_every_error(rest, key);
        assert(log.last().timestamp == key);
        assert forall|k: int| 0 <= k < log.len() && is_error(#[trigger] log[k]) implies b.contains(
            log[k],
        ) by {
            if k == log.len() - 1 {
                assert(b[0] == log[k]);
            } else {
                assert(rest[k] == log[k]);
                assert(inner.contains(rest[k]));
                let w = choose|w: int| 0 <= w < inner.len() && inner[w] == rest[k];
                if is_error(log.last()) {
                    assert(b[w + 1] == inner[w]);
                } else {
                    assert(b[w] == inner[w]);
                }
            }
        }
    }
}

/// Records before a change of timestamp never reach the batch: if every
/// record of `newer` carries `key` and `older` ends on another timestamp,
/// walking back over the whole log meets the records of `newer` alone.
pub proof fn lemma_walk_stops_at_older(
    older: Seq<ErrorLogView>,
    newer: Seq<ErrorLogView>,
    key: i64,
)
    requires
        older.len() == 0 || older.last().timestamp != key,
        forall|k: int| 0 <= k < newer.len() ==> (#[trigger] newer[k]).timestamp == key,
    ensures
        batch_back(older + newer, key) == batch_back(newer, key),
    decreases newer.len(),
{
    if newer.len() == 0 {
        assert(older + newer =~= older);
    } else {
        let whole = older + newer;
        assert(whole.last() == newer.last());
        assert(whole.drop_last() =~= older + newer.drop_last());
        lemma_walk_stops_at_older(older, newer.drop_last(), key);
    }
}

/// The latest batch holds exactly the records of the latest timestamp: if
/// the log ends in the records `newer`, all of one timestamp, and what
/// stands before them ends on another timestamp, the batch of the whole log
/// is the batch of `newer` alone, whatever kinds the earlier records have.
pub proof fn lemma_batch_is_latest_timestamp(older: Seq<ErrorLogView>, newer: Seq<ErrorLogView>)
    requires
        newer.len() > 0,
        forall|k: int|
            0 <= k < newer.len() ==> (#[trigger] newer[k]).timestamp == newer.last().timestamp,
        older.len() == 0 || older.last().timestamp != newer.last().timestamp,
    ensures
        last_batch_of(older + newer) == last_batch_of(newer),
{
    assert((older + newer).last() == newer.last());
    lemma_walk_stops_at_older(older, newer, newer.last().timestamp);
}

/// A record that is no error, a warning for one, never shows in the batch,
/// wherever it stands among the errors.
pub proof fn lemma_batch_holds_errors_only(log: Seq<ErrorLogView>, r: ErrorLogView)
    requires
        !is_error(r),
    ensures
        !last_batch_of(log).contains(r),
{
    if log.len() > 0 {
        lemma_batch_members(log, log.last().timestamp);
    }
}

/// Decodes every line of a log text that decodes, in order.
pub fn decode_log(text: &str) -> (log: Vec<ErrorLog>)
    ensures
        records(log@) == decoded_lines(lines_of(text@)),
        log@.len() == decoded_lines(lines_of(text@)).len(),
{
    let lines = split_lines(text);
    let mut out: Vec<ErrorLog> = Vec::new();
    let n: usize = lines.len();
    let mut k: usize = 0;
    proof {
        assert(texts(lines@).take(0) =~= Seq::<Seq<char>>::empty());
        assert(records(out@) =~= Seq::<ErrorLogView>::empty());
    }
    while k < n
        invariant
            n == lines@.len(),
            k <= n,
            texts(lines@) == lines_of(text@),
            records(out@) == decoded_lines(texts(lines@).take(k as int)),
        decreases n - k,
    {
        proof {
            let next = texts(lines@).take(k + 1);
            assert(next.drop_last() =~= texts(lines@).take(k as int));
            assert(next.last() == lines@[k as int]@);
        }
        match ErrorLog::decode_line(lines[k].as_str()) {
            Ok(log) => {
                proof {
                    assert(records(out@.push(log)) =~= records(out@).push(log@));
                }
                out.push(log);
            },
            Err(_) => {},
        }
        k = k + 1;
    }
    proof {
        assert(texts(lines@).take(n as int) =~= texts(lines@));
        assert(records(out@).len() == out@.len());
    }
    out
}

/// The latest batch of a decoded log: walks back from the last record while
/// the timestamp stays the same and keeps the errors, latest first.
pub fn last_batch(log: Vec<ErrorLog>) -> (batch: Vec<ErrorLog>)
    ensures
        records(batch@) == last_batch_of(records(log@)),
        batch@.len() == last_batch_of(records(log@)).len(),
        log@.len() == 0 ==> batch@.len() == 0,
        forall|k: int|
            0 <= k < batch@.len() ==> is_error((#[trigger] batch@[k])@) && batch@[k]@.timestamp
                == records(log@).last().timestamp,
{
    let mut log = log;
    let ghost whole = records(log@);
    let mut out: Vec<ErrorLog> = Vec::new();
    if log.len() == 0 {
        assert(records(out@) =~= Seq::<ErrorLogView>::empty());
        return out;
    }
    let key: i64 = log[log.len() - 1].timestamp;
    proof {
        assert(records(out@) =~= Seq::<ErrorLogView>::empty());
        assert(Seq::<ErrorLogView>::empty() + batch_back(whole, key) =~= batch_back(whole, key));
        lemma_batch_members(whole, key);
    }
    let mut open = true;
    while open && log.len() > 0
        invariant
            key == whole.last().timestamp,
            whole.len() > 0,
            open ==> batch_back(whole, key) == records(out@) + batch_back(records(log@), key),
            !open ==> batch_back(whole, key) == records(out@),
        decreases log.len(),
    {
        let ghost before = records(log@);
        let ghost seen = records(out@);
        let last = log.pop().unwrap();
        proof {
            assert(before.last() == last@);
            assert(before.drop_last() =~= records(log@));
        }
        if last.timestamp != key {
            open = false;
            proof {
                assert(seen + Seq::<ErrorLogView>::empty() =~= seen);
            }
        } else if last.is_error() {
            proof {
                assert(records(out@.push(last)) =~= seen.push(last@));
                assert(seen.push(last@) + batch_back(records(log@), key) =~= seen + (seq![last@]
                    + batch_back(records(log@), key)));
            }
            out.push(last);
        }
    }
    proof {
        if open {
            assert(records(out@) + Seq::<ErrorLogView>::empty() =~= records(out@));
        }
        assert(records(out@).len() == out@.len());
        assert forall|k: int| 0 <= k < out@.len() implies is_error((#[trigger] out@[k])@)
            && out@[k]@.timestamp == key by {
            assert(records(out@)[k] == out@[k]@);
        }
    }
    out
}

/// The latest batch of a log text. An empty text and a batch without errors
/// are told apart.
pub fn extract_last_batch(text: &str) -> (r: Result<Vec<ErrorLog>, LogError>)
    ensures
        match r {
            Ok(batch) => extraction_of(text@) == Ok::<Seq<ErrorLogView>, LogError>(
                records(batch@),
            ),
            Err(e) => extraction_of(text@) == Err::<Seq<ErrorLogView>, LogError>(e),
        },
        r is Ok ==> forall|k: int|
            0 <= k < r.unwrap()@.len() ==> is_error((#[trigger] r.unwrap()@[k])@),
{
    if text.is_empty() {
        return Err(LogError::NoLogs);
    }
    let log = decode_log(text);
    let batch = last_batch(log);
    if batch.len() == 0 {
        Err(LogError::NothingToExplain)
    } else {
        Ok(batch)
    }
}

} // verus!
