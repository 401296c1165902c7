//! The fixed window of the shared counter store.
//!
//! The store keeps one record for each counter. A request is decided by one
//! step on that record, which the store takes as a whole: no other step on
//! the same record falls between its reading and its writing.

use vstd::prelude::*;
use crate::text::{signed_decimal, signed_decimal_text};

verus! {

/// The length of a window, in milliseconds.
pub const WINDOW_MILLIS: i64 = 1000;

/// The key under which the store keeps the records of all counters.
pub const COUNTER_KEY: &'static str = "limiter:bot_api";

/// The field of a counter under `COUNTER_KEY`: the tenant's number in
/// decimal, a colon, and the key of the quota.
pub open spec fn field_key_of(bot: i64, key: Seq<char>) -> Seq<char> {
    signed_decimal(bot as int) + ":"@ + key
}

/// Writes the field of the counter of tenant `bot` for the quota under
/// `key`.
pub fn field_key(bot: i64, key: &str) -> (field: String)
    ensures
        field@ == field_key_of(bot, key@),
{
    let mut field = signed_decimal_text(bot);
    field.append(":");
    field.append(key);
    field
}

/// The record of one counter: when its window started, in milliseconds, and
/// how many requests the window has admitted.
#[derive(Clone, Copy, Debug, PartialEq, Eq, Structural)]
pub struct WindowRecord {
    pub instant: i64,
    pub current: u64,
}

/// What one step gives: the record that the store keeps, and the count that
/// it reports to the limiter.
#[derive(Clone, Copy, Debug, PartialEq, Eq, Structural)]
pub struct WindowStep {
    pub record: WindowRecord,
    pub used: u64,
}

/// The window of `record` is over at `now`.
pub open spec fn expired(record: WindowRecord, now: i64) -> bool {
    now - record.instant > WINDOW_MILLIS
}

/// The record of a window that starts at `now` with one request.
pub open spec fn fresh(now: i64) -> WindowStep {
    WindowStep { record: WindowRecord { instant: now, current: 1 }, used: 0 }
}

/// One step of a counter at time `now` under the quota `limit`.
///
/// Without a record, or with one whose window is over, a window starts with
/// this request and the step reports 0. In an open window below the quota
/// the step counts the request and reports the count before it. In an open
/// window at the quota the record stays and the step reports its count.
pub open spec fn window_step_spec(
    record: Option<WindowRecord>,
    limit: u64,
    now: i64,
) -> WindowStep {
    match record {
        None => fresh(now),
        Some(held) => if expired(held, now) {
            fresh(now)
        } else if held.current < limit {
            WindowStep {
                record: WindowRecord { instant: held.instant, current: (held.current + 1) as u64 },
                used: held.current,
            }
        } else {
            WindowStep { record: held, used: held.current }
        },
    }
}

/// What is left of the quota `limit` when the store reports `used`; zero
/// denies the request.
pub open spec fn surplus_of(limit: u64, used: u64) -> u64 {
    if used < limit {
        (limit - used) as u64
    } else {
        0
    }
}

/// Takes one step of a counter at time `now` under the quota `limit`.
pub fn window_step(record: Option<WindowRecord>, limit: u64, now: i64) -> (step: WindowStep)
    ensures
        step == window_step_spec(record, limit, now),
{
    match record {
        None => WindowStep { record: WindowRecord { instant: now, current: 1 }, used: 0 },
        Some(held) => {
            if now as i128 - held.instant as i128 > WINDOW_MILLIS as i128 {
                WindowStep { record: WindowRecord { instant: now, current: 1 }, used: 0 }
            } else if held.current < limit {
                WindowStep {
                    record: WindowRecord { instant: held.instant, current: held.current + 1 },
                    used: held.current,
                }
            } else {
                WindowStep { record: held, used: held.current }
            }
        },
    }
}

/// Computes what is left of the quota `limit` when the store reports `used`.
pub fn surplus(limit: u64, used: u64) -> (left: u64)
    ensures
        left == surplus_of(limit, used),
{
    if used < limit {
        limit - used
    } else {
        0
    }
}

/// The counts that a counter reports for requests at the given times, one
/// after the other, starting from `record`.
pub open spec fn replay(record: Option<WindowRecord>, limit: u64, times: Seq<i64>) -> Seq<u64>
    decreases times.len(),
{
    if times.len() == 0 {
        Seq::empty()
    } else {
        let step = window_step_spec(record, limit, times[0]);
        seq![step.used] + replay(Some(step.record), limit, times.drop_first())
    }
}

/// In an open window below or at the quota, the reported counts go up by
/// one for each request until they reach the quota, and stay there.
proof fn lemma_replay_in_window(held: WindowRecord, limit: u64, times: Seq<i64>, i: int)
    requires
        held.current <= limit,
        forall|j: int| 0 <= j < times.len() ==> !expired(held, #[trigger] times[j]),
        0 <= i < times.len(),
    ensures
        replay(Some(held), limit, times).len() == times.len(),
        replay(Some(held), limit, times)[i] == if held.current + i <= limit {
            held.current + i
        } else {
            limit as int
        },
    decreases times.len(),
{
    let step = window_step_spec(Some(held), limit, times[0]);
    let rest = times.drop_first();
    lemma_replay_len(Some(step.record), limit, rest);
    if i > 0 {
        assert forall|j: int| 0 <= j < rest.len() implies !expired(
            step.record,
            #[trigger] rest[j],
        ) by {
            assert(rest[j] == times[j + 1]);
        }
        lemma_replay_in_window(step.record, limit, rest, i - 1);
    }
}

/// A counter reports one count for each request.
proof fn lemma_replay_len(record: Option<WindowRecord>, limit: u64, times: Seq<i64>)
    ensures
        replay(record, limit, times).len() == times.len(),
    decreases times.len(),
{
    if times.len() > 0 {
        let step = window_step_spec(record, limit, times[0]);
        lemma_replay_len(Some(step.record), limit, times.drop_first());
    }
}

/// A counter without a record that gets `limit + 1` requests, none of them
/// more than a window's length after the first, admits the first `limit` of
/// them and denies the last.
pub proof fn window_admits_the_quota(limit: u64, times: Seq<i64>)
    requires
        times.len() == limit + 1,
        forall|i: int| 0 <= i < times.len() ==> (#[trigger] times[i]) - times[0] <= WINDOW_MILLIS,
    ensures
        replay(None, limit, times).len() == limit + 1,
        forall|i: int|
            0 <= i < limit ==> surplus_of(limit, #[trigger] replay(None, limit, times)[i]) > 0,
        surplus_of(limit, replay(None, limit, times)[limit as int]) == 0,
{
    let first = fresh(times[0]);
    let rest = times.drop_first();
    let counts = replay(None, limit, times);
    lemma_replay_len(None, limit, times);
    if limit > 0 {
        assert forall|j: int| 0 <= j < rest.len() implies !expired(
            first.record,
            #[trigger] rest[j],
        ) by {
            assert(rest[j] == times[j + 1]);
        }
        assert forall|i: int| 0 <= i <= limit implies counts[i] == i by {
            if i > 0 {
                lemma_replay_in_window(first.record, limit, rest, i - 1);
            }
        }
    }
}

/// The first request after a window is over starts a window: the counter
/// reports 0, and the whole quota is left.
pub proof fn expired_window_starts_afresh(held: WindowRecord, limit: u64, now: i64)
    requires
        expired(held, now),
    ensures
        window_step_spec(Some(held), limit, now) == fresh(now),
        surplus_of(limit, window_step_spec(Some(held), limit, now).used) == limit,
{
}

} // verus!
