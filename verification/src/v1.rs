//! The local limiter, for when the shared counter store cannot be reached.
//!
//! It counts in this process only, per tenant and not per endpoint, and
//! keeps one window for all tenants.

use std::collections::HashMap;
use vstd::prelude::*;
use crate::types::{Decision, Response};
use crate::window::WINDOW_MILLIS;

verus! {

/// The longest delay that the local limiter puts on a denied request, in
/// milliseconds.
pub const MAX_WAIT: u64 = 200;

/// The local limiter: the count of each tenant in the present window, the
/// start of that window in milliseconds, the quota of every tenant, and the
/// delay on a denied request in milliseconds.
pub struct V1 {
    pub map: HashMap<i64, u64>,
    pub instant: i64,
    pub nums: u64,
    pub wait: u64,
}

/// What the local limiter holds.
pub struct V1View {
    pub map: Map<i64, u64>,
    pub instant: i64,
    pub nums: u64,
    pub wait: u64,
}

/// The settings of the local limiter.
#[derive(Clone, Copy, Debug, PartialEq, Eq, Structural)]
pub struct V1Config {
    pub nums: u64,
    pub wait: u64,
}

impl View for V1 {
    type V = V1View;

    open spec fn view(&self) -> V1View {
        V1View { map: self.map@, instant: self.instant, nums: self.nums, wait: self.wait }
    }
}

/// The count of tenant `bot` after one more request in the open window: one
/// more than before, unless it is beyond the quota already. Nothing is
/// counted under a quota of zero.
pub open spec fn used_after(state: V1View, bot: i64) -> u64 {
    if state.nums > 0 {
        let held: u64 = if state.map.contains_key(bot) {
            state.map[bot]
        } else {
            0
        };
        if held <= state.nums {
            (held + 1) as u64
        } else {
            held
        }
    } else {
        0
    }
}

/// What is left for a tenant that has used `used` of the quota `nums`.
pub open spec fn local_surplus(nums: u64, used: u64) -> u64 {
    if nums >= used {
        (nums - used + 1) as u64
    } else {
        0
    }
}

/// One request of tenant `bot` at time `now`: the limiter afterwards, and
/// the decision.
///
/// More than a window's length after the window's start, all counts are
/// dropped and a window starts at `now`; the request itself is not counted.
/// Otherwise the request is counted for the tenant. A denied request is
/// held back for the limiter's delay.
pub open spec fn check_spec(state: V1View, bot: i64, now: i64) -> (V1View, Decision) {
    if now - state.instant > WINDOW_MILLIS {
        (
            V1View { map: Map::empty(), instant: now, nums: state.nums, wait: state.wait },
            Decision {
                response: Response { total: state.nums, surplus: local_surplus(state.nums, 0) },
                wait: 0,
            },
        )
    } else {
        let used = used_after(state, bot);
        let surplus = local_surplus(state.nums, used);
        (
            V1View {
                map: if state.nums > 0 {
                    state.map.insert(bot, used)
                } else {
                    state.map
                },
                instant: state.instant,
                nums: state.nums,
                wait: state.wait,
            },
            Decision {
                response: Response { total: state.nums, surplus },
                wait: if surplus == 0 {
                    state.wait
                } else {
                    0
                },
            },
        )
    }
}

impl V1 {
    /// The quota leaves room for the one request beyond it that a window
    /// counts, and the delay is within its bound.
    pub open spec fn wf(&self) -> bool {
        self.nums < u64::MAX && self.wait <= MAX_WAIT
    }

    /// A local limiter with the quota `limit` and no delay, whose window
    /// starts at `now`.
    pub fn new(limit: u64, now: i64) -> (v1: Self)
        requires
            limit < u64::MAX,
        ensures
            v1.wf(),
            v1@ == (V1View { map: Map::empty(), instant: now, nums: limit, wait: 0 }),
    {
        V1 { map: HashMap::with_capacity(5000), instant: now, nums: limit, wait: 0 }
    }

    /// Decides one request of tenant `bot_id` at time `now`.
    pub fn check(&mut self, bot_id: i64, now: i64) -> (decision: Decision)
        requires
            old(self).wf(),
        ensures
            final(self).wf(),
            (final(self)@, decision) == check_spec(old(self)@, bot_id, now),
            decision.wait <= MAX_WAIT,
    {
        let mut used: u64 = 0;
        let mut wait: u64 = 0;
        if now as i128 - self.instant as i128 > WINDOW_MILLIS as i128 {
            self.map.clear();
            self.instant = now;
        } else {
            wait = self.wait;
            if self.nums > 0 {
                let held: u64 = match self.map.get(&bot_id) {
                    Some(count) => *count,
                    None => 0,
                };
                used = if held <= self.nums {
                    held + 1
                } else {
                    held
                };
                self.map.insert(bot_id, used);
            }
        }
        let surplus: u64 = if self.nums >= used {
            self.nums - used + 1
        } else {
            0
        };
        Decision {
            response: Response { total: self.nums, surplus },
            wait: if surplus == 0 {
                wait
            } else {
                0
            },
        }
    }

    /// The settings in force.
    pub fn get_limit(&self) -> (config: V1Config)
        ensures
            config == (V1Config { nums: self.nums, wait: self.wait }),
    {
        V1Config { nums: self.nums, wait: self.wait }
    }

    /// Puts new settings in force; a delay beyond `MAX_WAIT` is cut down to
    /// it. The counts and the window stay.
    pub fn set_limit(&mut self, config: V1Config)
        requires
            config.nums < u64::MAX,
        ensures
            final(self).wf(),
            final(self)@ == (V1View {
                map: old(self)@.map,
                instant: old(self)@.instant,
                nums: config.nums,
                wait: if config.wait > MAX_WAIT {
                    MAX_WAIT
                } else {
                    config.wait
                },
            }),
    {
        let wait: u64 = if config.wait > MAX_WAIT {
            MAX_WAIT
        } else {
            config.wait
        };
        self.nums = config.nums;
        self.wait = wait;
    }
}

} // verus!
