//! The limiter: its configuration, its run state, and the decision on each
//! request.
//!
//! The limiter does not talk to the shared counter store itself. Its caller
//! asks `mode` whether the store is to be asked, takes the step on the
//! counter there, and hands the store's reply to `check`.

use std::collections::HashMap;
use vstd::prelude::*;
use crate::error::Error;
use crate::statistician::{
    decisions, has_room, lemma_tallied_recorded, recorded, statistic, tallied, Statistics,
    TallyView,
};
use crate::strategy::{
    generable, generated, limit, limit_of, strategy_views, Strategies, StrategyView,
};
use crate::types::{Config, Decision, Response};
use crate::v1::{check_spec, V1View, V1};
use crate::window::{expired, fresh, surplus, surplus_of, window_step_spec, WindowRecord};

verus! {

/// The run state of a limiter.
#[derive(Clone, Copy, Debug, PartialEq, Eq, Structural)]
pub enum Mode {
    /// Switched off: every request passes uncounted.
    Disabled,
    /// Counting in this process, since the shared store was out of reach
    /// when it was first asked.
    LocalFallback,
    /// Counting in the shared store.
    Shared,
}

/// What came of the step on a counter in the shared store.
#[derive(Clone, Copy, Debug, PartialEq, Eq, Structural)]
pub enum StoreReply {
    /// No connection to the store could be had.
    Unreachable,
    /// The store did not take the step.
    Failed,
    /// The store took the step and reports this count.
    Used(u64),
}

/// What came of the request to drop all counters in the shared store.
#[derive(Clone, Copy, Debug, PartialEq, Eq, Structural)]
pub enum ClearReply {
    /// No connection to the store could be had.
    Unreachable,
    /// The store did not carry out the request.
    Failed,
    /// The store dropped this number of keys.
    Deleted(u64),
}

/// The limiter.
pub struct Limiter {
    default: u64,
    strategies: Strategies,
    stop: bool,
    statistic: Statistics,
    v1: Option<V1>,
}

/// What a limiter holds: the quota of a tenant without one of its own, the
/// strategies in force, whether it is switched off, the statistics since
/// the last flush, and the local limiter once it has taken over.
pub struct LimiterView {
    pub default: u64,
    pub strategies: Map<i64, StrategyView>,
    pub stop: bool,
    pub statistic: Seq<TallyView>,
    pub v1: Option<V1View>,
}

impl View for Limiter {
    type V = LimiterView;

    closed spec fn view(&self) -> LimiterView {
        LimiterView {
            default: self.default,
            strategies: strategy_views(self.strategies@),
            stop: self.stop,
            statistic: self.statistic@,
            v1: match self.v1 {
                Some(v1) => Some(v1@),
                None => None,
            },
        }
    }
}

/// The run state of a limiter.
pub open spec fn mode_of(state: LimiterView) -> Mode {
    if state.stop {
        Mode::Disabled
    } else if state.v1 is Some {
        Mode::LocalFallback
    } else {
        Mode::Shared
    }
}

/// The quota of endpoint `api` for tenant `bot` with the key it stands
/// under: the one that the strategies give, or the limiter's default where
/// they give zero.
pub open spec fn quota_for(state: LimiterView, bot: i64, api: Seq<char>) -> (u64, Seq<char>) {
    let found = limit_of(state.strategies, bot, api);
    if found.0 == 0 {
        (state.default, found.1)
    } else {
        found
    }
}

/// The answer of a limiter that is switched off.
pub open spec fn unrestricted() -> Decision {
    Decision { response: Response { total: 0, surplus: 0 }, wait: 0 }
}

/// The local limiter as it takes over at time `now`: with half the default
/// quota, no delay, and a window that starts at `now`.
pub open spec fn fallback(state: LimiterView, now: i64) -> V1View {
    V1View { map: Map::empty(), instant: now, nums: state.default / 2, wait: 0 }
}

/// A request decided by the local limiter `v1`, and counted.
pub open spec fn decided_locally(
    state: LimiterView,
    v1: V1View,
    bot: i64,
    api: Seq<char>,
    now: i64,
) -> (LimiterView, Result<Decision, Error>) {
    let (after, decision) = check_spec(v1, bot, now);
    (
        LimiterView {
            default: state.default,
            strategies: state.strategies,
            stop: state.stop,
            statistic: recorded(state.statistic, bot, api, decision.response.surplus != 0),
            v1: Some(after),
        },
        Ok(decision),
    )
}

/// One request of tenant `bot` on endpoint `api` under the quota `limit` at
/// time `now`, where the store, if it was asked, gave `reply`: the limiter
/// afterwards, and the result.
///
/// A limiter that is switched off lets the request pass and stays as it is.
/// Once the local limiter has taken over, it decides. Else the store's
/// reply decides: out of reach, the local limiter takes over and decides;
/// failed, the request has no decision and the limiter stays as it is;
/// with a count, what is left of the quota is the answer. Every decision is
/// counted in the statistics.
pub open spec fn check_model(
    state: LimiterView,
    bot: i64,
    api: Seq<char>,
    limit: u64,
    now: i64,
    reply: StoreReply,
) -> (LimiterView, Result<Decision, Error>) {
    if state.stop {
        (state, Ok(unrestricted()))
    } else {
        match state.v1 {
            Some(v1) => decided_locally(state, v1, bot, api, now),
            None => match reply {
                StoreReply::Unreachable => decided_locally(
                    state,
                    fallback(state, now),
                    bot,
                    api,
                    now,
                ),
                StoreReply::Failed => (state, Err(Error::StoreUnavailable)),
                StoreReply::Used(used) => (
                    LimiterView {
                        default: state.default,
                        strategies: state.strategies,
                        stop: state.stop,
                        statistic: recorded(
                            state.statistic,
                            bot,
                            api,
                            surplus_of(limit, used) != 0,
                        ),
                        v1: state.v1,
                    },
                    Ok(
                        Decision {
                            response: Response { total: limit, surplus: surplus_of(limit, used) },
                            wait: 0,
                        },
                    ),
                ),
            },
        }
    }
}

/// A request of tenant `bot` on endpoint `api` can be counted, whichever
/// way it is decided.
pub open spec fn countable(state: LimiterView, bot: i64, api: Seq<char>) -> bool {
    has_room(state.statistic, bot, api, true) && has_room(state.statistic, bot, api, false)
}

/// A request for which the store, if it was asked, gave `reply` gets a
/// decision, which is counted: the limiter is switched on, and the local
/// limiter has taken over or the store did not fail.
pub open spec fn decisive(state: LimiterView, reply: StoreReply) -> bool {
    !state.stop && (state.v1 is Some || reply != StoreReply::Failed)
}

/// The result of a request to drop all counters: refused while the limiter
/// is switched on; else as the store replied, which has carried the
/// request out whatever number of keys it had to drop.
pub open spec fn clear_model(state: LimiterView, reply: ClearReply) -> Result<(), Error> {
    if !state.stop {
        Err(Error::PreconditionFailed)
    } else {
        match reply {
            ClearReply::Unreachable => Err(Error::ConnectionError),
            ClearReply::Failed => Err(Error::StoreUnavailable),
            ClearReply::Deleted(_) => Ok(()),
        }
    }
}

/// The limiter after a configuration was put in force: with its strategies,
/// and switched on.
pub open spec fn installed(
    state: LimiterView,
    level: Map<u64, Vec<i64>>,
    ratio: Map<i64, String>,
) -> LimiterView {
    LimiterView {
        default: state.default,
        strategies: generated(level, ratio),
        stop: false,
        statistic: state.statistic,
        v1: state.v1,
    }
}

impl Limiter {
    /// The statistics hold no tenant twice on one endpoint, and the local
    /// limiter, where it has taken over, is well-formed.
    pub closed spec fn wf(&self) -> bool {
        &&& self.statistic.wf()
        &&& self.v1 matches Some(v1) ==> v1.wf()
    }

    /// A limiter that is switched off, without strategies, with the quota
    /// `default` for tenants that have none.
    pub fn new(default: u64) -> (limiter: Self)
        ensures
            limiter.wf(),
            limiter@ == (LimiterView {
                default,
                strategies: Map::empty(),
                stop: true,
                statistic: Seq::empty(),
                v1: None,
            }),
    {
        let limiter = Limiter {
            default,
            strategies: HashMap::new(),
            stop: true,
            statistic: Statistics::new(),
            v1: None,
        };
        assert(limiter@.strategies =~= Map::empty());
        limiter
    }

    /// The run state.
    pub fn mode(&self) -> (mode: Mode)
        ensures
            mode == mode_of(self@),
    {
        if self.stop {
            Mode::Disabled
        } else if self.v1.is_some() {
            Mode::LocalFallback
        } else {
            Mode::Shared
        }
    }

    /// The quota of endpoint `api` for tenant `bot`, and the key under
    /// which it stands.
    pub fn get_limit(&self, bot: i64, api: &str) -> (found: (u64, String))
        ensures
            (found.0, found.1@) == quota_for(self@, bot, api@),
    {
        let found = limit(&self.strategies, bot, String::from_str(api));
        if found.0 == 0 {
            (self.default, found.1)
        } else {
            found
        }
    }

    /// Whether a request for which the store, if it was asked, gave `reply`
    /// gets a decision, which is counted.
    pub fn is_decisive(&self, reply: StoreReply) -> (counted: bool)
        ensures
            counted == decisive(self@, reply),
    {
        !self.stop && (self.v1.is_some() || reply != StoreReply::Failed)
    }

    /// Whether a request of tenant `bot` on endpoint `api` can be counted.
    pub fn can_record(&self, bot: i64, api: &str) -> (room: bool)
        requires
            self.wf(),
        ensures
            room == countable(self@, bot, api@),
    {
        self.statistic.can_record(bot, api, true) && self.statistic.can_record(bot, api, false)
    }

    fn check_locally(&mut self, bot: i64, api: &str, now: i64) -> (decision: Decision)
        requires
            old(self).wf(),
            old(self)@.v1 is Some,
            countable(old(self)@, bot, api@),
        ensures
            final(self).wf(),
            (final(self)@, Ok::<Decision, Error>(decision)) == decided_locally(
                old(self)@,
                old(self)@.v1->0,
                bot,
                api@,
                now,
            ),
    {
        let mut v1 = self.v1.take().unwrap();
        let decision = v1.check(bot, now);
        self.v1 = Some(v1);
        statistic(&mut self.statistic, bot, String::from_str(api), decision.response.surplus != 0);
        decision
    }

    /// Decides one request of tenant `bot` on endpoint `api` under the
    /// quota `limit` at time `now`. `reply` is what the shared store gave
    /// for the step on the request's counter; it is looked at only in the
    /// run state `Mode::Shared`.
    pub fn check(
        &mut self,
        bot: i64,
        api: &str,
        limit: u64,
        now: i64,
        reply: StoreReply,
    ) -> (result: Result<Decision, Error>)
        requires
            old(self).wf(),
            decisive(old(self)@, reply) ==> countable(old(self)@, bot, api@),
        ensures
            final(self).wf(),
            (final(self)@, result) == check_model(old(self)@, bot, api@, limit, now, reply),
    {
        if self.stop {
            return Ok(Decision { response: Response::default(), wait: 0 });
        }
        if self.v1.is_some() {
            return Ok(self.check_locally(bot, api, now));
        }
        match reply {
            StoreReply::Unreachable => {
                self.equip_v1(now);
                Ok(self.check_locally(bot, api, now))
            },
            StoreReply::Failed => Err(Error::StoreUnavailable),
            StoreReply::Used(used) => {
                let response = Response { total: limit, surplus: surplus(limit, used) };
                statistic(&mut self.statistic, bot, String::from_str(api), response.surplus != 0);
                Ok(Decision { response, wait: 0 })
            },
        }
    }

    /// Answers a request to drop all counters of the shared store. `reply`
    /// is what the store gave; it is looked at only while the limiter is
    /// switched off, and the store is to be asked only then.
    pub fn clear(&self, reply: ClearReply) -> (result: Result<(), Error>)
        ensures
            result == clear_model(self@, reply),
    {
        if !self.stop {
            return Err(Error::PreconditionFailed);
        }
        match reply {
            ClearReply::Unreachable => Err(Error::ConnectionError),
            ClearReply::Failed => Err(Error::StoreUnavailable),
            ClearReply::Deleted(_) => Ok(()),
        }
    }

    /// Puts a configuration in force and switches the limiter on. A
    /// configuration that cannot be resolved is refused, and the limiter is
    /// given up.
    pub fn run(self, config: &Config) -> (result: Result<Self, Error>)
        requires
            self.wf(),
        ensures
            match result {
                Ok(limiter) => {
                    &&& generable(config.level@, config.ratio@)
                    &&& limiter.wf()
                    &&& limiter@ == installed(self@, config.level@, config.ratio@)
                },
                Err(error) => error == Error::InvalidConfig && !generable(
                    config.level@,
                    config.ratio@,
                ),
            },
    {
        let mut limiter = self;
        match limiter.reset(config) {
            Ok(()) => Ok(limiter),
            Err(error) => Err(error),
        }
    }

    /// Puts a configuration in force and switches the limiter on. A
    /// configuration that cannot be resolved is refused, and the limiter
    /// stays as it is.
    pub fn reset(&mut self, config: &Config) -> (result: Result<(), Error>)
        requires
            old(self).wf(),
        ensures
            final(self).wf(),
            match result {
                Ok(()) => {
                    &&& generable(config.level@, config.ratio@)
                    &&& final(self)@ == installed(old(self)@, config.level@, config.ratio@)
                },
                Err(error) => {
                    &&& error == Error::InvalidConfig
                    &&& !generable(config.level@, config.ratio@)
                    &&& final(self)@ == old(self)@
                },
            },
    {
        match config.get_strategies() {
            Ok(strategies) => {
                self.set_strategies(strategies);
                self.start();
                Ok(())
            },
            Err(error) => Err(error),
        }
    }

    fn set_strategies(&mut self, map: Strategies)
        requires
            old(self).wf(),
        ensures
            final(self).wf(),
            final(self)@ == (LimiterView {
                default: old(self)@.default,
                strategies: strategy_views(map@),
                stop: old(self)@.stop,
                statistic: old(self)@.statistic,
                v1: old(self)@.v1,
            }),
    {
        self.strategies = map;
    }

    /// Switches the limiter off.
    pub fn stop(&mut self)
        requires
            old(self).wf(),
        ensures
            final(self).wf(),
            final(self)@ == (LimiterView {
                default: old(self)@.default,
                strategies: old(self)@.strategies,
                stop: true,
                statistic: old(self)@.statistic,
                v1: old(self)@.v1,
            }),
    {
        self.stop = true;
    }

    fn start(&mut self)
        requires
            old(self).wf(),
        ensures
            final(self).wf(),
            final(self)@ == (LimiterView {
                default: old(self)@.default,
                strategies: old(self)@.strategies,
                stop: false,
                statistic: old(self)@.statistic,
                v1: old(self)@.v1,
            }),
    {
        self.stop = false;
    }

    /// Hands out the statistics and starts them anew.
    pub fn flush(&mut self) -> (flushed: Statistics)
        requires
            old(self).wf(),
        ensures
            final(self).wf(),
            flushed.wf(),
            (final(self)@, flushed@) == flush_model(old(self)@),
    {
        let mut flushed = Statistics::new();
        std::mem::swap(&mut self.statistic, &mut flushed);
        flushed
    }

    fn equip_v1(&mut self, now: i64)
        requires
            old(self).wf(),
        ensures
            final(self).wf(),
            final(self)@ == (LimiterView {
                default: old(self)@.default,
                strategies: old(self)@.strategies,
                stop: old(self)@.stop,
                statistic: old(self)@.statistic,
                v1: Some(fallback(old(self)@, now)),
            }),
    {
        self.v1 = Some(V1::new(self.default / 2, now));
    }
}

/// A call of the limiter that reads or changes its statistics.
pub enum Call {
    /// A request to decide.
    Check { bot: i64, api: Seq<char>, limit: u64, now: i64, reply: StoreReply },
    /// A flush of the statistics.
    Flush,
}

/// A flush: the limiter afterwards, and the statistics handed out.
pub open spec fn flush_model(state: LimiterView) -> (LimiterView, Seq<TallyView>) {
    (
        LimiterView {
            default: state.default,
            strategies: state.strategies,
            stop: state.stop,
            statistic: Seq::empty(),
            v1: state.v1,
        },
        state.statistic,
    )
}

/// The limiter after a call.
pub open spec fn after(state: LimiterView, call: Call) -> LimiterView {
    match call {
        Call::Check { bot, api, limit, now, reply } => check_model(
            state,
            bot,
            api,
            limit,
            now,
            reply,
        ).0,
        Call::Flush => flush_model(state).0,
    }
}

/// The call is a request that is decided, by the local limiter or by the
/// shared store, as allowed, for `allow`, or as denied.
pub open spec fn decides(state: LimiterView, call: Call, allow: bool) -> bool {
    match call {
        Call::Check { bot, api, limit, now, reply } => decisive(state, reply) && (match check_model(
            state,
            bot,
            api,
            limit,
            now,
            reply,
        ).1 {
            Ok(decision) => (decision.response.surplus != 0) == allow,
            Err(_) => false,
        }),
        Call::Flush => false,
    }
}

/// The limiter after a run of calls.
pub open spec fn after_all(state: LimiterView, calls: Seq<Call>) -> LimiterView
    decreases calls.len(),
{
    if calls.len() == 0 {
        state
    } else {
        after(after_all(state, calls.drop_last()), calls.last())
    }
}

/// The number of requests counted as allowed, for `allow`, or as denied in
/// the statistics that the flushes of a run of calls hand out.
pub open spec fn handed_out(state: LimiterView, calls: Seq<Call>, allow: bool) -> nat
    decreases calls.len(),
{
    if calls.len() == 0 {
        0
    } else {
        handed_out(state, calls.drop_last(), allow) + match calls.last() {
            Call::Flush => tallied(after_all(state, calls.drop_last()).statistic, allow),
            _ => 0,
        }
    }
}

/// The number of requests in a run of calls that are decided as allowed,
/// for `allow`, or as denied.
pub open spec fn decided(state: LimiterView, calls: Seq<Call>, allow: bool) -> nat
    decreases calls.len(),
{
    if calls.len() == 0 {
        0
    } else {
        decided(state, calls.drop_last(), allow) + if decides(
            after_all(state, calls.drop_last()),
            calls.last(),
            allow,
        ) {
            1nat
        } else {
            0nat
        }
    }
}

/// Each request of a run of calls that gets a decision can be counted when
/// it comes.
pub open spec fn all_countable(state: LimiterView, calls: Seq<Call>) -> bool {
    forall|n: int|
        0 <= n < calls.len() ==> match #[trigger] calls[n] {
            Call::Check { bot, api, reply, .. } => decisive(
                after_all(state, calls.take(n)),
                reply,
            ) ==> countable(after_all(state, calls.take(n)), bot, api),
            Call::Flush => true,
        }
}

/// A switched-off limiter answers every request with the zero response,
/// whatever the quota and whatever the store replied, and stays as it is.
pub proof fn disabled_passes_everything(
    state: LimiterView,
    bot: i64,
    api: Seq<char>,
    limit: u64,
    now: i64,
    reply: StoreReply,
)
    requires
        state.stop,
    ensures
        check_model(state, bot, api, limit, now, reply) == (
            state,
            Ok::<Decision, Error>(unrestricted()),
        ),
{
}

/// Once the local limiter has taken over, it stays: no request and no flush
/// brings the limiter back to the shared store.
pub proof fn local_limiter_stays(state: LimiterView, call: Call)
    requires
        state.v1 is Some,
    ensures
        after(state, call).v1 is Some,
{
}

/// A flush right after a flush hands out empty statistics.
pub proof fn second_flush_is_empty(state: LimiterView)
    ensures
        flush_model(flush_model(state).0).1 == Seq::<TallyView>::empty(),
{
}

/// Over a run of calls, what the flushes hand out and what the statistics
/// still hold count every request that was decided as allowed once as
/// allowed, and every request that was decided as denied once as denied.
pub proof fn flushes_hand_out_every_decision(state: LimiterView, calls: Seq<Call>, allow: bool)
    requires
        all_countable(state, calls),
    ensures
        handed_out(state, calls, allow) + tallied(after_all(state, calls).statistic, allow)
            == tallied(state.statistic, allow) + decided(state, calls, allow),
    decreases calls.len(),
{
    if calls.len() > 0 {
        let front = calls.drop_last();
        assert forall|n: int| 0 <= n < front.len() implies match #[trigger] front[n] {
            Call::Check { bot, api, reply, .. } => decisive(
                after_all(state, front.take(n)),
                reply,
            ) ==> countable(after_all(state, front.take(n)), bot, api),
            Call::Flush => true,
        } by {
            assert(front[n] == calls[n]);
            assert(front.take(n) =~= calls.take(n));
        }
        flushes_hand_out_every_decision(state, front, allow);
        let held = after_all(state, front);
        assert(calls.take(calls.len() - 1) =~= front);
        match calls.last() {
            Call::Check { bot, api, limit, now, reply } => {
                assert(calls[calls.len() - 1] == calls.last());
                if decisive(held, reply) {
                    lemma_tallied_recorded(held.statistic, bot, api, true);
                    lemma_tallied_recorded(held.statistic, bot, api, false);
                }
            },
            Call::Flush => {
                assert(tallied(Seq::<TallyView>::empty(), allow) == 0);
            },
        }
    }
}

/// Over a run of calls, what the flushes hand out and what the statistics
/// still hold count every request that got a decision, once.
pub proof fn flushes_hand_out_all_decisions(state: LimiterView, calls: Seq<Call>)
    requires
        all_countable(state, calls),
    ensures
        handed_out(state, calls, true) + handed_out(state, calls, false) + decisions(
            after_all(state, calls).statistic,
        ) == decisions(state.statistic) + decided(state, calls, true) + decided(
            state,
            calls,
            false,
        ),
{
    flushes_hand_out_every_decision(state, calls, true);
    flushes_hand_out_every_decision(state, calls, false);
}

/// What the shared store's step makes of a request, together with what the
/// limiter answers to the count that the step reports.
pub open spec fn answered(
    state: LimiterView,
    bot: i64,
    api: Seq<char>,
    limit: u64,
    now: i64,
    record: Option<WindowRecord>,
) -> Result<Decision, Error> {
    check_model(
        state,
        bot,
        api,
        limit,
        now,
        StoreReply::Used(window_step_spec(record, limit, now).used),
    ).1
}

/// In the shared run state, a request whose counter has no record, or an
/// open window below the quota, is allowed: what is left is the quota less
/// the requests that the window had before, and the window has one more.
pub proof fn shared_allows_below_the_quota(
    state: LimiterView,
    bot: i64,
    api: Seq<char>,
    limit: u64,
    now: i64,
    record: Option<WindowRecord>,
)
    requires
        mode_of(state) == Mode::Shared,
        limit >= 1,
        record matches Some(held) ==> !expired(held, now) && held.current < limit,
    ensures
        ({
            let prior: u64 = match record {
                Some(held) => held.current,
                None => 0,
            };
            &&& window_step_spec(record, limit, now).record.current == prior + 1
            &&& limit - prior >= 1
            &&& answered(state, bot, api, limit, now, record) == Ok::<Decision, Error>(
                Decision {
                    response: Response { total: limit, surplus: (limit - prior) as u64 },
                    wait: 0,
                },
            )
        }),
{
}

/// In the shared run state, a request whose counter has an open window at
/// the quota is denied, and the record stays.
pub proof fn shared_denies_at_the_quota(
    state: LimiterView,
    bot: i64,
    api: Seq<char>,
    limit: u64,
    now: i64,
    held: WindowRecord,
)
    requires
        mode_of(state) == Mode::Shared,
        !expired(held, now),
        held.current >= limit,
    ensures
        window_step_spec(Some(held), limit, now).record == held,
        answered(state, bot, api, limit, now, Some(held)) == Ok::<Decision, Error>(
            Decision { response: Response { total: limit, surplus: 0 }, wait: 0 },
        ),
{
}

/// In the shared run state, the first request after a counter's window is
/// over starts a window, whatever the window had counted: the whole quota
/// is left, and the record is that of a window with this one request.
pub proof fn shared_starts_afresh(
    state: LimiterView,
    bot: i64,
    api: Seq<char>,
    limit: u64,
    now: i64,
    held: WindowRecord,
)
    requires
        mode_of(state) == Mode::Shared,
        expired(held, now),
    ensures
        window_step_spec(Some(held), limit, now) == fresh(now),
        answered(state, bot, api, limit, now, Some(held)) == Ok::<Decision, Error>(
            Decision { response: Response { total: limit, surplus: limit }, wait: 0 },
        ),
{
}

/// In the shared run state, a store that fails leaves the request without a
/// decision and the limiter as it is.
pub proof fn failed_store_changes_nothing(
    state: LimiterView,
    bot: i64,
    api: Seq<char>,
    limit: u64,
    now: i64,
)
    requires
        mode_of(state) == Mode::Shared,
    ensures
        check_model(state, bot, api, limit, now, StoreReply::Failed) == (
            state,
            Err::<Decision, Error>(Error::StoreUnavailable),
        ),
{
}

} // verus!
