use std::collections::HashMap;

use limiter::error::Error;
use limiter::limiter::{ClearReply, Limiter, Mode, StoreReply};
use limiter::statistician::{render_report, report};
use limiter::types::{Config, Decision, Level, Ratio, Response};
use limiter::window::{field_key, window_step, WindowRecord};

/// A counter store in the test's own memory: one record for each field.
struct Counters {
    records: HashMap<String, WindowRecord>,
}

impl Counters {
    fn new() -> Self {
        Counters { records: HashMap::new() }
    }

    fn step(&mut self, field: String, limit: u64, now: i64) -> StoreReply {
        let step = window_step(self.records.get(&field).copied(), limit, now);
        self.records.insert(field, step.record);
        StoreReply::Used(step.used)
    }
}

fn config_of(level: Vec<(u64, Vec<i64>)>, ratio: Vec<(i64, &str)>) -> Config {
    let mut levels = HashMap::new();
    for (total, bots) in level {
        levels.insert(total, bots);
    }
    let mut ratios = HashMap::new();
    for (bot, text) in ratio {
        ratios.insert(bot, text.to_string());
    }
    Config { ratio: Ratio::new(ratios), level: Level::new(levels) }
}

fn answer(total: u64, surplus: u64) -> Result<Decision, Error> {
    Ok(Decision { response: Response { total, surplus }, wait: 0 })
}

#[test]
fn work() {
    let limiter = Limiter::new(5);
    let mut limiter = limiter.run(&Config::default()).unwrap();
    let mut store = Counters::new();
    let bot = 1_i64;
    let limit = limiter.get_limit(bot, "whatever");
    assert_eq!(limit, (5, "other".to_string()));
    for i in 0..30 {
        let now = 1_000 + i;
        for api in ["whatever1", "whatever2"] {
            assert_eq!(limiter.mode(), Mode::Shared);
            let reply = store.step(field_key(bot, limit.1.as_str()), limit.0, now);
            let decision = limiter.check(bot, api, limit.0, now, reply).unwrap();
            println!("{:?}", decision.response);
        }
    }
    let rep = limiter.flush();
    assert_eq!(rep.get(bot, "whatever1"), Some((3, 27)));
    assert_eq!(rep.get(bot, "whatever2"), Some((2, 28)));
    println!("{}", report(vec![rep]));
}

#[test]
fn reset() {
    let config = config_of(vec![(8, vec![1])], vec![(1, "")]);
    let mut limiter = Limiter::new(5).run(&Config::default()).unwrap();
    limiter.stop();
    assert_eq!(limiter.clear(ClearReply::Deleted(1)), Ok(()));
    match limiter.reset(&config) {
        Ok(()) => (),
        Err(err) => println!("{:?}", err),
    }
    assert_eq!(limiter.mode(), Mode::Shared);
    assert_eq!(limiter.get_limit(1, "whatever"), (8, "other".to_string()));
}

#[test]
fn v1_test() {
    let mut limiter = Limiter::new(100).run(&Config::default()).unwrap();
    let bot = 1_i64;
    let limit = limiter.get_limit(bot, "whatever");
    assert_eq!(limit, (100, "other".to_string()));
    let mut allowed = 0;
    for i in 0..70 {
        let decision = limiter.check(bot, "whatever", limit.0, 2_000 + i, StoreReply::Unreachable).unwrap();
        assert_eq!(decision.response.total, 50);
        if decision.response.surplus != 0 {
            allowed += 1;
        }
        println!("{:?}", decision.response);
    }
    assert_eq!(limiter.mode(), Mode::LocalFallback);
    assert_eq!(allowed, 50);
    let rep = limiter.flush();
    assert_eq!(rep.get(bot, "whatever"), Some((50, 20)));
    println!("{}", report(vec![rep]));
}

#[test]
fn new_limiter_is_switched_off() {
    let limiter = Limiter::new(5);
    assert_eq!(limiter.mode(), Mode::Disabled);
    assert_eq!(limiter.get_limit(1, "foo"), (5, "other".to_string()));
    assert!(limiter.can_record(1, "foo"));
}

#[test]
fn switched_off_limiter_passes_everything() {
    let mut limiter = Limiter::new(5);
    for reply in [StoreReply::Unreachable, StoreReply::Failed, StoreReply::Used(0), StoreReply::Used(99)] {
        for limit in [0u64, 1, 5, u64::MAX] {
            assert_eq!(limiter.check(1, "foo", limit, 10, reply), answer(0, 0));
        }
    }
    assert_eq!(limiter.mode(), Mode::Disabled);
    assert_eq!(limiter.flush().len(), 0);
    let mut limiter = Limiter::new(5).run(&Config::default()).unwrap();
    limiter.check(1, "foo", 5, 10, StoreReply::Used(0)).unwrap();
    limiter.stop();
    assert_eq!(limiter.check(1, "foo", 5, 11, StoreReply::Used(5)), answer(0, 0));
    assert_eq!(limiter.flush().get(1, "foo"), Some((1, 0)));
}

#[test]
fn shared_store_decides_by_its_count() {
    let mut limiter = Limiter::new(5).run(&Config::default()).unwrap();
    assert_eq!(limiter.check(1, "foo", 5, 10, StoreReply::Used(0)), answer(5, 5));
    assert_eq!(limiter.check(1, "foo", 5, 10, StoreReply::Used(4)), answer(5, 1));
    assert_eq!(limiter.check(1, "foo", 5, 10, StoreReply::Used(5)), answer(5, 0));
    assert_eq!(limiter.check(1, "foo", 5, 10, StoreReply::Used(9)), answer(5, 0));
    assert_eq!(limiter.mode(), Mode::Shared);
    assert_eq!(limiter.flush().get(1, "foo"), Some((2, 2)));
}

#[test]
fn failed_store_gives_an_error_and_changes_nothing() {
    let mut limiter = Limiter::new(5).run(&Config::default()).unwrap();
    assert_eq!(limiter.check(1, "foo", 5, 10, StoreReply::Failed), Err(Error::StoreUnavailable));
    assert_eq!(limiter.mode(), Mode::Shared);
    assert_eq!(limiter.flush().len(), 0);
    assert_eq!(limiter.check(1, "foo", 5, 11, StoreReply::Used(0)), answer(5, 5));
}

#[test]
fn local_limiter_takes_over_for_good() {
    let mut limiter = Limiter::new(4).run(&Config::default()).unwrap();
    assert_eq!(limiter.check(1, "foo", 9, 100, StoreReply::Unreachable), answer(2, 2));
    assert_eq!(limiter.mode(), Mode::LocalFallback);
    assert_eq!(limiter.check(1, "bar", 9, 101, StoreReply::Used(0)), answer(2, 1));
    assert_eq!(limiter.check(1, "foo", 9, 102, StoreReply::Failed), answer(2, 0));
    assert_eq!(limiter.check(2, "foo", 9, 103, StoreReply::Used(0)), answer(2, 2));
    assert_eq!(limiter.check(2, "foo", 9, 1101, StoreReply::Used(0)), answer(2, 3));
    limiter.stop();
    assert_eq!(limiter.mode(), Mode::Disabled);
    limiter.reset(&Config::default()).unwrap();
    assert_eq!(limiter.mode(), Mode::LocalFallback);
    let flushed = limiter.flush();
    assert_eq!(flushed.get(1, "foo"), Some((1, 1)));
    assert_eq!(flushed.get(1, "bar"), Some((1, 0)));
    assert_eq!(flushed.get(2, "foo"), Some((2, 0)));
}

#[test]
fn clear_wants_the_limiter_switched_off() {
    let mut limiter = Limiter::new(5);
    assert_eq!(limiter.clear(ClearReply::Deleted(1)), Ok(()));
    assert_eq!(limiter.clear(ClearReply::Deleted(0)), Ok(()));
    assert_eq!(limiter.clear(ClearReply::Deleted(2)), Ok(()));
    assert_eq!(limiter.clear(ClearReply::Failed), Err(Error::StoreUnavailable));
    assert_eq!(limiter.clear(ClearReply::Unreachable), Err(Error::ConnectionError));
    limiter.reset(&Config::default()).unwrap();
    assert_eq!(limiter.clear(ClearReply::Deleted(1)), Err(Error::PreconditionFailed));
    assert_eq!(limiter.clear(ClearReply::Unreachable), Err(Error::PreconditionFailed));
    limiter.stop();
    assert_eq!(limiter.clear(ClearReply::Deleted(1)), Ok(()));
}

#[test]
fn decision_is_counted_where_there_is_one() {
    let mut limiter = Limiter::new(5);
    for reply in [StoreReply::Unreachable, StoreReply::Failed, StoreReply::Used(0)] {
        assert!(!limiter.is_decisive(reply));
    }
    limiter.reset(&Config::default()).unwrap();
    assert!(limiter.is_decisive(StoreReply::Used(0)));
    assert!(limiter.is_decisive(StoreReply::Unreachable));
    assert!(!limiter.is_decisive(StoreReply::Failed));
    limiter.check(1, "foo", 5, 10, StoreReply::Unreachable).unwrap();
    assert!(limiter.is_decisive(StoreReply::Failed));
    limiter.stop();
    assert!(!limiter.is_decisive(StoreReply::Used(0)));
}

#[test]
fn flushed_counts_split_into_allowed_and_denied() {
    let mut limiter = Limiter::new(5).run(&Config::default()).unwrap();
    let mut allowed = 0u64;
    let mut denied = 0u64;
    let replies = [StoreReply::Used(0), StoreReply::Failed, StoreReply::Used(5), StoreReply::Used(2)];
    let mut handed_allowed = 0u64;
    let mut handed_denied = 0u64;
    for round in 0..40usize {
        let api = ["foo", "bar", "baz"][round % 3];
        let bot = (round % 4) as i64;
        match limiter.check(bot, api, 5, round as i64, replies[round % 4]) {
            Ok(decision) if decision.response.surplus != 0 => allowed += 1,
            Ok(_) => denied += 1,
            Err(_) => (),
        }
        if round % 7 == 6 || round == 39 {
            let table = limiter.flush();
            for at in 0..table.len() {
                handed_allowed += table.row(at).allow;
                handed_denied += table.row(at).deny;
            }
        }
    }
    assert_eq!(allowed, 20);
    assert_eq!(denied, 10);
    assert_eq!(handed_allowed, allowed);
    assert_eq!(handed_denied, denied);
}

#[test]
fn second_flush_is_empty() {
    let mut limiter = Limiter::new(5).run(&Config::default()).unwrap();
    limiter.check(1, "foo", 5, 10, StoreReply::Used(0)).unwrap();
    limiter.check(2, "foo", 5, 10, StoreReply::Used(5)).unwrap();
    assert_eq!(limiter.flush().len(), 2);
    assert_eq!(limiter.flush().len(), 0);
    assert_eq!(limiter.flush().len(), 0);
}

#[test]
fn flushes_count_every_decision_once() {
    let mut limiter = Limiter::new(5).run(&Config::default()).unwrap();
    let mut decided = 0u64;
    let mut flushed = 0u64;
    let replies = [StoreReply::Used(0), StoreReply::Failed, StoreReply::Used(5), StoreReply::Used(2)];
    for round in 0..40usize {
        let api = ["foo", "bar", "baz"][round % 3];
        let bot = (round % 4) as i64;
        if limiter.check(bot, api, 5, round as i64, replies[round % 4]).is_ok() {
            decided += 1;
        }
        if round % 7 == 6 {
            let table = limiter.flush();
            for at in 0..table.len() {
                flushed += table.row(at).allow + table.row(at).deny;
            }
        }
    }
    limiter.stop();
    assert_eq!(limiter.check(1, "foo", 5, 50, StoreReply::Used(0)), answer(0, 0));
    let table = limiter.flush();
    for at in 0..table.len() {
        flushed += table.row(at).allow + table.row(at).deny;
    }
    assert_eq!(decided, 30);
    assert_eq!(flushed, decided);
}

#[test]
fn report_of_flushed_statistics() {
    let mut limiter = Limiter::new(5).run(&Config::default()).unwrap();
    limiter.check(1, "foo", 5, 10, StoreReply::Used(0)).unwrap();
    limiter.check(1, "foo", 5, 10, StoreReply::Used(5)).unwrap();
    let first = limiter.flush();
    limiter.check(1, "foo", 5, 10, StoreReply::Used(1)).unwrap();
    let second = limiter.flush();
    assert_eq!(
        render_report("2024-01-02", &vec![first, second]),
        ">>>>>> Limiter.report: 2024-01-02\nbot:1\n+foo  allow:2  deny:1\n<<<<<< over."
    );
}

#[test]
fn store_counts_by_the_key_of_the_quota() {
    let config = config_of(vec![(4, vec![1])], vec![(1, "{\"foo\": 0.5}")]);
    let mut limiter = Limiter::new(5).run(&config).unwrap();
    let mut store = Counters::new();
    let mut answers = Vec::new();
    for (now, api) in [(1, "foo"), (2, "bar"), (3, "foo"), (4, "baz"), (5, "foo"), (6, "bar"), (7, "baz")] {
        let (limit, key) = limiter.get_limit(1, api);
        let reply = store.step(field_key(1, key.as_str()), limit, now);
        answers.push(limiter.check(1, api, limit, now, reply).unwrap().response);
    }
    assert_eq!(
        answers,
        vec![
            Response { total: 2, surplus: 2 },
            Response { total: 2, surplus: 2 },
            Response { total: 2, surplus: 1 },
            Response { total: 2, surplus: 1 },
            Response { total: 2, surplus: 0 },
            Response { total: 2, surplus: 0 },
            Response { total: 2, surplus: 0 },
        ]
    );
    assert_eq!(store.records.get("1:foo"), Some(&WindowRecord { instant: 1, current: 2 }));
    assert_eq!(store.records.get("1:other"), Some(&WindowRecord { instant: 2, current: 2 }));
    assert_eq!(Response::default(), Response { total: 0, surplus: 0 });
}
