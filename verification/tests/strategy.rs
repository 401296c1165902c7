use std::collections::HashMap;

use limiter::error::Error;
use limiter::fraction::bounded_share;
use limiter::limiter::Limiter;
use limiter::ratio::RatioEntry;
use limiter::strategy::{generate, generate_strategy_by_bot, limit, resolve_entries, Strategy};
use limiter::types::{Config, Level, Ratio};

fn level_of(pairs: Vec<(u64, Vec<i64>)>) -> Level {
    let mut map = HashMap::new();
    for (total, bots) in pairs {
        map.insert(total, bots);
    }
    Level::new(map)
}

fn ratio_of(pairs: Vec<(i64, &str)>) -> Ratio {
    let mut map = HashMap::new();
    for (bot, text) in pairs {
        map.insert(bot, text.to_string());
    }
    Ratio::new(map)
}

fn quota(strategy: &Strategy, api: &str) -> Option<u64> {
    strategy.entries.iter().find(|entry| entry.api == api).map(|entry| entry.quota)
}

fn count(api: &str, n: u64) -> RatioEntry {
    RatioEntry { api: api.to_string(), unsigned: Some(n), float: false, float_bits: Some((n as f64).to_bits()) }
}

fn fraction(api: &str, x: f64) -> RatioEntry {
    RatioEntry { api: api.to_string(), unsigned: None, float: true, float_bits: Some(x.to_bits()) }
}

#[test]
fn tenant_without_ratio_gets_whole_budget() {
    let level = level_of(vec![(10, vec![1])]);
    let ratio = ratio_of(vec![]);
    let strategies = generate(&level, &ratio).unwrap();
    assert_eq!(strategies.len(), 1);
    let strategy = strategies.get(&1).unwrap();
    assert!(strategy.entries.is_empty());
    assert_eq!(strategy.other, 10);
    assert_eq!(limit(&strategies, 1, "foo".to_string()), (10, "other".to_string()));
}

#[test]
fn get_limit_resolves_to_other() {
    let config = Config { ratio: ratio_of(vec![]), level: level_of(vec![(10, vec![1])]) };
    let limiter = Limiter::new(5).run(&config).unwrap();
    assert_eq!(limiter.get_limit(1, "foo"), (10, "other".to_string()));
}

#[test]
fn fraction_and_count_are_resolved() {
    let level = level_of(vec![(10, vec![1])]);
    let ratio = ratio_of(vec![(1, "{\"foo\": 0.3, \"bar\": 2}")]);
    let strategies = generate(&level, &ratio).unwrap();
    let strategy = strategies.get(&1).unwrap();
    assert_eq!(strategy.entries.len(), 2);
    assert_eq!(quota(strategy, "foo"), Some(3));
    assert_eq!(quota(strategy, "bar"), Some(2));
    assert_eq!(strategy.other, 5);
    assert_eq!(limit(&strategies, 1, "foo".to_string()), (3, "foo".to_string()));
    assert_eq!(limit(&strategies, 1, "bar".to_string()), (2, "bar".to_string()));
    assert_eq!(limit(&strategies, 1, "baz".to_string()), (5, "other".to_string()));
    assert_eq!(limit(&strategies, 1, "other".to_string()), (5, "other".to_string()));
}

#[test]
fn over_budget_ratio_is_refused() {
    let level = level_of(vec![(10, vec![1])]);
    let ratio = ratio_of(vec![(1, "{\"foo\": 8, \"bar\": 5}")]);
    assert!(matches!(generate(&level, &ratio), Err(Error::InvalidConfig)));
}

#[test]
fn refused_reset_keeps_the_strategies() {
    let good = Config {
        ratio: ratio_of(vec![(1, "{\"foo\": 0.3, \"bar\": 2}")]),
        level: level_of(vec![(10, vec![1])]),
    };
    let bad = Config {
        ratio: ratio_of(vec![(1, "{\"foo\": 8, \"bar\": 5}")]),
        level: level_of(vec![(10, vec![1])]),
    };
    let mut limiter = Limiter::new(5).run(&good).unwrap();
    assert_eq!(limiter.reset(&bad), Err(Error::InvalidConfig));
    assert_eq!(limiter.get_limit(1, "foo"), (3, "foo".to_string()));
    assert_eq!(limiter.get_limit(1, "bar"), (2, "bar".to_string()));
    assert_eq!(limiter.get_limit(1, "other"), (5, "other".to_string()));
}

#[test]
fn refused_run_gives_the_error() {
    let bad = Config {
        ratio: ratio_of(vec![(1, "{\"foo\": 8, \"bar\": 5}")]),
        level: level_of(vec![(10, vec![1])]),
    };
    assert!(matches!(Limiter::new(5).run(&bad), Err(Error::InvalidConfig)));
}

#[test]
fn strategies_add_up_to_the_budget() {
    let level = level_of(vec![(10, vec![1, 2]), (100, vec![3])]);
    let ratio = ratio_of(vec![
        (1, "{\"a\": 0.25, \"b\": 4, \"c\": 0.1}"),
        (3, "{\"x\": 0.29, \"y\": 0.5, \"z\": 21}"),
    ]);
    let strategies = generate(&level, &ratio).unwrap();
    assert_eq!(strategies.len(), 3);
    for (bot, total) in [(1i64, 10u64), (2, 10), (3, 100)] {
        let strategy = strategies.get(&bot).unwrap();
        let explicit: u64 = strategy.entries.iter().map(|entry| entry.quota).sum();
        assert_eq!(explicit + strategy.other, total);
    }
    let first = strategies.get(&1).unwrap();
    assert_eq!(quota(first, "a"), Some(3));
    assert_eq!(quota(first, "b"), Some(4));
    assert_eq!(quota(first, "c"), Some(1));
    assert_eq!(first.other, 2);
    let third = strategies.get(&3).unwrap();
    assert_eq!(quota(third, "x"), Some(29));
    assert_eq!(quota(third, "y"), Some(50));
    assert_eq!(quota(third, "z"), Some(21));
    assert_eq!(third.other, 0);
}

#[test]
fn sum_equal_to_budget_is_accepted() {
    let strategy = generate_strategy_by_bot(10, "{\"foo\": 6, \"bar\": 4}".to_string()).unwrap();
    assert_eq!(strategy.other, 0);
    assert_eq!(quota(&strategy, "foo"), Some(6));
    assert_eq!(quota(&strategy, "bar"), Some(4));
}

#[test]
fn sum_one_over_budget_is_refused() {
    assert!(matches!(
        generate_strategy_by_bot(10, "{\"foo\": 6, \"bar\": 5}".to_string()),
        Err(Error::InvalidConfig)
    ));
}

#[test]
fn huge_counts_are_refused_without_overflow() {
    assert!(matches!(
        generate_strategy_by_bot(
            10,
            "{\"foo\": 18446744073709551615, \"bar\": 18446744073709551615}".to_string()
        ),
        Err(Error::InvalidConfig)
    ));
    assert!(matches!(
        generate_strategy_by_bot(10, "{\"foo\": 1e300}".to_string()),
        Err(Error::InvalidConfig)
    ));
}

#[test]
fn empty_ratio_text_gives_whole_budget() {
    let strategy = generate_strategy_by_bot(8, String::new()).unwrap();
    assert!(strategy.entries.is_empty());
    assert_eq!(strategy.other, 8);
}

#[test]
fn json_that_is_no_object_gives_whole_budget() {
    for text in ["3", "[1, 2]", "\"foo\"", "null", "true"] {
        let strategy = generate_strategy_by_bot(8, text.to_string()).unwrap();
        assert!(strategy.entries.is_empty());
        assert_eq!(strategy.other, 8);
    }
}

#[test]
fn malformed_ratio_text_is_refused() {
    for text in ["{", "foo", "{\"foo\": }", "{\"foo\": 1,}", " "] {
        assert!(matches!(
            generate_strategy_by_bot(8, text.to_string()),
            Err(Error::InvalidConfig)
        ));
    }
}

#[test]
fn entry_that_is_no_quota_is_refused() {
    for text in ["{\"foo\": \"3\"}", "{\"foo\": -1}", "{\"foo\": null}", "{\"foo\": [1]}", "{\"foo\": true}"] {
        assert!(matches!(
            generate_strategy_by_bot(8, text.to_string()),
            Err(Error::InvalidConfig)
        ));
    }
}

#[test]
fn empty_object_gives_whole_budget() {
    let strategy = generate_strategy_by_bot(8, "{}".to_string()).unwrap();
    assert!(strategy.entries.is_empty());
    assert_eq!(strategy.other, 8);
}

#[test]
fn explicit_other_is_overruled_by_the_remainder() {
    let level = level_of(vec![(10, vec![1])]);
    let ratio = ratio_of(vec![(1, "{\"other\": 3, \"foo\": 2}")]);
    let strategies = generate(&level, &ratio).unwrap();
    let strategy = strategies.get(&1).unwrap();
    assert_eq!(strategy.other, 5);
    assert_eq!(limit(&strategies, 1, "other".to_string()), (5, "other".to_string()));
    assert_eq!(limit(&strategies, 1, "foo".to_string()), (2, "foo".to_string()));
}

#[test]
fn tenant_under_two_budgets_is_refused() {
    let level = level_of(vec![(10, vec![1, 2]), (20, vec![3, 1])]);
    assert!(matches!(generate(&level, &ratio_of(vec![])), Err(Error::InvalidConfig)));
}

#[test]
fn tenant_twice_under_one_budget_is_accepted() {
    let level = level_of(vec![(10, vec![1, 2, 1])]);
    let strategies = generate(&level, &ratio_of(vec![(1, "{\"foo\": 1}")])).unwrap();
    assert_eq!(strategies.len(), 2);
    assert_eq!(limit(&strategies, 1, "foo".to_string()), (1, "foo".to_string()));
    assert_eq!(limit(&strategies, 1, "bar".to_string()), (9, "other".to_string()));
    assert_eq!(limit(&strategies, 2, "foo".to_string()), (10, "other".to_string()));
}

#[test]
fn one_bad_tenant_refuses_the_whole_configuration() {
    let level = level_of(vec![(10, vec![1]), (20, vec![2])]);
    let ratio = ratio_of(vec![(1, "{\"foo\": 1}"), (2, "{\"foo\": 21}")]);
    assert!(matches!(generate(&level, &ratio), Err(Error::InvalidConfig)));
}

#[test]
fn ratio_of_unlisted_tenant_is_ignored() {
    let level = level_of(vec![(10, vec![1])]);
    let ratio = ratio_of(vec![(7, "not json")]);
    let strategies = generate(&level, &ratio).unwrap();
    assert_eq!(strategies.len(), 1);
    assert!(strategies.get(&7).is_none());
}

#[test]
fn empty_configuration_has_no_strategies() {
    let config = Config::default();
    assert!(config.ratio.map().is_empty());
    assert!(config.level.map().is_empty());
    assert!(config.get_strategies().unwrap().is_empty());
}

#[test]
fn level_and_ratio_hand_back_their_maps() {
    let level = level_of(vec![(10, vec![1, 2])]);
    assert_eq!(level.map().get(&10), Some(&vec![1i64, 2]));
    let ratio = ratio_of(vec![(1, "{}")]);
    assert_eq!(ratio.map().get(&1), Some(&"{}".to_string()));
}

#[test]
fn unknown_tenant_has_quota_zero_under_other() {
    let strategies = generate(&level_of(vec![(10, vec![1])]), &ratio_of(vec![])).unwrap();
    assert_eq!(limit(&strategies, 2, "foo".to_string()), (0, "other".to_string()));
}

#[test]
fn default_quota_stands_in_for_zero() {
    let config = Config {
        ratio: ratio_of(vec![(1, "{\"foo\": 10, \"bar\": 0}")]),
        level: level_of(vec![(10, vec![1])]),
    };
    let limiter = Limiter::new(5).run(&config).unwrap();
    assert_eq!(limiter.get_limit(2, "foo"), (5, "other".to_string()));
    assert_eq!(limiter.get_limit(1, "foo"), (10, "foo".to_string()));
    assert_eq!(limiter.get_limit(1, "bar"), (5, "bar".to_string()));
    assert_eq!(limiter.get_limit(1, "baz"), (5, "other".to_string()));
}

#[test]
fn resolve_entries_reads_counts_and_fractions() {
    let entries = vec![fraction("foo", 0.3), count("bar", 2)];
    let strategy = resolve_entries(10, &entries).unwrap();
    assert_eq!(strategy.entries.len(), 2);
    assert_eq!(strategy.entries[0].api, "foo");
    assert_eq!(strategy.entries[0].quota, 3);
    assert_eq!(strategy.entries[1].api, "bar");
    assert_eq!(strategy.entries[1].quota, 2);
    assert_eq!(strategy.other, 5);
}

#[test]
fn resolve_entries_refuses_what_is_no_number() {
    let broken = RatioEntry { api: "foo".to_string(), unsigned: None, float: false, float_bits: None };
    assert!(matches!(resolve_entries(10, &vec![broken]), Err(Error::InvalidConfig)));
    let negative = RatioEntry {
        api: "foo".to_string(),
        unsigned: None,
        float: false,
        float_bits: Some((-1.0f64).to_bits()),
    };
    assert!(matches!(resolve_entries(10, &vec![negative]), Err(Error::InvalidConfig)));
    let headless = RatioEntry { api: "foo".to_string(), unsigned: None, float: true, float_bits: None };
    assert!(matches!(resolve_entries(10, &vec![headless]), Err(Error::InvalidConfig)));
}

#[test]
fn resolve_entries_refuses_a_sum_over_the_budget() {
    let entries = vec![count("foo", 8), count("bar", 5)];
    assert!(matches!(resolve_entries(10, &entries), Err(Error::InvalidConfig)));
    let entries = vec![fraction("foo", 0.5), fraction("bar", 0.6)];
    assert!(matches!(resolve_entries(10, &entries), Err(Error::InvalidConfig)));
}

#[test]
fn shares_are_rounded_to_the_nearest() {
    assert_eq!(bounded_share(0.3f64.to_bits(), 10), Some(3));
    assert_eq!(bounded_share(0.25f64.to_bits(), 10), Some(3));
    assert_eq!(bounded_share(0.24f64.to_bits(), 10), Some(2));
    assert_eq!(bounded_share(0.29f64.to_bits(), 100), Some(29));
    assert_eq!(bounded_share(0.5f64.to_bits(), 1), Some(1));
    assert_eq!(bounded_share(0.49f64.to_bits(), 1), Some(0));
    assert_eq!(bounded_share(0.75f64.to_bits(), 1000), Some(750));
    assert_eq!(bounded_share(1.0f64.to_bits(), 10), Some(10));
    assert_eq!(bounded_share(0.0f64.to_bits(), 10), Some(0));
    assert_eq!(bounded_share(1.0f64.to_bits(), u64::MAX), Some(u64::MAX));
    assert_eq!(bounded_share(0.5f64.to_bits(), u64::MAX), Some(1u64 << 63));
}

#[test]
fn shares_beyond_the_budget_are_not_computed() {
    assert_eq!(bounded_share(1.5f64.to_bits(), 10), None);
    assert_eq!(bounded_share(1.04f64.to_bits(), 10), Some(10));
    assert_eq!(bounded_share(1.05f64.to_bits(), 10), None);
    assert_eq!(bounded_share(2.0f64.to_bits(), 1), None);
    assert_eq!(bounded_share(1e300f64.to_bits(), 1), None);
    assert_eq!(bounded_share(1e300f64.to_bits(), 0), Some(0));
    assert_eq!(bounded_share(3.0f64.to_bits(), 0), Some(0));
}

#[test]
fn shares_of_odd_numbers() {
    assert_eq!(bounded_share((-0.3f64).to_bits(), 10), Some(0));
    assert_eq!(bounded_share((-0.0f64).to_bits(), 10), Some(0));
    assert_eq!(bounded_share(5e-324f64.to_bits(), u64::MAX), Some(0));
    assert_eq!(bounded_share(1e-30f64.to_bits(), u64::MAX), Some(0));
    assert_eq!(bounded_share(f64::MIN_POSITIVE.to_bits(), 1000), Some(0));
}
