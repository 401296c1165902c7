//! The configuration of the limiter and the answer it gives to a request.

use std::collections::HashMap;
use vstd::prelude::*;
use crate::error::Error;
use crate::strategy::{generable, generate, generated, strategy_views, Strategies};

verus! {

/// The configuration: who has which budget, and how a tenant's budget is
/// split among its endpoints.
pub struct Config {
    pub ratio: Ratio,
    pub level: Level,
}

impl Config {
    /// The configuration without any tenant.
    pub fn default() -> (config: Self)
        ensures
            config.ratio@ == Map::<i64, String>::empty(),
            config.level@ == Map::<u64, Vec<i64>>::empty(),
    {
        Config { ratio: Ratio::new(HashMap::new()), level: Level::new(HashMap::new()) }
    }

    /// Resolves the configuration into the strategies of its tenants.
    pub fn get_strategies(&self) -> (result: Result<Strategies, Error>)
        ensures
            match result {
                Ok(strategies) => generable(self.level@, self.ratio@) && strategy_views(
                    strategies@,
                ) == generated(self.level@, self.ratio@),
                Err(error) => error == Error::InvalidConfig && !generable(
                    self.level@,
                    self.ratio@,
                ),
            },
    {
        generate(&self.level, &self.ratio)
    }
}

/// How the budgets are split: for each tenant that has a ratio, the text of
/// a JSON object from endpoint name to a count or to a fraction of the
/// tenant's budget.
pub struct Ratio {
    map: HashMap<i64, String>,
}

impl View for Ratio {
    type V = Map<i64, String>;

    closed spec fn view(&self) -> Map<i64, String> {
        self.map@
    }
}

impl Ratio {
    /// The ratios of the given tenants.
    pub fn new(map: HashMap<i64, String>) -> (ratio: Self)
        ensures
            ratio@ == map@,
    {
        Ratio { map }
    }

    /// A copy of the ratio texts by tenant.
    pub fn map(&self) -> (map: HashMap<i64, String>)
        ensures
            map@ == self@,
    {
        self.map.clone()
    }
}

/// The budgets: from a budget per window to the tenants that have it.
pub struct Level {
    map: HashMap<u64, Vec<i64>>,
}

impl View for Level {
    type V = Map<u64, Vec<i64>>;

    closed spec fn view(&self) -> Map<u64, Vec<i64>> {
        self.map@
    }
}

impl Level {
    /// The given budgets with their tenants.
    pub fn new(map: HashMap<u64, Vec<i64>>) -> (level: Self)
        ensures
            level@ == map@,
    {
        Level { map }
    }

    /// A copy of the tenants by budget.
    pub fn map(&self) -> (map: HashMap<u64, Vec<i64>>)
        ensures
            map@ == self@,
    {
        self.map.clone()
    }
}

/// The answer to one request.
#[derive(Clone, Copy, Debug, PartialEq, Eq, Structural)]
pub struct Response {
    /// The quota in force.
    pub total: u64,
    /// What is left of it in the present window; zero denies the request.
    pub surplus: u64,
}

impl Default for Response {
    /// The answer of a limiter that is switched off.
    fn default() -> (response: Self)
        ensures
            response == (Response { total: 0, surplus: 0 }),
    {
        Response { total: 0, surplus: 0 }
    }
}

/// The answer to a request, and for how many milliseconds the caller holds
/// it back before it hands it on.
#[derive(Clone, Copy, Debug, PartialEq, Eq, Structural)]
pub struct Decision {
    pub response: Response,
    pub wait: u64,
}

} // verus!
