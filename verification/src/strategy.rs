//! Strategies: the quota of each endpoint of each tenant, resolved from the
//! budgets and the ratios.

use std::collections::HashMap;
use vstd::prelude::*;
use vstd::std_specs::iter::IteratorSpec;
use crate::error::Error;
use crate::fraction::{bounded_share, share_of};
use crate::ratio::{
    entry_views, parse_ratio, ratio_document, RatioDocument, RatioDocumentView, RatioEntry,
    RatioEntryView,
};
use crate::types::{Level, Ratio};

verus! {

/// The quota of one endpoint.
pub struct Allotment {
    pub api: String,
    pub quota: u64,
}

/// The strategy of one tenant: the quotas of the endpoints that its ratio
/// names, and under the key `"other"` what is left of its budget.
pub struct Strategy {
    pub entries: Vec<Allotment>,
    pub other: u64,
}

/// What a strategy holds.
pub struct StrategyView {
    pub entries: Seq<(Seq<char>, u64)>,
    pub other: u64,
}

impl View for Strategy {
    type V = StrategyView;

    open spec fn view(&self) -> StrategyView {
        StrategyView {
            entries: Seq::new(
                self.entries@.len(),
                |i: int| (self.entries@[i].api@, self.entries@[i].quota),
            ),
            other: self.other,
        }
    }
}

/// The strategies of all tenants.
pub type Strategies = HashMap<i64, Strategy>;

/// The key of what is left of a budget, as characters.
pub open spec fn other_key() -> Seq<char> {
    "other"@
}

/// The sum of the quotas of a strategy's named endpoints.
pub open spec fn explicit_sum(entries: Seq<(Seq<char>, u64)>) -> nat
    decreases entries.len(),
{
    if entries.len() == 0 {
        0
    } else {
        explicit_sum(entries.drop_last()) + entries.last().1 as nat
    }
}

/// The strategy of a tenant without a ratio: the whole budget under
/// `"other"`.
pub open spec fn whole(total: u64) -> StrategyView {
    StrategyView { entries: Seq::empty(), other: total }
}

/// The quota that one ratio entry asks for out of `total`: a fraction its
/// rounded share, an integer itself; `None` where the value is neither.
pub open spec fn entry_quota(entry: RatioEntryView, total: u64) -> Option<nat> {
    if entry.float {
        match entry.float_bits {
            Some(bits) => Some(share_of(bits, total)),
            None => None,
        }
    } else {
        match entry.unsigned {
            Some(count) => Some(count as nat),
            None => None,
        }
    }
}

/// Every entry asks for a quota.
pub open spec fn all_numeric(entries: Seq<RatioEntryView>, total: u64) -> bool {
    forall|i: int| 0 <= i < entries.len() ==> (#[trigger] entry_quota(entries[i], total)) is Some
}

/// The sum of the quotas that the entries ask for.
pub open spec fn requested(entries: Seq<RatioEntryView>, total: u64) -> nat
    decreases entries.len(),
{
    if entries.len() == 0 {
        0
    } else {
        requested(entries.drop_last(), total) + match entry_quota(entries.last(), total) {
            Some(quota) => quota,
            None => 0,
        }
    }
}

/// The entries can be resolved against `total`: each asks for a quota, and
/// together they ask for no more than `total`.
pub open spec fn resolvable(entries: Seq<RatioEntryView>, total: u64) -> bool {
    all_numeric(entries, total) && requested(entries, total) <= total
}

/// The strategy that resolvable entries give.
pub open spec fn resolved(entries: Seq<RatioEntryView>, total: u64) -> StrategyView {
    StrategyView {
        entries: Seq::new(
            entries.len(),
            |i: int| (entries[i].api, entry_quota(entries[i], total).unwrap() as u64),
        ),
        other: (total - requested(entries, total)) as u64,
    }
}

/// The strategy of a tenant with budget `total` and ratio text `text`, if
/// there is one: the whole budget where the text is empty or not a JSON
/// object, none where it is not JSON or its entries cannot be resolved.
pub open spec fn strategy_for(total: u64, text: Seq<char>) -> Option<StrategyView> {
    if text.len() == 0 {
        Some(whole(total))
    } else {
        match ratio_document(text) {
            RatioDocumentView::Malformed => None,
            RatioDocumentView::NotObject => Some(whole(total)),
            RatioDocumentView::Object(entries) => if resolvable(entries, total) {
                Some(resolved(entries, total))
            } else {
                None
            },
        }
    }
}

/// The request of a prefix is no more than the request of the whole.
proof fn lemma_requested_grows(entries: Seq<RatioEntryView>, total: u64, n: int)
    requires
        0 <= n <= entries.len(),
    ensures
        requested(entries.take(n), total) <= requested(entries, total),
    decreases entries.len(),
{
    if n == entries.len() {
        assert(entries.take(n) =~= entries);
    } else {
        assert(entries.drop_last().take(n) =~= entries.take(n));
        lemma_requested_grows(entries.drop_last(), total, n);
    }
}

/// What the named endpoints of a resolved strategy get is what the entries
/// ask for.
proof fn lemma_resolved_sum(entries: Seq<RatioEntryView>, total: u64)
    requires
        resolvable(entries, total),
    ensures
        explicit_sum(resolved(entries, total).entries) == requested(entries, total),
    decreases entries.len(),
{
    let quotas = resolved(entries, total).entries;
    if entries.len() > 0 {
        let front = entries.drop_last();
        lemma_requested_grows(entries, total, entries.len() - 1);
        assert forall|i: int| 0 <= i < front.len() implies (#[trigger] entry_quota(
            front[i],
            total,
        )) is Some by {
            assert(front[i] == entries[i]);
        }
        lemma_resolved_sum(front, total);
        assert(quotas.drop_last() =~= resolved(front, total).entries);
        assert(requested(entries, total) == requested(front, total) + entry_quota(
            entries.last(),
            total,
        ).unwrap());
    }
}

/// Resolves the entries of a tenant's ratio against a budget.
///
/// Succeeds exactly where every entry asks for a quota and the quotas add
/// up to no more than `total`. In the strategy the named endpoints and
/// `"other"` add up to `total`.
pub fn resolve_entries(total: u64, entries: &Vec<RatioEntry>) -> (result: Result<Strategy, Error>)
    ensures
        match result {
            Ok(strategy) => {
                &&& resolvable(entry_views(entries@), total)
                &&& strategy@ == resolved(entry_views(entries@), total)
                &&& explicit_sum(strategy@.entries) + strategy@.other == total
            },
            Err(error) => error == Error::InvalidConfig && !resolvable(
                entry_views(entries@),
                total,
            ),
        },
{
    let ghost views = entry_views(entries@);
    let mut quotas: Vec<Allotment> = Vec::new();
    let mut sum: u64 = 0;
    let mut i: usize = 0;
    while i < entries.len()
        invariant
            i <= entries.len(),
            views == entry_views(entries@),
            all_numeric(views.take(i as int), total),
            sum == requested(views.take(i as int), total),
            sum <= total,
            quotas@.len() == i,
            forall|j: int|
                0 <= j < i ==> (#[trigger] quotas@[j]).api@ == views[j].api && quotas@[j].quota
                    == entry_quota(views[j], total).unwrap(),
        decreases entries.len() - i,
    {
        let entry = &entries[i];
        let asked: Option<u64> = if entry.float {
            match entry.float_bits {
                Some(bits) => bounded_share(bits, total),
                None => None,
            }
        } else {
            match entry.unsigned {
                Some(count) => if count <= total {
                    Some(count)
                } else {
                    None
                },
                None => None,
            }
        };
        proof {
            assert(views.take(i + 1).drop_last() =~= views.take(i as int));
            lemma_requested_grows(views, total, i + 1);
        }
        let fits: bool = match asked {
            Some(quota) => quota <= total - sum,
            None => false,
        };
        if !fits {
            assert(entry_quota(views[i as int], total) is None || requested(views, total) > total);
            return Err(Error::InvalidConfig);
        }
        let quota: u64 = asked.unwrap();
        sum = sum + quota;
        quotas.push(Allotment { api: entry.api.clone(), quota });
        assert forall|j: int| 0 <= j < i + 1 implies (#[trigger] entry_quota(
            views.take(i + 1)[j],
            total,
        )) is Some by {
            if j < i {
                assert(views.take(i + 1)[j] == views.take(i as int)[j]);
            }
        }
        i = i + 1;
    }
    let strategy = Strategy { entries: quotas, other: total - sum };
    proof {
        assert(views.take(i as int) =~= views);
        assert(strategy@.entries =~= resolved(views, total).entries);
        lemma_resolved_sum(views, total);
    }
    Ok(strategy)
}

/// Resolves the strategy of one tenant from its budget and its ratio text.
///
/// An empty text, and a text that is JSON and not an object, give the whole
/// budget to `"other"`. A text that is not JSON, and an object whose entries
/// cannot be resolved, are refused.
pub fn generate_strategy_by_bot(total: u64, ratio: String) -> (result: Result<Strategy, Error>)
    ensures
        match result {
            Ok(strategy) => strategy_for(total, ratio@) == Some(strategy@),
            Err(error) => error == Error::InvalidConfig && strategy_for(total, ratio@) is None,
        },
{
    if ratio.as_str().is_empty() {
        let strategy = Strategy { entries: Vec::new(), other: total };
        assert(strategy@.entries =~= whole(total).entries);
        return Ok(strategy);
    }
    match parse_ratio(ratio.as_str()) {
        RatioDocument::Malformed => Err(Error::InvalidConfig),
        RatioDocument::NotObject => {
            let strategy = Strategy { entries: Vec::new(), other: total };
            assert(strategy@.entries =~= whole(total).entries);
            Ok(strategy)
        },
        RatioDocument::Object(entries) => resolve_entries(total, &entries),
    }
}

/// Whether a strategy names the endpoint `key`.
pub open spec fn names(entries: Seq<(Seq<char>, u64)>, key: Seq<char>) -> bool {
    exists|i: int| 0 <= i < entries.len() && (#[trigger] entries[i]).0 == key
}

/// The place of the first entry for `key`.
pub open spec fn first_named(entries: Seq<(Seq<char>, u64)>, key: Seq<char>) -> int {
    choose|i: int|
        0 <= i < entries.len() && (#[trigger] entries[i]).0 == key && forall|j: int|
            0 <= j < i ==> (#[trigger] entries[j]).0 != key
}

/// The quota of an endpoint under a strategy, with the key it stands under:
/// the endpoint's own where the strategy names it, else that of `"other"`.
/// Under the key `"other"` stands what is left of the budget, whatever the
/// ratio said of that name.
pub open spec fn quota_of(strategy: StrategyView, key: Seq<char>) -> (u64, Seq<char>) {
    if key != other_key() && names(strategy.entries, key) {
        (strategy.entries[first_named(strategy.entries, key)].1, key)
    } else {
        (strategy.other, other_key())
    }
}

/// The quota of endpoint `key` for tenant `bot`, with the key it stands
/// under; `(0, "other")` for a tenant without a strategy.
pub open spec fn limit_of(map: Map<i64, StrategyView>, bot: i64, key: Seq<char>) -> (
    u64,
    Seq<char>,
) {
    if map.contains_key(bot) {
        quota_of(map[bot], key)
    } else {
        (0, other_key())
    }
}

/// Looks up the quota of endpoint `key` for tenant `bot`, and the key under
/// which the quota stands.
pub fn limit(map: &Strategies, bot: i64, key: String) -> (found: (u64, String))
    ensures
        (found.0, found.1@) == limit_of(strategy_views(map@), bot, key@),
{
    let other = String::from_str("other");
    match map.get(&bot) {
        None => (0, other),
        Some(strategy) => {
            if key == other {
                return (strategy.other, other);
            }
            let ghost entries = strategy@.entries;
            let mut i: usize = 0;
            while i < strategy.entries.len()
                invariant
                    i <= strategy.entries.len(),
                    entries == strategy@.entries,
                    key@ != other_key(),
                    map@.contains_key(bot) && map@[bot] == *strategy,
                    forall|j: int| 0 <= j < i ==> (#[trigger] entries[j]).0 != key@,
                decreases strategy.entries.len() - i,
            {
                if strategy.entries[i].api == key {
                    assert(entries[i as int].0 == key@);
                    return (strategy.entries[i].quota, key);
                }
                i = i + 1;
            }
            (strategy.other, other)
        },
    }
}

/// Tenant `bot` is listed under the budget `total`.
pub open spec fn listed(level: Map<u64, Vec<i64>>, total: u64, bot: i64) -> bool {
    level.contains_key(total) && level[total]@.contains(bot)
}

/// The ratio text of a tenant: empty where the configuration has none.
pub open spec fn ratio_text(ratio: Map<i64, String>, bot: i64) -> Seq<char> {
    if ratio.contains_key(bot) {
        ratio[bot]@
    } else {
        Seq::empty()
    }
}

/// No tenant is listed under two budgets.
pub open spec fn consistent(level: Map<u64, Vec<i64>>) -> bool {
    forall|first: u64, second: u64, bot: i64|
        #![trigger listed(level, first, bot), listed(level, second, bot)]
        listed(level, first, bot) && listed(level, second, bot) ==> first == second
}

/// The configuration can be resolved: no tenant is listed under two
/// budgets, and every listed tenant has a strategy.
pub open spec fn generable(level: Map<u64, Vec<i64>>, ratio: Map<i64, String>) -> bool {
    &&& consistent(level)
    &&& forall|total: u64, bot: i64| #[trigger]
        listed(level, total, bot) ==> strategy_for(total, ratio_text(ratio, bot)) is Some
}

/// The budget under which a tenant is listed.
pub open spec fn budget_of(level: Map<u64, Vec<i64>>, bot: i64) -> u64 {
    choose|total: u64| listed(level, total, bot)
}

/// The strategies of a configuration that can be resolved: one for each
/// listed tenant, from its budget and its ratio text.
pub open spec fn generated(level: Map<u64, Vec<i64>>, ratio: Map<i64, String>) -> Map<
    i64,
    StrategyView,
> {
    Map::new(
        |bot: i64| exists|total: u64| listed(level, total, bot),
        |bot: i64| strategy_for(budget_of(level, bot), ratio_text(ratio, bot)).unwrap(),
    )
}

/// What a table of strategies holds.
pub open spec fn strategy_views(map: Map<i64, Strategy>) -> Map<i64, StrategyView> {
    Map::new(|bot: i64| map.contains_key(bot), |bot: i64| map[bot]@)
}

/// Each tenant that has a strategy so far has it from a budget under which
/// it is listed.
spec fn settled(
    level: Map<u64, Vec<i64>>,
    ratio: Map<i64, String>,
    strategies: Map<i64, Strategy>,
    budgets: Map<i64, u64>,
) -> bool {
    &&& forall|bot: i64| strategies.contains_key(bot) <==> budgets.contains_key(bot)
    &&& forall|bot: i64| #[trigger]
        budgets.contains_key(bot) ==> listed(level, budgets[bot], bot) && strategy_for(
            budgets[bot],
            ratio_text(ratio, bot),
        ) == Some(strategies[bot]@)
}

/// Resolves a configuration into the strategies of its tenants.
///
/// Succeeds exactly where no tenant is listed under two budgets and every
/// listed tenant's ratio text can be resolved against its budget; nothing is
/// handed out otherwise.
pub fn generate(lev: &Level, rat: &Ratio) -> (result: Result<Strategies, Error>)
    ensures
        match result {
            Ok(strategies) => generable(lev@, rat@) && strategy_views(strategies@) == generated(
                lev@,
                rat@,
            ),
            Err(error) => error == Error::InvalidConfig && !generable(lev@, rat@),
        },
{
    let mut strategies: HashMap<i64, Strategy> = HashMap::new();
    let mut budgets: HashMap<i64, u64> = HashMap::new();
    let ratios = rat.map();
    let levels = lev.map();
    let ghost pairs = levels.iter().remaining();
    let ghost mut seen: int = 0;
    for pair in it: levels.iter()
        invariant
            levels@ == lev@,
            ratios@ == rat@,
            it.seq() == pairs,
            it.index() == seen,
            0 <= seen <= pairs.len(),
            forall|at: int|
                0 <= at < pairs.len() ==> levels@.contains_key(*(#[trigger] pairs[at]).0)
                    && levels@[*pairs[at].0] == *pairs[at].1,
            forall|total: u64|
                levels@.contains_key(total) ==> exists|at: int|
                    0 <= at < pairs.len() && *(#[trigger] pairs[at]).0 == total,
            settled(lev@, rat@, strategies@, budgets@),
            forall|at: int, bot: i64|
                0 <= at < seen && (#[trigger] pairs[at]).1@.contains(bot)
                    ==> #[trigger] budgets@.contains_key(bot) && budgets@[bot] == *pairs[at].0,
    {
        let (total, bots) = pair;
        let mut j: usize = 0;
        while j < bots.len()
            invariant
                j <= bots.len(),
                0 <= seen < pairs.len(),
                levels@ == lev@,
                ratios@ == rat@,
                levels@.contains_key(*total) && levels@[*total] == *bots,
                settled(lev@, rat@, strategies@, budgets@),
                forall|at: int, bot: i64|
                    0 <= at < seen && (#[trigger] pairs[at]).1@.contains(bot)
                        ==> #[trigger] budgets@.contains_key(bot) && budgets@[bot]
                        == *pairs[at].0,
                forall|k: int|
                    0 <= k < j ==> budgets@.contains_key(#[trigger] bots@[k]) && budgets@[bots@[k]]
                        == *total,
            decreases bots.len() - j,
        {
            let bot = bots[j];
            assert(bots@.contains(bot));
            assert(listed(lev@, *total, bot));
            match budgets.get(&bot) {
                Some(budget) => {
                    if *budget != *total {
                        assert(listed(lev@, *budget, bot));
                        return Err(Error::InvalidConfig);
                    }
                },
                None => {
                    let text = match ratios.get(&bot) {
                        Some(text) => text.clone(),
                        None => String::new(),
                    };
                    assert(text@ == ratio_text(rat@, bot));
                    match generate_strategy_by_bot(*total, text) {
                        Err(error) => {
                            return Err(error);
                        },
                        Ok(strategy) => {
                            strategies.insert(bot, strategy);
                            budgets.insert(bot, *total);
                        },
                    }
                },
            }
            j = j + 1;
        }
        proof {
            assert forall|at: int, bot: i64|
                0 <= at < seen + 1 && (#[trigger] pairs[at]).1@.contains(
                    bot,
                ) implies #[trigger] budgets@.contains_key(bot) && budgets@[bot]
                == *pairs[at].0 by {
                if at == seen {
                    let k = choose|k: int| 0 <= k < bots@.len() && bots@[k] == bot;
                    assert(budgets@.contains_key(bots@[k]));
                }
            }
            seen = seen + 1;
        }
    }
    proof {
        let level = lev@;
        let ratio = rat@;
        assert forall|total: u64, bot: i64| #[trigger]
            listed(level, total, bot) implies budgets@.contains_key(bot) && budgets@[bot]
            == total by {
            let at = choose|at: int| 0 <= at < pairs.len() && *(#[trigger] pairs[at]).0 == total;
            assert(pairs[at].1@.contains(bot));
        }
        assert(strategy_views(strategies@) =~= generated(level, ratio)) by {
            assert forall|bot: i64|
                generated(level, ratio).contains_key(bot) implies strategy_views(
                strategies@,
            ).contains_key(bot) by {
                let total = choose|total: u64| listed(level, total, bot);
                assert(listed(level, total, bot));
            }
            assert forall|bot: i64| strategy_views(strategies@).contains_key(
                bot,
            ) implies generated(level, ratio).contains_key(bot) && strategy_views(
                strategies@,
            )[bot] == generated(level, ratio)[bot] by {
                assert(listed(level, budgets@[bot], bot));
            }
        }
    }
    Ok(strategies)
}

/// In the strategies of a configuration that can be resolved, the quotas of
/// a tenant's named endpoints and what is left under `"other"` add up to
/// the tenant's budget.
pub proof fn strategies_add_up(
    level: Map<u64, Vec<i64>>,
    ratio: Map<i64, String>,
    total: u64,
    bot: i64,
)
    requires
        generable(level, ratio),
        listed(level, total, bot),
    ensures
        generated(level, ratio).contains_key(bot),
        explicit_sum(generated(level, ratio)[bot].entries) + generated(level, ratio)[bot].other
            == total,
{
    assert(listed(level, budget_of(level, bot), bot));
    assert(budget_of(level, bot) == total);
    let text = ratio_text(ratio, bot);
    assert(strategy_for(total, text) is Some);
    if text.len() != 0 {
        match ratio_document(text) {
            RatioDocumentView::Object(entries) => {
                lemma_resolved_sum(entries, total);
            },
            _ => {},
        }
    }
}

/// Some listed tenant's ratio text is not JSON, or is an object with an
/// entry that asks for no quota.
pub open spec fn unreadable(level: Map<u64, Vec<i64>>, ratio: Map<i64, String>) -> bool {
    exists|total: u64, bot: i64|
        #![trigger listed(level, total, bot)]
        listed(level, total, bot) && ratio_text(ratio, bot).len() != 0 && (match ratio_document(
            ratio_text(ratio, bot),
        ) {
            RatioDocumentView::Malformed => true,
            RatioDocumentView::NotObject => false,
            RatioDocumentView::Object(entries) => !all_numeric(entries, total),
        })
}

/// Some listed tenant's ratio entries ask for more than the tenant's
/// budget.
pub open spec fn over_budget(level: Map<u64, Vec<i64>>, ratio: Map<i64, String>) -> bool {
    exists|total: u64, bot: i64|
        #![trigger listed(level, total, bot)]
        listed(level, total, bot) && ratio_text(ratio, bot).len() != 0 && (match ratio_document(
            ratio_text(ratio, bot),
        ) {
            RatioDocumentView::Object(entries) => requested(entries, total) > total,
            _ => false,
        })
}

/// A configuration is refused exactly where a tenant is listed under two
/// budgets, a ratio text cannot be read, or the ratio entries of a tenant
/// ask for more than the tenant's budget.
pub proof fn refused_iff_flawed(level: Map<u64, Vec<i64>>, ratio: Map<i64, String>)
    ensures
        !generable(level, ratio) <==> !consistent(level) || unreadable(level, ratio) || over_budget(
            level,
            ratio,
        ),
{
    if unreadable(level, ratio) {
        let (total, bot) = choose|total: u64, bot: i64|
            #![trigger listed(level, total, bot)]
            listed(level, total, bot) && ratio_text(ratio, bot).len() != 0 && (match ratio_document(
                ratio_text(ratio, bot),
            ) {
                RatioDocumentView::Malformed => true,
                RatioDocumentView::NotObject => false,
                RatioDocumentView::Object(entries) => !all_numeric(entries, total),
            });
        assert(strategy_for(total, ratio_text(ratio, bot)) is None);
    }
    if over_budget(level, ratio) {
        let (total, bot) = choose|total: u64, bot: i64|
            #![trigger listed(level, total, bot)]
            listed(level, total, bot) && ratio_text(ratio, bot).len() != 0 && (match ratio_document(
                ratio_text(ratio, bot),
            ) {
                RatioDocumentView::Object(entries) => requested(entries, total) > total,
                _ => false,
            });
        assert(strategy_for(total, ratio_text(ratio, bot)) is None);
    }
    if !generable(level, ratio) && consistent(level) {
        let (total, bot) = choose|total: u64, bot: i64| #[trigger]
            listed(level, total, bot) && !(strategy_for(total, ratio_text(ratio, bot)) is Some);
        assert(listed(level, total, bot));
    }
}

/// Where no tenant is listed under two budgets and every ratio text can be
/// read, a configuration is refused exactly where the ratio entries of some
/// tenant ask for more than the tenant's budget.
pub proof fn refused_iff_over_budget(level: Map<u64, Vec<i64>>, ratio: Map<i64, String>)
    requires
        consistent(level),
        !unreadable(level, ratio),
    ensures
        !generable(level, ratio) <==> over_budget(level, ratio),
{
    refused_iff_flawed(level, ratio);
}

} // verus!
