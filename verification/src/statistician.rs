//! Usage statistics: how many requests of each tenant on each endpoint were
//! allowed and denied, and the report that is made of them.

use vstd::prelude::*;
use crate::text::{decimal, decimal_text, signed_decimal, signed_decimal_text};

verus! {

/// The counts of one tenant on one endpoint.
pub struct Tally {
    pub bot: i64,
    pub api: String,
    pub allow: u64,
    pub deny: u64,
}

/// What a tally holds.
pub struct TallyView {
    pub bot: i64,
    pub api: Seq<char>,
    pub allow: u64,
    pub deny: u64,
}

impl View for Tally {
    type V = TallyView;

    open spec fn view(&self) -> TallyView {
        TallyView { bot: self.bot, api: self.api@, allow: self.allow, deny: self.deny }
    }
}

/// The statistics since the last flush: one tally for each tenant and
/// endpoint that had a request, in the order of their first requests.
pub struct Statistics {
    rows: Vec<Tally>,
}

impl View for Statistics {
    type V = Seq<TallyView>;

    closed spec fn view(&self) -> Seq<TallyView> {
        Seq::new(self.rows@.len(), |i: int| self.rows@[i]@)
    }
}

/// The tallies hold one for tenant `bot` on endpoint `api`.
pub open spec fn has_row(rows: Seq<TallyView>, bot: i64, api: Seq<char>) -> bool {
    exists|i: int| 0 <= i < rows.len() && (#[trigger] rows[i]).bot == bot && rows[i].api == api
}

/// The place of the tally for tenant `bot` on endpoint `api`.
pub open spec fn row_of(rows: Seq<TallyView>, bot: i64, api: Seq<char>) -> int {
    choose|i: int| 0 <= i < rows.len() && (#[trigger] rows[i]).bot == bot && rows[i].api == api
}

/// No tenant has two tallies on one endpoint.
pub open spec fn distinct_rows(rows: Seq<TallyView>) -> bool {
    forall|i: int, j: int|
        0 <= i < j < rows.len() ==> !((#[trigger] rows[i]).bot == (#[trigger] rows[j]).bot
            && rows[i].api == rows[j].api)
}

/// A tally with one more request, allowed or denied.
pub open spec fn bumped(row: TallyView, allow: bool) -> TallyView {
    if allow {
        TallyView { bot: row.bot, api: row.api, allow: (row.allow + 1) as u64, deny: row.deny }
    } else {
        TallyView { bot: row.bot, api: row.api, allow: row.allow, deny: (row.deny + 1) as u64 }
    }
}

/// The tally of a first request.
pub open spec fn first_tally(bot: i64, api: Seq<char>, allow: bool) -> TallyView {
    if allow {
        TallyView { bot, api, allow: 1, deny: 0 }
    } else {
        TallyView { bot, api, allow: 0, deny: 1 }
    }
}

/// The tallies after one more request of tenant `bot` on endpoint `api`.
pub open spec fn recorded(rows: Seq<TallyView>, bot: i64, api: Seq<char>, allow: bool) -> Seq<
    TallyView,
> {
    if has_row(rows, bot, api) {
        let at = row_of(rows, bot, api);
        rows.update(at, bumped(rows[at], allow))
    } else {
        rows.push(first_tally(bot, api, allow))
    }
}

/// The count that one more request would raise is below `u64::MAX`.
pub open spec fn has_room(rows: Seq<TallyView>, bot: i64, api: Seq<char>, allow: bool) -> bool {
    has_row(rows, bot, api) ==> if allow {
        rows[row_of(rows, bot, api)].allow < u64::MAX
    } else {
        rows[row_of(rows, bot, api)].deny < u64::MAX
    }
}

/// The number of requests that the tallies count as allowed, for `allow`,
/// or as denied.
pub open spec fn tallied(rows: Seq<TallyView>, allow: bool) -> nat
    decreases rows.len(),
{
    if rows.len() == 0 {
        0
    } else if allow {
        tallied(rows.drop_last(), allow) + rows.last().allow as nat
    } else {
        tallied(rows.drop_last(), allow) + rows.last().deny as nat
    }
}

/// The number of requests that the tallies count.
pub open spec fn decisions(rows: Seq<TallyView>) -> nat {
    tallied(rows, true) + tallied(rows, false)
}

/// One more request in a tally is one more request of its kind in all, and
/// none of the other kind.
proof fn lemma_tallied_bumped(rows: Seq<TallyView>, at: int, allow: bool, kind: bool)
    requires
        0 <= at < rows.len(),
        if allow {
            rows[at].allow < u64::MAX
        } else {
            rows[at].deny < u64::MAX
        },
    ensures
        tallied(rows.update(at, bumped(rows[at], allow)), kind) == tallied(rows, kind) + if kind
            == allow {
            1nat
        } else {
            0nat
        },
    decreases rows.len(),
{
    let after = rows.update(at, bumped(rows[at], allow));
    if at == rows.len() - 1 {
        assert(after.drop_last() =~= rows.drop_last());
    } else {
        assert(after.drop_last() =~= rows.drop_last().update(
            at,
            bumped(rows.drop_last()[at], allow),
        ));
        lemma_tallied_bumped(rows.drop_last(), at, allow, kind);
    }
}

/// Recording a request raises the number of requests of its kind by one
/// and leaves the number of the other kind.
pub(crate) proof fn lemma_tallied_recorded(
    rows: Seq<TallyView>,
    bot: i64,
    api: Seq<char>,
    allow: bool,
)
    requires
        has_room(rows, bot, api, allow),
    ensures
        tallied(recorded(rows, bot, api, allow), allow) == tallied(rows, allow) + 1,
        tallied(recorded(rows, bot, api, allow), !allow) == tallied(rows, !allow),
        decisions(recorded(rows, bot, api, allow)) == decisions(rows) + 1,
{
    if has_row(rows, bot, api) {
        lemma_tallied_bumped(rows, row_of(rows, bot, api), allow, true);
        lemma_tallied_bumped(rows, row_of(rows, bot, api), allow, false);
    } else {
        assert(rows.push(first_tally(bot, api, allow)).drop_last() =~= rows);
    }
}

impl Statistics {
    /// No tenant has two tallies on one endpoint.
    pub open spec fn wf(&self) -> bool {
        distinct_rows(self@)
    }

    /// Statistics without a request.
    pub fn new() -> (statistics: Self)
        ensures
            statistics.wf(),
            statistics@ == Seq::<TallyView>::empty(),
    {
        let statistics = Statistics { rows: Vec::new() };
        statistics
    }

    /// The number of tallies.
    pub fn len(&self) -> (len: usize)
        ensures
            len == self@.len(),
    {
        self.rows.len()
    }

    /// The tally at place `at`.
    pub fn row(&self, at: usize) -> (tally: &Tally)
        requires
            at < self@.len(),
        ensures
            tally@ == self@[at as int],
    {
        &self.rows[at]
    }

    /// The place of the tally for tenant `bot` on endpoint `api`, if there
    /// is one.
    fn find(&self, bot: i64, api: &String) -> (found: Option<usize>)
        requires
            self.wf(),
        ensures
            match found {
                Some(at) => has_row(self@, bot, api@) && at == row_of(self@, bot, api@),
                None => !has_row(self@, bot, api@),
            },
    {
        let mut i: usize = 0;
        while i < self.rows.len()
            invariant
                i <= self.rows.len(),
                self.wf(),
                forall|j: int|
                    0 <= j < i ==> !((#[trigger] self@[j]).bot == bot && self@[j].api == api@),
            decreases self.rows.len() - i,
        {
            if self.rows[i].bot == bot && self.rows[i].api == *api {
                assert(self@[i as int].bot == bot && self@[i as int].api == api@);
                return Some(i);
            }
            i = i + 1;
        }
        None
    }

    /// The counts of tenant `bot` on endpoint `api`, allowed and denied, if
    /// it had a request.
    pub fn get(&self, bot: i64, api: &str) -> (counts: Option<(u64, u64)>)
        requires
            self.wf(),
        ensures
            match counts {
                Some((allow, deny)) => has_row(self@, bot, api@) && allow == self@[row_of(
                    self@,
                    bot,
                    api@,
                )].allow && deny == self@[row_of(self@, bot, api@)].deny,
                None => !has_row(self@, bot, api@),
            },
    {
        let key = String::from_str(api);
        match self.find(bot, &key) {
            Some(at) => Some((self.rows[at].allow, self.rows[at].deny)),
            None => None,
        }
    }

    /// Whether one more request of tenant `bot` on endpoint `api` can be
    /// counted.
    pub fn can_record(&self, bot: i64, api: &str, allow: bool) -> (room: bool)
        requires
            self.wf(),
        ensures
            room == has_room(self@, bot, api@, allow),
    {
        let key = String::from_str(api);
        match self.find(bot, &key) {
            Some(at) => if allow {
                self.rows[at].allow < u64::MAX
            } else {
                self.rows[at].deny < u64::MAX
            },
            None => true,
        }
    }
}

/// Counts one request of tenant `bot` on endpoint `key` as allowed or
/// denied.
pub fn statistic(map: &mut Statistics, bot: i64, key: String, allow: bool)
    requires
        old(map).wf(),
        has_room(old(map)@, bot, key@, allow),
    ensures
        final(map).wf(),
        final(map)@ == recorded(old(map)@, bot, key@, allow),
        tallied(final(map)@, allow) == tallied(old(map)@, allow) + 1,
        tallied(final(map)@, !allow) == tallied(old(map)@, !allow),
{
    let ghost before = map@;
    proof {
        lemma_tallied_recorded(before, bot, key@, allow);
    }
    match map.find(bot, &key) {
        Some(at) => {
            let row = &map.rows[at];
            let tally = if allow {
                Tally { bot, api: key, allow: row.allow + 1, deny: row.deny }
            } else {
                Tally { bot, api: key, allow: row.allow, deny: row.deny + 1 }
            };
            map.rows.set(at, tally);
            assert(map@ =~= recorded(before, bot, key@, allow));
        },
        None => {
            let tally = if allow {
                Tally { bot, api: key, allow: 1, deny: 0 }
            } else {
                Tally { bot, api: key, allow: 0, deny: 1 }
            };
            map.rows.push(tally);
            assert(map@ =~= recorded(before, bot, key@, allow));
        },
    }
}

/// One line of a report: the counts of one tenant on one endpoint, summed
/// over the statistics of several limiters.
pub struct LineView {
    pub bot: i64,
    pub api: Seq<char>,
    pub allow: nat,
    pub deny: nat,
}

struct Line {
    bot: i64,
    api: String,
    allow: u128,
    deny: u128,
}

impl View for Line {
    type V = LineView;

    closed spec fn view(&self) -> LineView {
        LineView { bot: self.bot, api: self.api@, allow: self.allow as nat, deny: self.deny as nat }
    }
}

spec fn line_views(lines: Seq<Line>) -> Seq<LineView> {
    Seq::new(lines.len(), |i: int| lines[i]@)
}

/// What each of several statistics holds.
pub open spec fn table_views(maps: Seq<Statistics>) -> Seq<Seq<TallyView>> {
    Seq::new(maps.len(), |k: int| maps[k]@)
}

/// The line that a tally opens: its tenant and endpoint with its counts.
pub open spec fn line_from(row: TallyView) -> LineView {
    LineView { bot: row.bot, api: row.api, allow: row.allow as nat, deny: row.deny as nat }
}

/// The lines hold one for tenant `bot` on endpoint `api`.
pub open spec fn has_line(lines: Seq<LineView>, bot: i64, api: Seq<char>) -> bool {
    exists|i: int| 0 <= i < lines.len() && (#[trigger] lines[i]).bot == bot && lines[i].api == api
}

/// The place of the line for tenant `bot` on endpoint `api`.
pub open spec fn line_of(lines: Seq<LineView>, bot: i64, api: Seq<char>) -> int {
    choose|i: int| 0 <= i < lines.len() && (#[trigger] lines[i]).bot == bot && lines[i].api == api
}

/// The lines with the counts of `row` added: to the line of its tenant and
/// endpoint where there is one, else as a new line behind the others.
pub open spec fn add_row(lines: Seq<LineView>, row: TallyView) -> Seq<LineView> {
    if has_line(lines, row.bot, row.api) {
        let at = line_of(lines, row.bot, row.api);
        lines.update(
            at,
            LineView {
                bot: lines[at].bot,
                api: lines[at].api,
                allow: lines[at].allow + row.allow as nat,
                deny: lines[at].deny + row.deny as nat,
            },
        )
    } else {
        lines.push(line_from(row))
    }
}

/// The lines with the first `n` of `rows` added.
pub open spec fn absorbed(lines: Seq<LineView>, rows: Seq<TallyView>, n: nat) -> Seq<LineView>
    decreases n,
{
    if n == 0 {
        lines
    } else {
        add_row(absorbed(lines, rows, (n - 1) as nat), rows[n - 1])
    }
}

/// The lines of the first `n` statistics, added up.
pub open spec fn merged_upto(maps: Seq<Seq<TallyView>>, n: nat) -> Seq<LineView>
    decreases n,
{
    if n == 0 {
        Seq::empty()
    } else {
        absorbed(merged_upto(maps, (n - 1) as nat), maps[n - 1], maps[n - 1].len())
    }
}

/// The lines of a report of several statistics: one for each tenant and
/// endpoint that any of them has a tally for, in the order in which the
/// statistics first name them, with the counts of all of them added up.
/// No statistics give no lines.
pub open spec fn merged(maps: Seq<Seq<TallyView>>) -> Seq<LineView> {
    merged_upto(maps, maps.len())
}

/// A line as text.
pub open spec fn line_text(line: LineView) -> Seq<char> {
    "+"@ + line.api + "  allow:"@ + decimal(line.allow) + "  deny:"@ + decimal(line.deny) + "\n"@
}

/// The text of those of the first `n` lines that belong to tenant `bot`.
pub open spec fn group_text(lines: Seq<LineView>, bot: i64, n: nat) -> Seq<char>
    decreases n,
{
    if n == 0 {
        Seq::empty()
    } else if lines[n - 1].bot == bot {
        group_text(lines, bot, (n - 1) as nat) + line_text(lines[n - 1])
    } else {
        group_text(lines, bot, (n - 1) as nat)
    }
}

/// No line before the one at `at` belongs to the same tenant.
pub open spec fn leads(lines: Seq<LineView>, at: int) -> bool {
    forall|j: int| 0 <= j < at ==> (#[trigger] lines[j]).bot != lines[at].bot
}

/// What the line at `at` adds to a report: for the first line of a tenant
/// the tenant's heading and all its lines, for a later one nothing.
pub open spec fn block_text(lines: Seq<LineView>, at: int) -> Seq<char> {
    if leads(lines, at) {
        "bot:"@ + signed_decimal(lines[at].bot as int) + "\n"@ + group_text(
            lines,
            lines[at].bot,
            lines.len(),
        )
    } else {
        Seq::empty()
    }
}

/// What the first `n` lines add to a report.
pub open spec fn body_text(lines: Seq<LineView>, n: nat) -> Seq<char>
    decreases n,
{
    if n == 0 {
        Seq::empty()
    } else {
        body_text(lines, (n - 1) as nat) + block_text(lines, n - 1)
    }
}

/// The report of the given lines under the given date: a heading, the
/// tenants in the order of their first lines, each with its lines in their
/// order, and a closing line.
pub open spec fn report_text(date: Seq<char>, lines: Seq<LineView>) -> Seq<char> {
    ">>>>>> Limiter.report: "@ + date + "\n"@ + body_text(lines, lines.len()) + "<<<<<< over."@
}

/// The report of no statistics is the heading and the closing line.
pub proof fn report_of_nothing(date: Seq<char>)
    ensures
        report_text(date, merged(Seq::empty())) == ">>>>>> Limiter.report: "@ + date + "\n"@
            + "<<<<<< over."@,
{
    assert(body_text(Seq::<LineView>::empty(), 0) =~= Seq::<char>::empty());
}

spec fn distinct_lines(lines: Seq<LineView>) -> bool {
    forall|i: int, j: int|
        0 <= i < j < lines.len() ==> !((#[trigger] lines[i]).bot == (#[trigger] lines[j]).bot
            && lines[i].api == lines[j].api)
}

/// Some tally among the first `n` of `rows` is for the tenant and endpoint
/// of `line`.
spec fn touched(line: LineView, rows: Seq<TallyView>, n: int) -> bool {
    exists|j: int| 0 <= j < n && (#[trigger] rows[j]).bot == line.bot && rows[j].api == line.api
}

spec fn within(line: Line, rows: Seq<TallyView>, n: int, k: int) -> bool {
    let bound = if touched(line@, rows, n) {
        (k + 1) * u64::MAX
    } else {
        k * u64::MAX
    };
    line.allow <= bound && line.deny <= bound
}

fn find_line(lines: &Vec<Line>, bot: i64, api: &String) -> (found: Option<usize>)
    requires
        distinct_lines(line_views(lines@)),
    ensures
        match found {
            Some(at) => has_line(line_views(lines@), bot, api@) && at == line_of(
                line_views(lines@),
                bot,
                api@,
            ),
            None => !has_line(line_views(lines@), bot, api@),
        },
{
    let ghost views = line_views(lines@);
    let mut i: usize = 0;
    while i < lines.len()
        invariant
            i <= lines.len(),
            views == line_views(lines@),
            distinct_lines(views),
            forall|j: int|
                0 <= j < i ==> !((#[trigger] views[j]).bot == bot && views[j].api == api@),
        decreases lines.len() - i,
    {
        if lines[i].bot == bot && lines[i].api == *api {
            assert(views[i as int].bot == bot && views[i as int].api == api@);
            return Some(i);
        }
        i = i + 1;
    }
    None
}

fn merge(maps: &Vec<Statistics>) -> (lines: Vec<Line>)
    requires
        forall|k: int| 0 <= k < maps@.len() ==> (#[trigger] maps@[k]).wf(),
    ensures
        line_views(lines@) == merged(table_views(maps@)),
{
    let ghost tables = table_views(maps@);
    let mut lines: Vec<Line> = Vec::new();
    assert(line_views(lines@) =~= merged_upto(tables, 0));
    let mut k: usize = 0;
    while k < maps.len()
        invariant
            k <= maps.len(),
            tables == table_views(maps@),
            forall|k: int| 0 <= k < maps@.len() ==> (#[trigger] maps@[k]).wf(),
            line_views(lines@) == merged_upto(tables, k as nat),
            distinct_lines(line_views(lines@)),
            forall|i: int|
                0 <= i < lines@.len() ==> (#[trigger] lines@[i]).allow <= k * u64::MAX
                    && lines@[i].deny <= k * u64::MAX,
        decreases maps.len() - k,
    {
        let table = &maps[k];
        let ghost rows = table@;
        let ghost start = line_views(lines@);
        assert(tables[k as int] == rows);
        let mut j: usize = 0;
        while j < table.rows.len()
            invariant
                j <= table.rows.len(),
                k < maps.len(),
                rows == table@,
                distinct_rows(rows),
                line_views(lines@) == absorbed(start, rows, j as nat),
                distinct_lines(line_views(lines@)),
                forall|i: int|
                    0 <= i < lines@.len() ==> within(#[trigger] lines@[i], rows, j as int, k as int),
            decreases table.rows.len() - j,
        {
            let row = &table.rows[j];
            let ghost before = line_views(lines@);
            assert(rows[j as int] == row@);
            match find_line(&lines, row.bot, &row.api) {
                Some(at) => {
                    let held = &lines[at];
                    proof {
                        assert(!touched(held@, rows, j as int)) by {
                            assert(rows[j as int].bot == held@.bot);
                            assert(rows[j as int].api == held@.api);
                        }
                        assert(k * u64::MAX + u64::MAX <= usize::MAX * u64::MAX) by (
                            nonlinear_arith)
                            requires
                                k < usize::MAX,
                        ;
                        assert(usize::MAX * u64::MAX <= u64::MAX * u64::MAX) by (nonlinear_arith)
                            requires
                                usize::MAX <= u64::MAX,
                        ;
                    }
                    let line = Line {
                        bot: held.bot,
                        api: held.api.clone(),
                        allow: held.allow + row.allow as u128,
                        deny: held.deny + row.deny as u128,
                    };
                    lines.set(at, line);
                    proof {
                        assert(line_views(lines@) =~= add_row(before, rows[j as int]));
                        assert forall|i: int| 0 <= i < lines@.len() implies within(
                            #[trigger] lines@[i],
                            rows,
                            j + 1,
                            k as int,
                        ) by {
                            if i != at {
                                lemma_touched_stays(lines@[i]@, rows, j as int);
                            }
                        }
                    }
                },
                None => {
                    let line = Line {
                        bot: row.bot,
                        api: row.api.clone(),
                        allow: row.allow as u128,
                        deny: row.deny as u128,
                    };
                    lines.push(line);
                    proof {
                        let last = lines@.len() - 1;
                        assert(line_views(lines@) =~= add_row(before, rows[j as int]));
                        assert(k * u64::MAX + u64::MAX == (k + 1) * u64::MAX) by (nonlinear_arith);
                        assert forall|i: int| 0 <= i < lines@.len() implies within(
                            #[trigger] lines@[i],
                            rows,
                            j + 1,
                            k as int,
                        ) by {
                            if i == last {
                                assert(rows[j as int].bot == lines@[i]@.bot);
                                assert(rows[j as int].api == lines@[i]@.api);
                                assert(touched(lines@[i]@, rows, j + 1));
                            } else {
                                assert(lines@[i]@ == before[i]);
                                lemma_touched_stays(lines@[i]@, rows, j as int);
                            }
                        }
                    }
                },
            }
            j = j + 1;
        }
        assert forall|i: int| 0 <= i < lines@.len() implies (#[trigger] lines@[i]).allow <= (k
            + 1) * u64::MAX && lines@[i].deny <= (k + 1) * u64::MAX by {
            assert(within(lines@[i], rows, j as int, k as int));
        }
        k = k + 1;
    }
    lines
}

proof fn lemma_touched_stays(line: LineView, rows: Seq<TallyView>, n: int)
    ensures
        touched(line, rows, n) ==> touched(line, rows, n + 1),
{
    if touched(line, rows, n) {
        let e = choose|e: int|
            0 <= e < n && (#[trigger] rows[e]).bot == line.bot && rows[e].api == line.api;
        assert(0 <= e < n + 1);
    }
}

/// Writes the report of several limiters' statistics under a given date.
pub fn render_report(date: &str, maps: &Vec<Statistics>) -> (text: String)
    requires
        forall|k: int| 0 <= k < maps@.len() ==> (#[trigger] maps@[k]).wf(),
    ensures
        text@ == report_text(date@, merged(table_views(maps@))),
{
    let lines = merge(maps);
    let ghost views = line_views(lines@);
    let mut text = String::from_str(">>>>>> Limiter.report: ");
    text.append(date);
    text.append("\n");
    let ghost head = text@;
    let mut i: usize = 0;
    while i < lines.len()
        invariant
            i <= lines.len(),
            views == line_views(lines@),
            text@ == head + body_text(views, i as nat),
        decreases lines.len() - i,
    {
        let bot = lines[i].bot;
        let mut leading = true;
        let mut j: usize = 0;
        while j < i
            invariant
                j <= i < lines.len(),
                views == line_views(lines@),
                bot == views[i as int].bot,
                leading == (forall|e: int| 0 <= e < j ==> (#[trigger] views[e]).bot != bot),
            decreases i - j,
        {
            if lines[j].bot == bot {
                assert(views[j as int].bot == bot);
                leading = false;
            }
            j = j + 1;
        }
        if leading {
            let number = signed_decimal_text(bot);
            text.append("bot:");
            text.append(number.as_str());
            text.append("\n");
            let ghost heading = text@;
            let mut e: usize = 0;
            while e < lines.len()
                invariant
                    e <= lines.len(),
                    views == line_views(lines@),
                    text@ == heading + group_text(views, bot, e as nat),
                decreases lines.len() - e,
            {
                let line = &lines[e];
                if line.bot == bot {
                    let allow = decimal_text(line.allow);
                    let deny = decimal_text(line.deny);
                    text.append("+");
                    text.append(line.api.as_str());
                    text.append("  allow:");
                    text.append(allow.as_str());
                    text.append("  deny:");
                    text.append(deny.as_str());
                    text.append("\n");
                }
                e = e + 1;
            }
        }
        i = i + 1;
    }
    text.append("<<<<<< over.");
    text
}

/// Today's date in the local time zone, written as year, month and day by
/// `chrono::Local::now` and `DateTime::format`. Nothing is claimed of the
/// text: it goes by the clock and the time zone of the machine.
#[verifier::external_body]
fn today() -> (date: String) {
    chrono::Local::now().format("%Y-%m-%d").to_string()
}

/// Writes the report of several limiters' statistics under today's date.
pub fn report(maps: Vec<Statistics>) -> (text: String)
    requires
        forall|k: int| 0 <= k < maps@.len() ==> (#[trigger] maps@[k]).wf(),
    ensures
        exists|date: Seq<char>| text@ == report_text(date, merged(table_views(maps@))),
{
    let date = today();
    render_report(date.as_str(), &maps)
}

} // verus!
