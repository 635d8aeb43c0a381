//! The rate-limit ledger: a fixed-window counter per (key, method) pair.

use vstd::prelude::*;
use crate::table::StrTable;
use crate::models::{RateLimit, RateLimited};

verus! {

/// One cell of the ledger: when the current window opened and how many
/// requests have been counted in it, the denied ones included.
#[derive(PartialEq, Eq, Structural, Clone, Copy, Debug)]
pub struct RateCell {
    pub window_start: u64,
    pub count: usize,
}

/// The ledger. In the running server one such value sits behind a lock.
pub struct RateLimitTracker {
    table: StrTable<RateCell>,
}

/// The composite ledger key: the path and the method, joined as one string.
pub open spec fn rate_key(path: Seq<char>, method: Seq<char>) -> Seq<char> {
    path + seq!['|'] + method
}

/// One check against a cell: a first or expired window opens anew with this
/// request counted and admitted; otherwise the request is counted, and
/// admitted only while the count stays within the budget.
pub open spec fn rate_step(cell: Option<RateCell>, now: u64, requests: usize, window_ms: u64) -> (
    RateCell,
    bool,
) {
    match cell {
        Option::None => (RateCell { window_start: now, count: 1 }, true),
        Option::Some(c) => if now > c.window_start && now - c.window_start > window_ms {
            (RateCell { window_start: now, count: 1 }, true)
        } else {
            let n: usize = if c.count < usize::MAX {
                (c.count + 1) as usize
            } else {
                c.count
            };
            (RateCell { window_start: c.window_start, count: n }, n <= requests)
        },
    }
}

/// What one rate-limit check does: with no budget the ledger is untouched
/// and the request admitted; with a budget, the (key, method) cell steps by
/// `rate_step` and the verdict is the step's.
pub open spec fn rate_check_rel(
    before: Map<Seq<char>, RateCell>,
    after: Map<Seq<char>, RateCell>,
    admitted: bool,
    path: Seq<char>,
    method: Seq<char>,
    limit: Option<RateLimit>,
    now: u64,
) -> bool {
    match limit {
        Option::None => after == before && admitted,
        Option::Some(l) => {
            let key = rate_key(path, method);
            let cell = if before.contains_key(key) {
                Some(before[key])
            } else {
                None
            };
            let step = rate_step(cell, now, l.requests, l.window_ms);
            after == before.insert(key, step.0) && admitted == step.1
        },
    }
}

/// The budget a borrowed option refers to, as a value.
pub open spec fn deref_limit(rate_limit: Option<&RateLimit>) -> Option<RateLimit> {
    match rate_limit {
        Some(l) => Some(*l),
        None => None,
    }
}

impl RateLimitTracker {
    pub closed spec fn view(&self) -> Map<Seq<char>, RateCell> {
        self.table@
    }

    pub closed spec fn wf(&self) -> bool {
        self.table.wf()
    }

    /// The cell now stored for (path, method), if any.
    pub fn cell(&self, path: &str, method: &str) -> (r: Option<&RateCell>)
        requires
            self.wf(),
        ensures
            match r {
                Some(c) => self@.contains_key(rate_key(path@, method@)) && self@[rate_key(
                    path@,
                    method@,
                )] == *c,
                None => !self@.contains_key(rate_key(path@, method@)),
            },
    {
        let key = make_rate_key(path, method);
        self.table.get(key.as_str())
    }
}

/// Initializes an empty ledger.
pub fn new_rate_limit() -> (r: RateLimitTracker)
    ensures
        r.wf(),
        r@ == Map::<Seq<char>, RateCell>::empty(),
{
    RateLimitTracker { table: StrTable::new() }
}

fn make_rate_key(path: &str, method: &str) -> (r: String)
    ensures
        r@ == rate_key(path@, method@),
{
    let mut key = path.to_owned();
    key.append("|");
    key.append(method);
    proof {
        reveal_strlit("|");
        assert("|"@ =~= seq!['|']);
        assert(key@ =~= rate_key(path@, method@));
    }
    key
}

/// Checks and counts one request at the given instant: the verified core of
/// the rate gate.
pub fn check_rate_limit_at(
    path: &str,
    method: &str,
    rate_limit: Option<&RateLimit>,
    tracker: &mut RateLimitTracker,
    now_ms: u64,
) -> (r: Result<(), RateLimited>)
    requires
        old(tracker).wf(),
    ensures
        final(tracker).wf(),
        rate_check_rel(
            old(tracker)@,
            final(tracker)@,
            r is Ok,
            path@,
            method@,
            deref_limit(rate_limit),
            now_ms,
        ),
{
    match rate_limit {
        None => Ok(()),
        Some(l) => {
            let key = make_rate_key(path, method);
            let (new_cell, admitted) = match tracker.table.get(key.as_str()) {
                None => (RateCell { window_start: now_ms, count: 1 }, true),
                Some(c) => {
                    if now_ms > c.window_start && now_ms - c.window_start > l.window_ms {
                        (RateCell { window_start: now_ms, count: 1 }, true)
                    } else {
                        let n: usize = if c.count < usize::MAX {
                            c.count + 1
                        } else {
                            c.count
                        };
                        (RateCell { window_start: c.window_start, count: n }, n <= l.requests)
                    }
                },
            };
            tracker.table.insert(key, new_cell);
            if admitted {
                Ok(())
            } else {
                Err(RateLimited)
            }
        },
    }
}

/// Relies on `chrono::Utc::now`: the wall clock, in milliseconds. Nothing is
/// assumed of the value it returns.
#[verifier::external_body]
fn now_millis() -> u64 {
    chrono::Utc::now().timestamp_millis().max(0) as u64
}

/// Checks and counts one request at the present instant. The clock is read
/// once; everything else is `check_rate_limit_at` on what it returned.
pub fn check_rate_limit(
    path: &str,
    method: &str,
    rate_limit: Option<&RateLimit>,
    tracker: &mut RateLimitTracker,
) -> (r: Result<(), RateLimited>)
    requires
        old(tracker).wf(),
    ensures
        final(tracker).wf(),
        exists|now: u64|
            #[trigger] rate_check_rel(
                old(tracker)@,
                final(tracker)@,
                r is Ok,
                path@,
                method@,
                deref_limit(rate_limit),
                now,
            ),
{
    let now = now_millis();
    let r = check_rate_limit_at(path, method, rate_limit, tracker, now);
    proof {
        assert(rate_check_rel(
            old(tracker)@,
            final(tracker)@,
            r is Ok,
            path@,
            method@,
            deref_limit(rate_limit),
            now,
        ));
    }
    r
}

/// The number of admissions a run of checks yields, starting from `cell`.
pub open spec fn admitted_count(
    cell: Option<RateCell>,
    times: Seq<u64>,
    requests: usize,
    window_ms: u64,
) -> int
    decreases times.len(),
{
    if times.len() == 0 {
        0
    } else {
        let step = rate_step(cell, times[0], requests, window_ms);
        (if step.1 {
            1int
        } else {
            0int
        }) + admitted_count(Some(step.0), times.drop_first(), requests, window_ms)
    }
}

proof fn lemma_rate_run_bound(cell: RateCell, times: Seq<u64>, requests: usize, window_ms: u64)
    requires
        cell.count >= 1,
        cell.count + times.len() <= usize::MAX,
        forall|i: int|
            0 <= i < times.len() ==> #[trigger] times[i] as int - cell.window_start as int
                <= (window_ms as int),
    ensures
        admitted_count(Some(cell), times, requests, window_ms) <= if requests >= cell.count {
            requests - cell.count
        } else {
            0
        },
    decreases times.len(),
{
    if times.len() > 0 {
        let step = rate_step(Some(cell), times[0], requests, window_ms);
        assert(!(times[0] > cell.window_start && times[0] - cell.window_start > window_ms));
        assert(step.0.window_start == cell.window_start);
        assert(step.0.count == cell.count + 1);
        assert(step.1 == (cell.count + 1 <= requests));
        assert(forall|i: int|
            0 <= i < times.drop_first().len() ==> #[trigger] times.drop_first()[i] as int
                - cell.window_start as int <= window_ms as int);
        lemma_rate_run_bound(step.0, times.drop_first(), requests, window_ms);
    }
}

/// Rate-limit tightness: starting from no cell, over any run of checks whose
/// instants all lie strictly within one window of the first, at most
/// `requests` checks are admitted.
pub proof fn lemma_rate_limit_tight(times: Seq<u64>, requests: usize, window_ms: u64)
    requires
        requests >= 1,
        times.len() >= 1,
        times.len() <= usize::MAX,
        forall|i: int|
            0 <= i < times.len() ==> (#[trigger] times[i] as int - times[0] as int) < (window_ms as int),
    ensures
        admitted_count(None, times, requests, window_ms) <= requests,
{
    let first = rate_step(None, times[0], requests, window_ms);
    assert(first.0 == RateCell { window_start: times[0], count: 1 });
    assert(first.1);
    assert(forall|i: int|
        0 <= i < times.drop_first().len() ==> #[trigger] times.drop_first()[i] as int
            - times[0] as int <= window_ms as int);
    lemma_rate_run_bound(first.0, times.drop_first(), requests, window_ms);
}

/// At a window boundary the first later call resets the window: it is
/// admitted, and the cell starts a fresh window at that instant.
pub proof fn lemma_window_reset(cell: RateCell, now: u64, requests: usize, window_ms: u64)
    requires
        now as int - cell.window_start as int > (window_ms as int),
    ensures
        rate_step(Some(cell), now, requests, window_ms) == (
            RateCell { window_start: now, count: 1 },
            true,
        ),
{
}

} // verus!
