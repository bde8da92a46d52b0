//! Creator earnings: the balance ledger, payouts and the settlement of pending revenue.

use crate::error::ErrorKind;
use crate::text::str_eq;
use vstd::prelude::*;

verus! {

/// A creator's balances, in minor currency units.
pub struct CreatorEarnings {
    pub creator_id: String,
    pub total_earnings: i64,
    pub available_balance: i64,
    pub pending_balance: i64,
    pub lifetime_earnings: i64,
    pub currency: String,
    pub last_payout_at: Option<i64>,
    pub updated_at: i64,
}

/// The states of a revenue record.
#[derive(Clone, Copy, Debug, PartialEq, Eq, Structural)]
pub enum RevenueStatus {
    Pending,
    Completed,
    Failed,
    Refunded,
}

/// One revenue record as settlement reads it; a record without an amount counts as zero.
pub struct RevenueEntry {
    pub amount: Option<i64>,
    pub status: RevenueStatus,
    pub created_at: i64,
    pub processed_at: Option<i64>,
}

/// Why a payout request was refused.
#[derive(Clone, Copy, Debug, PartialEq, Eq, Structural)]
pub enum PayoutError {
    /// The available balance is smaller than the amount.
    InsufficientBalance,
    /// The amount is below the platform's minimum payout.
    BelowMinimum,
}

impl PayoutError {
    /// The category under which the refusal is reported.
    pub fn kind(&self) -> (k: ErrorKind)
        ensures
            k == ErrorKind::BadRequest,
    {
        ErrorKind::BadRequest
    }
}

/// The smallest payout the platform makes, in cents.
pub const MINIMUM_PAYOUT_AMOUNT: i64 = 5000;

/// Earnings and payout rules.
pub struct RevenueService {
    minimum_payout_amount: i64,
}

impl RevenueService {
    /// Every revenue service applies the platform minimum.
    #[verifier::type_invariant]
    spec fn applies_platform_minimum(self) -> bool {
        self.minimum_payout_amount == MINIMUM_PAYOUT_AMOUNT
    }

    /// The minimum payout this service applies, in cents.
    pub closed spec fn spec_minimum_payout(self) -> i64 {
        self.minimum_payout_amount
    }

    /// A revenue service; its minimum payout is the platform's, 5000 cents.
    pub fn new() -> (s: Self)
        ensures
            s.spec_minimum_payout() == MINIMUM_PAYOUT_AMOUNT,
    {
        RevenueService { minimum_payout_amount: MINIMUM_PAYOUT_AMOUNT }
    }

    /// The minimum payout this service applies, in cents (the figure the revenue
    /// dashboard shows): always 5000.
    pub fn minimum_payout_amount(&self) -> (m: i64)
        ensures
            m == self.spec_minimum_payout(),
            m == MINIMUM_PAYOUT_AMOUNT,
    {
        proof {
            use_type_invariant(self);
        }
        self.minimum_payout_amount
    }
}

/// How long revenue stays pending before it becomes available: thirty days, in seconds.
pub const SETTLEMENT_DELAY_SECONDS: i64 = 2592000;

/// The amount a revenue record counts for.
pub open spec fn spec_entry_amount(e: RevenueEntry) -> int {
    match e.amount {
        Some(a) => a as int,
        None => 0,
    }
}

/// Whether a record is settled at time `now`: pending and at least thirty days old.
pub open spec fn spec_settles(e: RevenueEntry, now: int) -> bool {
    e.status == RevenueStatus::Pending && e.created_at <= now - SETTLEMENT_DELAY_SECONDS
}

/// The total amount of the records that settle at time `now`.
pub open spec fn spec_settled_total(entries: Seq<RevenueEntry>, now: int) -> int
    decreases entries.len(),
{
    if entries.len() == 0 {
        0
    } else {
        spec_settled_total(entries.drop_last(), now) + if spec_settles(entries.last(), now) {
            spec_entry_amount(entries.last())
        } else {
            0
        }
    }
}

impl CreatorEarnings {
    /// The balances of a creator who has no earnings record yet: all zero, in USD.
    pub fn empty(creator_id: &str, now: i64) -> (e: Self)
        ensures
            e.creator_id@ == creator_id@,
            e.total_earnings == 0 && e.available_balance == 0 && e.pending_balance == 0
                && e.lifetime_earnings == 0,
            e.currency@ == "USD"@,
            e.last_payout_at is None,
            e.updated_at == now,
    {
        CreatorEarnings {
            creator_id: String::from_str(creator_id),
            total_earnings: 0,
            available_balance: 0,
            pending_balance: 0,
            lifetime_earnings: 0,
            currency: String::from_str("USD"),
            last_payout_at: None,
            updated_at: now,
        }
    }

    /// Records new revenue: it counts toward the total, the lifetime earnings and the
    /// pending balance.
    pub fn record_revenue(&mut self, amount: i64, now: i64)
        requires
            i64::MIN <= old(self).total_earnings + amount <= i64::MAX,
            i64::MIN <= old(self).pending_balance + amount <= i64::MAX,
            i64::MIN <= old(self).lifetime_earnings + amount <= i64::MAX,
        ensures
            final(self).total_earnings == old(self).total_earnings + amount,
            final(self).pending_balance == old(self).pending_balance + amount,
            final(self).lifetime_earnings == old(self).lifetime_earnings + amount,
            final(self).available_balance == old(self).available_balance,
            final(self).last_payout_at == old(self).last_payout_at,
            final(self).creator_id == old(self).creator_id,
            final(self).currency == old(self).currency,
            final(self).updated_at == now,
    {
        self.total_earnings = self.total_earnings + amount;
        self.pending_balance = self.pending_balance + amount;
        self.lifetime_earnings = self.lifetime_earnings + amount;
        self.updated_at = now;
    }

    /// Takes a payout out of the available balance; the balance never goes negative.
    pub fn apply_payout(&mut self, amount: i64, now: i64) -> (done: bool)
        requires
            amount >= 0,
        ensures
            done == (old(self).available_balance >= amount),
            done ==> final(self).available_balance == old(self).available_balance - amount
                && final(self).updated_at == now,
            !done ==> final(self).available_balance == old(self).available_balance && final(self).updated_at
                == old(self).updated_at,
            final(self).available_balance >= 0 || final(self).available_balance == old(self).available_balance,
            final(self).pending_balance == old(self).pending_balance,
            final(self).total_earnings == old(self).total_earnings,
            final(self).lifetime_earnings == old(self).lifetime_earnings,
            final(self).last_payout_at == old(self).last_payout_at,
    {
        if self.available_balance >= amount {
            self.available_balance = self.available_balance - amount;
            self.updated_at = now;
            true
        } else {
            false
        }
    }

    /// Moves settled revenue from the pending to the available balance (nothing when the
    /// settled total is not positive) and marks the time of the payout.
    pub fn apply_settlement(&mut self, settled_total: i64, now: i64)
        requires
            i64::MIN <= old(self).pending_balance - settled_total <= i64::MAX,
            i64::MIN <= old(self).available_balance + settled_total <= i64::MAX,
        ensures
            settled_total > 0 ==> final(self).pending_balance == old(self).pending_balance - settled_total
                && final(self).available_balance == old(self).available_balance + settled_total,
            settled_total <= 0 ==> final(self).pending_balance == old(self).pending_balance
                && final(self).available_balance == old(self).available_balance,
            final(self).pending_balance + final(self).available_balance == old(self).pending_balance + old(
                self,
            ).available_balance,
            final(self).total_earnings == old(self).total_earnings,
            final(self).lifetime_earnings == old(self).lifetime_earnings,
            final(self).last_payout_at == Some(now),
            final(self).updated_at == now,
    {
        self.last_payout_at = Some(now);
        if settled_total > 0 {
            self.pending_balance = self.pending_balance - settled_total;
            self.available_balance = self.available_balance + settled_total;
        }
        self.updated_at = now;
    }
}

impl RevenueService {
    /// The checks of a payout request, in order: the available balance covers the amount,
    /// and the amount reaches the platform minimum of 5000 cents.
    pub fn check_payout(&self, available_balance: i64, amount: i64) -> (r: Result<(), PayoutError>)
        ensures
            available_balance < amount ==> r == Err::<(), PayoutError>(PayoutError::InsufficientBalance),
            available_balance >= amount && amount < MINIMUM_PAYOUT_AMOUNT ==> r == Err::<(), PayoutError>(
                PayoutError::BelowMinimum,
            ),
            available_balance >= amount && amount >= MINIMUM_PAYOUT_AMOUNT ==> r is Ok,
    {
        proof {
            use_type_invariant(self);
        }
        if available_balance < amount {
            return Err(PayoutError::InsufficientBalance);
        }
        if amount < self.minimum_payout_amount {
            return Err(PayoutError::BelowMinimum);
        }
        Ok(())
    }

    /// Settles the revenue records that are pending and at least thirty days old at time
    /// `now`: they become completed and processed at `now`. Gives their total amount.
    pub fn settle_pending_revenues(entries: &mut Vec<RevenueEntry>, now: i64) -> (total: i64)
        requires
            now >= i64::MIN + SETTLEMENT_DELAY_SECONDS,
            forall|k: int|
                0 <= k <= old(entries)@.len() ==> i64::MIN <= #[trigger] spec_settled_total(
                    old(entries)@.take(k),
                    now as int,
                ) <= i64::MAX,
        ensures
            total == spec_settled_total(old(entries)@, now as int),
            final(entries)@.len() == old(entries)@.len(),
            spec_settled_from(old(entries)@, final(entries)@, now as int),
            forall|k: int|
                0 <= k < old(entries)@.len() ==> {
                    let before = #[trigger] old(entries)@[k];
                    let after = final(entries)@[k];
                    if spec_settles(before, now as int) {
                        after.status == RevenueStatus::Completed && after.processed_at == Some(now)
                            && after.amount == before.amount && after.created_at == before.created_at
                    } else {
                        after == before
                    }
                },
    {
        let cutoff: i64 = now - SETTLEMENT_DELAY_SECONDS;
        let mut total: i64 = 0;
        let mut i: usize = 0;
        let ghost original = entries@;
        assert(original.take(0) =~= Seq::<RevenueEntry>::empty());
        while i < entries.len()
            invariant
                cutoff == now - SETTLEMENT_DELAY_SECONDS,
                original == old(entries)@,
                entries@.len() == original.len(),
                i <= entries.len(),
                total == spec_settled_total(original.take(i as int), now as int),
                forall|k: int|
                    0 <= k <= original.len() ==> i64::MIN <= #[trigger] spec_settled_total(
                        original.take(k),
                        now as int,
                    ) <= i64::MAX,
                forall|k: int| i <= k < original.len() ==> #[trigger] entries@[k] == original[k],
                forall|k: int|
                    0 <= k < i ==> {
                        let before = #[trigger] original[k];
                        let after = entries@[k];
                        if spec_settles(before, now as int) {
                            after.status == RevenueStatus::Completed && after.processed_at == Some(now)
                                && after.amount == before.amount && after.created_at == before.created_at
                        } else {
                            after == before
                        }
                    },
            decreases entries.len() - i,
        {
            assert(original.take(i + 1).drop_last() =~= original.take(i as int));
            let settles = entries[i].status == RevenueStatus::Pending && entries[i].created_at <= cutoff;
            if settles {
                let amount: i64 = match entries[i].amount {
                    Some(a) => a,
                    None => 0,
                };
                assert(spec_settled_total(original.take(i + 1), now as int) == total + amount);
                total = total + amount;
                let e = RevenueEntry {
                    amount: entries[i].amount,
                    status: RevenueStatus::Completed,
                    created_at: entries[i].created_at,
                    processed_at: Some(now),
                };
                entries.set(i, e);
            }
            i = i + 1;
        }
        assert(original.take(original.len() as int) =~= original);
        total
    }
}

/// One row of revenue grouped by source: the source name and its sum and count, each
/// possibly missing.
pub struct RevenueGroupRow {
    pub source_type: Option<String>,
    pub total_amount: Option<i64>,
    pub count: Option<i64>,
}

/// Revenue of a period split by source.
pub struct RevenueBreakdown {
    pub subscription_revenue: i64,
    pub purchase_revenue: i64,
    pub tip_revenue: i64,
    pub ad_revenue: i64,
    pub total_revenue: i64,
    pub transaction_count: i32,
}

/// The amount of a grouped row (zero when missing).
pub open spec fn spec_row_amount(r: RevenueGroupRow) -> i64 {
    match r.total_amount {
        Some(a) => a,
        None => 0,
    }
}

/// The count of a grouped row as a 32-bit number (zero when missing).
pub open spec fn spec_row_count(r: RevenueGroupRow) -> int {
    match r.count {
        Some(c) => (c as i32) as int,
        None => 0,
    }
}

/// Whether a row belongs to the named source.
pub open spec fn spec_row_is(r: RevenueGroupRow, name: Seq<char>) -> bool {
    match r.source_type {
        Some(s) => s@ == name,
        None => name.len() == 0,
    }
}

/// The amount of the last row of the named source, zero when there is none.
pub open spec fn spec_last_amount(rows: Seq<RevenueGroupRow>, name: Seq<char>) -> i64
    decreases rows.len(),
{
    if rows.len() == 0 {
        0
    } else if spec_row_is(rows.last(), name) {
        spec_row_amount(rows.last())
    } else {
        spec_last_amount(rows.drop_last(), name)
    }
}

/// The sum of the row counts.
pub open spec fn spec_count_sum(rows: Seq<RevenueGroupRow>) -> int
    decreases rows.len(),
{
    if rows.len() == 0 {
        0
    } else {
        spec_count_sum(rows.drop_last()) + spec_row_count(rows.last())
    }
}

impl RevenueService {
    /// Splits grouped revenue rows by source as the revenue statistics do: the last row of
    /// each known source gives its amount; the counts of all rows add up.
    pub fn revenue_breakdown(rows: &Vec<RevenueGroupRow>) -> (b: RevenueBreakdown)
        requires
            forall|k: int| 0 <= k <= rows@.len() ==> i32::MIN <= #[trigger] spec_count_sum(rows@.take(k)) <= i32::MAX,
            i64::MIN <= spec_last_amount(rows@, "subscription"@) as int + spec_last_amount(rows@, "article_purchase"@)
                <= i64::MAX,
            i64::MIN <= spec_last_amount(rows@, "subscription"@) as int + spec_last_amount(rows@, "article_purchase"@)
                + spec_last_amount(rows@, "tip"@) <= i64::MAX,
            i64::MIN <= spec_last_amount(rows@, "subscription"@) as int + spec_last_amount(rows@, "article_purchase"@)
                + spec_last_amount(rows@, "tip"@) + spec_last_amount(rows@, "advertisement"@) <= i64::MAX,
        ensures
            b.subscription_revenue == spec_last_amount(rows@, "subscription"@),
            b.purchase_revenue == spec_last_amount(rows@, "article_purchase"@),
            b.tip_revenue == spec_last_amount(rows@, "tip"@),
            b.ad_revenue == spec_last_amount(rows@, "advertisement"@),
            b.total_revenue == b.subscription_revenue + b.purchase_revenue + b.tip_revenue + b.ad_revenue,
            b.transaction_count == spec_count_sum(rows@),
    {
        proof {
            reveal_strlit("subscription");
            reveal_strlit("article_purchase");
            reveal_strlit("tip");
            reveal_strlit("advertisement");
            assert("subscription"@.len() == 12);
            assert("article_purchase"@.len() == 16);
            assert("tip"@.len() == 3);
            assert("advertisement"@.len() == 13);
        }
        let mut subscription: i64 = 0;
        let mut purchase: i64 = 0;
        let mut tip: i64 = 0;
        let mut ad: i64 = 0;
        let mut count: i32 = 0;
        let mut i: usize = 0;
        assert(rows@.take(0) =~= Seq::<RevenueGroupRow>::empty());
        while i < rows.len()
            invariant
                i <= rows.len(),
                subscription == spec_last_amount(rows@.take(i as int), "subscription"@),
                purchase == spec_last_amount(rows@.take(i as int), "article_purchase"@),
                tip == spec_last_amount(rows@.take(i as int), "tip"@),
                ad == spec_last_amount(rows@.take(i as int), "advertisement"@),
                count == spec_count_sum(rows@.take(i as int)),
                forall|k: int| 0 <= k <= rows@.len() ==> i32::MIN <= #[trigger] spec_count_sum(rows@.take(k)) <= i32::MAX,
                "subscription"@.len() == 12,
                "article_purchase"@.len() == 16,
                "tip"@.len() == 3,
                "advertisement"@.len() == 13,
            decreases rows.len() - i,
        {
            assert(rows@.take(i + 1).drop_last() =~= rows@.take(i as int));
            assert(rows@.take(i + 1).last() == rows@[i as int]);
            let row = &rows[i];
            let amount: i64 = match row.total_amount {
                Some(a) => a,
                None => 0,
            };
            let c: i32 = match row.count {
                Some(c) => #[verifier::truncate] (c as i32),
                None => 0,
            };
            assert(spec_count_sum(rows@.take(i + 1)) == count + c);
            count = count + c;
            let name: &str = match &row.source_type {
                Some(s) => s.as_str(),
                None => "",
            };
            proof {
                reveal_strlit("");
            }
            if str_eq(name, "subscription") {
                subscription = amount;
            } else if str_eq(name, "article_purchase") {
                purchase = amount;
            } else if str_eq(name, "tip") {
                tip = amount;
            } else if str_eq(name, "advertisement") {
                ad = amount;
            }
            i = i + 1;
        }
        assert(rows@.take(rows.len() as int) =~= rows@);
        RevenueBreakdown {
            subscription_revenue: subscription,
            purchase_revenue: purchase,
            tip_revenue: tip,
            ad_revenue: ad,
            total_revenue: subscription + purchase + tip + ad,
            transaction_count: count,
        }
    }
}

/// The month after `(year, month)`.
pub open spec fn spec_next_month(year: int, month: int) -> (int, int) {
    if month == 12 {
        (year + 1, 1)
    } else {
        (year, month + 1)
    }
}

/// The month before `(year, month)`.
pub open spec fn spec_previous_month(year: int, month: int) -> (int, int) {
    if month == 1 {
        (year - 1, 12)
    } else {
        (year, month - 1)
    }
}

impl RevenueService {
    /// The month after `(year, month)`: the current month of the revenue dashboard
    /// ends where it starts.
    pub fn next_month(year: i32, month: u32) -> (r: (i32, u32))
        requires
            1 <= month <= 12,
            month == 12 ==> year < i32::MAX,
        ensures
            (r.0 as int, r.1 as int) == spec_next_month(year as int, month as int),
    {
        if month == 12 {
            (year + 1, 1)
        } else {
            (year, month + 1)
        }
    }

    /// The month before `(year, month)`: the previous month of the revenue dashboard
    /// starts there.
    pub fn previous_month(year: i32, month: u32) -> (r: (i32, u32))
        requires
            1 <= month <= 12,
            month == 1 ==> year > i32::MIN,
        ensures
            (r.0 as int, r.1 as int) == spec_previous_month(year as int, month as int),
    {
        if month == 1 {
            (year - 1, 12)
        } else {
            (year, month - 1)
        }
    }
}

/// The number of days from 1970-01-01 to the date `(y, m, d)` of the proleptic Gregorian
/// calendar (negative before 1970).
pub open spec fn spec_days_from_civil(y: int, m: int, d: int) -> int {
    let y2 = if m <= 2 { y - 1 } else { y };
    let era = y2 / 400;
    let yoe = y2 - era * 400;
    let mp = if m > 2 { m - 3 } else { m + 9 };
    let doy = (153 * mp + 2) / 5 + d - 1;
    let doe = yoe * 365 + yoe / 4 - yoe / 100 + doy;
    era * 146097 + doe - 719468
}

/// The period a revenue record of the month `(year, month)` covers, in Unix seconds, and
/// the status it is stored with.
pub struct RevenuePeriod {
    pub period_start: i64,
    pub period_end: i64,
    pub status: RevenueStatus,
}

impl RevenueService {
    /// The period of a revenue recorded in the month `(year, month)` (recording revenue):
    /// from the first day of the month at midnight UTC to 31 days later; the revenue is
    /// stored pending.
    pub fn revenue_period(year: i32, month: u32) -> (r: RevenuePeriod)
        requires
            1 <= month <= 12,
        ensures
            r.period_start == spec_days_from_civil(year as int, month as int, 1) * 86400,
            r.period_end == r.period_start + 31 * 86400,
            r.status == RevenueStatus::Pending,
    {
        let y: i64 = year as i64;
        let m: i64 = month as i64;
        let y2: i64 = if m <= 2 { y - 1 } else { y };
        let era: i64 = if y2 >= 0 {
            ((y2 as u64) / 400) as i64
        } else {
            let q: u64 = ((399 - y2) as u64) / 400;
            proof {
                let ghost yy = y2 as int;
                assert(yy / 400 == -(q as int)) by (nonlinear_arith)
                    requires
                        yy < 0,
                        q as int == (399 - yy) / 400,
                ;
            }
            -(q as i64)
        };
        assert(era as int == (y2 as int) / 400);
        let yoe: i64 = y2 - era * 400;
        assert(0 <= yoe < 400) by (nonlinear_arith)
            requires
                era as int == (y2 as int) / 400,
                yoe as int == y2 - era * 400,
        ;
        let mp: i64 = if m > 2 { m - 3 } else { m + 9 };
        let doy: i64 = ((153 * mp + 2) as u64 / 5) as i64;
        let doe: i64 = yoe * 365 + ((yoe as u64) / 4) as i64 - ((yoe as u64) / 100) as i64 + doy;
        let days: i64 = era * 146097 + doe - 719468;
        let start: i64 = days * 86400;
        RevenuePeriod { period_start: start, period_end: start + 31 * 86400, status: RevenueStatus::Pending }
    }
}

/// Stepping a month forward and then back (or back, then forward) returns to the same
/// month, and each step stays within the months 1 to 12.
pub proof fn law_month_steps_undo(year: int, month: int)
    requires
        1 <= month <= 12,
    ensures
        ({
            let n = spec_next_month(year, month);
            spec_previous_month(n.0, n.1) == (year, month) && 1 <= n.1 <= 12
        }),
        ({
            let p = spec_previous_month(year, month);
            spec_next_month(p.0, p.1) == (year, month) && 1 <= p.1 <= 12
        }),
{
}

/// The records after a settlement at `now`, in relation to those before it: each one that
/// settled is completed, the others are unchanged.
pub open spec fn spec_settled_from(before: Seq<RevenueEntry>, after: Seq<RevenueEntry>, now: int) -> bool {
    &&& after.len() == before.len()
    &&& forall|k: int|
        0 <= k < before.len() ==> if spec_settles(#[trigger] before[k], now) {
            after[k].status == RevenueStatus::Completed
        } else {
            after[k] == before[k]
        }
}

/// Settling is idempotent: right after a settlement at `now`, nothing is left to settle
/// at `now`, so a second settlement moves no money.
pub proof fn law_settlement_idempotent(before: Seq<RevenueEntry>, after: Seq<RevenueEntry>, now: int)
    requires
        spec_settled_from(before, after, now),
    ensures
        spec_settled_total(after, now) == 0,
    decreases before.len(),
{
    if before.len() > 0 {
        let b = before.drop_last();
        let a = after.drop_last();
        assert forall|k: int| 0 <= k < b.len() implies if spec_settles(#[trigger] b[k], now) {
            a[k].status == RevenueStatus::Completed
        } else {
            a[k] == b[k]
        } by {
            assert(b[k] == before[k]);
            assert(a[k] == after[k]);
        }
        law_settlement_idempotent(b, a, now);
        assert(before[before.len() - 1] == before.last());
    }
}

} // verus!
