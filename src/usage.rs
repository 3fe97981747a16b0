//! The usage store's records: one running total of minutes per calendar
//! date, kept in the order in which the dates were first logged.

use vstd::prelude::*;
use crate::clock::{local_date, is_date_reading};

verus! {

/// Minutes of phone use logged on one date (`YYYY-MM-DD`).
#[derive(Clone, Debug)]
pub struct DailyUsage {
    pub date: String,
    pub total_minutes: u32,
}

impl View for DailyUsage {
    type V = (Seq<char>, nat);

    open spec fn view(&self) -> (Seq<char>, nat) {
        (self.date@, self.total_minutes as nat)
    }
}

/// The records as pairs of date and total.
pub open spec fn records(log: Seq<DailyUsage>) -> Seq<(Seq<char>, nat)> {
    log.map_values(|d: DailyUsage| d@)
}

/// No date appears in two records.
pub open spec fn dates_unique(s: Seq<(Seq<char>, nat)>) -> bool {
    forall|i: int, j: int| 0 <= i < j < s.len() ==> s[i].0 != s[j].0
}

/// Index of the first record for `date`, if any.
pub open spec fn position(s: Seq<(Seq<char>, nat)>, date: Seq<char>) -> Option<nat>
    decreases s.len(),
{
    if s.len() == 0 {
        None
    } else if s[0].0 == date {
        Some(0)
    } else {
        match position(s.drop_first(), date) {
            Some(i) => Some(i + 1),
            None => None,
        }
    }
}

/// The total logged for `date`, if a record for it exists.
pub open spec fn total_for(s: Seq<(Seq<char>, nat)>, date: Seq<char>) -> Option<nat> {
    match position(s, date) {
        Some(i) => Some(s[i as int].1),
        None => None,
    }
}

/// The total logged for `date`, counting a missing record as zero.
pub open spec fn total_or_zero(s: Seq<(Seq<char>, nat)>, date: Seq<char>) -> nat {
    match total_for(s, date) {
        Some(t) => t,
        None => 0,
    }
}

/// The records after logging `minutes` on `date`: the record for that date
/// grows by `minutes`, or a new one is appended at the end.
pub open spec fn logged(s: Seq<(Seq<char>, nat)>, date: Seq<char>, minutes: nat) -> Seq<
    (Seq<char>, nat),
> {
    match position(s, date) {
        Some(i) => s.update(i as int, (date, s[i as int].1 + minutes)),
        None => s.push((date, minutes)),
    }
}

/// The first record for `date` is the first one whose date matches.
pub proof fn lemma_position(s: Seq<(Seq<char>, nat)>, date: Seq<char>)
    ensures
        match position(s, date) {
            Some(i) => i < s.len() && s[i as int].0 == date && forall|j: int|
                0 <= j < i ==> s[j].0 != date,
            None => forall|j: int| 0 <= j < s.len() ==> s[j].0 != date,
        },
    decreases s.len(),
{
    if s.len() > 0 && s[0].0 != date {
        lemma_position(s.drop_first(), date);
        assert forall|j: int| 1 <= j < s.len() implies s[j] == s.drop_first()[j - 1] by {}
    }
}

/// A matching record with no match before it is the first record for `date`.
pub proof fn lemma_position_at(s: Seq<(Seq<char>, nat)>, date: Seq<char>, i: int)
    requires
        0 <= i < s.len(),
        s[i].0 == date,
        forall|j: int| 0 <= j < i ==> s[j].0 != date,
    ensures
        position(s, date) == Some(i as nat),
{
    lemma_position(s, date);
}

/// Where no record matches, there is no first record for `date`.
pub proof fn lemma_position_none(s: Seq<(Seq<char>, nat)>, date: Seq<char>)
    requires
        forall|j: int| 0 <= j < s.len() ==> s[j].0 != date,
    ensures
        position(s, date) is None,
{
    lemma_position(s, date);
}

/// The index of the first record of `log` for `date`, if any.
pub fn find_day(log: &Vec<DailyUsage>, date: &String) -> (r: Option<usize>)
    ensures
        match r {
            Some(i) => position(records(log@), date@) == Some(i as nat),
            None => position(records(log@), date@) is None,
        },
{
    let n = log.len();
    let mut i: usize = 0;
    while i < n
        invariant
            n == log@.len(),
            i <= n,
            forall|j: int| 0 <= j < i ==> log@[j].date@ != date@,
        decreases n - i,
    {
        if log[i].date == *date {
            proof {
                lemma_position_at(records(log@), date@, i as int);
            }
            return Some(i);
        }
        i += 1;
    }
    proof {
        lemma_position_none(records(log@), date@);
    }
    None
}

/// Why a log entry was refused.
#[derive(Clone, Copy, Debug, PartialEq, Eq)]
pub enum LogError {
    /// The day's total would no longer fit in a `u32`.
    TotalOverflow,
}

/// Adds `minutes` to the record for `today`, appending a record when there
/// is none yet, and returns the day's new total. Fails, leaving the records
/// as they were, when that total would not fit in a `u32`.
pub fn log_minutes(log: &mut Vec<DailyUsage>, today: &String, minutes: u32) -> (r: Result<
    u32,
    LogError,
>)
    ensures
        r is Err <==> total_or_zero(records(old(log)@), today@) + minutes > u32::MAX,
        match r {
            Ok(t) => {
                &&& records(final(log)@) == logged(records(old(log)@), today@, minutes as nat)
                &&& total_for(records(final(log)@), today@) == Some(t as nat)
            },
            Err(LogError::TotalOverflow) => final(log)@ == old(log)@,
        },
        dates_unique(records(old(log)@)) && r is Ok ==> dates_unique(records(final(log)@)),
{
    let ghost s = records(log@);
    proof {
        lemma_position(s, today@);
    }
    match find_day(log, today) {
        Some(i) => {
            let t = log[i].total_minutes;
            if t > u32::MAX - minutes {
                return Err(LogError::TotalOverflow);
            }
            log[i].total_minutes = t + minutes;
            proof {
                let s2 = records(log@);
                assert(s2 =~= logged(s, today@, minutes as nat));
                lemma_position(s2, today@);
                lemma_position_at(s2, today@, i as int);
            }
            Ok(t + minutes)
        },
        None => {
            log.push(DailyUsage { date: today.clone(), total_minutes: minutes });
            proof {
                let s2 = records(log@);
                assert(s2 =~= logged(s, today@, minutes as nat));
                lemma_position_at(s2, today@, s.len() as int);
            }
            Ok(minutes)
        },
    }
}

/// What a summary of one day reports.
#[derive(Clone, Debug)]
pub enum Summary {
    /// The day's record: its date and its total.
    Logged { date: String, total_minutes: u32 },
    /// Nothing was logged on that day.
    NoData,
}

/// The summary of `today`, read from its record, if there is one.
pub fn summary_for(log: &Vec<DailyUsage>, today: &String) -> (r: Summary)
    ensures
        match r {
            Summary::Logged { date, total_minutes } => {
                &&& date@ == today@
                &&& total_for(records(log@), today@) == Some(total_minutes as nat)
            },
            Summary::NoData => total_for(records(log@), today@) is None,
        },
{
    match find_day(log, today) {
        Some(i) => {
            proof {
                lemma_position(records(log@), today@);
            }
            Summary::Logged { date: log[i].date.clone(), total_minutes: log[i].total_minutes }
        },
        None => Summary::NoData,
    }
}

/// Logs `minutes` on today's local date. Returns that date and what
/// `log_minutes` returned for it.
pub fn log_time(log: &mut Vec<DailyUsage>, minutes: u32) -> (r: (String, Result<u32, LogError>))
    ensures
        is_date_reading(r.0@),
        r.1 is Err <==> total_or_zero(records(old(log)@), r.0@) + minutes > u32::MAX,
        match r.1 {
            Ok(t) => {
                &&& records(final(log)@) == logged(records(old(log)@), r.0@, minutes as nat)
                &&& total_for(records(final(log)@), r.0@) == Some(t as nat)
            },
            Err(LogError::TotalOverflow) => final(log)@ == old(log)@,
        },
        dates_unique(records(old(log)@)) && r.1 is Ok ==> dates_unique(records(final(log)@)),
{
    let today = local_date();
    let result = log_minutes(log, &today, minutes);
    (today, result)
}

/// Today's local date and the summary of it.
pub fn show_summary(log: &Vec<DailyUsage>) -> (r: (String, Summary))
    ensures
        is_date_reading(r.0@),
        match r.1 {
            Summary::Logged { date, total_minutes } => {
                &&& date@ == r.0@
                &&& total_for(records(log@), r.0@) == Some(total_minutes as nat)
            },
            Summary::NoData => total_for(records(log@), r.0@) is None,
        },
{
    let today = local_date();
    let summary = summary_for(log, &today);
    (today, summary)
}

/// The sum of a sequence of minute counts.
pub open spec fn sum(ms: Seq<nat>) -> nat
    decreases ms.len(),
{
    if ms.len() == 0 {
        0
    } else {
        sum(ms.drop_last()) + ms.last()
    }
}

/// The records after logging each of `ms` on `date`, in order.
pub open spec fn logged_all(s: Seq<(Seq<char>, nat)>, date: Seq<char>, ms: Seq<nat>) -> Seq<
    (Seq<char>, nat),
>
    decreases ms.len(),
{
    if ms.len() == 0 {
        s
    } else {
        logged(logged_all(s, date, ms.drop_last()), date, ms.last())
    }
}

/// Logging `minutes` on `date` leaves that date's total grown by `minutes`.
pub proof fn lemma_logged_total(s: Seq<(Seq<char>, nat)>, date: Seq<char>, minutes: nat)
    ensures
        total_for(logged(s, date, minutes), date) == Some(total_or_zero(s, date) + minutes),
{
    lemma_position(s, date);
    let s2 = logged(s, date, minutes);
    match position(s, date) {
        Some(i) => lemma_position_at(s2, date, i as int),
        None => lemma_position_at(s2, date, s.len() as int),
    }
}

/// Logging `m1, m2, ..., mk` on one date leaves that date's total equal to
/// what it was (zero on a fresh date) plus `m1 + m2 + ... + mk`.
pub proof fn lemma_same_day_sum(s: Seq<(Seq<char>, nat)>, date: Seq<char>, ms: Seq<nat>)
    requires
        ms.len() > 0,
    ensures
        total_for(logged_all(s, date, ms), date) == Some(total_or_zero(s, date) + sum(ms)),
    decreases ms.len(),
{
    let prev = logged_all(s, date, ms.drop_last());
    lemma_logged_total(prev, date, ms.last());
    if ms.len() > 1 {
        lemma_same_day_sum(s, date, ms.drop_last());
    } else {
        assert(logged_all(s, date, ms.drop_last()) == s);
        assert(sum(ms.drop_last()) == 0);
    }
}

/// Logging on one date changes no other date's total; logging on a date
/// that has no record yet leaves every existing record as it was.
pub proof fn lemma_other_dates_kept(
    s: Seq<(Seq<char>, nat)>,
    date: Seq<char>,
    other: Seq<char>,
    minutes: nat,
)
    requires
        other != date,
    ensures
        total_for(logged(s, date, minutes), other) == total_for(s, other),
        position(s, date) is None ==> logged(s, date, minutes).subrange(0, s.len() as int) == s,
{
    lemma_position(s, date);
    lemma_position(s, other);
    let s2 = logged(s, date, minutes);
    match position(s, other) {
        Some(p) => lemma_position_at(s2, other, p as int),
        None => lemma_position_none(s2, other),
    }
    if position(s, date) is None {
        assert(s2.subrange(0, s.len() as int) =~= s);
    }
}

/// No two records hold `date`.
pub open spec fn at_most_once(s: Seq<(Seq<char>, nat)>, date: Seq<char>) -> bool {
    forall|j: int, k: int|
        0 <= j < s.len() && 0 <= k < s.len() && #[trigger] s[j].0 == date && #[trigger] s[k].0
            == date ==> j == k
}

/// Logging on `date` never gives it a second record.
proof fn lemma_logged_once(s: Seq<(Seq<char>, nat)>, date: Seq<char>, minutes: nat)
    requires
        at_most_once(s, date),
    ensures
        at_most_once(logged(s, date, minutes), date),
{
    lemma_position(s, date);
}

/// Each store of `stores` after the first is the one before it with one
/// more of `ms` logged on `date`; `k` stores in, `ms`'s first `k - 1`
/// counts are logged.
proof fn lemma_chain_prefix(
    stores: Seq<Seq<(Seq<char>, nat)>>,
    date: Seq<char>,
    ms: Seq<nat>,
    k: int,
)
    requires
        stores.len() == ms.len() + 1,
        forall|i: int| 0 <= i < ms.len() ==> stores[i + 1] == logged(stores[i], date, ms[i]),
        position(stores[0], date) is None,
        0 <= k <= ms.len(),
    ensures
        stores[k] == logged_all(stores[0], date, ms.subrange(0, k)),
        at_most_once(stores[k], date),
    decreases k,
{
    if k == 0 {
        lemma_position(stores[0], date);
        assert(ms.subrange(0, 0).len() == 0);
    } else {
        lemma_chain_prefix(stores, date, ms, k - 1);
        assert(ms.subrange(0, k).drop_last() =~= ms.subrange(0, k - 1));
        lemma_logged_once(stores[k - 1], date, ms[k - 1]);
    }
}

/// Calls that log `m1, m2, ..., mk` one after another on one date, starting
/// from a store with no record of it, leave exactly one record of that
/// date, holding `m1 + m2 + ... + mk`. Here `stores[i]` is the store before
/// the call that logs `ms[i]`, as the contracts of `log_minutes` and
/// `log_time` relate them.
pub proof fn lemma_log_sequence(stores: Seq<Seq<(Seq<char>, nat)>>, date: Seq<char>, ms: Seq<nat>)
    requires
        ms.len() > 0,
        stores.len() == ms.len() + 1,
        forall|i: int| 0 <= i < ms.len() ==> stores[i + 1] == logged(stores[i], date, ms[i]),
        position(stores[0], date) is None,
    ensures
        match position(stores.last(), date) {
            Some(p) => {
                &&& stores.last()[p as int].1 == sum(ms)
                &&& forall|j: int|
                    0 <= j < stores.last().len() && #[trigger] stores.last()[j].0 == date ==> j
                        == p
            },
            None => false,
        },
{
    let n = ms.len() as int;
    lemma_chain_prefix(stores, date, ms, n);
    assert(ms.subrange(0, n) =~= ms);
    lemma_same_day_sum(stores[0], date, ms);
    lemma_position(stores.last(), date);
}

/// On a fresh store, the summary after logging `minutes` reports `minutes`.
pub proof fn lemma_first_log_total(date: Seq<char>, minutes: nat)
    ensures
        total_for(logged(Seq::empty(), date, minutes), date) == Some(minutes),
{
    lemma_logged_total(Seq::empty(), date, minutes);
}

} // verus!
