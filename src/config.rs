//! The sleep/wake configuration and the check of the time of day against it.

use vstd::prelude::*;
use crate::clock::{local_time_of_day, is_clock_reading};
use crate::store::Stored;
use crate::text::{lex_less, text_less};

verus! {

/// The configured window: when screen time should stop and when it may
/// start again, each kept as the text it was given as (`HH:MM` by
/// convention, not checked).
#[derive(Clone, Debug)]
pub struct Config {
    pub sleep_time: String,
    pub wake_time: String,
}

/// The configuration made of `sleep` and `wake`, taken verbatim.
pub fn set_config(sleep: &str, wake: &str) -> (r: Config)
    ensures
        r.sleep_time@ == sleep@,
        r.wake_time@ == wake@,
{
    Config { sleep_time: sleep.to_owned(), wake_time: wake.to_owned() }
}

/// `now` lies outside the healthy screen hours: at or after `sleep`, or
/// before `wake`, in lexicographic order. This reads as intended for a
/// window that wraps past midnight (sleep later than wake).
pub open spec fn outside_hours(now: Seq<char>, sleep: Seq<char>, wake: Seq<char>) -> bool {
    !lex_less(now, sleep) || lex_less(now, wake)
}

/// Whether `now` lies outside the healthy screen hours of `config`.
pub fn is_outside_hours(now: &str, config: &Config) -> (r: bool)
    ensures
        r == outside_hours(now@, config.sleep_time@, config.wake_time@),
{
    !text_less(now, config.sleep_time.as_str()) || text_less(now, config.wake_time.as_str())
}

/// What a check of the time of day reports.
#[derive(Clone, Debug)]
pub enum CheckReport {
    /// No configuration is stored: `set` has to come first.
    NoConfig,
    /// The configuration file does not parse.
    Unreadable,
    /// `now` is outside the healthy hours that run from `wake_time` to
    /// `sleep_time`.
    Outside { now: String, sleep_time: String, wake_time: String },
    /// `now` is within the healthy hours.
    Within { now: String },
}

/// The report of a check at time `now` against the stored configuration.
pub open spec fn report_fits(r: CheckReport, now: Seq<char>, stored: Stored<Config>) -> bool {
    match stored {
        Stored::Missing => r is NoConfig,
        Stored::Corrupt => r is Unreadable,
        Stored::Present(c) => if outside_hours(now, c.sleep_time@, c.wake_time@) {
            match r {
                CheckReport::Outside { now: n, sleep_time, wake_time } => {
                    &&& n@ == now
                    &&& sleep_time@ == c.sleep_time@
                    &&& wake_time@ == c.wake_time@
                },
                _ => false,
            }
        } else {
            match r {
                CheckReport::Within { now: n } => n@ == now,
                _ => false,
            }
        },
    }
}

/// Checks `now` against the configuration that loading gave.
pub fn check_window(now: &String, stored: &Stored<Config>) -> (r: CheckReport)
    ensures
        report_fits(r, now@, *stored),
{
    match stored {
        Stored::Missing => CheckReport::NoConfig,
        Stored::Corrupt => CheckReport::Unreadable,
        Stored::Present(c) => {
            if is_outside_hours(now.as_str(), c) {
                CheckReport::Outside {
                    now: now.clone(),
                    sleep_time: c.sleep_time.clone(),
                    wake_time: c.wake_time.clone(),
                }
            } else {
                CheckReport::Within { now: now.clone() }
            }
        },
    }
}

/// Checks the local time of day, as `HH:MM`, against the configuration
/// that loading gave.
pub fn check_time(stored: &Stored<Config>) -> (r: CheckReport)
    ensures
        exists|now: Seq<char>| is_clock_reading(now) && report_fits(r, now, *stored),
{
    let now = local_time_of_day();
    check_window(&now, stored)
}

} // verus!
