//! What lies ahead of the limit windows: each with its own rate of consumption, and
//! the time until the five-hour window is reset.

use std::collections::VecDeque;

use vstd::prelude::*;

use crate::history::{checked_pct_burn_per_min, pct_rise, rise_fits, PctRise, UtilSample};
use crate::metrics::{window_view, Window, WindowView};
use crate::reset::{parse_resets_at_secs, rfc3339_instant, seconds_left, UtcInstant};
use crate::windows::is_copy_of;

verus! {

/// A limit window, and how its percentage rose over the last half hour.
#[derive(Debug, PartialEq, Eq)]
pub struct WindowPace {
    pub window: Window,
    pub rise: Option<PctRise>,
}

/// Both limit windows, and the whole seconds left until the five-hour window is
/// reset.
#[derive(Debug, PartialEq, Eq)]
pub struct Outlook {
    pub five_hour: Option<WindowPace>,
    pub seven_day: Option<WindowPace>,
    pub secs_until_reset: Option<i64>,
}

/// The window is the given one, where there is one, and goes with the given rise.
pub open spec fn is_pace_of(
    pace: Option<WindowPace>,
    window: Option<WindowView>,
    rise: Option<PctRise>,
) -> bool {
    match pace {
        Some(pace) => window == Some(pace.window@) && pace.rise == rise,
        None => window is None,
    }
}

/// The whole seconds left until a window is reset, as far as the service said when
/// that is.
pub open spec fn window_secs_left(window: Option<WindowView>, now: UtcInstant) -> Option<int> {
    match window {
        Some(window) => match window.resets_at {
            Some(text) => seconds_left(rfc3339_instant(text), now),
            None => None,
        },
        None => None,
    }
}

fn pace(window: Option<Window>, rise: Option<PctRise>) -> (pace: Option<WindowPace>)
    ensures
        is_pace_of(pace, window_view(window), rise),
{
    match window {
        Some(window) => Some(WindowPace { window, rise }),
        None => None,
    }
}

/// Pairs each window with the rise of its own percentage, and the five-hour window
/// with its reset time; `None` where a rise does not fit.
pub fn window_outlook(
    five_hour: Option<Window>,
    seven_day: Option<Window>,
    history: &VecDeque<UtilSample>,
    now_ms: i64,
    now: &UtcInstant,
) -> (outlook: Option<Outlook>)
    requires
        now.valid(),
    ensures
        outlook is Some <==> rise_fits(history@, true, now_ms as int) && rise_fits(
            history@,
            false,
            now_ms as int,
        ),
        outlook matches Some(outlook) ==> {
            &&& is_pace_of(
                outlook.five_hour,
                window_view(five_hour),
                pct_rise(history@, true, now_ms as int),
            )
            &&& is_pace_of(
                outlook.seven_day,
                window_view(seven_day),
                pct_rise(history@, false, now_ms as int),
            )
            &&& match outlook.secs_until_reset {
                Some(secs) => window_secs_left(window_view(five_hour), *now) == Some(secs as int),
                None => window_secs_left(window_view(five_hour), *now) is None,
            }
        },
{
    let five_hour_rise = match checked_pct_burn_per_min(history, true, now_ms) {
        Some(rise) => rise,
        None => {
            return None;
        },
    };
    let seven_day_rise = match checked_pct_burn_per_min(history, false, now_ms) {
        Some(rise) => rise,
        None => {
            return None;
        },
    };
    let secs_until_reset: Option<i64> = match &five_hour {
        Some(window) => match &window.resets_at {
            Some(text) => parse_resets_at_secs(Some(text.as_str()), now),
            None => None,
        },
        None => None,
    };
    Some(
        Outlook {
            five_hour: pace(five_hour, five_hour_rise),
            seven_day: pace(seven_day, seven_day_rise),
            secs_until_reset,
        },
    )
}

/// Each window comes back with its own percentage and reset time and with its own
/// rise; the time left is that until the reset of the five-hour window, and there is
/// none without such a window, or where it names no moment to come.
pub proof fn law_windows_keep_what_is_theirs(
    five_hour: Option<Window>,
    seven_day: Option<Window>,
    five_hour_rise: Option<PctRise>,
    seven_day_rise: Option<PctRise>,
    now: UtcInstant,
    outlook: Outlook,
)
    requires
        is_pace_of(outlook.five_hour, window_view(five_hour), five_hour_rise),
        is_pace_of(outlook.seven_day, window_view(seven_day), seven_day_rise),
    ensures
        match five_hour {
            Some(window) => outlook.five_hour matches Some(pace) && is_copy_of(
                Some(pace.window),
                window,
            ) && pace.rise == five_hour_rise,
            None => outlook.five_hour is None,
        },
        match seven_day {
            Some(window) => outlook.seven_day matches Some(pace) && is_copy_of(
                Some(pace.window),
                window,
            ) && pace.rise == seven_day_rise,
            None => outlook.seven_day is None,
        },
        window_secs_left(window_view(five_hour), now) == match five_hour {
            Some(window) => match window.resets_at {
                Some(text) => seconds_left(rfc3339_instant(text@), now),
                None => None,
            },
            None => None,
        },
{
}

} // verus!
