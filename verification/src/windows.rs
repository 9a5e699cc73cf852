//! Limit windows between two reports. The service may leave a window out of a
//! report for a while; the last one it gave then stands in for it, so that the
//! display does not flicker.

use vstd::prelude::*;

use crate::binary64::{b64, Binary64, ZERO_BITS};
use crate::metrics::{window_view, Window, WindowView};

verus! {

/// The window to go by: the one just reported, or else the last one known.
pub open spec fn latest_known(
    reported: Option<WindowView>,
    known: Option<WindowView>,
) -> Option<WindowView> {
    if reported is Some {
        reported
    } else {
        known
    }
}

/// Picks the window to go by, and remembers it.
pub fn resolve_window(known: &mut Option<Window>, reported: Option<Window>) -> (window: Option<
    Window,
>)
    ensures
        window_view(window) == latest_known(window_view(reported), window_view(*old(known))),
        window_view(*final(known)) == window_view(window),
{
    match reported {
        Some(window) => {
            *known = Some(window.copy());
            Some(window)
        },
        None => match known {
            Some(window) => Some(window.copy()),
            None => None,
        },
    }
}

/// The window known after a number of reports, oldest first.
pub open spec fn known_after(
    known: Option<WindowView>,
    reports: Seq<Option<WindowView>>,
) -> Option<WindowView>
    decreases reports.len(),
{
    if reports.len() == 0 {
        known
    } else {
        latest_known(reports.last(), known_after(known, reports.drop_last()))
    }
}

/// Once a window has been reported it stays, until another takes its place: however
/// many reports without it follow, it is the one to go by.
pub proof fn law_last_reported_window_stays(
    known: Option<WindowView>,
    reports: Seq<Option<WindowView>>,
    k: int,
)
    requires
        0 <= k < reports.len(),
        reports[k] is Some,
        forall|i: int| k < i < reports.len() ==> #[trigger] reports[i] is None,
    ensures
        known_after(known, reports) == reports[k],
    decreases reports.len(),
{
    if k < reports.len() - 1 {
        assert(reports[reports.len() - 1] is None);
        assert forall|i: int| k < i < reports.len() - 1 implies #[trigger] reports.drop_last()[i] is None by {
            assert(reports[i] is None);
        }
        law_last_reported_window_stays(known, reports.drop_last(), k);
    }
}

/// A percentage for the history: that of the window, held between 0 and 100, and 0
/// without a window.
pub open spec fn sample_percent(window: Option<WindowView>) -> Binary64 {
    match window {
        Some(window) => window.utilization.percent(),
        None => b64(ZERO_BITS),
    }
}

fn window_percent(window: &Option<Window>) -> (percent: Binary64)
    ensures
        percent == sample_percent(window_view(*window)),
{
    match window {
        Some(window) => window.utilization.clamp_percent(),
        None => Binary64 { bits: ZERO_BITS },
    }
}

/// The percentages to record for the five-hour and the seven-day window; nothing
/// when neither is known.
pub fn utilization_percentages(five_hour: &Option<Window>, seven_day: &Option<Window>) -> (percentages:
    Option<(Binary64, Binary64)>)
    ensures
        percentages is Some <==> *five_hour is Some || *seven_day is Some,
        percentages matches Some(percentages) ==> percentages == (
            sample_percent(window_view(*five_hour)),
            sample_percent(window_view(*seven_day)),
        ),
{
    if five_hour.is_some() || seven_day.is_some() {
        Some((window_percent(five_hour), window_percent(seven_day)))
    } else {
        None
    }
}

/// A window just reported is the one to go by, with its own percentage and reset
/// time; only without one does the last known window stand in, and without either
/// there is none.
pub proof fn law_reported_window_comes_first(
    reported: Option<Window>,
    known: Option<Window>,
    window: Option<Window>,
)
    requires
        window_view(window) == latest_known(window_view(reported), window_view(known)),
    ensures
        reported matches Some(reported) ==> is_copy_of(window, reported),
        reported is None ==> match known {
            Some(known) => is_copy_of(window, known),
            None => window is None,
        },
{
}

/// The window is there, with the same percentage and reset time.
pub open spec fn is_copy_of(copy: Option<Window>, window: Window) -> bool {
    &&& copy matches Some(copy)
    &&& copy.utilization == window.utilization
    &&& match (copy.resets_at, window.resets_at) {
        (Some(a), Some(b)) => a@ == b@,
        (None, None) => true,
        _ => false,
    }
}

/// The percentage to record is that of the window, held between 0 and 100, and 0
/// without a window.
pub proof fn law_recorded_percentage(window: Option<Window>)
    ensures
        ({
            let recorded = sample_percent(window_view(window));
            match window {
                Some(window) => {
                    let used = window.utilization;
                    &&& used.lt(b64(0)) ==> recorded == b64(0)
                    &&& b64(0x4059_0000_0000_0000).lt(used) ==> recorded == b64(
                        0x4059_0000_0000_0000,
                    )
                    &&& !used.lt(b64(0)) && !b64(0x4059_0000_0000_0000).lt(used) ==> recorded
                        == used
                },
                None => recorded == b64(0),
            }
        }),
{
}

} // verus!
