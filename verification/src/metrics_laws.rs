//! What each line of the usage display says, field by field.

use vstd::prelude::*;

use crate::binary64::{b64, law_percent_is_clamped, Binary64};
use crate::metrics::{
    burn_text_view, child_lines, depletion_view, duration_text, has_label, law_lines_shown,
    local_only_view, metric_views, report_lines, unit_of, window_metric_view, BurnText,
    BurnTextView, Depletion, DepletionView, OutputView, UsageMetric, UsageOutput, UsageReading,
    Window,
};
use crate::text::text_view;

verus! {

/// A percentage held between 0 and 100: 0 for less, 100 for more, and itself
/// otherwise.
pub open spec fn is_held_in_percent(held: Binary64, value: Binary64) -> bool {
    if value.lt(b64(0)) {
        held == b64(0)
    } else if b64(0x4059_0000_0000_0000).lt(value) {
        held == b64(0x4059_0000_0000_0000)
    } else {
        held == value
    }
}

/// The text is there and reads so.
pub open spec fn reads(text: Option<String>, words: Seq<char>) -> bool {
    text matches Some(text) && text@ == words
}

/// Both texts are missing, or both read the same.
pub open spec fn read_alike(a: Option<String>, b: Option<String>) -> bool {
    match (a, b) {
        (Some(a), Some(b)) => a@ == b@,
        (None, None) => true,
        _ => false,
    }
}

/// The line of a limit window: how much of it is used and how much remains, and when
/// it is reset.
pub open spec fn is_window_line(
    line: UsageMetric,
    label: Seq<char>,
    window: Window,
    remaining_percent: Binary64,
) -> bool {
    &&& line.label@ == label
    &&& is_held_in_percent(line.used_percent, window.utilization)
    &&& line.remaining_percent == remaining_percent
    &&& line.remaining_label is None
    &&& read_alike(line.resets_at, window.resets_at)
}

/// A line that holds a label and a text: nothing is used, minus one remains, and
/// nothing is reset.
pub open spec fn is_text_line(line: UsageMetric, label: Seq<char>, words: Seq<char>) -> bool {
    &&& line.label@ == label
    &&& line.used_percent == b64(0)
    &&& line.remaining_percent == b64(0xBFF0_0000_0000_0000)
    &&& reads(line.remaining_label, words)
    &&& line.resets_at is None
}

/// The letter that stands behind a number of minutes, hours or days: minutes below
/// sixty, hours below a day of minutes.
pub open spec fn letter_for(mins: Binary64) -> Seq<char> {
    if mins.lt(b64(0x404E_0000_0000_0000)) {
        "m"@
    } else if mins.lt(b64(0x4096_8000_0000_0000)) {
        "h"@
    } else {
        "d"@
    }
}

/// A window will run out: it is being consumed, something remains of it, and its
/// reset is not known to come first.
pub open spec fn will_run_out(
    remaining_percent: Binary64,
    depletion: Option<Depletion>,
    mins_until_reset: Option<Binary64>,
) -> bool {
    match depletion {
        Some(depletion) => b64(0).lt(depletion.pct_per_min) && b64(0).lt(remaining_percent)
            && match mins_until_reset {
            Some(reset) => depletion.runs_out_mins.lt(reset),
            None => true,
        },
        None => false,
    }
}

/// How many lines stand under a window.
pub open spec fn count_under(
    burn: Option<BurnText>,
    remaining_percent: Binary64,
    depletion: Option<Depletion>,
    mins_until_reset: Option<Binary64>,
) -> int {
    (if burn is Some {
        2int
    } else {
        0
    }) + (if will_run_out(remaining_percent, depletion, mins_until_reset) {
        1int
    } else {
        0
    })
}

/// From `at` on stand the lines that belong under a window: burn rate and cost rate
/// where there is a burn, and after them when the window runs out, where it will.
pub open spec fn stand_under(
    lines: Seq<UsageMetric>,
    at: int,
    burn: Option<BurnText>,
    remaining_percent: Binary64,
    depletion: Option<Depletion>,
    mins_until_reset: Option<Binary64>,
) -> bool {
    let last = at + count_under(burn, remaining_percent, depletion, mins_until_reset) - 1;
    &&& last < lines.len()
    &&& burn matches Some(burn) ==> {
        &&& is_text_line(lines[at], "  Burn Rate"@, burn.kilotokens_per_min@ + "k tok/min"@)
        &&& is_text_line(lines[at + 1], "  Cost Rate"@, "$"@ + burn.dollars_per_min@ + "/min"@)
    }
    &&& will_run_out(remaining_percent, depletion, mins_until_reset) ==> {
        let depletion = depletion->0;
        is_text_line(
            lines[last],
            "  Runs Out"@,
            "in "@ + depletion.amount@ + letter_for(depletion.runs_out_mins),
        )
    }
}

/// The unit in which a stretch of time is shown, and its words.
pub proof fn law_durations_in_words(mins: Binary64, amount: Seq<char>)
    ensures
        unit_of(mins) is Minutes <==> mins.lt(b64(0x404E_0000_0000_0000)),
        unit_of(mins) is Days <==> !mins.lt(b64(0x404E_0000_0000_0000)) && !mins.lt(
            b64(0x4096_8000_0000_0000),
        ),
        duration_text(mins, amount) == "in "@ + amount + letter_for(mins),
{
}

/// The line of a window holds its label, the percentage used, what remains, and the
/// reset time.
pub proof fn law_window_line(
    label: Seq<char>,
    window: Window,
    remaining_percent: Binary64,
    line: UsageMetric,
)
    requires
        line@ == window_metric_view(label, window@, remaining_percent),
    ensures
        is_window_line(line, label, window, remaining_percent),
{
    law_percent_is_clamped(window.utilization);
}

/// The lines under a window are exactly the burn rate and the cost rate, where there
/// is a burn, and when the window runs out, where it will.
pub proof fn law_lines_under_a_window(
    burn: Option<BurnText>,
    remaining_percent: Binary64,
    depletion: Option<Depletion>,
    mins_until_reset: Option<Binary64>,
    lines: Seq<UsageMetric>,
)
    requires
        metric_views(lines) == child_lines(
            burn_text_view(burn),
            remaining_percent,
            depletion_view(depletion),
            mins_until_reset,
        ),
    ensures
        lines.len() == count_under(burn, remaining_percent, depletion, mins_until_reset),
        stand_under(lines, 0, burn, remaining_percent, depletion, mins_until_reset),
{
    let views = metric_views(lines);
    assert(views.len() == lines.len());
    assert forall|i: int| 0 <= i < lines.len() implies #[trigger] lines[i]@ == views[i] by {}
    if burn is Some {
        assert(lines[0]@ == views[0] && lines[1]@ == views[1]);
    }
    if will_run_out(remaining_percent, depletion, mins_until_reset) {
        assert(lines[lines.len() - 1]@ == views[views.len() - 1]);
    }
}

/// A window that is being consumed and of which something remains is said to run out,
/// be it in a minute or in many days; where its reset is known, exactly if that comes
/// later.
pub proof fn law_depletion_is_said(
    burn: Option<BurnTextView>,
    remaining_pct: Binary64,
    depletion: DepletionView,
    reset: Binary64,
)
    requires
        b64(0).lt(depletion.pct_per_min),
        b64(0).lt(remaining_pct),
    ensures
        has_label(child_lines(burn, remaining_pct, Some(depletion), None), "  Runs Out"@),
        has_label(child_lines(burn, remaining_pct, Some(depletion), Some(reset)), "  Runs Out"@)
            <==> depletion.runs_out_mins.lt(reset),
{
    law_lines_shown(burn, remaining_pct, Some(depletion), None);
    law_lines_shown(burn, remaining_pct, Some(depletion), Some(reset));
}

/// A window that is not being consumed, of which nothing remains, or of which the
/// rate is not known, is not said to run out.
pub proof fn law_depletion_is_not_said(
    burn: Option<BurnTextView>,
    remaining_pct: Binary64,
    depletion: Option<DepletionView>,
    mins_until_reset: Option<Binary64>,
)
    requires
        depletion matches Some(depletion) ==> !b64(0).lt(depletion.pct_per_min) || !b64(0).lt(
            remaining_pct,
        ),
    ensures
        !has_label(
            child_lines(burn, remaining_pct, depletion, mins_until_reset),
            "  Runs Out"@,
        ),
{
    law_lines_shown(burn, remaining_pct, depletion, mins_until_reset);
}

/// A report holds, in this order and nothing else: the five-hour window and what
/// stands under it, the week and what stands under it, where the reset is not looked
/// at, and the week of the largest model; each where there is such a window.
pub proof fn law_report_line_by_line(reading: UsageReading, lines: Seq<UsageMetric>)
    requires
        metric_views(lines) == report_lines(reading),
    ensures
        ({
            let burn = reading.burn;
            let week_at = match reading.five_hour {
                Some(five_hour) => 1 + count_under(
                    burn,
                    five_hour.reading.remaining_percent,
                    five_hour.depletion,
                    reading.mins_until_reset,
                ),
                None => 0,
            };
            let opus_at = week_at + match reading.seven_day {
                Some(week) => 1 + count_under(
                    burn,
                    week.reading.remaining_percent,
                    week.depletion,
                    None,
                ),
                None => 0,
            };
            &&& lines.len() == opus_at + if reading.seven_day_opus is Some {
                1int
            } else {
                0
            }
            &&& reading.five_hour matches Some(five_hour) ==> {
                let remaining = five_hour.reading.remaining_percent;
                &&& is_window_line(lines[0], "5h Limit"@, five_hour.reading.window, remaining)
                &&& stand_under(
                    lines,
                    1,
                    burn,
                    remaining,
                    five_hour.depletion,
                    reading.mins_until_reset,
                )
            }
            &&& reading.seven_day matches Some(week) ==> {
                let remaining = week.reading.remaining_percent;
                &&& is_window_line(lines[week_at], "Week Limit"@, week.reading.window, remaining)
                &&& stand_under(lines, week_at + 1, burn, remaining, week.depletion, None)
            }
            &&& reading.seven_day_opus matches Some(opus) ==> is_window_line(
                lines[opus_at],
                "Opus"@,
                opus.window,
                opus.remaining_percent,
            )
        }),
{
    let views = metric_views(lines);
    assert(views.len() == lines.len());
    assert forall|i: int| 0 <= i < lines.len() implies #[trigger] lines[i]@ == views[i] by {}
    let burn = reading.burn;
    let mut week_at: int = 0;
    if let Some(five_hour) = reading.five_hour {
        let under = count_under(
            burn,
            five_hour.reading.remaining_percent,
            five_hour.depletion,
            reading.mins_until_reset,
        );
        week_at = 1 + under;
        law_window_line(
            "5h Limit"@,
            five_hour.reading.window,
            five_hour.reading.remaining_percent,
            lines[0],
        );
        let children = lines.subrange(1, 1 + under);
        assert(metric_views(children) =~= child_lines(
            burn_text_view(burn),
            five_hour.reading.remaining_percent,
            depletion_view(five_hour.depletion),
            reading.mins_until_reset,
        ));
        law_lines_under_a_window(
            burn,
            five_hour.reading.remaining_percent,
            five_hour.depletion,
            reading.mins_until_reset,
            children,
        );
    }
    let mut opus_at = week_at;
    if let Some(week) = reading.seven_day {
        let under = count_under(burn, week.reading.remaining_percent, week.depletion, None);
        opus_at = week_at + 1 + under;
        law_window_line(
            "Week Limit"@,
            week.reading.window,
            week.reading.remaining_percent,
            lines[week_at],
        );
        let children = lines.subrange(week_at + 1, opus_at);
        assert(metric_views(children) =~= child_lines(
            burn_text_view(burn),
            week.reading.remaining_percent,
            depletion_view(week.depletion),
            None,
        ));
        law_lines_under_a_window(
            burn,
            week.reading.remaining_percent,
            week.depletion,
            None,
            children,
        );
    }
    if let Some(opus) = reading.seven_day_opus {
        law_window_line("Opus"@, opus.window, opus.remaining_percent, lines[opus_at]);
    }
}

/// What local messages alone give: provider and plan, and the burn where there is
/// one.
pub proof fn law_local_output_line_by_line(
    provider: Seq<char>,
    plan: Option<String>,
    burn: Option<BurnText>,
    output: UsageOutput,
)
    requires
        output@ == local_only_view(provider, text_view(plan), burn_text_view(burn)),
    ensures
        output.provider@ == provider,
        output.account is None,
        read_alike(output.plan, plan),
        output.email is None,
        output.metrics@.len() == if burn is Some {
            2int
        } else {
            0
        },
        stand_under(output.metrics@, 0, burn, b64(0), None, None),
{
    let lines = output.metrics@;
    let views = metric_views(lines);
    assert(output@.metrics == views);
    assert(views.len() == lines.len());
    if burn is Some {
        assert(lines[0]@ == views[0] && lines[1]@ == views[1]);
    }
}

/// What a report says besides its lines: provider and plan, and no account or email.
pub proof fn law_output_fields(
    provider: Seq<char>,
    plan: Option<String>,
    reading: UsageReading,
    output: UsageOutput,
)
    requires
        output@ == (OutputView {
            provider,
            account: None,
            plan: text_view(plan),
            email: None,
            metrics: report_lines(reading),
        }),
    ensures
        output.provider@ == provider,
        output.account is None,
        read_alike(output.plan, plan),
        output.email is None,
        metric_views(output.metrics@) == report_lines(reading),
{
}

} // verus!
