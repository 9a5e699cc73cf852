//! Usage metrics as they are shown: one line per limit window, with text-only
//! lines for burn rate, cost rate and depletion under it.

use vstd::prelude::*;

use crate::binary64::{b64, Binary64};
use crate::binary64::{MINUS_ONE_BITS, MINUTES_PER_DAY_BITS, SIXTY_BITS, ZERO_BITS};
use crate::text::{copy_text, join2, join3, text_view};

verus! {

/// One line of the usage display. A negative remaining percentage hides the
/// progress bar.
#[derive(Debug, PartialEq, Eq)]
pub struct UsageMetric {
    pub label: String,
    pub used_percent: Binary64,
    pub remaining_percent: Binary64,
    pub remaining_label: Option<String>,
    pub resets_at: Option<String>,
}

/// What [`UsageMetric`] holds.
#[verifier::ext_equal]
pub struct MetricView {
    pub label: Seq<char>,
    pub used_percent: Binary64,
    pub remaining_percent: Binary64,
    pub remaining_label: Option<Seq<char>>,
    pub resets_at: Option<Seq<char>>,
}

impl View for UsageMetric {
    type V = MetricView;

    open spec fn view(&self) -> MetricView {
        MetricView {
            label: self.label@,
            used_percent: self.used_percent,
            remaining_percent: self.remaining_percent,
            remaining_label: text_view(self.remaining_label),
            resets_at: text_view(self.resets_at),
        }
    }
}

/// The views of a list of metrics.
pub open spec fn metric_views(metrics: Seq<UsageMetric>) -> Seq<MetricView> {
    Seq::new(metrics.len(), |i: int| metrics[i]@)
}

/// All metrics of one account.
#[derive(Debug, PartialEq, Eq)]
pub struct UsageOutput {
    pub provider: String,
    pub account: Option<String>,
    pub plan: Option<String>,
    pub email: Option<String>,
    pub metrics: Vec<UsageMetric>,
}

/// What [`UsageOutput`] holds.
#[verifier::ext_equal]
pub struct OutputView {
    pub provider: Seq<char>,
    pub account: Option<Seq<char>>,
    pub plan: Option<Seq<char>>,
    pub email: Option<Seq<char>>,
    pub metrics: Seq<MetricView>,
}

impl View for UsageOutput {
    type V = OutputView;

    open spec fn view(&self) -> OutputView {
        OutputView {
            provider: self.provider@,
            account: text_view(self.account),
            plan: text_view(self.plan),
            email: text_view(self.email),
            metrics: metric_views(self.metrics@),
        }
    }
}

/// A limit window as the service reports it.
#[derive(Debug, PartialEq, Eq)]
pub struct Window {
    pub utilization: Binary64,
    pub resets_at: Option<String>,
}

/// What [`Window`] holds.
#[verifier::ext_equal]
pub struct WindowView {
    pub utilization: Binary64,
    pub resets_at: Option<Seq<char>>,
}

impl View for Window {
    type V = WindowView;

    open spec fn view(&self) -> WindowView {
        WindowView { utilization: self.utilization, resets_at: text_view(self.resets_at) }
    }
}

/// An optional window as its view.
pub open spec fn window_view(window: Option<Window>) -> Option<WindowView> {
    match window {
        Some(window) => Some(window@),
        None => None,
    }
}

impl Window {
    /// Copies the window.
    pub fn copy(&self) -> (copy: Window)
        ensures
            copy@ == self@,
    {
        Window { utilization: self.utilization, resets_at: copy_text(&self.resets_at) }
    }
}

/// The line of a limit window.
pub open spec fn window_metric_view(
    label: Seq<char>,
    window: WindowView,
    remaining_percent: Binary64,
) -> MetricView {
    MetricView {
        label,
        used_percent: window.utilization.percent(),
        remaining_percent,
        remaining_label: None,
        resets_at: window.resets_at,
    }
}

/// The line of a limit window: the percentage used, held between 0 and 100, and
/// the percentage that the caller found to remain of it.
pub fn window_metric(label: &str, window: &Window, remaining_percent: Binary64) -> (metric:
    UsageMetric)
    ensures
        metric@ == window_metric_view(label@, window@, remaining_percent),
{
    UsageMetric {
        label: label.to_owned(),
        used_percent: window.utilization.clamp_percent(),
        remaining_percent,
        remaining_label: None,
        resets_at: copy_text(&window.resets_at),
    }
}

/// Absolute token counts are unreliable, so a session has no metric of its own:
/// percentages come from the reported utilization only.
pub fn local_session_metric(_token_limit: Option<u64>, _tokens_used: Option<u64>) -> (metric:
    Option<UsageMetric>)
    ensures
        metric is None,
{
    None
}

/// The unit in which a stretch of time is shown.
#[derive(Debug, Clone, Copy, PartialEq, Eq, Structural)]
pub enum DurationUnit {
    Minutes,
    Hours,
    Days,
}

/// Minutes below an hour, hours below a day, days from there on.
pub open spec fn unit_of(mins: Binary64) -> DurationUnit {
    if mins.lt(b64(SIXTY_BITS)) {
        DurationUnit::Minutes
    } else if mins.lt(b64(MINUTES_PER_DAY_BITS)) {
        DurationUnit::Hours
    } else {
        DurationUnit::Days
    }
}

/// The unit in which so many minutes are shown.
pub fn duration_unit(mins: &Binary64) -> (unit: DurationUnit)
    ensures
        unit == unit_of(*mins),
{
    if mins.is_less_than(&Binary64 { bits: SIXTY_BITS }) {
        DurationUnit::Minutes
    } else if mins.is_less_than(&Binary64 { bits: MINUTES_PER_DAY_BITS }) {
        DurationUnit::Hours
    } else {
        DurationUnit::Days
    }
}

/// The letter of a unit.
pub open spec fn unit_letter(unit: DurationUnit) -> Seq<char> {
    match unit {
        DurationUnit::Minutes => "m"@,
        DurationUnit::Hours => "h"@,
        DurationUnit::Days => "d"@,
    }
}

/// A stretch of time from now on, in words.
pub open spec fn duration_text(mins: Binary64, amount: Seq<char>) -> Seq<char> {
    "in "@ + amount + unit_letter(unit_of(mins))
}

/// So many minutes from now, where `amount` is their number in the unit that
/// [`duration_unit`] picks.
pub fn fmt_duration(mins: &Binary64, amount: &str) -> (text: String)
    ensures
        text@ == duration_text(*mins, amount@),
{
    let letter = match duration_unit(mins) {
        DurationUnit::Minutes => "m",
        DurationUnit::Hours => "h",
        DurationUnit::Days => "d",
    };
    join3("in ", amount, letter)
}

/// The recent burn in numbers ready to show: thousands of tokens per minute, and
/// dollars per minute.
#[derive(Debug, PartialEq, Eq)]
pub struct BurnText {
    pub kilotokens_per_min: String,
    pub dollars_per_min: String,
}

/// What [`BurnText`] holds.
#[verifier::ext_equal]
pub struct BurnTextView {
    pub kilotokens_per_min: Seq<char>,
    pub dollars_per_min: Seq<char>,
}

impl View for BurnText {
    type V = BurnTextView;

    open spec fn view(&self) -> BurnTextView {
        BurnTextView {
            kilotokens_per_min: self.kilotokens_per_min@,
            dollars_per_min: self.dollars_per_min@,
        }
    }
}

/// An optional burn text as its view.
pub open spec fn burn_text_view(burn: Option<BurnText>) -> Option<BurnTextView> {
    match burn {
        Some(burn) => Some(burn@),
        None => None,
    }
}

/// How fast a window is consumed, in percentage points per minute, in how many
/// minutes what remains of it runs out, and that number ready to show in the unit
/// that [`duration_unit`] picks.
#[derive(Debug, PartialEq, Eq)]
pub struct Depletion {
    pub pct_per_min: Binary64,
    pub runs_out_mins: Binary64,
    pub amount: String,
}

/// What [`Depletion`] holds.
#[verifier::ext_equal]
pub struct DepletionView {
    pub pct_per_min: Binary64,
    pub runs_out_mins: Binary64,
    pub amount: Seq<char>,
}

impl View for Depletion {
    type V = DepletionView;

    open spec fn view(&self) -> DepletionView {
        DepletionView {
            pct_per_min: self.pct_per_min,
            runs_out_mins: self.runs_out_mins,
            amount: self.amount@,
        }
    }
}

/// An optional depletion as its view.
pub open spec fn depletion_view(depletion: Option<Depletion>) -> Option<DepletionView> {
    match depletion {
        Some(depletion) => Some(depletion@),
        None => None,
    }
}

/// A line of text without a progress bar.
pub open spec fn text_line(label: Seq<char>, text: Seq<char>) -> MetricView {
    MetricView {
        label,
        used_percent: b64(ZERO_BITS),
        remaining_percent: b64(MINUS_ONE_BITS),
        remaining_label: Some(text),
        resets_at: None,
    }
}

fn text_metric(label: &str, text: String) -> (metric: UsageMetric)
    ensures
        metric@ == text_line(label@, text@),
{
    UsageMetric {
        label: label.to_owned(),
        used_percent: Binary64 { bits: ZERO_BITS },
        remaining_percent: Binary64 { bits: MINUS_ONE_BITS },
        remaining_label: Some(text),
        resets_at: None,
    }
}

/// Whether to say when a window runs out: it is being consumed, something is left
/// of it, and it is not known to be reset first.
pub open spec fn predicts_depletion(
    remaining_pct: Binary64,
    depletion: Option<DepletionView>,
    mins_until_reset: Option<Binary64>,
) -> bool {
    &&& depletion matches Some(depletion)
    &&& b64(ZERO_BITS).lt(depletion.pct_per_min)
    &&& b64(ZERO_BITS).lt(remaining_pct)
    &&& mins_until_reset matches Some(reset) ==> depletion.runs_out_mins.lt(reset)
}

/// The lines of a burn: its tokens and its cost.
pub open spec fn burn_lines(burn: Option<BurnTextView>) -> Seq<MetricView> {
    match burn {
        Some(burn) => seq![
            text_line("  Burn Rate"@, burn.kilotokens_per_min + "k tok/min"@),
            text_line("  Cost Rate"@, "$"@ + burn.dollars_per_min + "/min"@),
        ],
        None => Seq::empty(),
    }
}

/// The line that says when a window runs out, where it is to be said.
pub open spec fn depletion_lines(
    remaining_pct: Binary64,
    depletion: Option<DepletionView>,
    mins_until_reset: Option<Binary64>,
) -> Seq<MetricView> {
    if predicts_depletion(remaining_pct, depletion, mins_until_reset) {
        seq![
            text_line(
                "  Runs Out"@,
                duration_text(depletion->0.runs_out_mins, depletion->0.amount),
            ),
        ]
    } else {
        Seq::empty()
    }
}

/// The text lines under a limit window.
pub open spec fn child_lines(
    burn: Option<BurnTextView>,
    remaining_pct: Binary64,
    depletion: Option<DepletionView>,
    mins_until_reset: Option<Binary64>,
) -> Seq<MetricView> {
    burn_lines(burn) + depletion_lines(remaining_pct, depletion, mins_until_reset)
}

/// The text lines under a limit window of which `remaining_pct` is left.
pub fn build_child_metrics(
    burn: &Option<BurnText>,
    remaining_pct: &Binary64,
    depletion: &Option<Depletion>,
    mins_until_reset: &Option<Binary64>,
) -> (children: Vec<UsageMetric>)
    ensures
        metric_views(children@) == child_lines(
            burn_text_view(*burn),
            *remaining_pct,
            depletion_view(*depletion),
            *mins_until_reset,
        ),
{
    let mut children: Vec<UsageMetric> = Vec::new();
    if let Some(burn) = burn {
        children.push(text_metric("  Burn Rate", join2(burn.kilotokens_per_min.as_str(), "k tok/min")));
        children.push(text_metric("  Cost Rate", join3("$", burn.dollars_per_min.as_str(), "/min")));
    }
    assert(metric_views(children@) =~= burn_lines(burn_text_view(*burn)));
    let ghost burning = children@;
    if let Some(depletion) = depletion {
        if depletion.pct_per_min.is_positive() && remaining_pct.is_positive() {
            let shows_before_reset = match mins_until_reset {
                Some(reset) => depletion.runs_out_mins.is_less_than(reset),
                None => true,
            };
            if shows_before_reset {
                children.push(
                    text_metric(
                        "  Runs Out",
                        fmt_duration(&depletion.runs_out_mins, depletion.amount.as_str()),
                    ),
                );
            }
        }
    }
    proof {
        assert(metric_views(children@) =~= metric_views(burning) + depletion_lines(
            *remaining_pct,
            depletion_view(*depletion),
            *mins_until_reset,
        ));
    }
    children
}

/// The metrics that local messages alone can give: the burn, and no percentage.
pub open spec fn local_only_view(
    provider: Seq<char>,
    plan: Option<Seq<char>>,
    burn: Option<BurnTextView>,
) -> OutputView {
    OutputView { provider, account: None, plan, email: None, metrics: burn_lines(burn) }
}

/// The metrics that local messages alone can give.
pub fn local_only_output(provider: &str, plan: Option<String>, burn: &Option<BurnText>) -> (output:
    UsageOutput)
    ensures
        output@ == local_only_view(provider@, text_view(plan), burn_text_view(*burn)),
{
    let mut metrics: Vec<UsageMetric> = Vec::new();
    if burn.is_some() {
        let mut children = build_child_metrics(burn, &Binary64 { bits: ZERO_BITS }, &None, &None);
        metrics.append(&mut children);
    }
    assert(metric_views(metrics@) =~= burn_lines(burn_text_view(*burn)));
    UsageOutput { provider: provider.to_owned(), account: None, plan, email: None, metrics }
}

/// A limit window, and the percentage that the caller found to remain of it.
#[derive(Debug, PartialEq, Eq)]
pub struct WindowReading {
    pub window: Window,
    pub remaining_percent: Binary64,
}

/// A limit window with the rate at which it is consumed.
#[derive(Debug, PartialEq, Eq)]
pub struct PacedWindow {
    pub reading: WindowReading,
    pub depletion: Option<Depletion>,
}

/// Everything that a report is made of; the reset time is that of the five-hour
/// window.
#[derive(Debug, PartialEq, Eq)]
pub struct UsageReading {
    pub five_hour: Option<PacedWindow>,
    pub seven_day: Option<PacedWindow>,
    pub seven_day_opus: Option<WindowReading>,
    pub burn: Option<BurnText>,
    pub mins_until_reset: Option<Binary64>,
}

/// The line of a window.
pub open spec fn window_line(label: Seq<char>, reading: WindowReading) -> MetricView {
    window_metric_view(label, reading.window@, reading.remaining_percent)
}

/// The line of a window and what belongs under it, where there is such a window.
pub open spec fn paced_lines(
    label: Seq<char>,
    window: Option<PacedWindow>,
    burn: Option<BurnTextView>,
    mins_until_reset: Option<Binary64>,
) -> Seq<MetricView> {
    match window {
        Some(window) => seq![window_line(label, window.reading)] + child_lines(
            burn,
            window.reading.remaining_percent,
            depletion_view(window.depletion),
            mins_until_reset,
        ),
        None => Seq::empty(),
    }
}

/// All lines of a report: the five-hour window and what belongs under it, the week
/// and what belongs under it, and the week of the largest model. Under the week the
/// time of its reset is not looked at.
pub open spec fn report_lines(reading: UsageReading) -> Seq<MetricView> {
    let burn = burn_text_view(reading.burn);
    paced_lines("5h Limit"@, reading.five_hour, burn, reading.mins_until_reset) + paced_lines(
        "Week Limit"@,
        reading.seven_day,
        burn,
        None,
    ) + match reading.seven_day_opus {
        Some(opus) => seq![window_line("Opus"@, opus)],
        None => Seq::empty(),
    }
}

/// Lists a window and what belongs under it.
fn paced_metrics(
    label: &str,
    window: &PacedWindow,
    burn: &Option<BurnText>,
    mins_until_reset: &Option<Binary64>,
) -> (metrics: Vec<UsageMetric>)
    ensures
        metric_views(metrics@) == paced_lines(
            label@,
            Some(*window),
            burn_text_view(*burn),
            *mins_until_reset,
        ),
{
    let reading = &window.reading;
    let mut metrics: Vec<UsageMetric> = Vec::new();
    metrics.push(window_metric(label, &reading.window, reading.remaining_percent));
    let mut children = build_child_metrics(
        burn,
        &reading.remaining_percent,
        &window.depletion,
        mins_until_reset,
    );
    metrics.append(&mut children);
    assert(metric_views(metrics@) =~= paced_lines(
        label@,
        Some(*window),
        burn_text_view(*burn),
        *mins_until_reset,
    ));
    metrics
}

/// The full report.
pub fn usage_report(provider: &str, plan: Option<String>, reading: &UsageReading) -> (output:
    UsageOutput)
    ensures
        output@ == (OutputView {
            provider: provider@,
            account: None,
            plan: text_view(plan),
            email: None,
            metrics: report_lines(*reading),
        }),
{
    let mut metrics: Vec<UsageMetric> = Vec::new();
    if let Some(five_hour) = &reading.five_hour {
        let mut lines = paced_metrics(
            "5h Limit",
            five_hour,
            &reading.burn,
            &reading.mins_until_reset,
        );
        metrics.append(&mut lines);
    }
    let ghost burn = burn_text_view(reading.burn);
    let ghost five_hour = metrics@;
    assert(metric_views(five_hour) =~= paced_lines(
        "5h Limit"@,
        reading.five_hour,
        burn,
        reading.mins_until_reset,
    ));
    if let Some(seven_day) = &reading.seven_day {
        let mut lines = paced_metrics("Week Limit", seven_day, &reading.burn, &None);
        metrics.append(&mut lines);
    }
    let ghost both = metrics@;
    assert(metric_views(both) =~= metric_views(five_hour) + paced_lines(
        "Week Limit"@,
        reading.seven_day,
        burn,
        None,
    ));
    if let Some(opus) = &reading.seven_day_opus {
        metrics.push(window_metric("Opus", &opus.window, opus.remaining_percent));
    }
    assert(metric_views(metrics@) =~= report_lines(*reading));
    UsageOutput { provider: provider.to_owned(), account: None, plan, email: None, metrics }
}

/// Every line under a window is text without a progress bar.
pub proof fn law_child_lines_have_no_bar(
    burn: Option<BurnTextView>,
    remaining_pct: Binary64,
    depletion: Option<DepletionView>,
    mins_until_reset: Option<Binary64>,
    i: int,
)
    requires
        0 <= i < child_lines(burn, remaining_pct, depletion, mins_until_reset).len(),
    ensures
        ({
            let line = child_lines(burn, remaining_pct, depletion, mins_until_reset)[i];
            &&& line.remaining_percent.lt(b64(ZERO_BITS))
            &&& line.used_percent == b64(ZERO_BITS)
            &&& line.remaining_label is Some
            &&& line.resets_at is None
        }),
{
}

/// Some line says when the window runs out exactly if that is predicted, and the
/// burn and cost rates are shown exactly if there is a burn.
pub proof fn law_lines_shown(
    burn: Option<BurnTextView>,
    remaining_pct: Binary64,
    depletion: Option<DepletionView>,
    mins_until_reset: Option<Binary64>,
)
    ensures
        ({
            let lines = child_lines(burn, remaining_pct, depletion, mins_until_reset);
            &&& has_label(lines, "  Runs Out"@) <==> predicts_depletion(
                remaining_pct,
                depletion,
                mins_until_reset,
            )
            &&& has_label(lines, "  Burn Rate"@) <==> burn is Some
            &&& has_label(lines, "  Cost Rate"@) <==> burn is Some
        }),
{
    reveal_strlit("  Runs Out");
    reveal_strlit("  Burn Rate");
    reveal_strlit("  Cost Rate");
    let lines = child_lines(burn, remaining_pct, depletion, mins_until_reset);
    let runs_out = "  Runs Out"@;
    let burn_rate = "  Burn Rate"@;
    let cost_rate = "  Cost Rate"@;
    assert(runs_out[2] == 'R' && burn_rate[2] == 'B' && cost_rate[2] == 'C');
    if burn is Some {
        assert(lines[0].label == burn_rate);
        assert(lines[1].label == cost_rate);
    }
    if predicts_depletion(remaining_pct, depletion, mins_until_reset) {
        assert(lines[lines.len() - 1].label == runs_out);
    }
}

/// Some line has the label.
pub open spec fn has_label(lines: Seq<MetricView>, label: Seq<char>) -> bool {
    exists|i: int| 0 <= i < lines.len() && (#[trigger] lines[i]).label == label
}

/// Without a known rate of consumption, nothing says when a window runs out.
pub proof fn law_no_rate_no_prediction(
    burn: Option<BurnTextView>,
    remaining_pct: Binary64,
    mins_until_reset: Option<Binary64>,
)
    ensures
        !has_label(child_lines(burn, remaining_pct, None, mins_until_reset), "  Runs Out"@),
{
    law_lines_shown(burn, remaining_pct, None, mins_until_reset);
}

/// When a window is reset before it would run out, nothing says that it runs out.
pub proof fn law_reset_first_no_prediction(
    burn: Option<BurnTextView>,
    remaining_pct: Binary64,
    depletion: DepletionView,
    reset: Binary64,
)
    requires
        !depletion.runs_out_mins.lt(reset),
    ensures
        !has_label(child_lines(burn, remaining_pct, Some(depletion), Some(reset)), "  Runs Out"@),
{
    law_lines_shown(burn, remaining_pct, Some(depletion), Some(reset));
}

/// Local messages alone never predict when a window runs out, and show no bar.
pub proof fn law_local_only_makes_no_prediction(
    provider: Seq<char>,
    plan: Option<Seq<char>>,
    burn: Option<BurnTextView>,
)
    ensures
        !has_label(local_only_view(provider, plan, burn).metrics, "  Runs Out"@),
        local_only_view(provider, plan, burn).metrics == child_lines(
            burn,
            b64(ZERO_BITS),
            None,
            None,
        ),
        burn is None ==> local_only_view(provider, plan, burn).metrics.len() == 0,
{
    law_no_rate_no_prediction(burn, b64(ZERO_BITS), None);
    assert(burn_lines(burn) =~= child_lines(burn, b64(ZERO_BITS), None, None));
}

} // verus!
