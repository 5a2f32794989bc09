//! Progress reports: the record that an operation hands to its observer, what
//! a progress bar makes of it, and how the increments of a phase add up.

use vstd::prelude::*;

verus! {

/// One progress report. A field that is absent leaves that part of the display
/// as it was; a report without a total is one step of an open-ended phase.
#[derive(Debug, Clone)]
pub struct UpdateStatus {
    pub brief: Option<String>,
    pub detail: Option<String>,
    pub increment: Option<u64>,
    pub total: Option<u64>,
}

/// A progress report as a mathematical value.
pub struct UpdateStatusView {
    pub brief: Option<Seq<char>>,
    pub detail: Option<Seq<char>>,
    pub increment: Option<u64>,
    pub total: Option<u64>,
}

/// The text of an optional string.
pub open spec fn option_text(s: Option<String>) -> Option<Seq<char>> {
    match s {
        Some(s) => Some(s@),
        None => None,
    }
}

impl View for UpdateStatus {
    type V = UpdateStatusView;

    open spec fn view(&self) -> UpdateStatusView {
        UpdateStatusView {
            brief: option_text(self.brief),
            detail: option_text(self.detail),
            increment: self.increment,
            total: self.total,
        }
    }
}

/// The report of one step of an open-ended phase.
pub open spec fn step_report() -> UpdateStatusView {
    UpdateStatusView { brief: None, detail: None, increment: Some(1u64), total: None }
}

/// The reports of a sequence, each as a mathematical value.
pub open spec fn reports(updates: Seq<UpdateStatus>) -> Seq<UpdateStatusView> {
    updates.map_values(|u: UpdateStatus| u@)
}

impl Default for UpdateStatus {
    fn default() -> (r: UpdateStatus)
        ensures
            r@ == (UpdateStatusView { brief: None, detail: None, increment: None, total: None }),
    {
        UpdateStatus { brief: None, detail: None, increment: None, total: None }
    }
}

impl UpdateStatus {
    /// A report that only names what is being worked on.
    pub fn with_detail(detail: String) -> (r: UpdateStatus)
        ensures
            r@ == (UpdateStatusView {
                brief: None,
                detail: Some(detail@),
                increment: None,
                total: None,
            }),
    {
        UpdateStatus { brief: None, detail: Some(detail), increment: None, total: None }
    }

    /// One step of an open-ended phase.
    pub fn step() -> (r: UpdateStatus)
        ensures
            r@ == step_report(),
    {
        UpdateStatus { brief: None, detail: None, increment: Some(1), total: None }
    }
}

/// Records a report in the log, after a copy of it has gone to the
/// observer.
pub fn record<F: Fn(UpdateStatus)>(log: &mut Vec<UpdateStatus>, observe: &F, update: UpdateStatus)
    requires
        forall|u: UpdateStatus| observe.requires((u,)),
    ensures
        final(log)@ == old(log)@.push(update),
        reports(final(log)@) == reports(old(log)@).push(update@),
{
    observe(update.clone());
    let ghost before = log@;
    log.push(update);
    proof {
        assert(reports(log@) =~= reports(before).push(update@));
    }
}

/// By how much a report advances a phase whose total is declared: its
/// increment where it carries both a total and an increment, else nothing.
pub open spec fn counted_increment(u: UpdateStatusView) -> nat {
    if u.total.is_some() && u.increment.is_some() {
        u.increment.unwrap() as nat
    } else {
        0
    }
}

/// The sum of the counted increments of a sequence of reports.
pub open spec fn cumulative(updates: Seq<UpdateStatusView>) -> nat
    decreases updates.len(),
{
    if updates.len() == 0 {
        0
    } else {
        cumulative(updates.drop_last()) + counted_increment(updates.last())
    }
}

/// Every report that carries a total carries `total`.
pub open spec fn declares_only(updates: Seq<UpdateStatusView>, total: u64) -> bool {
    forall|i: int|
        0 <= i < updates.len() && (#[trigger] updates[i]).total.is_some() ==> updates[i].total
            == Some(total)
}

/// Appending a report adds its counted increment to the sum.
pub proof fn lemma_cumulative_push(updates: Seq<UpdateStatusView>, u: UpdateStatusView)
    ensures
        cumulative(updates.push(u)) == cumulative(updates) + counted_increment(u),
{
    assert(updates.push(u).drop_last() =~= updates);
}

/// The running sum of the increments never goes down: what has been counted
/// after the first `i` reports is at most what has been counted after the
/// first `j`, for `i <= j`.
pub proof fn lemma_cumulative_monotonic(updates: Seq<UpdateStatusView>, i: int, j: int)
    requires
        0 <= i <= j <= updates.len(),
    ensures
        cumulative(updates.take(i)) <= cumulative(updates.take(j)),
    decreases j - i,
{
    if i < j {
        lemma_cumulative_monotonic(updates, i, j - 1);
        assert(updates.take(j).drop_last() =~= updates.take(j - 1));
    }
}

/// One instruction for a progress bar.
#[derive(Debug, Clone, PartialEq, Eq)]
pub enum BarCommand {
    /// Shows the label before the bar.
    SetPrefix(String),
    /// Shows the label behind the bar.
    SetMessage(String),
    /// Gives the bar its length.
    SetTotal(u64),
    /// Moves the bar on, and back to its start where it would pass its end.
    IncrementWithOverflow(u64),
}

/// An instruction as a mathematical value.
pub enum BarCommandView {
    SetPrefix(Seq<char>),
    SetMessage(Seq<char>),
    SetTotal(u64),
    IncrementWithOverflow(u64),
}

impl View for BarCommand {
    type V = BarCommandView;

    open spec fn view(&self) -> BarCommandView {
        match *self {
            BarCommand::SetPrefix(s) => BarCommandView::SetPrefix(s@),
            BarCommand::SetMessage(s) => BarCommandView::SetMessage(s@),
            BarCommand::SetTotal(n) => BarCommandView::SetTotal(n),
            BarCommand::IncrementWithOverflow(n) => BarCommandView::IncrementWithOverflow(n),
        }
    }
}

/// The instructions of a sequence, each as a mathematical value.
pub open spec fn commands(list: Seq<BarCommand>) -> Seq<BarCommandView> {
    list.map_values(|c: BarCommand| c@)
}

/// The instructions that show a report on a bar, in order: the labels that
/// the report carries; then, with a total, that length and the increment, if
/// there is one; without a total, length 100 and one step.
pub open spec fn bar_commands(update: UpdateStatusView) -> Seq<BarCommandView> {
    let prefix = match update.brief {
        Some(brief) => seq![BarCommandView::SetPrefix(brief)],
        None => Seq::empty(),
    };
    let message = match update.detail {
        Some(detail) => seq![BarCommandView::SetMessage(detail)],
        None => Seq::empty(),
    };
    let advance = match (update.total, update.increment) {
        (Some(total), Some(increment)) => seq![
            BarCommandView::SetTotal(total),
            BarCommandView::IncrementWithOverflow(increment),
        ],
        (Some(total), None) => seq![BarCommandView::SetTotal(total)],
        (None, _) => seq![
            BarCommandView::SetTotal(100u64),
            BarCommandView::IncrementWithOverflow(1u64),
        ],
    };
    prefix + message + advance
}

/// The instructions that show a report on a progress bar.
pub fn update_status(update: UpdateStatus) -> (r: Vec<BarCommand>)
    ensures
        commands(r@) == bar_commands(update@),
{
    let mut r: Vec<BarCommand> = Vec::new();
    if let Some(brief) = update.brief {
        r.push(BarCommand::SetPrefix(brief));
    }
    if let Some(detail) = update.detail {
        r.push(BarCommand::SetMessage(detail));
    }
    if let Some(total) = update.total {
        r.push(BarCommand::SetTotal(total));
        if let Some(increment) = update.increment {
            r.push(BarCommand::IncrementWithOverflow(increment));
        }
    } else {
        r.push(BarCommand::SetTotal(100));
        r.push(BarCommand::IncrementWithOverflow(1));
    }
    proof {
        assert(commands(r@) =~= bar_commands(update@));
    }
    r
}

} // verus!
