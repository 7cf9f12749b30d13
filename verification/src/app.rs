//! The application's state and how messages and input change it.
use vstd::prelude::*;

use crate::dialog::{
    scancel_signal, scancel_signals, signal_index_for_digit, signal_index_of_digit,
    time_limit_from_input, validated_time_limit, Dialog, DialogView, SCANCEL_SIGNAL_COUNT,
};
use crate::file_watcher::FileWatcherError;
use crate::list_state::{
    list_scroll_down_by, list_scroll_up_by, list_select, list_select_first, list_select_last,
    list_select_next, list_select_previous, selection_after_select, usize_sat_add, usize_sat_sub,
    ListSelection,
};
use crate::text::{append_str, opt_view};
use crate::ui_text::ScrollAnchor;

verus! {

/// A job as `squeue` reports it.
pub struct Job {
    pub job_id: String,
    pub array_id: String,
    pub array_step: Option<String>,
    pub name: String,
    pub state: String,
    pub state_compact: String,
    pub reason: Option<String>,
    pub user: String,
    pub time: String,
    pub time_limit: String,
    pub start_time: String,
    pub tres: String,
    pub partition: String,
    pub nodelist: String,
    pub stdout: Option<String>,
    pub stderr: Option<String>,
    pub command: String,
}

/// A job's fields as character sequences.
pub ghost struct JobView {
    pub job_id: Seq<char>,
    pub array_id: Seq<char>,
    pub array_step: Option<Seq<char>>,
    pub name: Seq<char>,
    pub state: Seq<char>,
    pub state_compact: Seq<char>,
    pub reason: Option<Seq<char>>,
    pub user: Seq<char>,
    pub time: Seq<char>,
    pub time_limit: Seq<char>,
    pub start_time: Seq<char>,
    pub tres: Seq<char>,
    pub partition: Seq<char>,
    pub nodelist: Seq<char>,
    pub stdout: Option<Seq<char>>,
    pub stderr: Option<Seq<char>>,
    pub command: Seq<char>,
}

impl View for Job {
    type V = JobView;

    open spec fn view(&self) -> JobView {
        JobView {
            job_id: self.job_id@,
            array_id: self.array_id@,
            array_step: opt_view(self.array_step),
            name: self.name@,
            state: self.state@,
            state_compact: self.state_compact@,
            reason: opt_view(self.reason),
            user: self.user@,
            time: self.time@,
            time_limit: self.time_limit@,
            start_time: self.start_time@,
            tres: self.tres@,
            partition: self.partition@,
            nodelist: self.nodelist@,
            stdout: opt_view(self.stdout),
            stderr: opt_view(self.stderr),
            command: self.command@,
        }
    }
}

/// The id shown for a job: `<array id>_<array step>` for an array task, the
/// job id otherwise.
pub open spec fn job_display_id(j: JobView) -> Seq<char> {
    match j.array_step {
        Some(step) => j.array_id + seq!['_'] + step,
        None => j.job_id,
    }
}

impl Job {
    /// The id shown for this job (see `job_display_id`).
    pub fn id(&self) -> (r: String)
        ensures
            r@ == job_display_id(self@),
    {
        match &self.array_step {
            Some(array_step) => {
                let mut r = self.array_id.clone();
                append_str(&mut r, "_");
                append_str(&mut r, array_step.as_str());
                proof {
                    reveal_strlit("_");
                    assert(r@ =~= job_display_id(self@));
                }
                r
            },
            None => self.job_id.clone(),
        }
    }
}

/// The panel that keyboard navigation acts on.
#[derive(Clone, Copy, PartialEq, Eq, Structural, Debug)]
pub enum Focus {
    Jobs,
}

/// Which output file of the selected job is shown.
#[derive(Clone, Copy, PartialEq, Eq, Structural, Debug)]
pub enum OutputFileView {
    Stdout,
    Stderr,
}

impl Default for OutputFileView {
    fn default() -> (r: Self)
        ensures
            r == OutputFileView::Stdout,
    {
        OutputFileView::Stdout
    }
}

/// Which way the mouse wheel turned.
#[derive(Clone, Copy, PartialEq, Eq, Structural, Debug)]
pub enum MouseWheelDirection {
    Up,
    Down,
}

/// The panel the mouse wheel scrolls.
#[derive(Clone, Copy, PartialEq, Eq, Structural, Debug)]
pub enum MouseScrollTarget {
    Jobs,
    Output,
}

/// A rectangle of terminal cells.
#[derive(Clone, Copy, PartialEq, Eq, Structural, Debug)]
pub struct Area {
    pub x: u16,
    pub y: u16,
    pub width: u16,
    pub height: u16,
}

/// A key, as far as the application tells keys apart.
#[derive(Clone, Copy, PartialEq, Eq, Structural, Debug)]
pub enum KeyCode {
    Char(char),
    Enter,
    Esc,
    Up,
    Down,
    Left,
    Right,
    PageUp,
    PageDown,
    Home,
    End,
    Other,
}

/// A key press and the modifiers held with it.
#[derive(Clone, Copy, PartialEq, Eq, Structural, Debug)]
pub struct KeyPress {
    pub code: KeyCode,
    pub control: bool,
    pub shift: bool,
    pub alt: bool,
}

/// What the application reacts to.
pub enum AppMessage {
    /// A fresh job list from `squeue`.
    Jobs(Vec<Job>),
    /// The selected job's output, or why it could not be read.
    JobOutput(Result<String, FileWatcherError>),
    /// A key press.
    Key(KeyPress),
    /// A click on the job list row with this index.
    MouseClick(usize),
    /// Mouse wheel turns over a panel.
    MouseWheel { target: MouseScrollTarget, direction: MouseWheelDirection, amount: u16 },
}

/// The text of an output result: the output, or the error's message.
pub open spec fn output_view(r: Result<String, FileWatcherError>) -> Result<Seq<char>, Seq<char>> {
    match r {
        Ok(s) => Ok(s@),
        Err(FileWatcherError::File(e)) => Err(e@),
    }
}

pub ghost enum MessageView {
    Jobs(Seq<JobView>),
    JobOutput(Result<Seq<char>, Seq<char>>),
    Key(KeyPress),
    MouseClick(usize),
    MouseWheel { target: MouseScrollTarget, direction: MouseWheelDirection, amount: u16 },
}

/// The views of a list of jobs.
pub open spec fn jobs_view(v: Seq<Job>) -> Seq<JobView> {
    v.map_values(|j: Job| j@)
}

impl View for AppMessage {
    type V = MessageView;

    open spec fn view(&self) -> MessageView {
        match self {
            AppMessage::Jobs(v) => MessageView::Jobs(jobs_view(v@)),
            AppMessage::JobOutput(r) => MessageView::JobOutput(output_view(*r)),
            AppMessage::Key(k) => MessageView::Key(*k),
            AppMessage::MouseClick(i) => MessageView::MouseClick(*i),
            AppMessage::MouseWheel { target, direction, amount } => MessageView::MouseWheel {
                target: *target,
                direction: *direction,
                amount: *amount,
            },
        }
    }
}

/// Work the application must do outside its state after a message.
pub enum Effect {
    /// Run `scancel` on the job, with the signal if one is given.
    Scancel { id: String, signal: Option<String> },
    /// Run `scontrol` to set the job's time limit.
    UpdateTimeLimit { id: String, time_limit: String },
    /// Give the key press to the time limit editor.
    ForwardToInput,
    /// Open the time limit editor with this text.
    OpenTimeLimitInput(String),
}

pub ghost enum EffectView {
    Scancel { id: Seq<char>, signal: Option<Seq<char>> },
    UpdateTimeLimit { id: Seq<char>, time_limit: Seq<char> },
    ForwardToInput,
    OpenTimeLimitInput(Seq<char>),
}

impl View for Effect {
    type V = EffectView;

    open spec fn view(&self) -> EffectView {
        match self {
            Effect::Scancel { id, signal } => EffectView::Scancel {
                id: id@,
                signal: opt_view(*signal),
            },
            Effect::UpdateTimeLimit { id, time_limit } => EffectView::UpdateTimeLimit {
                id: id@,
                time_limit: time_limit@,
            },
            Effect::ForwardToInput => EffectView::ForwardToInput,
            Effect::OpenTimeLimitInput(t) => EffectView::OpenTimeLimitInput(t@),
        }
    }
}

/// The view of an optional effect.
pub open spec fn effect_view(e: Option<Effect>) -> Option<EffectView> {
    match e {
        Some(x) => Some(x@),
        None => None,
    }
}

/// The application's state.
pub struct AppState {
    pub focus: Focus,
    pub dialog: Option<Dialog>,
    pub jobs: Vec<Job>,
    /// The job list's selection and scroll position.
    pub list: ListSelection,
    pub job_output: Result<String, FileWatcherError>,
    pub job_output_anchor: ScrollAnchor,
    /// How many text lines the output view is scrolled away from its anchor.
    pub job_output_offset: u16,
    pub job_output_wrap: bool,
    pub output_file_view: OutputFileView,
    /// The rows the job list shows (inside its border), as last drawn.
    pub job_list_height: u16,
    /// Where the job list was last drawn.
    pub job_list_area: Area,
    /// Where the output was last drawn.
    pub job_output_area: Area,
}

pub ghost struct AppView {
    pub focus: Focus,
    pub dialog: Option<DialogView>,
    pub jobs: Seq<JobView>,
    pub list: ListSelection,
    pub job_output: Result<Seq<char>, Seq<char>>,
    pub anchor: ScrollAnchor,
    pub output_offset: u16,
    pub wrap: bool,
    pub file_view: OutputFileView,
    pub list_height: u16,
    pub list_area: Area,
    pub output_area: Area,
}

/// The view of an optional dialog.
pub open spec fn dialog_view(d: Option<Dialog>) -> Option<DialogView> {
    match d {
        Some(x) => Some(x@),
        None => None,
    }
}

impl View for AppState {
    type V = AppView;

    open spec fn view(&self) -> AppView {
        AppView {
            focus: self.focus,
            dialog: dialog_view(self.dialog),
            jobs: jobs_view(self.jobs@),
            list: self.list,
            job_output: output_view(self.job_output),
            anchor: self.job_output_anchor,
            output_offset: self.job_output_offset,
            wrap: self.job_output_wrap,
            file_view: self.output_file_view,
            list_height: self.job_list_height,
            list_area: self.job_list_area,
            output_area: self.job_output_area,
        }
    }
}

/// The signal dialog's position always names one of the signals.
pub open spec fn app_wf(s: AppView) -> bool {
    s.dialog matches Some(DialogView::SelectCancelSignal { selected_signal, .. })
        ==> selected_signal < SCANCEL_SIGNAL_COUNT
}

/// The selected job, when the selection names one.
pub open spec fn selected_job(s: AppView) -> Option<JobView> {
    match s.list.selected {
        Some(i) => if i < s.jobs.len() {
            Some(s.jobs[i as int])
        } else {
            None
        },
        None => None,
    }
}

/// `i` is the first position of a job with display id `id`.
pub open spec fn is_first_with_id(jobs: Seq<JobView>, id: Seq<char>, i: int) -> bool {
    &&& 0 <= i < jobs.len()
    &&& job_display_id(jobs[i]) == id
    &&& forall|j: int| 0 <= j < i ==> job_display_id(#[trigger] jobs[j]) != id
}

/// The first position of a job with display id `id`, if any.
pub open spec fn first_with_id(jobs: Seq<JobView>, id: Seq<char>) -> Option<int> {
    if exists|i: int| is_first_with_id(jobs, id, i) {
        Some(choose|i: int| is_first_with_id(jobs, id, i))
    } else {
        None
    }
}

/// A new job list arrives: the same job stays selected when it is still
/// listed; otherwise the selection keeps its position (moved up to the last
/// job when the list got shorter), selects the first job when nothing was
/// selected, and is cleared when the list is empty.
pub open spec fn after_jobs(s: AppView, jobs: Seq<JobView>) -> AppView {
    let list = if jobs.len() == 0 {
        selection_after_select(s.list, None)
    } else {
        match selected_job(s) {
            Some(old) => {
                let index = match first_with_id(jobs, job_display_id(old)) {
                    Some(k) => k as usize,
                    None => {
                        let i = s.list.selected.unwrap();
                        if i < jobs.len() - 1 {
                            i
                        } else {
                            (jobs.len() - 1) as usize
                        }
                    },
                };
                selection_after_select(s.list, Some(index))
            },
            None => selection_after_select(s.list, Some(0)),
        }
    };
    AppView { jobs, list, ..s }
}

/// `a + b` for `u16`, or the largest `u16` when that overflows.
pub open spec fn u16_sat_add(a: int, b: int) -> u16 {
    if a + b > u16::MAX {
        u16::MAX
    } else {
        (a + b) as u16
    }
}

/// `a - b` for `u16`, or 0 when `b` is larger.
pub open spec fn u16_sat_sub(a: int, b: int) -> u16 {
    if a < b {
        0
    } else {
        (a - b) as u16
    }
}

/// Scrolls the output `delta` lines further down the text: away from the
/// top when anchored there, towards the bottom when anchored at the bottom.
pub open spec fn output_scrolled_down(s: AppView, delta: u16) -> AppView {
    match s.anchor {
        ScrollAnchor::Top => AppView {
            output_offset: u16_sat_add(s.output_offset as int, delta as int),
            ..s
        },
        ScrollAnchor::Bottom => AppView {
            output_offset: u16_sat_sub(s.output_offset as int, delta as int),
            ..s
        },
    }
}

/// Scrolls the output `delta` lines further up the text.
pub open spec fn output_scrolled_up(s: AppView, delta: u16) -> AppView {
    match s.anchor {
        ScrollAnchor::Top => AppView {
            output_offset: u16_sat_sub(s.output_offset as int, delta as int),
            ..s
        },
        ScrollAnchor::Bottom => AppView {
            output_offset: u16_sat_add(s.output_offset as int, delta as int),
            ..s
        },
    }
}

/// A page key scrolls 50 lines with Shift, Control or Alt held, 1 otherwise.
pub open spec fn page_delta(k: KeyPress) -> u16 {
    if k.shift || k.control || k.alt {
        50
    } else {
        1
    }
}

/// A key press while a dialog is open: the dialog afterwards (none when it
/// closes) and the work it asks for.
pub open spec fn dialog_key(d: DialogView, k: KeyPress) -> (Option<DialogView>, Option<EffectView>) {
    match d {
        DialogView::ConfirmCancelJob(id) => if k.code == KeyCode::Enter || k.code == KeyCode::Char(
            'y',
        ) {
            (None, Some(EffectView::Scancel { id, signal: None }))
        } else if k.code == KeyCode::Esc {
            (None, None)
        } else {
            (Some(d), None)
        },
        DialogView::SelectCancelSignal { id, selected_signal } => if k.code == KeyCode::Up
            || k.code == KeyCode::Char('k') {
            (
                Some(
                    DialogView::SelectCancelSignal {
                        id,
                        selected_signal: usize_sat_sub(selected_signal as int, 1),
                    },
                ),
                None,
            )
        } else if k.code == KeyCode::Down || k.code == KeyCode::Char('j') {
            let next = usize_sat_add(selected_signal as int, 1);
            (
                Some(
                    DialogView::SelectCancelSignal {
                        id,
                        selected_signal: if next < SCANCEL_SIGNAL_COUNT - 1 {
                            next
                        } else {
                            (SCANCEL_SIGNAL_COUNT - 1) as usize
                        },
                    },
                ),
                None,
            )
        } else if k.code == KeyCode::Enter {
            (
                None,
                Some(
                    EffectView::Scancel {
                        id,
                        signal: Some(scancel_signals()[selected_signal as int]),
                    },
                ),
            )
        } else if k.code == KeyCode::Esc {
            (None, None)
        } else {
            match k.code {
                KeyCode::Char(c) => match signal_index_of_digit(c) {
                    Some(i) => if i < SCANCEL_SIGNAL_COUNT {
                        (Some(DialogView::SelectCancelSignal { id, selected_signal: i }), None)
                    } else {
                        (Some(d), None)
                    },
                    None => (Some(d), None),
                },
                _ => (Some(d), None),
            }
        },
        DialogView::EditTimeLimit { id, input } => if k.code == KeyCode::Enter {
            match time_limit_from_input(input) {
                Some(t) => (None, Some(EffectView::UpdateTimeLimit { id, time_limit: t })),
                None => (Some(d), None),
            }
        } else if k.code == KeyCode::Esc {
            (None, None)
        } else {
            (Some(d), Some(EffectView::ForwardToInput))
        },
        DialogView::CommandError { .. } => if k.code == KeyCode::Enter || k.code == KeyCode::Esc {
            (None, None)
        } else {
            (Some(d), None)
        },
    }
}

/// A key press with no dialog open.
pub open spec fn main_key(s: AppView, k: KeyPress) -> (AppView, Option<EffectView>) {
    let c = k.code;
    if c == KeyCode::Char('h') || c == KeyCode::Left || c == KeyCode::Char('l') || c
        == KeyCode::Right {
        (s, None)
    } else if c == KeyCode::Char('k') || c == KeyCode::Up {
        (
            AppView {
                list: selection_after_select(
                    s.list,
                    Some(
                        match s.list.selected {
                            Some(i) => usize_sat_sub(i as int, 1),
                            None => usize::MAX,
                        },
                    ),
                ),
                ..s
            },
            None,
        )
    } else if c == KeyCode::Char('j') || c == KeyCode::Down {
        (
            AppView {
                list: selection_after_select(
                    s.list,
                    Some(
                        match s.list.selected {
                            Some(i) => usize_sat_add(i as int, 1),
                            None => 0,
                        },
                    ),
                ),
                ..s
            },
            None,
        )
    } else if c == KeyCode::Char('g') {
        (AppView { list: selection_after_select(s.list, Some(0)), ..s }, None)
    } else if c == KeyCode::Char('G') {
        (AppView { list: selection_after_select(s.list, Some(usize::MAX)), ..s }, None)
    } else if c == KeyCode::Char('u') || c == KeyCode::Char('d') {
        if k.control {
            let from = match s.list.selected {
                Some(i) => i as int,
                None => 0,
            };
            let half = (s.list_height / 2) as int;
            let to = if c == KeyCode::Char('u') {
                usize_sat_sub(from, half)
            } else {
                usize_sat_add(from, half)
            };
            (AppView { list: selection_after_select(s.list, Some(to)), ..s }, None)
        } else {
            (s, None)
        }
    } else if c == KeyCode::PageDown {
        (output_scrolled_down(s, page_delta(k)), None)
    } else if c == KeyCode::PageUp {
        (output_scrolled_up(s, page_delta(k)), None)
    } else if c == KeyCode::Home {
        (AppView { output_offset: 0, anchor: ScrollAnchor::Top, ..s }, None)
    } else if c == KeyCode::End {
        (AppView { output_offset: 0, anchor: ScrollAnchor::Bottom, ..s }, None)
    } else if c == KeyCode::Char('c') || c == KeyCode::Char('C') || c == KeyCode::Char('t') {
        match selected_job(s) {
            Some(j) => if c == KeyCode::Char('c') {
                (
                    AppView {
                        dialog: Some(DialogView::ConfirmCancelJob(job_display_id(j))),
                        ..s
                    },
                    None,
                )
            } else if c == KeyCode::Char('C') {
                (
                    AppView {
                        dialog: Some(
                            DialogView::SelectCancelSignal {
                                id: job_display_id(j),
                                selected_signal: 0,
                            },
                        ),
                        ..s
                    },
                    None,
                )
            } else {
                (
                    AppView {
                        dialog: Some(
                            DialogView::EditTimeLimit {
                                id: job_display_id(j),
                                input: j.time_limit,
                            },
                        ),
                        ..s
                    },
                    Some(EffectView::OpenTimeLimitInput(j.time_limit)),
                )
            },
            None => (s, None),
        }
    } else if c == KeyCode::Char('o') {
        (
            AppView {
                file_view: match s.file_view {
                    OutputFileView::Stdout => OutputFileView::Stderr,
                    OutputFileView::Stderr => OutputFileView::Stdout,
                },
                ..s
            },
            None,
        )
    } else if c == KeyCode::Char('w') {
        (AppView { wrap: !s.wrap, ..s }, None)
    } else {
        (s, None)
    }
}

/// How a message changes the state, and the work it asks for. Mouse input
/// does nothing while a dialog is open; keys go to the dialog when one is.
pub open spec fn step(s: AppView, m: MessageView) -> (AppView, Option<EffectView>) {
    match m {
        MessageView::Jobs(jobs) => (after_jobs(s, jobs), None),
        MessageView::JobOutput(content) => (AppView { job_output: content, ..s }, None),
        MessageView::Key(k) => match s.dialog {
            Some(d) => {
                let (d2, e) = dialog_key(d, k);
                (AppView { dialog: d2, ..s }, e)
            },
            None => main_key(s, k),
        },
        MessageView::MouseClick(index) => if s.dialog is None && index < s.jobs.len() {
            (AppView { list: selection_after_select(s.list, Some(index)), ..s }, None)
        } else {
            (s, None)
        },
        MessageView::MouseWheel { target, direction, amount } => if s.dialog is None {
            match target {
                MouseScrollTarget::Jobs => {
                    let from = match s.list.selected {
                        Some(i) => i as int,
                        None => 0,
                    };
                    let to = match direction {
                        MouseWheelDirection::Up => usize_sat_sub(from, amount as int),
                        MouseWheelDirection::Down => usize_sat_add(from, amount as int),
                    };
                    (AppView { list: selection_after_select(s.list, Some(to)), ..s }, None)
                },
                MouseScrollTarget::Output => match direction {
                    MouseWheelDirection::Up => (output_scrolled_up(s, amount), None),
                    MouseWheelDirection::Down => (output_scrolled_down(s, amount), None),
                },
            }
        } else {
            (s, None)
        },
    }
}

/// The file of the selected job's output that is shown, if any.
pub open spec fn selected_output_path(s: AppView) -> Option<Seq<char>> {
    match selected_job(s) {
        Some(j) => match s.file_view {
            OutputFileView::Stdout => j.stdout,
            OutputFileView::Stderr => j.stderr,
        },
        None => None,
    }
}

/// The first position of a job with display id `id` (see `first_with_id`).
fn position_of_id(jobs: &Vec<Job>, id: &String) -> (r: Option<usize>)
    ensures
        match r {
            Some(k) => k < jobs@.len() && first_with_id(jobs_view(jobs@), id@) == Some(k as int),
            None => first_with_id(jobs_view(jobs@), id@) is None,
        },
{
    let ghost jv = jobs_view(jobs@);
    let mut i: usize = 0;
    while i < jobs.len()
        invariant
            i <= jobs@.len(),
            jv == jobs_view(jobs@),
            forall|j: int| 0 <= j < i ==> job_display_id(#[trigger] jv[j]) != id@,
        decreases jobs@.len() - i,
    {
        let this_id = jobs[i].id();
        if this_id == *id {
            proof {
                assert(jv[i as int] == jobs@[i as int]@);
                assert(is_first_with_id(jv, id@, i as int));
                assert forall|x: int| is_first_with_id(jv, id@, x) implies x == i by {
                    if x > i {
                        assert(job_display_id(jv[i as int]) == id@);
                    }
                }
            }
            return Some(i);
        }
        proof {
            assert(jv[i as int] == jobs@[i as int]@);
        }
        i = i + 1;
    }
    proof {
        assert(!exists|x: int| is_first_with_id(jv, id@, x));
    }
    None
}

fn u16_saturating_add(a: u16, b: u16) -> (r: u16)
    ensures
        r == u16_sat_add(a as int, b as int),
{
    if a as u32 + b as u32 > 65535 {
        65535
    } else {
        a + b
    }
}

fn u16_saturating_sub(a: u16, b: u16) -> (r: u16)
    ensures
        r == u16_sat_sub(a as int, b as int),
{
    if a < b {
        0
    } else {
        a - b
    }
}

fn usize_saturating_add(a: usize, b: usize) -> (r: usize)
    ensures
        r == usize_sat_add(a as int, b as int),
{
    if a > usize::MAX - b {
        usize::MAX
    } else {
        a + b
    }
}

fn usize_saturating_sub(a: usize, b: usize) -> (r: usize)
    ensures
        r == usize_sat_sub(a as int, b as int),
{
    if a < b {
        0
    } else {
        a - b
    }
}

/// A key press while the dialog `d` is open (see `dialog_key`).
fn dialog_key_exec(d: &Dialog, k: KeyPress) -> (r: (Option<Dialog>, Option<Effect>))
    requires
        d@ matches DialogView::SelectCancelSignal { selected_signal, .. } ==> selected_signal
            < SCANCEL_SIGNAL_COUNT,
    ensures
        (dialog_view(r.0), effect_view(r.1)) == dialog_key(d@, k),
{
    match d {
        Dialog::ConfirmCancelJob(id) => {
            if k.code == KeyCode::Enter || k.code == KeyCode::Char('y') {
                (None, Some(Effect::Scancel { id: id.clone(), signal: None }))
            } else if k.code == KeyCode::Esc {
                (None, None)
            } else {
                (Some(Dialog::ConfirmCancelJob(id.clone())), None)
            }
        },
        Dialog::SelectCancelSignal { id, selected_signal } => {
            let sel = *selected_signal;
            if k.code == KeyCode::Up || k.code == KeyCode::Char('k') {
                (
                    Some(
                        Dialog::SelectCancelSignal {
                            id: id.clone(),
                            selected_signal: usize_saturating_sub(sel, 1),
                        },
                    ),
                    None,
                )
            } else if k.code == KeyCode::Down || k.code == KeyCode::Char('j') {
                let next = usize_saturating_add(sel, 1);
                let last = SCANCEL_SIGNAL_COUNT - 1;
                (
                    Some(
                        Dialog::SelectCancelSignal {
                            id: id.clone(),
                            selected_signal: if next < last {
                                next
                            } else {
                                last
                            },
                        },
                    ),
                    None,
                )
            } else if k.code == KeyCode::Enter {
                let signal = String::from_str(scancel_signal(sel));
                (None, Some(Effect::Scancel { id: id.clone(), signal: Some(signal) }))
            } else if k.code == KeyCode::Esc {
                (None, None)
            } else {
                let picked = match k.code {
                    KeyCode::Char(c) => signal_index_for_digit(c),
                    _ => None,
                };
                let new_sel = match picked {
                    Some(i) => if i < SCANCEL_SIGNAL_COUNT {
                        i
                    } else {
                        sel
                    },
                    None => sel,
                };
                (Some(Dialog::SelectCancelSignal { id: id.clone(), selected_signal: new_sel }), None)
            }
        },
        Dialog::EditTimeLimit { id, input } => {
            if k.code == KeyCode::Enter {
                match validated_time_limit(input.as_str()) {
                    Some(t) => (None, Some(Effect::UpdateTimeLimit { id: id.clone(), time_limit: t })),
                    None => (
                        Some(Dialog::EditTimeLimit { id: id.clone(), input: input.clone() }),
                        None,
                    ),
                }
            } else if k.code == KeyCode::Esc {
                (None, None)
            } else {
                (
                    Some(Dialog::EditTimeLimit { id: id.clone(), input: input.clone() }),
                    Some(Effect::ForwardToInput),
                )
            }
        },
        Dialog::CommandError { command, output } => {
            if k.code == KeyCode::Enter || k.code == KeyCode::Esc {
                (None, None)
            } else {
                (Some(Dialog::CommandError { command: command.clone(), output: output.clone() }), None)
            }
        },
    }
}

impl AppState {
    /// The state before any message: no jobs, nothing selected, empty output
    /// followed from the bottom, standard output shown unwrapped, and no
    /// panel drawn yet (all areas empty, so the mouse hits nothing).
    pub fn new() -> (r: Self)
        ensures
            app_wf(r@),
            r@.jobs.len() == 0,
            r@.dialog is None,
            r@.list == (ListSelection { selected: None, offset: 0 }),
            r@.job_output == Ok::<Seq<char>, Seq<char>>(Seq::empty()),
            r@.anchor == ScrollAnchor::Bottom,
            r@.output_offset == 0,
            !r@.wrap,
            r@.file_view == OutputFileView::Stdout,
            r@.focus == Focus::Jobs,
            r@.list_height == 0,
            r@.list_area == (Area { x: 0, y: 0, width: 0, height: 0 }),
            r@.output_area == (Area { x: 0, y: 0, width: 0, height: 0 }),
    {
        let r = AppState {
            focus: Focus::Jobs,
            dialog: None,
            jobs: Vec::new(),
            list: ListSelection { selected: None, offset: 0 },
            job_output: Ok(String::new()),
            job_output_anchor: ScrollAnchor::Bottom,
            job_output_offset: 0,
            job_output_wrap: false,
            output_file_view: OutputFileView::Stdout,
            job_list_height: 0,
            job_list_area: Area { x: 0, y: 0, width: 0, height: 0 },
            job_output_area: Area { x: 0, y: 0, width: 0, height: 0 },
        };
        proof {
            assert(jobs_view(r.jobs@) =~= Seq::<JobView>::empty());
        }
        r
    }

    /// The position of the selected job, when the selection names one.
    pub fn selected_job_index(&self) -> (r: Option<usize>)
        ensures
            match r {
                Some(i) => i < self.jobs@.len() && self.list.selected == Some(i)
                    && selected_job(self@) == Some(self.jobs@[i as int]@),
                None => selected_job(self@) is None,
            },
    {
        match self.list.selected {
            Some(i) => if i < self.jobs.len() {
                Some(i)
            } else {
                None
            },
            None => None,
        }
    }

    /// The display id of the selected job, if any.
    pub fn selected_job_id(&self) -> (r: Option<String>)
        ensures
            match r {
                Some(id) => selected_job(self@) matches Some(j) && id@ == job_display_id(j),
                None => selected_job(self@) is None,
            },
    {
        match self.selected_job_index() {
            Some(i) => Some(self.jobs[i].id()),
            None => None,
        }
    }

    fn scroll_job_output_down_by(&mut self, delta: u16)
        ensures
            final(self)@ == output_scrolled_down(old(self)@, delta),
    {
        match self.job_output_anchor {
            ScrollAnchor::Top => {
                self.job_output_offset = u16_saturating_add(self.job_output_offset, delta);
            },
            ScrollAnchor::Bottom => {
                self.job_output_offset = u16_saturating_sub(self.job_output_offset, delta);
            },
        }
    }

    fn scroll_job_output_up_by(&mut self, delta: u16)
        ensures
            final(self)@ == output_scrolled_up(old(self)@, delta),
    {
        match self.job_output_anchor {
            ScrollAnchor::Top => {
                self.job_output_offset = u16_saturating_sub(self.job_output_offset, delta);
            },
            ScrollAnchor::Bottom => {
                self.job_output_offset = u16_saturating_add(self.job_output_offset, delta);
            },
        }
    }

    fn handle_jobs(&mut self, jobs: Vec<Job>)
        ensures
            final(self)@ == after_jobs(old(self)@, jobs_view(jobs@)),
    {
        let old_index = self.selected_job_index();
        let old_id = match old_index {
            Some(i) => Some(self.jobs[i].id()),
            None => None,
        };
        self.jobs = jobs;
        if self.jobs.len() == 0 {
            self.list = list_select(self.list, None);
        } else {
            match old_id {
                Some(id) => {
                    let index = match position_of_id(&self.jobs, &id) {
                        Some(k) => k,
                        None => {
                            let i = match self.list.selected {
                                Some(i) => i,
                                None => 0,
                            };
                            if i < self.jobs.len() - 1 {
                                i
                            } else {
                                self.jobs.len() - 1
                            }
                        },
                    };
                    self.list = list_select(self.list, Some(index));
                },
                None => {
                    self.list = list_select_first(self.list);
                },
            }
        }
        proof {
            assert(final(self)@ =~= after_jobs(old(self)@, jobs_view(jobs@)));
        }
    }

    fn handle_main_key(&mut self, k: KeyPress) -> (e: Option<Effect>)
        requires
            app_wf(old(self)@),
            old(self)@.dialog is None,
        ensures
            app_wf(final(self)@),
            (final(self)@, effect_view(e)) == main_key(old(self)@, k),
    {
        let c = k.code;
        if c == KeyCode::Char('h') || c == KeyCode::Left || c == KeyCode::Char('l') || c
            == KeyCode::Right {
            None
        } else if c == KeyCode::Char('k') || c == KeyCode::Up {
            self.list = list_select_previous(self.list);
            None
        } else if c == KeyCode::Char('j') || c == KeyCode::Down {
            self.list = list_select_next(self.list);
            None
        } else if c == KeyCode::Char('g') {
            self.list = list_select_first(self.list);
            None
        } else if c == KeyCode::Char('G') {
            self.list = list_select_last(self.list);
            None
        } else if c == KeyCode::Char('u') || c == KeyCode::Char('d') {
            if k.control {
                let half = self.job_list_height / 2;
                if c == KeyCode::Char('u') {
                    self.list = list_scroll_up_by(self.list, half);
                } else {
                    self.list = list_scroll_down_by(self.list, half);
                }
            }
            None
        } else if c == KeyCode::PageDown {
            let delta: u16 = if k.shift || k.control || k.alt {
                50
            } else {
                1
            };
            self.scroll_job_output_down_by(delta);
            None
        } else if c == KeyCode::PageUp {
            let delta: u16 = if k.shift || k.control || k.alt {
                50
            } else {
                1
            };
            self.scroll_job_output_up_by(delta);
            None
        } else if c == KeyCode::Home {
            self.job_output_offset = 0;
            self.job_output_anchor = ScrollAnchor::Top;
            None
        } else if c == KeyCode::End {
            self.job_output_offset = 0;
            self.job_output_anchor = ScrollAnchor::Bottom;
            None
        } else if c == KeyCode::Char('c') || c == KeyCode::Char('C') || c == KeyCode::Char('t') {
            match self.selected_job_index() {
                Some(i) => {
                    let id = self.jobs[i].id();
                    if c == KeyCode::Char('c') {
                        self.dialog = Some(Dialog::ConfirmCancelJob(id));
                        None
                    } else if c == KeyCode::Char('C') {
                        self.dialog = Some(Dialog::SelectCancelSignal { id, selected_signal: 0 });
                        None
                    } else {
                        let limit = self.jobs[i].time_limit.clone();
                        let input = self.jobs[i].time_limit.clone();
                        self.dialog = Some(Dialog::EditTimeLimit { id, input });
                        Some(Effect::OpenTimeLimitInput(limit))
                    }
                },
                None => None,
            }
        } else if c == KeyCode::Char('o') {
            self.output_file_view = match self.output_file_view {
                OutputFileView::Stdout => OutputFileView::Stderr,
                OutputFileView::Stderr => OutputFileView::Stdout,
            };
            None
        } else if c == KeyCode::Char('w') {
            self.job_output_wrap = !self.job_output_wrap;
            None
        } else {
            None
        }
    }

    /// Applies a message (see `step`) and returns the work it asks for.
    pub fn handle(&mut self, msg: AppMessage) -> (e: Option<Effect>)
        requires
            app_wf(old(self)@),
        ensures
            app_wf(final(self)@),
            (final(self)@, effect_view(e)) == step(old(self)@, msg@),
    {
        match msg {
            AppMessage::Jobs(jobs) => {
                self.handle_jobs(jobs);
                None
            },
            AppMessage::JobOutput(content) => {
                self.job_output = content;
                None
            },
            AppMessage::Key(k) => {
                match &self.dialog {
                    Some(d) => {
                        let (d2, e) = dialog_key_exec(d, k);
                        self.dialog = d2;
                        e
                    },
                    None => self.handle_main_key(k),
                }
            },
            AppMessage::MouseClick(index) => {
                if self.dialog.is_none() && index < self.jobs.len() {
                    self.list = list_select(self.list, Some(index));
                }
                None
            },
            AppMessage::MouseWheel { target, direction, amount } => {
                if self.dialog.is_none() {
                    match target {
                        MouseScrollTarget::Jobs => match direction {
                            MouseWheelDirection::Up => {
                                self.list = list_scroll_up_by(self.list, amount);
                            },
                            MouseWheelDirection::Down => {
                                self.list = list_scroll_down_by(self.list, amount);
                            },
                        },
                        MouseScrollTarget::Output => match direction {
                            MouseWheelDirection::Up => self.scroll_job_output_up_by(amount),
                            MouseWheelDirection::Down => self.scroll_job_output_down_by(amount),
                        },
                    }
                }
                None
            },
        }
    }

    /// The file of the selected job's output to follow (see
    /// `selected_output_path`).
    pub fn output_path(&self) -> (r: Option<String>)
        ensures
            opt_view(r) == selected_output_path(self@),
    {
        match self.selected_job_index() {
            Some(i) => match self.output_file_view {
                OutputFileView::Stdout => self.jobs[i].stdout.clone(),
                OutputFileView::Stderr => self.jobs[i].stderr.clone(),
            },
            None => None,
        }
    }

    /// Shows why a command failed, in place of any open dialog.
    pub fn show_command_failure(&mut self, command: String, output: String)
        requires
            app_wf(old(self)@),
        ensures
            app_wf(final(self)@),
            final(self)@ == (AppView {
                dialog: Some(DialogView::CommandError { command: command@, output: output@ }),
                ..old(self)@
            }),
    {
        self.dialog = Some(Dialog::CommandError { command, output });
    }

    /// Records the text now typed into the open time limit editor; other
    /// dialogs stay as they are.
    pub fn set_time_limit_input(&mut self, value: String)
        requires
            app_wf(old(self)@),
        ensures
            app_wf(final(self)@),
            final(self)@ == (AppView {
                dialog: match old(self)@.dialog {
                    Some(DialogView::EditTimeLimit { id, .. }) => Some(
                        DialogView::EditTimeLimit { id, input: value@ },
                    ),
                    d => d,
                },
                ..old(self)@
            }),
    {
        match &self.dialog {
            Some(Dialog::EditTimeLimit { id, .. }) => {
                let id = id.clone();
                self.dialog = Some(Dialog::EditTimeLimit { id, input: value });
            },
            _ => {},
        }
    }

    /// Records where and how the job list was drawn: the selection and
    /// scroll position as drawing left them, and the list's area.
    pub fn set_job_list_layout(&mut self, list: ListSelection, area: Area)
        requires
            app_wf(old(self)@),
        ensures
            app_wf(final(self)@),
            final(self)@ == (AppView {
                list,
                list_height: u16_sat_sub(area.height as int, 2),
                list_area: area,
                ..old(self)@
            }),
    {
        self.list = list;
        self.job_list_height = u16_saturating_sub(area.height, 2);
        self.job_list_area = area;
    }

    /// Records where the output was drawn.
    pub fn set_output_area(&mut self, area: Area)
        requires
            app_wf(old(self)@),
        ensures
            app_wf(final(self)@),
            final(self)@ == (AppView { output_area: area, ..old(self)@ }),
    {
        self.job_output_area = area;
    }
}

/// `column, row` lies inside `a` (an area reaching past the screen edge is
/// cut at the largest coordinate).
pub open spec fn area_contains(a: Area, column: u16, row: u16) -> bool {
    &&& column >= a.x
    &&& column < u16_sat_add(a.x as int, a.width as int)
    &&& row >= a.y
    &&& row < u16_sat_add(a.y as int, a.height as int)
}

/// Whether `column, row` lies inside `a` (see `area_contains`).
pub fn rect_contains(a: Area, column: u16, row: u16) -> (r: bool)
    ensures
        r == area_contains(a, column, row),
{
    column >= a.x && column < u16_saturating_add(a.x, a.width) && row >= a.y && row
        < u16_saturating_add(a.y, a.height)
}

/// The panel under the mouse, if it is over one.
pub open spec fn scroll_target_at(s: AppView, column: u16, row: u16) -> Option<MouseScrollTarget> {
    if area_contains(s.list_area, column, row) {
        Some(MouseScrollTarget::Jobs)
    } else if area_contains(s.output_area, column, row) {
        Some(MouseScrollTarget::Output)
    } else {
        None
    }
}

/// The inside of the job list's border.
pub open spec fn list_inner(a: Area) -> Area {
    Area {
        x: u16_sat_add(a.x as int, 1),
        y: u16_sat_add(a.y as int, 1),
        width: u16_sat_sub(a.width as int, 2),
        height: u16_sat_sub(a.height as int, 2),
    }
}

/// The job shown at `column, row`, if there is one: the rows inside the job
/// list's border show the jobs from the list's scroll position on.
pub open spec fn job_at(s: AppView, column: u16, row: u16) -> Option<usize> {
    let inner = list_inner(s.list_area);
    if s.jobs.len() == 0 || !area_contains(inner, column, row) {
        None
    } else {
        let index = usize_sat_add(s.list.offset as int, row - inner.y);
        if index < s.jobs.len() {
            Some(index)
        } else {
            None
        }
    }
}

/// An input event, as far as the application tells events apart.
#[derive(Clone, Copy, PartialEq, Eq, Structural, Debug)]
pub enum InputEvent {
    Key(KeyPress),
    Paste,
    MouseLeftDown { column: u16, row: u16 },
    MouseScroll { direction: MouseWheelDirection, column: u16, row: u16 },
    MouseOther,
    Resize,
    Other,
}

/// What to do with an input event.
#[derive(Clone, Copy, PartialEq, Eq, Structural, Debug)]
pub enum InputDecision {
    /// Leave the application.
    Quit,
    /// Nothing to do.
    Ignore,
    /// Draw again.
    Redraw,
    /// Handle the key press, then draw again.
    Key(KeyPress),
    /// Select the clicked job, then draw again.
    Click(usize),
    /// Scroll the panel: gather the wheel turns that follow in the same
    /// direction over the same panel, then handle them and draw again.
    Wheel { target: MouseScrollTarget, direction: MouseWheelDirection },
}

/// What an input event leads to: `q` quits; clicks and wheel turns are
/// ignored while a dialog is open; a click that selects a different job
/// selects it; wheel turns over a panel scroll it; a resize redraws.
pub open spec fn input_decision(s: AppView, ev: InputEvent) -> InputDecision {
    match ev {
        InputEvent::Key(k) => if k.code == KeyCode::Char('q') {
            InputDecision::Quit
        } else {
            InputDecision::Key(k)
        },
        InputEvent::MouseLeftDown { column, row } => if s.dialog is Some {
            InputDecision::Ignore
        } else {
            match job_at(s, column, row) {
                Some(i) => if s.list.selected != Some(i) {
                    InputDecision::Click(i)
                } else {
                    InputDecision::Ignore
                },
                None => InputDecision::Ignore,
            }
        },
        InputEvent::MouseScroll { direction, column, row } => if s.dialog is Some {
            InputDecision::Ignore
        } else {
            match scroll_target_at(s, column, row) {
                Some(target) => InputDecision::Wheel { target, direction },
                None => InputDecision::Ignore,
            }
        },
        InputEvent::Resize => InputDecision::Redraw,
        _ => InputDecision::Ignore,
    }
}

/// The event is one more wheel turn in `direction` over `target`.
pub open spec fn continues_wheel(
    s: AppView,
    target: MouseScrollTarget,
    direction: MouseWheelDirection,
    ev: InputEvent,
) -> bool {
    match ev {
        InputEvent::MouseScroll { direction: d, column, row } => d == direction && scroll_target_at(
            s,
            column,
            row,
        ) == Some(target),
        _ => false,
    }
}

impl AppState {
    /// The panel under the mouse (see `scroll_target_at`).
    pub fn mouse_scroll_target(&self, column: u16, row: u16) -> (r: Option<MouseScrollTarget>)
        ensures
            r == scroll_target_at(self@, column, row),
    {
        if rect_contains(self.job_list_area, column, row) {
            Some(MouseScrollTarget::Jobs)
        } else if rect_contains(self.job_output_area, column, row) {
            Some(MouseScrollTarget::Output)
        } else {
            None
        }
    }

    /// The job shown at `column, row` (see `job_at`).
    pub fn job_index_at(&self, column: u16, row: u16) -> (r: Option<usize>)
        ensures
            r == job_at(self@, column, row),
    {
        if self.jobs.len() == 0 {
            return None;
        }
        let a = self.job_list_area;
        let inner = Area {
            x: u16_saturating_add(a.x, 1),
            y: u16_saturating_add(a.y, 1),
            width: u16_saturating_sub(a.width, 2),
            height: u16_saturating_sub(a.height, 2),
        };
        if !rect_contains(inner, column, row) {
            return None;
        }
        let row_in_list = (row - inner.y) as usize;
        let index = usize_saturating_add(self.list.offset, row_in_list);
        if index < self.jobs.len() {
            Some(index)
        } else {
            None
        }
    }

    /// What an input event leads to (see `input_decision`).
    pub fn decide_input(&self, ev: InputEvent) -> (r: InputDecision)
        ensures
            r == input_decision(self@, ev),
    {
        match ev {
            InputEvent::Key(k) => if k.code == KeyCode::Char('q') {
                InputDecision::Quit
            } else {
                InputDecision::Key(k)
            },
            InputEvent::MouseLeftDown { column, row } => if self.dialog.is_some() {
                InputDecision::Ignore
            } else {
                match self.job_index_at(column, row) {
                    Some(i) => if self.list.selected != Some(i) {
                        InputDecision::Click(i)
                    } else {
                        InputDecision::Ignore
                    },
                    None => InputDecision::Ignore,
                }
            },
            InputEvent::MouseScroll { direction, column, row } => if self.dialog.is_some() {
                InputDecision::Ignore
            } else {
                match self.mouse_scroll_target(column, row) {
                    Some(target) => InputDecision::Wheel { target, direction },
                    None => InputDecision::Ignore,
                }
            },
            InputEvent::Resize => InputDecision::Redraw,
            _ => InputDecision::Ignore,
        }
    }

    /// Adds the event to a run of `amount` wheel turns when it continues
    /// it (see `continues_wheel`): the run's new length, not past the
    /// largest `u16`; none when the event ends the run.
    pub fn merge_wheel(
        &self,
        target: MouseScrollTarget,
        direction: MouseWheelDirection,
        amount: u16,
        ev: InputEvent,
    ) -> (r: Option<u16>)
        ensures
            r == (if continues_wheel(self@, target, direction, ev) {
                Some(u16_sat_add(amount as int, 1))
            } else {
                None
            }),
    {
        match ev {
            InputEvent::MouseScroll { direction: d, column, row } => {
                if d == direction && self.mouse_scroll_target(column, row) == Some(target) {
                    Some(u16_saturating_add(amount, 1))
                } else {
                    None
                }
            },
            _ => None,
        }
    }
}

/// A job list refresh keeps the selected job selected when the new list
/// still has a job with its id: the first such job is selected.
pub proof fn lemma_refresh_keeps_selected_job(s: AppView, jobs: Seq<JobView>, i: int)
    requires
        selected_job(s) is Some,
        jobs.len() <= usize::MAX,
        0 <= i < jobs.len(),
        job_display_id(jobs[i]) == job_display_id(selected_job(s).unwrap()),
    ensures
        ({
            let after = step(s, MessageView::Jobs(jobs)).0;
            &&& selected_job(after) is Some
            &&& job_display_id(selected_job(after).unwrap()) == job_display_id(
                selected_job(s).unwrap(),
            )
            &&& after.list.selected matches Some(k) && forall|j: int|
                0 <= j < k ==> job_display_id(#[trigger] jobs[j]) != job_display_id(
                    selected_job(s).unwrap(),
                )
        }),
{
    let id = job_display_id(selected_job(s).unwrap());
    lemma_first_index_exists(jobs, id, i);
    let f = choose|x: int| is_first_with_id(jobs, id, x);
    assert(is_first_with_id(jobs, id, f));
    assert(first_with_id(jobs, id) == Some(f));
    let after = step(s, MessageView::Jobs(jobs)).0;
    assert(after.list.selected == Some(f as usize));
    assert(after.jobs == jobs);
    assert(selected_job(after) == Some(jobs[f]));
}

proof fn lemma_first_index_exists(jobs: Seq<JobView>, id: Seq<char>, i: int)
    requires
        0 <= i < jobs.len(),
        job_display_id(jobs[i]) == id,
    ensures
        exists|k: int| is_first_with_id(jobs, id, k),
    decreases i,
{
    if exists|j: int| 0 <= j < i && job_display_id(#[trigger] jobs[j]) == id {
        let j = choose|j: int| 0 <= j < i && job_display_id(#[trigger] jobs[j]) == id;
        lemma_first_index_exists(jobs, id, j);
    } else {
        assert(is_first_with_id(jobs, id, i));
    }
}

/// After a job list refresh, a job is selected exactly when the list is
/// not empty, and the selection is within the list.
pub proof fn lemma_refresh_selection_in_list(s: AppView, jobs: Seq<JobView>)
    requires
        jobs.len() <= usize::MAX,
    ensures
        ({
            let after = step(s, MessageView::Jobs(jobs)).0;
            &&& (after.list.selected is None <==> jobs.len() == 0)
            &&& after.list.selected matches Some(k) ==> k < jobs.len()
            &&& after.jobs == jobs
        }),
{
    let id = match selected_job(s) {
        Some(j) => job_display_id(j),
        None => Seq::empty(),
    };
    if exists|x: int| is_first_with_id(jobs, id, x) {
        let f = choose|x: int| is_first_with_id(jobs, id, x);
        assert(is_first_with_id(jobs, id, f));
    }
}

/// While a dialog is open, mouse clicks and wheel turns change nothing and
/// ask for nothing.
pub proof fn lemma_dialog_blocks_mouse(s: AppView, m: MessageView)
    requires
        s.dialog is Some,
        m is MouseClick || m is MouseWheel,
    ensures
        step(s, m) == (s, None::<EffectView>),
{
}

/// Without a dialog, `o` twice shows the same output file again and `w`
/// twice restores wrapping: each toggle undoes itself.
pub proof fn lemma_toggles_undo(s: AppView, k: KeyPress)
    requires
        s.dialog is None,
        k.code == KeyCode::Char('o') || k.code == KeyCode::Char('w'),
    ensures
        step(step(s, MessageView::Key(k)).0, MessageView::Key(k)) == (s, None::<EffectView>),
{
    let once = step(s, MessageView::Key(k)).0;
    assert(step(once, MessageView::Key(k)).0 =~= s);
}

/// Scrolling the output down and then up by the same amount returns to the
/// same place, when the first scroll was not stopped at an end.
pub proof fn lemma_output_scroll_round_trip(s: AppView, amount: u16)
    requires
        s.dialog is None,
        s.anchor == ScrollAnchor::Top ==> s.output_offset + amount <= u16::MAX,
        s.anchor == ScrollAnchor::Bottom ==> s.output_offset >= amount,
    ensures
        ({
            let down = MessageView::MouseWheel {
                target: MouseScrollTarget::Output,
                direction: MouseWheelDirection::Down,
                amount,
            };
            let up = MessageView::MouseWheel {
                target: MouseScrollTarget::Output,
                direction: MouseWheelDirection::Up,
                amount,
            };
            step(step(s, down).0, up) == (s, None::<EffectView>)
        }),
{
    let down = MessageView::MouseWheel {
        target: MouseScrollTarget::Output,
        direction: MouseWheelDirection::Down,
        amount,
    };
    let up = MessageView::MouseWheel {
        target: MouseScrollTarget::Output,
        direction: MouseWheelDirection::Up,
        amount,
    };
    assert(step(step(s, down).0, up).0 =~= s);
}

/// Escape closes any dialog and asks for nothing; the rest of the state
/// stays as it was.
pub proof fn lemma_escape_closes_dialog(s: AppView, k: KeyPress)
    requires
        s.dialog is Some,
        k.code == KeyCode::Esc,
    ensures
        step(s, MessageView::Key(k)) == (AppView { dialog: None, ..s }, None::<EffectView>),
{
}

/// In the signal dialog, digit `n` from 1 to 8 picks the `n`th signal, and
/// Enter then sends that signal to the job and closes the dialog.
pub proof fn lemma_digit_then_enter_sends_signal(
    s: AppView,
    id: Seq<char>,
    sel: usize,
    digit: KeyPress,
    enter: KeyPress,
)
    requires
        s.dialog == Some(DialogView::SelectCancelSignal { id, selected_signal: sel }),
        digit.code matches KeyCode::Char(c) && '1' <= c <= '8',
        enter.code == KeyCode::Enter,
    ensures
        ({
            let picked = step(s, MessageView::Key(digit)).0;
            let n = match digit.code {
                KeyCode::Char(c) => (c as u32 - '1' as u32) as int,
                _ => 0,
            };
            &&& picked.dialog == Some(
                DialogView::SelectCancelSignal { id, selected_signal: n as usize },
            )
            &&& step(picked, MessageView::Key(enter)) == (
                AppView { dialog: None, ..picked },
                Some(EffectView::Scancel { id, signal: Some(scancel_signals()[n]) }),
            )
        }),
{
}

/// Wheel turns add up: turning the wheel `a` steps and then `b` steps in
/// the same direction over the same panel leaves the same state as one turn
/// of `a + b` steps, which is why consecutive turns may be handled at once.
pub proof fn lemma_wheel_turns_add_up(
    s: AppView,
    target: MouseScrollTarget,
    direction: MouseWheelDirection,
    a: u16,
    b: u16,
)
    requires
        a + b <= u16::MAX,
    ensures
        ({
            let first = MessageView::MouseWheel { target, direction, amount: a };
            let second = MessageView::MouseWheel { target, direction, amount: b };
            let both = MessageView::MouseWheel { target, direction, amount: (a + b) as u16 };
            step(step(s, first).0, second) == step(s, both)
        }),
{
    let first = MessageView::MouseWheel { target, direction, amount: a };
    let second = MessageView::MouseWheel { target, direction, amount: b };
    let both = MessageView::MouseWheel { target, direction, amount: (a + b) as u16 };
    assert(step(step(s, first).0, second).0 =~= step(s, both).0);
}

/// A click that the input decision turns into a job click selects exactly
/// that job, which is listed.
pub proof fn lemma_click_selects_job(s: AppView, ev: InputEvent)
    requires
        input_decision(s, ev) is Click,
    ensures
        ({
            let i = input_decision(s, ev)->Click_0;
            let after = step(s, MessageView::MouseClick(i)).0;
            &&& i < s.jobs.len()
            &&& after.list.selected == Some(i)
            &&& selected_job(after) == Some(s.jobs[i as int])
        }),
{
}

/// When the selected job is gone from a refreshed, non-empty list, the
/// selection stays at the same position, moved up to the last job when the
/// list got shorter than that.
pub proof fn lemma_refresh_keeps_position_of_gone_job(s: AppView, jobs: Seq<JobView>, i: usize)
    requires
        jobs.len() <= usize::MAX,
        jobs.len() > 0,
        s.list.selected == Some(i),
        i < s.jobs.len(),
        forall|j: int| 0 <= j < jobs.len() ==> job_display_id(#[trigger] jobs[j]) != job_display_id(
            s.jobs[i as int],
        ),
    ensures
        step(s, MessageView::Jobs(jobs)).0.list.selected == Some(
            if i < jobs.len() - 1 {
                i
            } else {
                (jobs.len() - 1) as usize
            },
        ),
{
    let id = job_display_id(s.jobs[i as int]);
    assert(selected_job(s) == Some(s.jobs[i as int]));
    assert(!exists|x: int| is_first_with_id(jobs, id, x));
}

/// In the cancel confirmation, Enter and `y` both confirm: the dialog
/// closes, nothing else changes, and the job is to be cancelled with no
/// signal given.
pub proof fn lemma_confirm_cancels_job(s: AppView, id: Seq<char>, k: KeyPress)
    requires
        s.dialog == Some(DialogView::ConfirmCancelJob(id)),
        k.code == KeyCode::Enter || k.code == KeyCode::Char('y'),
    ensures
        step(s, MessageView::Key(k)) == (
            AppView { dialog: None, ..s },
            Some(EffectView::Scancel { id, signal: None }),
        ),
{
}

/// A point inside the job list's border shows the job that is as many rows
/// below the list's scroll position as the point is below the first inside
/// row; so the first inside row shows the job at the scroll position.
pub proof fn lemma_row_shows_scrolled_job(s: AppView, column: u16, row: u16)
    requires
        s.jobs.len() <= usize::MAX,
        s.list_area.x + s.list_area.width <= u16::MAX,
        s.list_area.y + s.list_area.height <= u16::MAX,
        s.list_area.x + 1 <= column < s.list_area.x + s.list_area.width - 1,
        s.list_area.y + 1 <= row < s.list_area.y + s.list_area.height - 1,
        s.list.offset + (row - s.list_area.y - 1) < s.jobs.len(),
    ensures
        job_at(s, column, row) == Some((s.list.offset + (row - s.list_area.y - 1)) as usize),
{
}

} // verus!
