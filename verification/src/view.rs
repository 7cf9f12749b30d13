//! What the screen shows, as styled text: the job list rows, the job
//! details, the output title, the help line and the dialogs.
use vstd::prelude::*;
use vstd::utf8::encode_utf8;

use crate::app::{
    job_display_id, jobs_view, u16_sat_add, u16_sat_sub, AppState, AppView, Area, Focus, Job, JobView,
    OutputFileView,
};
use crate::dialog::{scancel_signal, scancel_signals, Dialog, DialogView, SCANCEL_SIGNAL_COUNT};
use crate::text::{append_str, decimal, opt_view, push_char, push_decimal, std_lines};
use crate::ui_text::{prefix, ScrollAnchor};

verus! {

/// The colors the screen uses.
#[derive(Clone, Copy, PartialEq, Eq, Structural, Debug)]
pub enum Color {
    White,
    Black,
    Red,
    Green,
    Yellow,
    Blue,
    LightBlue,
}

/// How a run of text is drawn; `None` colors keep what surrounds it.
#[derive(Clone, Copy, PartialEq, Eq, Structural, Debug)]
pub struct SpanStyle {
    pub fg: Option<Color>,
    pub bg: Option<Color>,
    pub bold: bool,
    pub dim: bool,
}

/// A run of text and its style.
pub struct StyledSpan {
    pub text: String,
    pub style: SpanStyle,
}

impl View for StyledSpan {
    type V = (Seq<char>, SpanStyle);

    open spec fn view(&self) -> (Seq<char>, SpanStyle) {
        (self.text@, self.style)
    }
}

/// A line of styled runs.
pub struct StyledLine {
    pub spans: Vec<StyledSpan>,
}

impl View for StyledLine {
    type V = Seq<(Seq<char>, SpanStyle)>;

    open spec fn view(&self) -> Seq<(Seq<char>, SpanStyle)> {
        self.spans@.map_values(|s: StyledSpan| s@)
    }
}

/// The views of a sequence of styled lines.
pub open spec fn styled_lines_view(v: Seq<StyledLine>) -> Seq<Seq<(Seq<char>, SpanStyle)>> {
    v.map_values(|l: StyledLine| l@)
}

pub open spec fn plain() -> SpanStyle {
    SpanStyle { fg: None, bg: None, bold: false, dim: false }
}

pub open spec fn colored(c: Color) -> SpanStyle {
    SpanStyle { fg: Some(c), bg: None, bold: false, dim: false }
}

pub open spec fn bold() -> SpanStyle {
    SpanStyle { fg: None, bg: None, bold: true, dim: false }
}

pub open spec fn dimmed() -> SpanStyle {
    SpanStyle { fg: None, bg: None, bold: false, dim: true }
}

fn plain_style() -> (r: SpanStyle)
    ensures
        r == plain(),
{
    SpanStyle { fg: None, bg: None, bold: false, dim: false }
}

fn colored_style(c: Color) -> (r: SpanStyle)
    ensures
        r == colored(c),
{
    SpanStyle { fg: Some(c), bg: None, bold: false, dim: false }
}

struct LineBuilder {
    spans: Vec<StyledSpan>,
}

impl LineBuilder {
    fn new() -> (r: Self)
        ensures
            r.spans@.map_values(|s: StyledSpan| s@) == Seq::<(Seq<char>, SpanStyle)>::empty(),
    {
        let r = LineBuilder { spans: Vec::new() };
        proof {
            assert(r.spans@.map_values(|s: StyledSpan| s@) =~= Seq::<(Seq<char>, SpanStyle)>::empty());
        }
        r
    }

    fn push(&mut self, text: String, style: SpanStyle)
        ensures
            final(self).spans@.map_values(|s: StyledSpan| s@) == old(self).spans@.map_values(
                |s: StyledSpan| s@,
            ).push((text@, style)),
    {
        self.spans.push(StyledSpan { text, style });
        proof {
            assert(final(self).spans@.map_values(|s: StyledSpan| s@) =~= old(self).spans@.map_values(
                |s: StyledSpan| s@,
            ).push((text@, style)));
        }
    }

    fn push_str(&mut self, text: &str, style: SpanStyle)
        ensures
            final(self).spans@.map_values(|s: StyledSpan| s@) == old(self).spans@.map_values(
                |s: StyledSpan| s@,
            ).push((text@, style)),
    {
        self.push(String::from_str(text), style);
    }

    fn finish(self) -> (r: StyledLine)
        ensures
            r@ == self.spans@.map_values(|s: StyledSpan| s@),
    {
        StyledLine { spans: self.spans }
    }
}

/// `n` spaces.
pub open spec fn spaces(n: nat) -> Seq<char> {
    Seq::new(n, |i: int| ' ')
}

/// `s` cut to `w` characters and filled with spaces on the right to `w`.
pub open spec fn pad_end(s: Seq<char>, w: nat) -> Seq<char> {
    prefix(s, w as int) + spaces((w - prefix(s, w as int).len()) as nat)
}

/// `s` cut to `w` characters and filled with spaces on the left to `w`.
pub open spec fn pad_start(s: Seq<char>, w: nat) -> Seq<char> {
    spaces((w - prefix(s, w as int).len()) as nat) + prefix(s, w as int)
}

fn push_spaces(s: &mut String, n: usize)
    ensures
        final(s)@ == old(s)@ + spaces(n as nat),
{
    let mut i: usize = 0;
    while i < n
        invariant
            i <= n,
            s@ == old(s)@ + spaces(i as nat),
        decreases n - i,
    {
        push_char(s, ' ');
        proof {
            assert(s@ =~= old(s)@ + spaces((i + 1) as nat));
        }
        i = i + 1;
    }
}

fn prefix_chars(s: &str, w: usize) -> (r: String)
    ensures
        r@ == prefix(s@, w as int),
{
    let n = s.unicode_len();
    if w < n {
        String::from_str(s.substring_char(0, w))
    } else {
        proof {
            assert(prefix(s@, w as int) == s@);
        }
        String::from_str(s)
    }
}

/// `s` cut and padded on the right to `w` characters (see `pad_end`).
pub fn pad_end_str(s: &str, w: usize) -> (r: String)
    ensures
        r@ == pad_end(s@, w as nat),
{
    let mut r = prefix_chars(s, w);
    let len = r.as_str().unicode_len();
    push_spaces(&mut r, w - len);
    r
}

/// `s` cut and padded on the left to `w` characters (see `pad_start`).
pub fn pad_start_str(s: &str, w: usize) -> (r: String)
    ensures
        r@ == pad_start(s@, w as nat),
{
    let cut = prefix_chars(s, w);
    let len = cut.as_str().unicode_len();
    let mut r = String::new();
    push_spaces(&mut r, w - len);
    append_str(&mut r, cut.as_str());
    proof {
        assert(r@ =~= pad_start(s@, w as nat));
    }
    r
}

/// The number of bytes `s` takes in UTF-8.
pub open spec fn byte_len(s: Seq<char>) -> nat {
    encode_utf8(s).len()
}

/// The largest byte length among `ss`, 0 when there are none.
pub open spec fn max_byte_len(ss: Seq<Seq<char>>) -> usize
    decreases ss.len(),
{
    if ss.len() == 0 {
        0
    } else {
        let m = max_byte_len(ss.drop_last());
        if byte_len(ss.last()) as usize > m {
            byte_len(ss.last()) as usize
        } else {
            m
        }
    }
}

/// The widths of the job list's columns.
#[derive(Clone, Copy, PartialEq, Eq, Structural, Debug)]
pub struct JobColumns {
    pub id: usize,
    pub user: usize,
    pub partition: usize,
    pub time: usize,
    pub state_compact: usize,
}

/// Each column is as wide as its longest entry in bytes.
pub open spec fn job_columns_of(jobs: Seq<JobView>) -> JobColumns {
    JobColumns {
        id: max_byte_len(jobs.map_values(|j: JobView| job_display_id(j))),
        user: max_byte_len(jobs.map_values(|j: JobView| j.user)),
        partition: max_byte_len(jobs.map_values(|j: JobView| j.partition)),
        time: max_byte_len(jobs.map_values(|j: JobView| j.time)),
        state_compact: max_byte_len(jobs.map_values(|j: JobView| j.state_compact)),
    }
}

/// The widths of the job list's columns (see `job_columns_of`).
pub fn job_columns(jobs: &Vec<Job>) -> (r: JobColumns)
    ensures
        r == job_columns_of(jobs_view(jobs@)),
{
    let ghost jv = jobs_view(jobs@);
    let mut c = JobColumns { id: 0, user: 0, partition: 0, time: 0, state_compact: 0 };
    let mut i: usize = 0;
    proof {
        assert(jv.take(0).map_values(|j: JobView| job_display_id(j)) =~= Seq::<Seq<char>>::empty());
        assert(jv.take(0).map_values(|j: JobView| j.user) =~= Seq::<Seq<char>>::empty());
        assert(jv.take(0).map_values(|j: JobView| j.partition) =~= Seq::<Seq<char>>::empty());
        assert(jv.take(0).map_values(|j: JobView| j.time) =~= Seq::<Seq<char>>::empty());
        assert(jv.take(0).map_values(|j: JobView| j.state_compact) =~= Seq::<Seq<char>>::empty());
    }
    while i < jobs.len()
        invariant
            i <= jobs@.len(),
            jv == jobs_view(jobs@),
            c == job_columns_of(jv.take(i as int)),
        decreases jobs@.len() - i,
    {
        let j = &jobs[i];
        let ghost t = jv.take(i + 1);
        proof {
            assert(t.drop_last() =~= jv.take(i as int));
            assert(t.last() == j@);
            assert(t.map_values(|j: JobView| job_display_id(j)).drop_last() =~= jv.take(
                i as int,
            ).map_values(|j: JobView| job_display_id(j)));
            assert(t.map_values(|j: JobView| j.user).drop_last() =~= jv.take(i as int).map_values(
                |j: JobView| j.user,
            ));
            assert(t.map_values(|j: JobView| j.partition).drop_last() =~= jv.take(
                i as int,
            ).map_values(|j: JobView| j.partition));
            assert(t.map_values(|j: JobView| j.time).drop_last() =~= jv.take(i as int).map_values(
                |j: JobView| j.time,
            ));
            assert(t.map_values(|j: JobView| j.state_compact).drop_last() =~= jv.take(
                i as int,
            ).map_values(|j: JobView| j.state_compact));
            assert(t.map_values(|j: JobView| job_display_id(j)).last() == job_display_id(j@));
            assert(t.map_values(|j: JobView| j.user).last() == j@.user);
            assert(t.map_values(|j: JobView| j.partition).last() == j@.partition);
            assert(t.map_values(|j: JobView| j.time).last() == j@.time);
            assert(t.map_values(|j: JobView| j.state_compact).last() == j@.state_compact);
        }
        let id = j.id();
        let a = id.as_str().len();
        let b = j.user.as_str().len();
        let p = j.partition.as_str().len();
        let t2 = j.time.as_str().len();
        let s = j.state_compact.as_str().len();
        c = JobColumns {
            id: if a > c.id {
                a
            } else {
                c.id
            },
            user: if b > c.user {
                b
            } else {
                c.user
            },
            partition: if p > c.partition {
                p
            } else {
                c.partition
            },
            time: if t2 > c.time {
                t2
            } else {
                c.time
            },
            state_compact: if s > c.state_compact {
                s
            } else {
                c.state_compact
            },
        };
        i = i + 1;
    }
    proof {
        assert(jv.take(i as int) =~= jv);
    }
    c
}

/// One row of the job list: compact state, id, partition, user and time in
/// their columns (the time right-aligned), then the job name, each separated
/// by a space.
pub open spec fn job_row_spans(j: JobView, c: JobColumns) -> Seq<(Seq<char>, SpanStyle)> {
    seq![
        (pad_end(j.state_compact, c.state_compact as nat), plain()),
        (" "@, plain()),
        (pad_end(job_display_id(j), c.id as nat), colored(Color::Yellow)),
        (" "@, plain()),
        (pad_end(j.partition, c.partition as nat), colored(Color::Blue)),
        (" "@, plain()),
        (pad_end(j.user, c.user as nat), colored(Color::Green)),
        (" "@, plain()),
        (pad_start(j.time, c.time as nat), colored(Color::Red)),
        (" "@, plain()),
        (j.name, plain()),
    ]
}

/// The job list row for `j` (see `job_row_spans`).
pub fn job_row(j: &Job, c: JobColumns) -> (r: StyledLine)
    ensures
        r@ == job_row_spans(j@, c),
{
    let mut b = LineBuilder::new();
    b.push(pad_end_str(j.state_compact.as_str(), c.state_compact), plain_style());
    b.push_str(" ", plain_style());
    let id = j.id();
    b.push(pad_end_str(id.as_str(), c.id), colored_style(Color::Yellow));
    b.push_str(" ", plain_style());
    b.push(pad_end_str(j.partition.as_str(), c.partition), colored_style(Color::Blue));
    b.push_str(" ", plain_style());
    b.push(pad_end_str(j.user.as_str(), c.user), colored_style(Color::Green));
    b.push_str(" ", plain_style());
    b.push(pad_start_str(j.time.as_str(), c.time), colored_style(Color::Red));
    b.push_str(" ", plain_style());
    b.push(j.name.clone(), plain_style());
    let r = b.finish();
    proof {
        assert(r@ =~= job_row_spans(j@, c));
    }
    r
}

/// The job list's title: `─Jobs (<count>)`.
pub open spec fn jobs_title_text(n: nat) -> Seq<char> {
    "\u{2500}Jobs ("@ + decimal(n) + ")"@
}

/// The job list's title (see `jobs_title_text`).
pub fn jobs_title(n: usize) -> (r: String)
    ensures
        r@ == jobs_title_text(n as nat),
{
    let mut r = String::from_str("\u{2500}Jobs (");
    push_decimal(&mut r, n as u64);
    append_str(&mut r, ")");
    r
}

/// The job list's border: plain while a dialog is open, otherwise green, the
/// color of the focused panel (the job list is the only one).
pub open spec fn job_list_border_of(s: AppView) -> SpanStyle {
    if s.dialog is Some {
        plain()
    } else {
        match s.focus {
            Focus::Jobs => colored(Color::Green),
        }
    }
}

/// The job list's border style (see `job_list_border_of`).
pub fn job_list_border(s: &AppState) -> (r: SpanStyle)
    ensures
        r == job_list_border_of(s@),
{
    if s.dialog.is_some() {
        plain_style()
    } else {
        match s.focus {
            Focus::Jobs => colored_style(Color::Green),
        }
    }
}

/// A detail line: the label in yellow, a space, then the value.
pub open spec fn detail_spans(label: Seq<char>, value: Seq<char>) -> Seq<(Seq<char>, SpanStyle)> {
    seq![(label, colored(Color::Yellow)), (" "@, plain()), (value, plain())]
}

/// The details of a job: its state (with the expected start time when it is
/// pending, and the reason it waits when there is one), name, command,
/// nodes, resources, and the output file shown.
pub open spec fn job_detail_spans(j: JobView, view: OutputFileView) -> Seq<
    Seq<(Seq<char>, SpanStyle)>,
> {
    let state = detail_spans("State  "@, j.state) + (if j.state == "PENDING"@ {
        seq![(" Start "@, colored(Color::Yellow)), (j.start_time, plain())]
    } else {
        Seq::empty()
    }) + match j.reason {
        Some(r) => seq![(" Reason "@, colored(Color::Yellow)), (r, plain())],
        None => Seq::empty(),
    };
    let path = match view {
        OutputFileView::Stdout => j.stdout,
        OutputFileView::Stderr => j.stderr,
    };
    seq![
        state,
        detail_spans("Name   "@, j.name),
        detail_spans("Command"@, j.command),
        detail_spans("Nodes  "@, j.nodelist),
        detail_spans("TRES   "@, j.tres),
        detail_spans(
            match view {
                OutputFileView::Stdout => "stdout "@,
                OutputFileView::Stderr => "stderr "@,
            },
            match path {
                Some(p) => p,
                None => Seq::empty(),
            },
        ),
    ]
}

fn detail_line(label: &str, value: &str) -> (r: StyledLine)
    ensures
        r@ == detail_spans(label@, value@),
{
    let mut b = LineBuilder::new();
    b.push_str(label, colored_style(Color::Yellow));
    b.push_str(" ", plain_style());
    b.push_str(value, plain_style());
    let r = b.finish();
    proof {
        assert(r@ =~= detail_spans(label@, value@));
    }
    r
}

/// The details of a job (see `job_detail_spans`).
pub fn job_details(j: &Job, view: OutputFileView) -> (r: Vec<StyledLine>)
    ensures
        styled_lines_view(r@) == job_detail_spans(j@, view),
{
    let mut b = LineBuilder::new();
    b.push_str("State  ", colored_style(Color::Yellow));
    b.push_str(" ", plain_style());
    b.push(j.state.clone(), plain_style());
    if crate::text::same_text(j.state.as_str(), "PENDING") {
        b.push_str(" Start ", colored_style(Color::Yellow));
        b.push(j.start_time.clone(), plain_style());
    }
    match &j.reason {
        Some(r) => {
            b.push_str(" Reason ", colored_style(Color::Yellow));
            b.push(r.clone(), plain_style());
        },
        None => {},
    }
    let state = b.finish();
    proof {
        let want = job_detail_spans(j@, view)[0];
        assert(state@ =~= want);
    }
    let path = match view {
        OutputFileView::Stdout => &j.stdout,
        OutputFileView::Stderr => &j.stderr,
    };
    let path_text = match path {
        Some(p) => p.clone(),
        None => String::new(),
    };
    let label = match view {
        OutputFileView::Stdout => "stdout ",
        OutputFileView::Stderr => "stderr ",
    };
    let mut r: Vec<StyledLine> = Vec::new();
    r.push(state);
    r.push(detail_line("Name   ", j.name.as_str()));
    r.push(detail_line("Command", j.command.as_str()));
    r.push(detail_line("Nodes  ", j.nodelist.as_str()));
    r.push(detail_line("TRES   ", j.tres.as_str()));
    r.push(detail_line(label, path_text.as_str()));
    proof {
        assert(styled_lines_view(r@) =~= job_detail_spans(j@, view));
    }
    r
}

/// The output view's scroll marker: `[T]` at the top, `[T+n]` n lines
/// below it, nothing at the bottom, `[B-n]` n lines above it.
pub open spec fn scroll_tag(anchor: ScrollAnchor, offset: u16) -> Seq<char> {
    match anchor {
        ScrollAnchor::Top => if offset == 0 {
            "[T]"@
        } else {
            "[T+"@ + decimal(offset as nat) + "]"@
        },
        ScrollAnchor::Bottom => if offset == 0 {
            Seq::empty()
        } else {
            "[B-"@ + decimal(offset as nat) + "]"@
        },
    }
}

/// The output view's title: which file is shown, then the dimmed scroll
/// marker.
pub open spec fn log_title_spans(view: OutputFileView, anchor: ScrollAnchor, offset: u16) -> Seq<
    (Seq<char>, SpanStyle),
> {
    seq![
        ("\u{2500}"@, plain()),
        (
            match view {
                OutputFileView::Stdout => "stdout"@,
                OutputFileView::Stderr => "stderr"@,
            },
            plain(),
        ),
        (scroll_tag(anchor, offset), dimmed()),
    ]
}

/// The output view's title (see `log_title_spans`).
pub fn log_title(view: OutputFileView, anchor: ScrollAnchor, offset: u16) -> (r: StyledLine)
    ensures
        r@ == log_title_spans(view, anchor, offset),
{
    let tag = match anchor {
        ScrollAnchor::Top => if offset == 0 {
            String::from_str("[T]")
        } else {
            let mut t = String::from_str("[T+");
            push_decimal(&mut t, offset as u64);
            append_str(&mut t, "]");
            t
        },
        ScrollAnchor::Bottom => if offset == 0 {
            String::new()
        } else {
            let mut t = String::from_str("[B-");
            push_decimal(&mut t, offset as u64);
            append_str(&mut t, "]");
            t
        },
    };
    let mut b = LineBuilder::new();
    b.push_str("\u{2500}", plain_style());
    b.push_str(
        match view {
            OutputFileView::Stdout => "stdout",
            OutputFileView::Stderr => "stderr",
        },
        plain_style(),
    );
    b.push(tag, SpanStyle { fg: None, bg: None, bold: false, dim: true });
    let r = b.finish();
    proof {
        assert(r@ =~= log_title_spans(view, anchor, offset));
    }
    r
}

/// The keys the help line lists, with what they do.
pub open spec fn help_entries() -> Seq<(Seq<char>, Seq<char>)> {
    seq![
        ("q"@, "quit"@),
        ("\u{23f6}/\u{23f7}"@, "navigate"@),
        ("pgup/pgdown"@, "scroll"@),
        ("home/end"@, "top/bottom"@),
        ("esc"@, "cancel"@),
        ("enter"@, "confirm"@),
        ("c/C"@, "cancel/signal"@),
        ("t"@, "set time limit"@),
        ("o"@, "toggle stdout/stderr"@),
        ("w"@, "toggle text wrap"@),
    ]
}

/// The help line for `entries`: each key in blue, `: `, and what it does
/// in light blue, entries separated by ` | `.
pub open spec fn help_spans(entries: Seq<(Seq<char>, Seq<char>)>) -> Seq<(Seq<char>, SpanStyle)>
    decreases entries.len(),
{
    if entries.len() == 0 {
        Seq::empty()
    } else {
        let e = entries.last();
        help_spans(entries.drop_last()) + (if entries.len() > 1 {
            seq![(" | "@, plain())]
        } else {
            Seq::empty()
        }) + seq![(e.0, colored(Color::Blue)), (": "@, plain()), (e.1, colored(Color::LightBlue))]
    }
}

fn help_entry_list() -> (r: Vec<(&'static str, &'static str)>)
    ensures
        r@.map_values(|e: (&str, &str)| (e.0@, e.1@)) == help_entries(),
{
    let mut r: Vec<(&'static str, &'static str)> = Vec::new();
    r.push(("q", "quit"));
    r.push(("\u{23f6}/\u{23f7}", "navigate"));
    r.push(("pgup/pgdown", "scroll"));
    r.push(("home/end", "top/bottom"));
    r.push(("esc", "cancel"));
    r.push(("enter", "confirm"));
    r.push(("c/C", "cancel/signal"));
    r.push(("t", "set time limit"));
    r.push(("o", "toggle stdout/stderr"));
    r.push(("w", "toggle text wrap"));
    proof {
        assert(r@.map_values(|e: (&str, &str)| (e.0@, e.1@)) =~= help_entries());
    }
    r
}

/// The help line (see `help_spans` and `help_entries`).
pub fn help_line() -> (r: StyledLine)
    ensures
        r@ == help_spans(help_entries()),
{
    let entries = help_entry_list();
    let ghost ev = entries@.map_values(|e: (&str, &str)| (e.0@, e.1@));
    let mut b = LineBuilder::new();
    let mut i: usize = 0;
    while i < entries.len()
        invariant
            i <= entries@.len(),
            ev == entries@.map_values(|e: (&str, &str)| (e.0@, e.1@)),
            b.spans@.map_values(|s: StyledSpan| s@) == help_spans(ev.take(i as int)),
        decreases entries@.len() - i,
    {
        let (key, what) = entries[i];
        let ghost before = b.spans@.map_values(|s: StyledSpan| s@);
        if i > 0 {
            b.push_str(" | ", plain_style());
        }
        b.push_str(key, colored_style(Color::Blue));
        b.push_str(": ", plain_style());
        b.push_str(what, colored_style(Color::LightBlue));
        proof {
            let t = ev.take(i + 1);
            assert(t.drop_last() =~= ev.take(i as int));
            assert(t.last() == (key@, what@));
            if i == 0 {
                assert(ev.take(0) =~= Seq::<(Seq<char>, Seq<char>)>::empty());
            }
            assert(b.spans@.map_values(|s: StyledSpan| s@) =~= help_spans(t));
        }
        i = i + 1;
    }
    proof {
        assert(ev.take(i as int) =~= ev);
    }
    b.finish()
}

} // verus!
