//! The dialogs: their state, the signals on offer, and input checks.
use vstd::prelude::*;

use crate::app::{u16_sat_add, u16_sat_sub, Area};
use crate::text::{
    append_str, decimal, lemma_trim_idempotent, line_ranges, push_decimal, std_lines, trim,
    trim_str, chars_of,
};
use crate::view::{bold, colored, plain, styled_lines_view, Color, SpanStyle, StyledLine, StyledSpan};

verus! {

/// A dialog shown over the job list.
pub enum Dialog {
    /// Asks whether to cancel the job.
    ConfirmCancelJob(String),
    /// Offers the signals that can be sent to the job.
    SelectCancelSignal { id: String, selected_signal: usize },
    /// Edits the job's time limit; `input` is the text typed so far.
    EditTimeLimit { id: String, input: String },
    /// Shows why a command failed.
    CommandError { command: String, output: String },
}

/// A dialog with its texts as character sequences.
pub ghost enum DialogView {
    ConfirmCancelJob(Seq<char>),
    SelectCancelSignal { id: Seq<char>, selected_signal: usize },
    EditTimeLimit { id: Seq<char>, input: Seq<char> },
    CommandError { command: Seq<char>, output: Seq<char> },
}

impl View for Dialog {
    type V = DialogView;

    open spec fn view(&self) -> DialogView {
        match self {
            Dialog::ConfirmCancelJob(id) => DialogView::ConfirmCancelJob(id@),
            Dialog::SelectCancelSignal { id, selected_signal } => DialogView::SelectCancelSignal {
                id: id@,
                selected_signal: *selected_signal,
            },
            Dialog::EditTimeLimit { id, input } => DialogView::EditTimeLimit {
                id: id@,
                input: input@,
            },
            Dialog::CommandError { command, output } => DialogView::CommandError {
                command: command@,
                output: output@,
            },
        }
    }
}

/// How many signals the signal dialog offers.
pub const SCANCEL_SIGNAL_COUNT: usize = 8;

/// The signals the signal dialog offers, in order.
pub open spec fn scancel_signals() -> Seq<Seq<char>> {
    seq!["TERM"@, "INT"@, "HUP"@, "USR1"@, "USR2"@, "STOP"@, "CONT"@, "KILL"@]
}

/// The signal at position `i` of the signal dialog.
pub fn scancel_signal(i: usize) -> (r: &'static str)
    requires
        i < SCANCEL_SIGNAL_COUNT,
    ensures
        r@ == scancel_signals()[i as int],
{
    if i == 0 {
        "TERM"
    } else if i == 1 {
        "INT"
    } else if i == 2 {
        "HUP"
    } else if i == 3 {
        "USR1"
    } else if i == 4 {
        "USR2"
    } else if i == 5 {
        "STOP"
    } else if i == 6 {
        "CONT"
    } else {
        "KILL"
    }
}

/// The value of a decimal digit character.
pub open spec fn digit_value(c: char) -> Option<nat> {
    if '0' <= c <= '9' {
        Some((c as u32 - '0' as u32) as nat)
    } else {
        None
    }
}

/// The signal position a digit key picks: `1` is the first signal; `0` and
/// other characters pick none.
pub open spec fn signal_index_of_digit(c: char) -> Option<usize> {
    match digit_value(c) {
        Some(v) => if v == 0 {
            None
        } else {
            Some((v - 1) as usize)
        },
        None => None,
    }
}

/// The signal position a digit key picks (see `signal_index_of_digit`).
pub fn signal_index_for_digit(digit: char) -> (r: Option<usize>)
    ensures
        r == signal_index_of_digit(digit),
{
    if '1' <= digit && digit <= '9' {
        Some((digit as u32 - '1' as u32) as usize)
    } else {
        None
    }
}

/// The time limit to set from the text typed: the text without surrounding
/// white space, or none when nothing is left.
pub open spec fn time_limit_from_input(input: Seq<char>) -> Option<Seq<char>> {
    if trim(input).len() == 0 {
        None
    } else {
        Some(trim(input))
    }
}

/// The time limit to set from the text typed (see `time_limit_from_input`).
pub fn validated_time_limit(input: &str) -> (r: Option<String>)
    ensures
        match r {
            Some(t) => time_limit_from_input(input@) == Some(t@),
            None => time_limit_from_input(input@) is None,
        },
{
    let t = trim_str(input);
    if t.as_str().unicode_len() == 0 {
        None
    } else {
        Some(t)
    }
}

/// A time limit taken from the editor is never empty and has no white
/// space around it.
pub proof fn lemma_time_limit_is_trimmed(input: Seq<char>)
    ensures
        time_limit_from_input(input) matches Some(t) ==> t.len() > 0 && trim(t) == t,
{
    lemma_trim_idempotent(input);
}

/// How wide dialogs are, at most.
pub const DIALOG_WIDTH: u16 = 80;

/// A box of `width` by `lines` cells (shrunk to the viewport) centered in
/// the viewport.
pub open spec fn centered_area(width: u16, lines: u16, viewport: Area) -> Area {
    let w = if width < viewport.width {
        width
    } else {
        viewport.width
    };
    let h = if lines < viewport.height {
        lines
    } else {
        viewport.height
    };
    Area {
        x: (viewport.x + (viewport.width - w) / 2) as u16,
        y: (viewport.y + (viewport.height - h) / 2) as u16,
        width: w,
        height: h,
    }
}

/// Where a dialog of `width` by `lines` cells goes (see `centered_area`).
pub fn centered_dialog_area(width: u16, lines: u16, viewport: Area) -> (r: Area)
    requires
        viewport.x + viewport.width <= u16::MAX,
        viewport.y + viewport.height <= u16::MAX,
    ensures
        r == centered_area(width, lines, viewport),
{
    let w = if width < viewport.width {
        width
    } else {
        viewport.width
    };
    let h = if lines < viewport.height {
        lines
    } else {
        viewport.height
    };
    Area {
        x: viewport.x + (viewport.width - w) / 2,
        y: viewport.y + (viewport.height - h) / 2,
        width: w,
        height: h,
    }
}

/// A centered dialog lies inside the viewport.
pub proof fn lemma_centered_area_inside(width: u16, lines: u16, viewport: Area)
    requires
        viewport.x + viewport.width <= u16::MAX,
        viewport.y + viewport.height <= u16::MAX,
    ensures
        ({
            let a = centered_area(width, lines, viewport);
            &&& viewport.x <= a.x
            &&& a.x + a.width <= viewport.x + viewport.width
            &&& viewport.y <= a.y
            &&& a.y + a.height <= viewport.y + viewport.height
            &&& a.width <= width
            &&& a.height <= lines
        }),
{
}

/// What a dialog box holds: styled lines, or plain text to be wrapped.
pub enum DialogContent {
    Lines(Vec<StyledLine>),
    Text(String),
}

pub ghost enum DialogContentView {
    Lines(Seq<Seq<(Seq<char>, SpanStyle)>>),
    Text(Seq<char>),
}

/// A dialog box: its title, border color, height in rows, whether its text
/// wraps (and then whether wrapped lines are trimmed), and its content. The
/// text is white.
pub struct DialogFrame {
    pub title: String,
    pub border: Color,
    pub height: u16,
    pub wrap: Option<bool>,
    pub content: DialogContent,
}

pub ghost struct DialogFrameView {
    pub title: Seq<char>,
    pub border: Color,
    pub height: u16,
    pub wrap: Option<bool>,
    pub content: DialogContentView,
}

impl View for DialogFrame {
    type V = DialogFrameView;

    open spec fn view(&self) -> DialogFrameView {
        DialogFrameView {
            title: self.title@,
            border: self.border,
            height: self.height,
            wrap: self.wrap,
            content: match self.content {
                DialogContent::Lines(v) => DialogContentView::Lines(styled_lines_view(v@)),
                DialogContent::Text(t) => DialogContentView::Text(t@),
            },
        }
    }
}

/// Signal `i` in the signal dialog: its number and name, highlighted when
/// selected, the number dimmed.
pub open spec fn signal_row(i: int, selected: usize) -> Seq<(Seq<char>, SpanStyle)> {
    let st = if i == selected {
        SpanStyle { fg: Some(Color::Black), bg: Some(Color::Green), bold: false, dim: false }
    } else {
        plain()
    };
    seq![
        (decimal((i + 1) as nat) + ". "@, SpanStyle { dim: true, ..st }),
        (scancel_signals()[i], st),
    ]
}

/// The text of the command error dialog.
pub open spec fn command_error_text(command: Seq<char>, output: Seq<char>) -> Seq<char> {
    "Command: "@ + command + "\n\n"@ + output
}

/// The box for a dialog; the time limit dialog shows `visible_input` as the
/// part of the typed text that fits.
pub open spec fn dialog_frame_of(d: DialogView, visible_input: Seq<char>) -> DialogFrameView {
    match d {
        DialogView::ConfirmCancelJob(id) => DialogFrameView {
            title: "\u{2500}Cancel"@,
            border: Color::Green,
            height: 3,
            wrap: Some(true),
            content: DialogContentView::Lines(
                seq![seq![("Cancel job "@, plain()), (id, bold()), ("?"@, plain())]],
            ),
        },
        DialogView::SelectCancelSignal { id, selected_signal } => DialogFrameView {
            title: "\u{2500}Signal"@,
            border: Color::Green,
            height: (SCANCEL_SIGNAL_COUNT + 4) as u16,
            wrap: Some(true),
            content: DialogContentView::Lines(
                seq![
                    seq![("Send signal to job "@, plain()), (id, bold()), (":"@, plain())],
                    Seq::empty(),
                ] + Seq::new(
                    SCANCEL_SIGNAL_COUNT as nat,
                    |i: int| signal_row(i, selected_signal),
                ),
            ),
        },
        DialogView::EditTimeLimit { id, .. } => DialogFrameView {
            title: "\u{2500}Time Limit"@,
            border: Color::Green,
            height: 3,
            wrap: None,
            content: DialogContentView::Lines(
                seq![
                    seq![
                        ("Set time limit for job "@, plain()),
                        (id, bold()),
                        (": "@, plain()),
                        (visible_input, colored(Color::Blue)),
                    ],
                ],
            ),
        },
        DialogView::CommandError { command, output } => {
            let text = command_error_text(command, output);
            let n = std_lines(text).len() + 2;
            DialogFrameView {
                title: "\u{2500}Command Error"@,
                border: Color::Red,
                height: if n > u16::MAX {
                    u16::MAX
                } else {
                    n as u16
                },
                wrap: Some(false),
                content: DialogContentView::Text(text),
            }
        },
    }
}

fn span(text: String, style: SpanStyle) -> (r: StyledSpan)
    ensures
        r@ == (text@, style),
{
    StyledSpan { text, style }
}

fn line_of(spans: Vec<StyledSpan>) -> (r: StyledLine)
    ensures
        r@ == spans@.map_values(|s: StyledSpan| s@),
{
    StyledLine { spans }
}

fn signal_row_line(i: usize, selected: usize) -> (r: StyledLine)
    requires
        i < SCANCEL_SIGNAL_COUNT,
    ensures
        r@ == signal_row(i as int, selected),
{
    let st = if i == selected {
        SpanStyle { fg: Some(Color::Black), bg: Some(Color::Green), bold: false, dim: false }
    } else {
        SpanStyle { fg: None, bg: None, bold: false, dim: false }
    };
    let mut number = String::new();
    push_decimal(&mut number, (i + 1) as u64);
    append_str(&mut number, ". ");
    let mut spans: Vec<StyledSpan> = Vec::new();
    spans.push(span(number, SpanStyle { dim: true, ..st }));
    spans.push(span(String::from_str(scancel_signal(i)), st));
    let r = line_of(spans);
    proof {
        assert(r@ =~= signal_row(i as int, selected));
    }
    r
}

/// The box for a dialog (see `dialog_frame_of`).
pub fn dialog_frame(d: &Dialog, visible_input: &str) -> (r: DialogFrame)
    requires
        d@ matches DialogView::SelectCancelSignal { selected_signal, .. } ==> selected_signal
            < SCANCEL_SIGNAL_COUNT,
    ensures
        r@ == dialog_frame_of(d@, visible_input@),
{
    let bold_style = SpanStyle { fg: None, bg: None, bold: true, dim: false };
    let plain_style = SpanStyle { fg: None, bg: None, bold: false, dim: false };
    match d {
        Dialog::ConfirmCancelJob(id) => {
            let mut spans: Vec<StyledSpan> = Vec::new();
            spans.push(span(String::from_str("Cancel job "), plain_style));
            spans.push(span(id.clone(), bold_style));
            spans.push(span(String::from_str("?"), plain_style));
            let line = line_of(spans);
            proof {
                assert(line@ =~= seq![("Cancel job "@, plain()), (id@, bold()), ("?"@, plain())]);
            }
            let mut lines: Vec<StyledLine> = Vec::new();
            lines.push(line);
            proof {
                assert(styled_lines_view(lines@) =~= seq![line@]);
            }
            let r = DialogFrame {
                title: String::from_str("\u{2500}Cancel"),
                border: Color::Green,
                height: 3,
                wrap: Some(true),
                content: DialogContent::Lines(lines),
            };
            proof {
                assert(r@ =~= dialog_frame_of(d@, visible_input@));
            }
            r
        },
        Dialog::SelectCancelSignal { id, selected_signal } => {
            let mut spans: Vec<StyledSpan> = Vec::new();
            spans.push(span(String::from_str("Send signal to job "), plain_style));
            spans.push(span(id.clone(), bold_style));
            spans.push(span(String::from_str(":"), plain_style));
            let first = line_of(spans);
            let empty = line_of(Vec::new());
            proof {
                assert(first@ =~= seq![
                    ("Send signal to job "@, plain()),
                    (id@, bold()),
                    (":"@, plain()),
                ]);
                assert(empty@ =~= Seq::<(Seq<char>, SpanStyle)>::empty());
            }
            let mut lines: Vec<StyledLine> = Vec::new();
            lines.push(first);
            lines.push(empty);
            let ghost head = styled_lines_view(lines@);
            proof {
                assert(head =~= seq![
                    seq![("Send signal to job "@, plain()), (id@, bold()), (":"@, plain())],
                    Seq::empty(),
                ]);
            }
            let mut i: usize = 0;
            while i < SCANCEL_SIGNAL_COUNT
                invariant
                    i <= SCANCEL_SIGNAL_COUNT,
                    styled_lines_view(lines@) == head + Seq::new(
                        i as nat,
                        |k: int| signal_row(k, *selected_signal),
                    ),
                decreases SCANCEL_SIGNAL_COUNT - i,
            {
                let ghost before = styled_lines_view(lines@);
                let row = signal_row_line(i, *selected_signal);
                let ghost row_view = row@;
                lines.push(row);
                proof {
                    assert(styled_lines_view(lines@) =~= before.push(row_view));
                    assert(styled_lines_view(lines@) =~= head + Seq::new(
                        (i + 1) as nat,
                        |k: int| signal_row(k, *selected_signal),
                    ));
                }
                i = i + 1;
            }
            let r = DialogFrame {
                title: String::from_str("\u{2500}Signal"),
                border: Color::Green,
                height: 12,
                wrap: Some(true),
                content: DialogContent::Lines(lines),
            };
            proof {
                assert(r@ =~= dialog_frame_of(d@, visible_input@));
            }
            r
        },
        Dialog::EditTimeLimit { id, .. } => {
            let mut spans: Vec<StyledSpan> = Vec::new();
            spans.push(span(String::from_str("Set time limit for job "), plain_style));
            spans.push(span(id.clone(), bold_style));
            spans.push(span(String::from_str(": "), plain_style));
            spans.push(
                span(
                    String::from_str(visible_input),
                    SpanStyle { fg: Some(Color::Blue), bg: None, bold: false, dim: false },
                ),
            );
            let line = line_of(spans);
            proof {
                assert(line@ =~= seq![
                    ("Set time limit for job "@, plain()),
                    (id@, bold()),
                    (": "@, plain()),
                    (visible_input@, colored(Color::Blue)),
                ]);
            }
            let mut lines: Vec<StyledLine> = Vec::new();
            lines.push(line);
            proof {
                assert(styled_lines_view(lines@) =~= seq![line@]);
            }
            let r = DialogFrame {
                title: String::from_str("\u{2500}Time Limit"),
                border: Color::Green,
                height: 3,
                wrap: None,
                content: DialogContent::Lines(lines),
            };
            proof {
                assert(r@ =~= dialog_frame_of(d@, visible_input@));
            }
            r
        },
        Dialog::CommandError { command, output } => {
            let mut text = String::from_str("Command: ");
            append_str(&mut text, command.as_str());
            append_str(&mut text, "\n\n");
            append_str(&mut text, output.as_str());
            let cs = chars_of(text.as_str());
            let ls = line_ranges(&cs, 0, cs.len());
            proof {
                assert(cs@.subrange(0, cs@.len() as int) =~= text@);
            }
            let n = ls.len();
            let height: u16 = if n > 65533 {
                65535
            } else {
                (n + 2) as u16
            };
            let r = DialogFrame {
                title: String::from_str("\u{2500}Command Error"),
                border: Color::Red,
                height,
                wrap: Some(false),
                content: DialogContent::Text(text),
            };
            proof {
                assert(r@ =~= dialog_frame_of(d@, visible_input@));
            }
            r
        },
    }
}

/// How many columns the time limit prompt takes before the typed text:
/// `Set time limit for job `, the id, and `: ` (kept to 16 bits).
pub open spec fn prompt_width_of(id: Seq<char>) -> u16 {
    (23 + id.len() + 2) as u16
}

/// The time limit prompt's width (see `prompt_width_of`).
pub fn time_limit_prompt_width(id: &str) -> (r: u16)
    requires
        id@.len() + 25 <= usize::MAX,
    ensures
        r == prompt_width_of(id@),
{
    let n = id.unicode_len();
    (23 + n + 2) as u16
}

/// The columns left for the typed text: what the prompt leaves of the
/// inside width, at least one.
pub open spec fn available_width_of(inner_width: u16, prompt_width: u16) -> usize {
    let w = u16_sat_sub(inner_width as int, prompt_width as int);
    if w < 1 {
        1
    } else {
        w as usize
    }
}

/// The columns left for the typed text (see `available_width_of`).
pub fn time_limit_available_width(inner_width: u16, prompt_width: u16) -> (r: usize)
    ensures
        r == available_width_of(inner_width, prompt_width),
{
    let w: u16 = if inner_width < prompt_width {
        0
    } else {
        inner_width - prompt_width
    };
    if w < 1 {
        1
    } else {
        w as usize
    }
}

/// The part of the typed text that shows: `width` characters from `scroll`.
pub open spec fn visible_input_of(value: Seq<char>, scroll: nat, width: nat) -> Seq<char> {
    let rest = if scroll < value.len() {
        value.skip(scroll as int)
    } else {
        Seq::empty()
    };
    if width < rest.len() {
        rest.take(width as int)
    } else {
        rest
    }
}

/// The part of the typed text that shows (see `visible_input_of`).
pub fn visible_input(value: &str, scroll: usize, width: usize) -> (r: String)
    ensures
        r@ == visible_input_of(value@, scroll as nat, width as nat),
{
    let n = value.unicode_len();
    let from = if scroll < n {
        scroll
    } else {
        n
    };
    let to = if width < n - from {
        from + width
    } else {
        n
    };
    let r = String::from_str(value.substring_char(from, to));
    proof {
        assert(r@ =~= visible_input_of(value@, scroll as nat, width as nat));
    }
    r
}

/// Where the cursor goes in the time limit dialog: after the prompt and the
/// typed text before the cursor that shows, but not past the box's last
/// inside column; on the box's first inside row.
pub open spec fn cursor_position_of(
    inner: Area,
    prompt_width: u16,
    visual_cursor: nat,
    scroll: nat,
) -> (u16, u16) {
    let offset = (if visual_cursor >= scroll {
        visual_cursor - scroll
    } else {
        0
    }) as u16;
    let x = u16_sat_add(u16_sat_add(inner.x as int, prompt_width as int) as int, offset as int);
    let last = u16_sat_add(inner.x as int, u16_sat_sub(inner.width as int, 1) as int);
    (if x < last {
        x
    } else {
        last
    }, inner.y)
}

/// Where the cursor goes in the time limit dialog (see `cursor_position_of`).
pub fn time_limit_cursor(inner: Area, prompt_width: u16, visual_cursor: usize, scroll: usize) -> (r:
    (u16, u16))
    ensures
        r == cursor_position_of(inner, prompt_width, visual_cursor as nat, scroll as nat),
{
    let offset = (if visual_cursor >= scroll {
        visual_cursor - scroll
    } else {
        0
    }) as u16;
    let a: u32 = inner.x as u32 + prompt_width as u32;
    let a: u16 = if a > 65535 {
        65535
    } else {
        a as u16
    };
    let b: u32 = a as u32 + offset as u32;
    let x: u16 = if b > 65535 {
        65535
    } else {
        b as u16
    };
    let w1: u16 = if inner.width < 1 {
        0
    } else {
        inner.width - 1
    };
    let c: u32 = inner.x as u32 + w1 as u32;
    let last: u16 = if c > 65535 {
        65535
    } else {
        c as u16
    };
    (if x < last {
        x
    } else {
        last
    }, inner.y)
}

/// The display column of the cursor in a tui-input editor holding `value`
/// with the cursor after `cursor` characters.
pub uninterp spec fn input_visual_cursor(value: Seq<char>, cursor: usize) -> usize;

/// How far (in display columns) a tui-input editor holding `value`, with the
/// cursor after `cursor` characters, scrolls to keep the cursor in a field
/// `width` columns wide.
pub uninterp spec fn input_visual_scroll(value: Seq<char>, cursor: usize, width: usize) -> usize;

/// tui-input's `Input::visual_cursor` for the editor state `value` and
/// `cursor`: its result is named, not stated (it sums display widths).
#[verifier::external_body]
fn visual_cursor(value: &str, cursor: usize) -> (r: usize)
    ensures
        r == input_visual_cursor(value@, cursor),
{
    tui_input::Input::new(value.to_string()).with_cursor(cursor).visual_cursor()
}

/// tui-input's `Input::visual_scroll` for the editor state `value` and
/// `cursor` in a field `width` columns wide: its result is named, not
/// stated (it walks display widths).
#[verifier::external_body]
fn visual_scroll(value: &str, cursor: usize, width: usize) -> (r: usize)
    ensures
        r == input_visual_scroll(value@, cursor, width),
{
    tui_input::Input::new(value.to_string()).with_cursor(cursor).visual_scroll(width)
}

/// How the time limit dialog shows the text being typed: the prompt's
/// width, the part of the text that fits, and where the cursor goes.
pub struct TimeLimitLayout {
    pub prompt_width: u16,
    pub visible: String,
    pub cursor: (u16, u16),
}

/// Lays out the time limit dialog for the job `id` inside the box's inner
/// area, with the editor holding `value` and its cursor after `cursor`
/// characters: the field gets what the prompt leaves of the width, scrolls
/// as the editor says, and the cursor follows the editor's display column.
pub fn time_limit_layout(id: &str, value: &str, cursor: usize, inner: Area) -> (r: TimeLimitLayout)
    requires
        id@.len() + 25 <= usize::MAX,
    ensures
        r.prompt_width == prompt_width_of(id@),
        ({
            let available = available_width_of(inner.width, prompt_width_of(id@));
            let scroll = input_visual_scroll(value@, cursor, available);
            &&& r.visible@ == visible_input_of(value@, scroll as nat, available as nat)
            &&& r.cursor == cursor_position_of(
                inner,
                prompt_width_of(id@),
                input_visual_cursor(value@, cursor) as nat,
                scroll as nat,
            )
        }),
{
    let prompt_width = time_limit_prompt_width(id);
    let available = time_limit_available_width(inner.width, prompt_width);
    let scroll = visual_scroll(value, cursor, available);
    let column = visual_cursor(value, cursor);
    let visible = visible_input(value, scroll, available);
    let position = time_limit_cursor(inner, prompt_width, column, scroll);
    TimeLimitLayout { prompt_width, visible, cursor: position }
}

} // verus!
