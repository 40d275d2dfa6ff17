//! Colours and styles of terminal text.

use vstd::prelude::*;
use vstd::string::*;

use crate::status::{RunStatus, TaskStatus};

verus! {

/// A terminal colour.
#[derive(Clone, Copy, Debug, PartialEq, Eq, Structural)]
pub enum Color {
    /// Black.
    Black,
    /// Red.
    Red,
    /// Green.
    Green,
    /// Yellow.
    Yellow,
    /// Blue.
    Blue,
    /// Magenta.
    Magenta,
    /// Cyan.
    Cyan,
    /// White.
    White,
    /// Bright black.
    BrightBlack,
    /// Bright red.
    BrightRed,
    /// Bright green.
    BrightGreen,
    /// Bright yellow.
    BrightYellow,
    /// Bright blue.
    BrightBlue,
    /// Bright magenta.
    BrightMagenta,
    /// Bright cyan.
    BrightCyan,
    /// Bright white.
    BrightWhite,
}

/// The name of a colour.
pub open spec fn color_name(color: Color) -> Seq<char> {
    match color {
        Color::Black => "black"@,
        Color::Red => "red"@,
        Color::Green => "green"@,
        Color::Yellow => "yellow"@,
        Color::Blue => "blue"@,
        Color::Magenta => "magenta"@,
        Color::Cyan => "cyan"@,
        Color::White => "white"@,
        Color::BrightBlack => "bright black"@,
        Color::BrightRed => "bright red"@,
        Color::BrightGreen => "bright green"@,
        Color::BrightYellow => "bright yellow"@,
        Color::BrightBlue => "bright blue"@,
        Color::BrightMagenta => "bright magenta"@,
        Color::BrightCyan => "bright cyan"@,
        Color::BrightWhite => "bright white"@,
    }
}

/// The two digits that select a colour for text.
pub open spec fn color_code(color: Color) -> Seq<char> {
    match color {
        Color::Black => seq!['3', '0'],
        Color::Red => seq!['3', '1'],
        Color::Green => seq!['3', '2'],
        Color::Yellow => seq!['3', '3'],
        Color::Blue => seq!['3', '4'],
        Color::Magenta => seq!['3', '5'],
        Color::Cyan => seq!['3', '6'],
        Color::White => seq!['3', '7'],
        Color::BrightBlack => seq!['9', '0'],
        Color::BrightRed => seq!['9', '1'],
        Color::BrightGreen => seq!['9', '2'],
        Color::BrightYellow => seq!['9', '3'],
        Color::BrightBlue => seq!['9', '4'],
        Color::BrightMagenta => seq!['9', '5'],
        Color::BrightCyan => seq!['9', '6'],
        Color::BrightWhite => seq!['9', '7'],
    }
}

/// A style of terminal text.
pub enum Style {
    /// Bold.
    Bold,
    /// Dimmed.
    Dimmed,
    /// Coloured.
    Colored(Color),
    /// Bold and coloured.
    BoldColored(Color),
}

/// The sequence that turns a style on.
pub open spec fn style_start(style: Style) -> Seq<char> {
    match style {
        Style::Bold => seq!['\u{1b}', '[', '1', 'm'],
        Style::Dimmed => seq!['\u{1b}', '[', '2', 'm'],
        Style::Colored(color) => seq!['\u{1b}', '['] + color_code(color) + seq!['m'],
        Style::BoldColored(color) => seq!['\u{1b}', '[', '1', ';'] + color_code(color) + seq!['m'],
    }
}

/// The sequence that turns every style off.
pub open spec fn style_end() -> Seq<char> {
    seq!['\u{1b}', '[', '0', 'm']
}

/// The text with the style turned on again wherever it is turned off.
pub open spec fn restyled(text: Seq<char>, start: Seq<char>) -> Seq<char>
    decreases text.len(),
{
    if text.len() == 0 {
        text
    } else if text.len() >= 4 && text.take(4) == style_end() {
        style_end() + start + restyled(text.skip(4), start)
    } else {
        seq![text[0]] + restyled(text.skip(1), start)
    }
}

/// Whether `painted` is `text` in a style, as far as the terminal is to be sent
/// styles: that depends on the environment, which may change while the text is
/// being painted.
pub open spec fn is_painted(text: Seq<char>, style: Style, painted: Seq<char>) -> bool {
    let start = style_start(style);
    ||| painted == text
    ||| painted == start + restyled(text, start) + style_end()
    ||| painted == start + text + style_end()
    ||| painted == restyled(text, start) + style_end()
    ||| painted == text + style_end()
}

/// Makes a text bold.
///
/// This is `colored::Colorize::bold` and the `Display` of
/// `colored::ColoredString`. It is trusted to put the text between the sequences
/// that turn the style on and off, or to leave it alone where colours are off.
#[verifier::external_body]
fn bold(text: &str) -> (r: String)
    ensures
        is_painted(text@, Style::Bold, r@),
{
    colored::Colorize::bold(text).to_string()
}

/// Dims a text.
///
/// This is `colored::Colorize::dimmed` and the `Display` of
/// `colored::ColoredString`. It is trusted to put the text between the sequences
/// that turn the style on and off, or to leave it alone where colours are off.
#[verifier::external_body]
fn dimmed(text: &str) -> (r: String)
    ensures
        is_painted(text@, Style::Dimmed, r@),
{
    colored::Colorize::dimmed(text).to_string()
}

/// Colours a text, by the name of the colour.
///
/// This is `colored::Colorize::color` and the `Display` of
/// `colored::ColoredString`. It is trusted to know the sixteen colours by name,
/// and to put the text between the sequences that turn the colour on and off, or
/// to leave it alone where colours are off.
#[verifier::external_body]
fn colored_by_name(text: &str, name: &str) -> (r: String)
    requires
        exists|color: Color| name@ == #[trigger] color_name(color),
    ensures
        forall|color: Color|
            name@ == #[trigger] color_name(color) ==> is_painted(
                text@,
                Style::Colored(color),
                r@,
            ),
{
    colored::Colorize::color(text, name).to_string()
}

/// Colours a text and makes it bold, by the name of the colour.
///
/// This is `colored::Colorize::color`, `colored::Colorize::bold` and the
/// `Display` of `colored::ColoredString`. It is trusted to know the sixteen
/// colours by name, and to put the text between the sequences that turn the
/// style on and off, or to leave it alone where colours are off.
#[verifier::external_body]
fn bold_colored_by_name(text: &str, name: &str) -> (r: String)
    requires
        exists|color: Color| name@ == #[trigger] color_name(color),
    ensures
        forall|color: Color|
            name@ == #[trigger] color_name(color) ==> is_painted(
                text@,
                Style::BoldColored(color),
                r@,
            ),
{
    colored::Colorize::bold(colored::Colorize::color(text, name)).to_string()
}

impl Color {
    /// The name of the colour.
    pub fn name(self) -> (r: &'static str)
        ensures
            r@ == color_name(self),
    {
        match self {
            Color::Black => "black",
            Color::Red => "red",
            Color::Green => "green",
            Color::Yellow => "yellow",
            Color::Blue => "blue",
            Color::Magenta => "magenta",
            Color::Cyan => "cyan",
            Color::White => "white",
            Color::BrightBlack => "bright black",
            Color::BrightRed => "bright red",
            Color::BrightGreen => "bright green",
            Color::BrightYellow => "bright yellow",
            Color::BrightBlue => "bright blue",
            Color::BrightMagenta => "bright magenta",
            Color::BrightCyan => "bright cyan",
            Color::BrightWhite => "bright white",
        }
    }
}

/// Whether `shown` is `text`: in the style if the report is colorized, and as it
/// is otherwise.
pub open spec fn is_shown(
    text: Seq<char>,
    style: Style,
    colorize: bool,
    shown: Seq<char>,
) -> bool {
    if colorize {
        is_painted(text, style, shown)
    } else {
        shown == text
    }
}

/// Shows a text, in a style if the report is colorized.
pub fn show(text: String, style: Style, colorize: bool) -> (r: String)
    ensures
        is_shown(text@, style, colorize, r@),
{
    if !colorize {
        return text;
    }
    match style {
        Style::Bold => bold(text.as_str()),
        Style::Dimmed => dimmed(text.as_str()),
        Style::Colored(color) => colored_by_name(text.as_str(), color.name()),
        Style::BoldColored(color) => bold_colored_by_name(text.as_str(), color.name()),
    }
}

/// The colours of task statuses.
#[derive(Clone, Copy)]
pub struct TaskPalette {
    /// The colour of an initializing task.
    pub initializing: Color,
    /// The colour of a localizing task.
    pub localizing: Color,
    /// The colour of a pending task.
    pub pending: Color,
    /// The colour of a running task.
    pub running: Color,
    /// The colour of a completed task.
    pub completed: Color,
    /// The colour of a cached task.
    pub cached: Color,
    /// The colour of a failed task.
    pub failed: Color,
    /// The colour of a canceled task.
    pub canceled: Color,
    /// The colour of a preempted task.
    pub preempted: Color,
    /// The colour of an orphaned task.
    pub orphaned: Color,
}

/// The colours of run statuses.
#[derive(Clone, Copy)]
pub struct RunPalette {
    /// The colour of a running run.
    pub running: Color,
    /// The colour of a completed run.
    pub completed: Color,
    /// The colour of a failed run.
    pub failed: Color,
    /// The colour of a canceling run.
    pub canceling: Color,
    /// The colour of a canceled run.
    pub canceled: Color,
    /// The colour of an orphaned run.
    pub orphaned: Color,
}

/// The colours of a report.
#[derive(Clone, Copy)]
pub struct Palette {
    /// The colours of task statuses.
    pub task: TaskPalette,
    /// The colours of run statuses.
    pub run: RunPalette,
}

/// The colour of a task status.
pub open spec fn task_color(palette: Palette, status: TaskStatus) -> Color {
    match status {
        TaskStatus::Initializing => palette.task.initializing,
        TaskStatus::Localizing => palette.task.localizing,
        TaskStatus::Pending => palette.task.pending,
        TaskStatus::Running => palette.task.running,
        TaskStatus::Completed => palette.task.completed,
        TaskStatus::Cached => palette.task.cached,
        TaskStatus::Failed => palette.task.failed,
        TaskStatus::Canceled => palette.task.canceled,
        TaskStatus::Preempted => palette.task.preempted,
        TaskStatus::Orphaned => palette.task.orphaned,
    }
}

/// The colour of a run status.
pub open spec fn run_color(palette: Palette, status: RunStatus) -> Color {
    match status {
        RunStatus::Running => palette.run.running,
        RunStatus::Completed => palette.run.completed,
        RunStatus::Failed => palette.run.failed,
        RunStatus::Canceling => palette.run.canceling,
        RunStatus::Canceled => palette.run.canceled,
        RunStatus::Orphaned => palette.run.orphaned,
    }
}

impl Palette {
    /// The colour of a task status.
    pub fn task_status_color(&self, status: TaskStatus) -> (r: Color)
        ensures
            r == task_color(*self, status),
    {
        match status {
            TaskStatus::Initializing => self.task.initializing,
            TaskStatus::Localizing => self.task.localizing,
            TaskStatus::Pending => self.task.pending,
            TaskStatus::Running => self.task.running,
            TaskStatus::Completed => self.task.completed,
            TaskStatus::Cached => self.task.cached,
            TaskStatus::Failed => self.task.failed,
            TaskStatus::Canceled => self.task.canceled,
            TaskStatus::Preempted => self.task.preempted,
            TaskStatus::Orphaned => self.task.orphaned,
        }
    }

    /// The colour of a run status.
    pub fn status_color(&self, status: RunStatus) -> (r: Color)
        ensures
            r == run_color(*self, status),
    {
        match status {
            RunStatus::Running => self.run.running,
            RunStatus::Completed => self.run.completed,
            RunStatus::Failed => self.run.failed,
            RunStatus::Canceling => self.run.canceling,
            RunStatus::Canceled => self.run.canceled,
            RunStatus::Orphaned => self.run.orphaned,
        }
    }
}

} // verus!
