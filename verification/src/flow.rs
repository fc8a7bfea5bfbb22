use vstd::prelude::*;

use crate::data::{CellView, StyledCell};
use crate::error::{Error, ErrorView};
use crate::text::string_views;
use crate::version::Version;

verus! {

/// The level of a message to the user.
#[derive(Debug, PartialEq, Eq, Clone, Copy)]
pub enum LogLevel {
    Error,
    Info,
    Debug,
    /// Printed as it is on the standard output, whatever the verbosity.
    Print,
}

/// A message to the user, at a level.
#[derive(Debug, PartialEq, Eq)]
pub struct LogLine {
    pub level: LogLevel,
    pub text: String,
}

/// The mathematical value of a [`LogLine`].
pub struct LogView {
    pub level: LogLevel,
    pub text: Seq<char>,
}

impl View for LogLine {
    type V = LogView;

    open spec fn view(&self) -> LogView {
        LogView { level: self.level, text: self.text@ }
    }
}

/// The views of a sequence of messages.
pub open spec fn log_views(s: Seq<LogLine>) -> Seq<LogView> {
    s.map_values(|l: LogLine| l@)
}

/// A message at the info level.
pub open spec fn info(text: Seq<char>) -> LogView {
    LogView { level: LogLevel::Info, text }
}

/// A message at the debug level.
pub open spec fn debug(text: Seq<char>) -> LogView {
    LogView { level: LogLevel::Debug, text }
}

/// A line printed as it is.
pub open spec fn print(text: Seq<char>) -> LogView {
    LogView { level: LogLevel::Print, text }
}

/// A message at the error level.
pub open spec fn error(text: Seq<char>) -> LogView {
    LogView { level: LogLevel::Error, text }
}

impl LogLine {
    /// A message at the given level.
    pub fn new(level: LogLevel, text: &str) -> (r: LogLine)
        ensures
            r@ == (LogView { level, text: text@ }),
    {
        LogLine { level, text: text.to_owned() }
    }
}

/// The layout of a table: full, or condensed with no lines between rows.
#[derive(Debug, PartialEq, Eq, Clone, Copy)]
pub enum TablePreset {
    Full,
    FullCondensed,
}

/// A table to print: its layout, its header and its rows of cells.
#[derive(Debug, PartialEq, Eq)]
pub struct TableSpec {
    pub preset: TablePreset,
    pub header: Vec<StyledCell>,
    pub rows: Vec<Vec<StyledCell>>,
}

/// The views of a sequence of cells.
pub open spec fn cell_views(s: Seq<StyledCell>) -> Seq<CellView> {
    s.map_values(|c: StyledCell| c@)
}

/// The mathematical value of a [`TableSpec`].
pub struct TableView {
    pub preset: TablePreset,
    pub header: Seq<CellView>,
    pub rows: Seq<Seq<CellView>>,
}

impl View for TableSpec {
    type V = TableView;

    open spec fn view(&self) -> TableView {
        TableView {
            preset: self.preset,
            header: cell_views(self.header@),
            rows: self.rows@.map_values(|r: Vec<StyledCell>| cell_views(r@)),
        }
    }
}

/// What the list command shows: messages, then a table and a line with the count, where
/// there is a table.
#[derive(Debug, PartialEq, Eq)]
pub struct ListReport {
    pub logs: Vec<LogLine>,
    pub table: Option<TableSpec>,
    pub count_line: Option<String>,
}

/// The mathematical value of a [`ListReport`].
pub struct ListView {
    pub logs: Seq<LogView>,
    pub table: Option<TableView>,
    pub count_line: Option<Seq<char>>,
}

impl View for ListReport {
    type V = ListView;

    open spec fn view(&self) -> ListView {
        ListView {
            logs: log_views(self.logs@),
            table: match self.table {
                Some(t) => Some(t@),
                None => None,
            },
            count_line: match self.count_line {
                Some(c) => Some(c@),
                None => None,
            },
        }
    }
}

/// What a process of cargo reported when it ended.
#[derive(Debug, PartialEq, Eq)]
pub struct CargoOutput {
    pub success: bool,
    pub stdout: String,
    pub stderr: String,
}

/// The outside work that a command asks for next; once it is done, the command is given
/// the matching [`Event`].
#[derive(Debug)]
pub enum Effect {
    /// Set up the logger at this level; answered by [`Event::LoggerReady`].
    InitLogger(log::LevelFilter),
    /// Run cargo with these arguments, with its output captured or left on the terminal;
    /// answered by [`Event::CargoFinished`].
    RunCargo { args: Vec<String>, captured: bool },
    /// Look up on crates.io the latest version of each of these crates; answered by
    /// [`Event::LatestVersions`], one outcome per crate in the same order.
    LookUpLatest(Vec<String>),
    /// Show what the list command reports; answered by [`Event::Shown`].
    ShowList(ListReport),
    /// Ask the user this yes-or-no question (no being the default); answered by
    /// [`Event::Answered`].
    Confirm(String),
    /// Look for `cargo-binstall` on the search path; answered by [`Event::BinstallFound`].
    FindBinstall,
    /// The command is over, with this outcome.
    Finish(Result<(), Error>),
}

/// What came of the outside work that an [`Effect`] asked for.
#[derive(Debug)]
pub enum Event {
    /// The command starts.
    Started,
    /// The logger was set up, or its error message.
    LoggerReady(Result<(), String>),
    /// cargo ran and ended, or the message of why it could not be started.
    CargoFinished(Result<CargoOutput, String>),
    /// The latest version of each crate asked for, `None` where none was found.
    LatestVersions(Vec<Option<Version>>),
    /// The report was shown.
    Shown,
    /// The user's answer, or the message of why none could be had.
    Answered(Result<bool, String>),
    /// Whether `cargo-binstall` is on the search path.
    BinstallFound(bool),
}

/// The mathematical value of an [`Effect`].
pub enum EffectView {
    InitLogger(log::LevelFilter),
    RunCargo { args: Seq<Seq<char>>, captured: bool },
    LookUpLatest(Seq<Seq<char>>),
    ShowList(ListView),
    Confirm(Seq<char>),
    FindBinstall,
    Finish(Result<(), ErrorView>),
}

impl View for Effect {
    type V = EffectView;

    open spec fn view(&self) -> EffectView {
        match self {
            Effect::InitLogger(f) => EffectView::InitLogger(*f),
            Effect::RunCargo { args, captured } => EffectView::RunCargo {
                args: string_views(args@),
                captured: *captured,
            },
            Effect::LookUpLatest(names) => EffectView::LookUpLatest(string_views(names@)),
            Effect::ShowList(report) => EffectView::ShowList(report@),
            Effect::Confirm(q) => EffectView::Confirm(q@),
            Effect::FindBinstall => EffectView::FindBinstall,
            Effect::Finish(outcome) => EffectView::Finish(
                match outcome {
                    Ok(()) => Ok(()),
                    Err(e) => Err(e@),
                },
            ),
        }
    }
}

/// One step of a command: the state it is in now, the messages to log, and the outside work
/// to do next.
pub struct Step<S> {
    pub state: S,
    pub logs: Vec<LogLine>,
    pub effect: Effect,
}

/// The mathematical value of a [`Step`].
pub struct StepView<S> {
    pub state: S,
    pub logs: Seq<LogView>,
    pub effect: EffectView,
}

impl<S: View> View for Step<S> {
    type V = StepView<S::V>;

    open spec fn view(&self) -> StepView<S::V> {
        StepView { state: self.state@, logs: log_views(self.logs@), effect: self.effect@ }
    }
}

/// The mathematical value of a [`CargoOutput`].
pub struct CargoView {
    pub success: bool,
    pub stdout: Seq<char>,
    pub stderr: Seq<char>,
}

impl View for CargoOutput {
    type V = CargoView;

    open spec fn view(&self) -> CargoView {
        CargoView { success: self.success, stdout: self.stdout@, stderr: self.stderr@ }
    }
}

/// The mathematical value of an [`Event`].
pub enum EventView {
    Started,
    LoggerReady(Result<(), Seq<char>>),
    CargoFinished(Result<CargoView, Seq<char>>),
    LatestVersions(Seq<Option<crate::version::VersionView>>),
    Shown,
    Answered(Result<bool, Seq<char>>),
    BinstallFound(bool),
}

impl View for Event {
    type V = EventView;

    open spec fn view(&self) -> EventView {
        match self {
            Event::Started => EventView::Started,
            Event::LoggerReady(r) => EventView::LoggerReady(
                match r {
                    Ok(()) => Ok(()),
                    Err(m) => Err(m@),
                },
            ),
            Event::CargoFinished(r) => EventView::CargoFinished(
                match r {
                    Ok(out) => Ok(out@),
                    Err(m) => Err(m@),
                },
            ),
            Event::LatestVersions(found) => EventView::LatestVersions(
                crate::logic::version_views(found@),
            ),
            Event::Shown => EventView::Shown,
            Event::Answered(r) => EventView::Answered(
                match r {
                    Ok(b) => Ok(*b),
                    Err(m) => Err(m@),
                },
            ),
            Event::BinstallFound(b) => EventView::BinstallFound(*b),
        }
    }
}

} // verus!
