//! What reaches the browser and what it shows: keys and other events, the
//! outside work it asks for and the answers to it, and the modes of the
//! screen with what each of them carries.

use crate::entry::{Entry, EntryView, Tree, TreeId};
use crate::summary::{Summary, SummaryMap};
use vstd::prelude::*;

verus! {

/// A key, as far as the browser tells keys apart.
#[derive(Clone, Copy, Debug, PartialEq, Eq, Structural)]
pub enum Key {
    Enter,
    Right,
    Backspace,
    Left,
    Esc,
    Char(char),
    /// Any other key.
    Other,
}

/// One event from the terminal.
#[derive(Clone, Copy, Debug, PartialEq, Eq, Structural)]
pub enum Event {
    /// A key was pressed.
    Press(Key),
    /// Anything else: a key released or held, the mouse, a new size.
    Other,
}

/// What the exit prompt makes of an event.
#[derive(Clone, Copy, Debug, PartialEq, Eq, Structural)]
pub enum PromptResult {
    /// The user agreed.
    Accept,
    /// The user declined.
    Cancel,
    /// The event decided nothing.
    Pending,
}

/// What the file viewer makes of an event.
#[derive(Clone, Copy, Debug, PartialEq, Eq, Structural)]
pub enum TextInputResult {
    /// The viewer was dismissed.
    Cancel,
    /// The viewer was confirmed.
    Input,
    /// The event decided nothing.
    Pending,
}

/// The outside work that an event calls for before the browser can take it.
#[derive(Clone, Copy, Debug, PartialEq, Eq, Structural)]
pub enum Request {
    /// Nothing is needed.
    Nothing,
    /// The listing of a directory is to be fetched.
    Tree(TreeId),
    /// The directory and all below it are to be summed.
    Sizes(TreeId),
    /// The first `length` bytes of the entry in row `index` are to be read.
    File { index: usize, length: usize },
    /// The table is to move its selection as the key says.
    Move,
    /// The exit prompt is to be shown the event.
    Prompt,
    /// The file viewer is to be shown the event.
    Viewer,
    /// The restore dialogue is to be shown the event.
    Restore,
}

/// The answer to a `Request`.
#[derive(Debug, PartialEq, Eq)]
pub enum Reply {
    /// Nothing was asked for, or nothing came of it.
    Nothing,
    /// The listing that was fetched.
    Tree(Tree),
    /// The totals that the walk found.
    Sizes(Vec<(TreeId, Summary)>),
    /// The bytes that were read.
    File(Vec<u8>),
    /// The row that the table has selected now.
    Selection(Option<usize>),
    /// What the exit prompt made of the event.
    Prompt(PromptResult),
    /// What the file viewer made of the event.
    Viewer(TextInputResult),
    /// Whether the restore dialogue is done.
    Restore(bool),
}

/// What a `Reply` holds, as mathematical values.
pub enum ReplyView {
    Nothing,
    Tree(Seq<EntryView>),
    Sizes(Seq<(TreeId, Summary)>),
    File(Seq<u8>),
    Selection(Option<usize>),
    Prompt(PromptResult),
    Viewer(TextInputResult),
    Restore(bool),
}

impl View for Reply {
    type V = ReplyView;

    open spec fn view(&self) -> ReplyView {
        match self {
            Reply::Nothing => ReplyView::Nothing,
            Reply::Tree(tree) => ReplyView::Tree(tree@),
            Reply::Sizes(found) => ReplyView::Sizes(found@),
            Reply::File(bytes) => ReplyView::File(bytes@),
            Reply::Selection(row) => ReplyView::Selection(*row),
            Reply::Prompt(answer) => ReplyView::Prompt(*answer),
            Reply::Viewer(answer) => ReplyView::Viewer(*answer),
            Reply::Restore(done) => ReplyView::Restore(*done),
        }
    }
}

/// A box with a title and a text.
#[derive(Debug, PartialEq, Eq)]
pub struct PopUp {
    pub title: String,
    pub text: String,
}

/// What a `PopUp` holds, as mathematical values.
pub struct PopUpView {
    pub title: Seq<char>,
    pub text: Seq<char>,
}

impl View for PopUp {
    type V = PopUpView;

    open spec fn view(&self) -> PopUpView {
        PopUpView { title: self.title@, text: self.text@ }
    }
}

/// The text of a file, to be shown in a box of `rows` rows.
#[derive(Debug, PartialEq, Eq)]
pub struct FileView {
    pub title: String,
    pub content: String,
    pub rows: u16,
}

/// What a `FileView` holds, as mathematical values.
pub struct FileViewView {
    pub title: Seq<char>,
    pub content: Seq<char>,
    pub rows: u16,
}

impl View for FileView {
    type V = FileViewView;

    open spec fn view(&self) -> FileViewView {
        FileViewView { title: self.title@, content: self.content@, rows: self.rows }
    }
}

/// What the restore dialogue is begun with: the entry to restore, the
/// label that names it, and the target that is offered first.
#[derive(Debug, PartialEq, Eq)]
pub struct RestoreTask {
    pub entry: Entry,
    pub label: String,
    pub target: String,
}

/// What a `RestoreTask` holds, as mathematical values.
pub struct RestoreTaskView {
    pub entry: EntryView,
    pub label: Seq<char>,
    pub target: Seq<char>,
}

impl View for RestoreTask {
    type V = RestoreTaskView;

    open spec fn view(&self) -> RestoreTaskView {
        RestoreTaskView { entry: self.entry@, label: self.label@, target: self.target@ }
    }
}

/// The mode of the screen. One mode is active at a time, and each carries
/// what it alone needs.
#[derive(Debug, PartialEq, Eq)]
pub enum CurrentScreen {
    /// The directory is browsed.
    Snapshot,
    /// The help is shown.
    ShowHelp(PopUp),
    /// The restore dialogue has the screen.
    Restore(RestoreTask),
    /// The user is asked whether to quit.
    PromptExit(PopUp),
    /// The text of a file is shown.
    ShowFile(FileView),
}

/// What a `CurrentScreen` holds, as mathematical values.
pub enum ScreenView {
    Snapshot,
    ShowHelp(PopUpView),
    Restore(RestoreTaskView),
    PromptExit(PopUpView),
    ShowFile(FileViewView),
}

impl View for CurrentScreen {
    type V = ScreenView;

    open spec fn view(&self) -> ScreenView {
        match self {
            CurrentScreen::Snapshot => ScreenView::Snapshot,
            CurrentScreen::ShowHelp(popup) => ScreenView::ShowHelp(popup@),
            CurrentScreen::Restore(task) => ScreenView::Restore(task@),
            CurrentScreen::PromptExit(popup) => ScreenView::PromptExit(popup@),
            CurrentScreen::ShowFile(file) => ScreenView::ShowFile(file@),
        }
    }
}

/// The five modes by name.
#[derive(Clone, Copy, Debug, PartialEq, Eq, Structural)]
pub enum Mode {
    Snapshot,
    ShowHelp,
    Restore,
    PromptExit,
    ShowFile,
}

/// The name of the mode that a screen is in.
pub open spec fn mode_of(screen: ScreenView) -> Mode {
    match screen {
        ScreenView::Snapshot => Mode::Snapshot,
        ScreenView::ShowHelp(_) => Mode::ShowHelp,
        ScreenView::Restore(_) => Mode::Restore,
        ScreenView::PromptExit(_) => Mode::PromptExit,
        ScreenView::ShowFile(_) => Mode::ShowFile,
    }
}

impl CurrentScreen {
    /// The name of the mode.
    pub fn mode(&self) -> (mode: Mode)
        ensures
            mode == mode_of(self@),
    {
        match self {
            CurrentScreen::Snapshot => Mode::Snapshot,
            CurrentScreen::ShowHelp(_) => Mode::ShowHelp,
            CurrentScreen::Restore(_) => Mode::Restore,
            CurrentScreen::PromptExit(_) => Mode::PromptExit,
            CurrentScreen::ShowFile(_) => Mode::ShowFile,
        }
    }
}

/// What an event leaves the caller to do.
#[derive(Debug, PartialEq, Eq)]
pub enum SnapshotResult {
    /// The user has confirmed to quit the program.
    Exit,
    /// The user has left the snapshot by its root; the cache goes back to
    /// the caller.
    Return(SummaryMap),
    /// The browser stays.
    Stay,
}

/// What a `SnapshotResult` holds, as mathematical values.
pub enum ResultView {
    Exit,
    Return(Map<TreeId, Summary>),
    Stay,
}

impl View for SnapshotResult {
    type V = ResultView;

    open spec fn view(&self) -> ResultView {
        match self {
            SnapshotResult::Exit => ResultView::Exit,
            SnapshotResult::Return(cache) => ResultView::Return(cache@),
            SnapshotResult::Stay => ResultView::Stay,
        }
    }
}

/// One thing to draw. What comes later lies on top.
#[derive(Clone, Copy, Debug, PartialEq, Eq, Structural)]
pub enum Layer {
    /// The restore dialogue, over the whole area.
    Restore,
    /// The table, over all but the last line.
    Table,
    /// The line of hints, on the last line.
    Hints,
    /// The help, over the whole area.
    Help,
    /// The exit prompt, over the whole area.
    Prompt,
    /// The file viewer, over the whole area.
    File,
}

} // verus!
