//! The browser's state as mathematical values, and what each event makes
//! of it. The browser itself is held to these functions.

use crate::entry::{EntryKind, EntryView, TreeId};
use crate::screen::{
    Event, FileViewView, Key, Layer, PopUpView, PromptResult, ReplyView, Request,
    RestoreTaskView, ResultView, ScreenView, TextInputResult,
};
use crate::summary::{absorbed, Summary};
use crate::table::{rendered, TableView};
use crate::text::{line_count, path_text};
use vstd::prelude::*;
use vstd::utf8::{decode_utf8, valid_utf8};

verus! {

/// The line of hints under the table.
pub const INFO_TEXT: &'static str =
    "(Esc) quit | (Enter) enter dir | (Backspace) return to parent | (v) view | (r) restore | (?) show all commands";

/// The text of the help.
pub const HELP_TEXT: &'static str =
    "\nLs Commands:\n\n          v : view file contents (text files only, up to 1MiB)\n          r : restore selected item\n          n : toggle numeric IDs\n          s : compute information for (sub)-dirs\n          D : diff current selection\n\nGeneral Commands:\n\n      q,Esc : exit\n      Enter : enter dir\n  Backspace : return to parent dir\n          ? : show this help page\n\n ";

/// The most bytes of a file that are read to show it.
pub const VIEW_LIMIT: u64 = 1_000_000;

/// The most rows that the file viewer takes.
pub const VIEW_ROWS: u16 = 40;

/// What a `Frame` holds, as mathematical values.
pub struct FrameView {
    pub entries: Seq<EntryView>,
    pub id: TreeId,
    pub selected: usize,
}

/// The state of the browser, as mathematical values.
pub struct SnapshotView {
    /// The mode of the screen.
    pub screen: ScreenView,
    /// Whether owners are shown by number.
    pub numeric: bool,
    /// Whether the repository cannot hand out the contents of files.
    pub cold: bool,
    /// Whether one of the snapshot's paths is absolute.
    pub absolute: bool,
    /// The name by which the snapshot is shown.
    pub id: Seq<char>,
    /// The listing of the snapshot's root.
    pub root: TreeId,
    /// The names from the root to the directory on display.
    pub path: Seq<Seq<char>>,
    /// The directories from the root to the parent of the one on display.
    pub trees: Seq<FrameView>,
    /// The directory on display.
    pub tree: Seq<EntryView>,
    /// The identifier of the directory on display.
    pub tree_id: TreeId,
    /// The totals that are known.
    pub cache: Map<TreeId, Summary>,
    /// The table on the screen.
    pub table: TableView,
}

/// How many bytes of a file of `size` bytes are read to show it.
pub open spec fn read_length(size: u64) -> usize {
    if size >= VIEW_LIMIT {
        VIEW_LIMIT as usize
    } else {
        size as usize
    }
}

/// How many rows the viewer takes for a file of these bytes: one more than
/// it has lines, and no more than the most it may take.
pub open spec fn box_rows(bytes: Seq<u8>) -> u16 {
    if line_count(bytes) + 1 >= VIEW_ROWS {
        VIEW_ROWS
    } else {
        (line_count(bytes) + 1) as u16
    }
}

/// The help, as the screen carries it.
pub open spec fn help_popup() -> PopUpView {
    PopUpView { title: "help"@, text: HELP_TEXT@ }
}

/// The exit prompt, as the screen carries it.
pub open spec fn exit_popup() -> PopUpView {
    PopUpView { title: "exit rustic"@, text: "do you want to exit? (y/n)"@ }
}

/// Whether this event closes the help.
pub open spec fn closes_help(event: Event) -> bool {
    match event {
        Event::Press(key) => match key {
            Key::Esc => true,
            Key::Enter => true,
            Key::Char(c) => c == 'q' || c == ' ' || c == '?',
            _ => false,
        },
        Event::Other => false,
    }
}

impl SnapshotView {
    /// The identifier that the frame at `k` was left for.
    pub open spec fn child_of(self, k: int) -> TreeId {
        if k + 1 < self.trees.len() {
            self.trees[k + 1].id
        } else {
            self.tree_id
        }
    }

    /// Whether the table shows the directory on display as it is now.
    pub open spec fn fresh(self) -> bool {
        let shown = rendered(
            self.tree,
            self.cache,
            self.numeric,
            self.id,
            self.path,
            self.table.selected,
        );
        &&& self.table.rows == shown.rows
        &&& self.table.title == shown.title
        &&& self.table.footer == shown.footer
    }

    /// Whether the state is one that the browser can be in: it is in
    /// shape, and the table is fresh.
    pub open spec fn valid(self) -> bool {
        self.shaped() && self.fresh()
    }

    /// Whether the stack, the path and the selection fit together: there
    /// is a frame for each name of the path; each frame was left by the
    /// directory in its selected row, which bears the path's name and leads
    /// to the next frame, the last to the directory on display; the first
    /// listing is the snapshot's root; and the selected row exists.
    pub open spec fn shaped(self) -> bool {
        &&& self.trees.len() == self.path.len()
        &&& (self.table.selected matches Some(i) ==> i < self.tree.len())
        &&& forall|k: int|
            0 <= k < self.trees.len() ==> {
                &&& (#[trigger] self.trees[k]).selected < self.trees[k].entries.len()
                &&& self.trees[k].entries[self.trees[k].selected as int].kind == EntryKind::Dir(
                    self.child_of(k),
                )
                &&& self.trees[k].entries[self.trees[k].selected as int].name == self.path[k]
            }
        &&& (if self.trees.len() > 0 {
            self.trees[0].id
        } else {
            self.tree_id
        }) == self.root
    }

    /// The state with the table filled again.
    pub open spec fn refreshed(self) -> SnapshotView {
        SnapshotView {
            table: rendered(
                self.tree,
                self.cache,
                self.numeric,
                self.id,
                self.path,
                self.table.selected,
            ),
            ..self
        }
    }

    /// The state with `row` selected.
    pub open spec fn with_selected(self, row: Option<usize>) -> SnapshotView {
        SnapshotView { table: TableView { selected: row, ..self.table }, ..self }
    }

    /// The state with the screen in `screen`.
    pub open spec fn with_screen(self, screen: ScreenView) -> SnapshotView {
        SnapshotView { screen, ..self }
    }

    /// The entry in the selected row.
    pub open spec fn selected_entry(self) -> Option<EntryView> {
        match self.table.selected {
            Some(i) => if i < self.tree.len() {
                Some(self.tree[i as int])
            } else {
                None
            },
            None => None,
        }
    }

    /// The listing that the selected row leads to, if it is a directory.
    pub open spec fn selected_subtree(self) -> Option<TreeId> {
        match self.selected_entry() {
            Some(e) => match e.kind {
                EntryKind::Dir(sub) => Some(sub),
                _ => None,
            },
            None => None,
        }
    }

    /// The state after the selected directory was entered, `child` being
    /// its listing: the directory on display goes on the stack with the
    /// selected row, the name goes on the path, and the first row of the
    /// child is selected. Where no directory is selected nothing changes.
    pub open spec fn entered(self, child: Seq<EntryView>) -> SnapshotView {
        match self.selected_subtree() {
            Some(sub) => {
                let row = self.table.selected->0;
                SnapshotView {
                    path: self.path.push(self.tree[row as int].name),
                    trees: self.trees.push(
                        FrameView { entries: self.tree, id: self.tree_id, selected: row },
                    ),
                    tree: child,
                    tree_id: sub,
                    ..self
                }.with_selected(Some(0)).refreshed()
            },
            None => self,
        }
    }

    /// Whether the directory on display is the snapshot's root.
    pub open spec fn at_root(self) -> bool {
        self.trees.len() == 0
    }

    /// The state after one step back: the parent is on display again with
    /// the row that was left selected, and the path is one name shorter. At
    /// the root nothing changes.
    pub open spec fn gone_back(self) -> SnapshotView {
        if self.trees.len() == 0 {
            self
        } else {
            let frame = self.trees.last();
            SnapshotView {
                path: self.path.drop_last(),
                trees: self.trees.drop_last(),
                tree: frame.entries,
                tree_id: frame.id,
                ..self
            }.with_selected(Some(frame.selected)).refreshed()
        }
    }

    /// The state with owners shown the other way.
    pub open spec fn toggled(self) -> SnapshotView {
        SnapshotView { numeric: !self.numeric, ..self }.refreshed()
    }

    /// The state with `found` recorded in the cache. A total that was known
    /// stays as it was.
    pub open spec fn sized(self, found: Seq<(TreeId, Summary)>) -> SnapshotView {
        SnapshotView { cache: absorbed(self.cache, found, found.len() as int), ..self }.refreshed()
    }

    /// The state after the table moved its selection to `row`. A row that
    /// the directory does not have is not selected.
    pub open spec fn selecting(self, row: Option<usize>) -> SnapshotView {
        match row {
            Some(i) => if i < self.tree.len() {
                self.with_selected(row)
            } else {
                self
            },
            None => self.with_selected(row),
        }
    }

    /// The path of an entry of the directory on display.
    pub open spec fn entry_path(self, name: Seq<char>) -> Seq<char> {
        path_text(self.path.push(name))
    }

    /// The label under which an entry is shown or restored.
    pub open spec fn label_text(self, name: Seq<char>) -> Seq<char> {
        self.id + ":/"@ + self.entry_path(name)
    }

    /// The target that is offered for restoring an entry: its path, from
    /// the root of the file system where a path of the snapshot is absolute.
    pub open spec fn target_text(self, name: Seq<char>) -> Seq<char> {
        if self.absolute {
            "/"@ + self.entry_path(name)
        } else {
            self.entry_path(name)
        }
    }

    /// The request for the bytes of the selected file; nothing where
    /// the repository is cold or no file is selected.
    pub open spec fn file_request(self) -> Request {
        match self.selected_entry() {
            Some(e) => if !self.cold && e.kind is File {
                Request::File { index: self.table.selected->0, length: read_length(e.size) }
            } else {
                Request::Nothing
            },
            None => Request::Nothing,
        }
    }

    /// The state after `bytes` were read from the selected file: the file
    /// viewer opens if they are text. Where the repository is cold, no
    /// file is selected, or the bytes are no text, nothing changes.
    pub open spec fn viewing(self, bytes: Seq<u8>) -> SnapshotView {
        match self.selected_entry() {
            Some(e) => if !self.cold && e.kind is File && valid_utf8(bytes) {
                self.with_screen(
                    ScreenView::ShowFile(
                        FileViewView {
                            title: self.label_text(e.name),
                            content: decode_utf8(bytes),
                            rows: box_rows(bytes),
                        },
                    ),
                )
            } else {
                self
            },
            None => self,
        }
    }

    /// The state after restoring was asked for: the restore dialogue
    /// begins with the selected entry. Where nothing is selected nothing
    /// changes.
    pub open spec fn restoring(self) -> SnapshotView {
        match self.selected_entry() {
            Some(e) => self.with_screen(
                ScreenView::Restore(
                    RestoreTaskView {
                        entry: e,
                        label: self.label_text(e.name),
                        target: self.target_text(e.name),
                    },
                ),
            ),
            None => self,
        }
    }

    /// The outside work that `event` calls for in this state.
    pub open spec fn asked(self, event: Event) -> Request {
        match self.screen {
            ScreenView::Snapshot => match event {
                Event::Press(key) => match key {
                    Key::Enter | Key::Right => match self.selected_subtree() {
                        Some(sub) => Request::Tree(sub),
                        None => Request::Nothing,
                    },
                    Key::Backspace | Key::Left | Key::Esc => Request::Nothing,
                    Key::Char(c) => if c == 's' {
                        Request::Sizes(self.tree_id)
                    } else if c == 'v' {
                        self.file_request()
                    } else if c == 'q' || c == '?' || c == 'n' || c == 'r' {
                        Request::Nothing
                    } else {
                        Request::Move
                    },
                    Key::Other => Request::Move,
                },
                Event::Other => Request::Nothing,
            },
            ScreenView::ShowHelp(_) => Request::Nothing,
            ScreenView::Restore(_) => Request::Restore,
            ScreenView::PromptExit(_) => Request::Prompt,
            ScreenView::ShowFile(_) => Request::Viewer,
        }
    }

    /// What a key does while the directory is browsed.
    pub open spec fn browse(self, key: Key, reply: ReplyView) -> (SnapshotView, ResultView) {
        match key {
            Key::Enter | Key::Right => (
                match reply {
                    ReplyView::Tree(child) => self.entered(child),
                    _ => self,
                },
                ResultView::Stay,
            ),
            Key::Backspace | Key::Left => if self.at_root() {
                (
                    SnapshotView { cache: Map::empty(), ..self }.refreshed(),
                    ResultView::Return(self.cache),
                )
            } else {
                (self.gone_back(), ResultView::Stay)
            },
            Key::Esc => (self.with_screen(ScreenView::PromptExit(exit_popup())), ResultView::Stay),
            Key::Char(c) => (
                if c == 'q' {
                    self.with_screen(ScreenView::PromptExit(exit_popup()))
                } else if c == '?' {
                    self.with_screen(ScreenView::ShowHelp(help_popup()))
                } else if c == 'n' {
                    self.toggled()
                } else if c == 's' {
                    match reply {
                        ReplyView::Sizes(found) => self.sized(found),
                        _ => self,
                    }
                } else if c == 'v' {
                    match reply {
                        ReplyView::File(bytes) => self.viewing(bytes),
                        _ => self,
                    }
                } else if c == 'r' {
                    self.restoring()
                } else {
                    self.moved(reply)
                },
                ResultView::Stay,
            ),
            Key::Other => (self.moved(reply), ResultView::Stay),
        }
    }

    /// The state after a key was passed on to the table.
    pub open spec fn moved(self, reply: ReplyView) -> SnapshotView {
        match reply {
            ReplyView::Selection(row) => self.selecting(row),
            _ => self,
        }
    }

    /// What an event does, `reply` being the answer to what it asked for.
    /// The event goes to the mode that is active and to no other. An
    /// answer to something that was not asked changes nothing.
    pub open spec fn step(self, event: Event, reply: ReplyView) -> (SnapshotView, ResultView) {
        match self.screen {
            ScreenView::Snapshot => match event {
                Event::Press(key) => self.browse(key, reply),
                Event::Other => (self, ResultView::Stay),
            },
            ScreenView::ShowHelp(_) => (
                if closes_help(event) {
                    self.with_screen(ScreenView::Snapshot)
                } else {
                    self
                },
                ResultView::Stay,
            ),
            ScreenView::Restore(_) => (
                match reply {
                    ReplyView::Restore(done) => if done {
                        self.with_screen(ScreenView::Snapshot)
                    } else {
                        self
                    },
                    _ => self,
                },
                ResultView::Stay,
            ),
            ScreenView::PromptExit(_) => match reply {
                ReplyView::Prompt(answer) => match answer {
                    PromptResult::Accept => (self, ResultView::Exit),
                    PromptResult::Cancel => (
                        self.with_screen(ScreenView::Snapshot),
                        ResultView::Stay,
                    ),
                    PromptResult::Pending => (self, ResultView::Stay),
                },
                _ => (self, ResultView::Stay),
            },
            ScreenView::ShowFile(_) => (
                match reply {
                    ReplyView::Viewer(answer) => match answer {
                        TextInputResult::Cancel | TextInputResult::Input => self.with_screen(
                            ScreenView::Snapshot,
                        ),
                        TextInputResult::Pending => self,
                    },
                    _ => self,
                },
                ResultView::Stay,
            ),
        }
    }

    /// What is drawn, from the bottom up: the restore dialogue alone, or the
    /// table and the hints with the open box, if there is one, on top.
    pub open spec fn layers(self) -> Seq<Layer> {
        match self.screen {
            ScreenView::Snapshot => seq![Layer::Table, Layer::Hints],
            ScreenView::ShowHelp(_) => seq![Layer::Table, Layer::Hints, Layer::Help],
            ScreenView::Restore(_) => seq![Layer::Restore],
            ScreenView::PromptExit(_) => seq![Layer::Table, Layer::Hints, Layer::Prompt],
            ScreenView::ShowFile(_) => seq![Layer::Table, Layer::Hints, Layer::File],
        }
    }
}

/// The state in which the browser begins: the root on display, nothing on
/// the stack, owners shown by name, the directory browsed.
pub open spec fn initial(
    id: Seq<char>,
    root: TreeId,
    tree: Seq<EntryView>,
    cache: Map<TreeId, Summary>,
    cold: bool,
    absolute: bool,
) -> SnapshotView {
    SnapshotView {
        screen: ScreenView::Snapshot,
        numeric: false,
        cold,
        absolute,
        id,
        root,
        path: Seq::empty(),
        trees: Seq::empty(),
        tree,
        tree_id: root,
        cache,
        table: rendered(tree, cache, false, id, Seq::empty(), None),
    }
}

} // verus!
