//! The browser of one snapshot: the directory on display, the way back to
//! the root, and what each event does to them.
//!
//! The browser reads no repository and no terminal. What an event needs
//! from outside it names as a `Request`; the caller does the work and hands
//! the event in with the `Reply`.

use crate::entry::{Entry, EntryKind, Tree, TreeId};
use crate::laws::{
    lemma_entered_valid, lemma_gone_back_valid, lemma_initial_valid, lemma_refilled_valid,
    lemma_selecting_valid,
};
use crate::model::{
    closes_help, exit_popup, help_popup, initial, FrameView, SnapshotView, HELP_TEXT, VIEW_LIMIT,
    VIEW_ROWS,
};
use crate::screen::{
    CurrentScreen, Event, FileView, Key, Layer, Mode, PopUp, PromptResult, Reply, Request,
    RestoreTask, SnapshotResult, TextInputResult,
};
use crate::summary::{absorbed, Summary, SummaryMap};
use crate::table::{render, row_of, Row, Table};
use crate::text::{count_lines, join_path, names_view, path_is_absolute, utf8_text};
use vstd::prelude::*;
use vstd::string::*;

verus! {

/// What the browser is told of the snapshot it shows.
#[derive(Debug, PartialEq, Eq)]
pub struct SnapshotInfo {
    /// The name by which the snapshot is shown.
    pub id: String,
    /// The listing of the snapshot's root.
    pub tree: TreeId,
    /// The paths that the snapshot was taken of.
    pub paths: Vec<String>,
}

/// A directory that was left for one of its children: its listing, its
/// identifier, and the row of the child.
#[derive(Debug, PartialEq, Eq)]
pub struct Frame {
    pub tree: Tree,
    pub tree_id: TreeId,
    pub selected: usize,
}

impl View for Frame {
    type V = FrameView;

    open spec fn view(&self) -> FrameView {
        FrameView { entries: self.tree@, id: self.tree_id, selected: self.selected }
    }
}

/// The browser of one snapshot.
#[derive(Debug)]
pub struct Snapshot {
    current_screen: CurrentScreen,
    numeric: bool,
    table: Table,
    cold: bool,
    absolute: bool,
    snapshot: SnapshotInfo,
    path: Vec<String>,
    trees: Vec<Frame>,
    tree: Tree,
    tree_id: TreeId,
    summary_map: SummaryMap,
}

impl View for Snapshot {
    type V = SnapshotView;

    closed spec fn view(&self) -> SnapshotView {
        SnapshotView {
            screen: self.current_screen@,
            numeric: self.numeric,
            cold: self.cold,
            absolute: self.absolute,
            id: self.snapshot.id@,
            root: self.snapshot.tree,
            path: names_view(self.path@),
            trees: Seq::new(self.trees@.len(), |i: int| self.trees@[i]@),
            tree: self.tree@,
            tree_id: self.tree_id,
            cache: self.summary_map@,
            table: self.table@,
        }
    }
}

/// Whether one of `flags` is set.
pub fn any_set(flags: &Vec<bool>) -> (found: bool)
    ensures
        found == exists|i: int| 0 <= i < flags@.len() && flags@[i],
{
    let mut i: usize = 0;
    while i < flags.len()
        invariant
            i <= flags.len(),
            forall|j: int| 0 <= j < i ==> !flags@[j],
        decreases flags.len() - i,
    {
        if flags[i] {
            return true;
        }
        i = i + 1;
    }
    false
}

/// For each of `paths`, whether it is absolute on this machine.
pub fn absolute_flags(paths: &Vec<String>) -> (flags: Vec<bool>)
    ensures
        flags@.len() == paths@.len(),
{
    let mut flags: Vec<bool> = Vec::new();
    let mut i: usize = 0;
    while i < paths.len()
        invariant
            i <= paths.len(),
            flags@.len() == i,
        decreases paths.len() - i,
    {
        flags.push(path_is_absolute(paths[i].as_str()));
        i = i + 1;
    }
    flags
}

/// Whether one of `paths` is absolute on this machine. With no path, none
/// is.
pub fn any_absolute(paths: &Vec<String>) -> (found: bool)
    ensures
        paths@.len() == 0 ==> !found,
{
    any_set(&absolute_flags(paths))
}

impl Snapshot {
    /// Whether the browser's state is valid.
    pub open spec fn wf(&self) -> bool {
        self@.valid()
    }

    /// A browser that shows the root of `snapshot`, `tree` being the root's
    /// listing and `summary_map` the totals known from before. `absolute`
    /// says whether a path of the snapshot is absolute, and `cold` whether
    /// the repository cannot hand out the contents of files.
    pub fn assemble(
        snapshot: SnapshotInfo,
        tree: Tree,
        summary_map: SummaryMap,
        cold: bool,
        absolute: bool,
    ) -> (app: Snapshot)
        ensures
            app.wf(),
            app@ == initial(snapshot.id@, snapshot.tree, tree@, summary_map@, cold, absolute),
    {
        let path: Vec<String> = Vec::new();
        let table = render(&tree, &summary_map, false, &snapshot.id, &path, None);
        let tree_id = snapshot.tree;
        let app = Snapshot {
            current_screen: CurrentScreen::Snapshot,
            numeric: false,
            table,
            cold,
            absolute,
            snapshot,
            path,
            trees: Vec::new(),
            tree,
            tree_id,
            summary_map,
        };
        proof {
            assert(app@.path =~= Seq::<Seq<char>>::empty());
            assert(app@.trees =~= Seq::<FrameView>::empty());
            lemma_initial_valid(
                snapshot.id@,
                snapshot.tree,
                tree@,
                summary_map@,
                cold,
                absolute,
            );
        }
        app
    }

    /// A browser that shows the root of `snapshot`, as `assemble` makes it.
    /// Whether a path of the snapshot is absolute is asked of this machine:
    /// with no path, none is.
    pub fn new(snapshot: SnapshotInfo, tree: Tree, summary_map: SummaryMap, cold: bool) -> (app:
        Snapshot)
        ensures
            app.wf(),
            app@ == initial(
                snapshot.id@,
                snapshot.tree,
                tree@,
                summary_map@,
                cold,
                app@.absolute,
            ),
            snapshot.paths@.len() == 0 ==> !app@.absolute,
    {
        let absolute = any_absolute(&snapshot.paths);
        Snapshot::assemble(snapshot, tree, summary_map, cold, absolute)
    }

    /// The mode of the screen, with what it carries.
    pub fn current_screen(&self) -> (screen: &CurrentScreen)
        ensures
            screen@ == self@.screen,
    {
        &self.current_screen
    }

    /// Whether owners are shown by number.
    pub fn numeric(&self) -> (numeric: bool)
        ensures
            numeric == self@.numeric,
    {
        self.numeric
    }

    /// The table on the screen.
    pub fn table(&self) -> (table: &Table)
        ensures
            table@ == self@.table,
    {
        &self.table
    }

    /// The names from the root to the directory on display.
    pub fn path(&self) -> (path: &Vec<String>)
        ensures
            names_view(path@) == self@.path,
    {
        &self.path
    }

    /// The directory on display.
    pub fn tree(&self) -> (tree: &Tree)
        ensures
            tree@ == self@.tree,
    {
        &self.tree
    }

    /// The identifier of the directory on display.
    pub fn tree_id(&self) -> (id: TreeId)
        ensures
            id == self@.tree_id,
    {
        self.tree_id
    }

    /// How many directories lie between the root and the one on display,
    /// the root counted.
    pub fn depth(&self) -> (depth: usize)
        ensures
            depth == self@.trees.len(),
    {
        self.trees.len()
    }

    /// The totals that are known.
    pub fn summary_map(&self) -> (cache: &SummaryMap)
        ensures
            cache@ == self@.cache,
    {
        &self.summary_map
    }

    /// The row that shows `node`, with the size that `node` declares.
    pub fn ls_row(&self, node: &Entry) -> (row: Row)
        ensures
            row@ == row_of(node@, self@.numeric),
    {
        crate::table::ls_row(node, self.numeric)
    }

    /// The entry in the selected row.
    pub fn selected_node(&self) -> (node: Option<&Entry>)
        ensures
            match node {
                Some(e) => self@.selected_entry() == Some(e@),
                None => self@.selected_entry() is None,
            },
    {
        match self.table.selected {
            Some(i) => if i < self.tree.nodes.len() {
                Some(&self.tree.nodes[i])
            } else {
                None
            },
            None => None,
        }
    }

    /// Fills the table again from the directory on display.
    pub fn update_table(&mut self)
        ensures
            final(self)@ == old(self)@.refreshed(),
    {
        let table = render(
            &self.tree,
            &self.summary_map,
            self.numeric,
            &self.snapshot.id,
            &self.path,
            self.table.selected,
        );
        self.table = table;
    }

    /// Enters the selected directory, `child` being its listing. Where no
    /// directory is selected nothing changes.
    pub fn enter(&mut self, child: Tree)
        requires
            old(self).wf(),
        ensures
            final(self).wf(),
            final(self)@ == old(self)@.entered(child@),
    {
        proof {
            lemma_entered_valid(self@, child@);
        }
        let row = match self.table.selected {
            Some(i) => i,
            None => {
                return ;
            },
        };
        if row >= self.tree.nodes.len() {
            return ;
        }
        let sub = match self.tree.nodes[row].kind {
            EntryKind::Dir(sub) => sub,
            _ => {
                return ;
            },
        };
        let name = self.tree.nodes[row].name.clone();
        assert(name@ == old(self)@.tree[row as int].name);
        self.path.push(name);
        let mut tree = child;
        std::mem::swap(&mut self.tree, &mut tree);
        self.trees.push(Frame { tree, tree_id: self.tree_id, selected: row });
        self.tree_id = sub;
        self.table.selected = Some(0);
        proof {
            assert(self@.path =~= old(self)@.path.push(old(self)@.tree[row as int].name));
            assert(self@.trees =~= old(self)@.trees.push(
                FrameView {
                    entries: old(self)@.tree,
                    id: old(self)@.tree_id,
                    selected: row,
                },
            ));
        }
        self.update_table();
    }

    /// Goes back to the parent. At the root nothing changes, and the
    /// answer is that the browser is to be left.
    pub fn goback(&mut self) -> (leave: bool)
        requires
            old(self).wf(),
        ensures
            final(self).wf(),
            leave == old(self)@.at_root(),
            final(self)@ == old(self)@.gone_back(),
    {
        proof {
            lemma_gone_back_valid(self@);
        }
        if self.trees.len() == 0 {
            assert(self@.path.len() == 0);
            return true;
        }
        self.path.pop();
        let frame = self.trees.pop().unwrap();
        assert(frame@ == old(self)@.trees.last());
        self.tree = frame.tree;
        self.tree_id = frame.tree_id;
        self.table.selected = Some(frame.selected);
        proof {
            assert(self@.path =~= old(self)@.path.drop_last());
            assert(self@.trees =~= old(self)@.trees.drop_last());
        }
        self.update_table();
        false
    }

    /// Shows owners the other way: by number, or by name.
    pub fn toggle_numeric(&mut self)
        requires
            old(self).wf(),
        ensures
            final(self).wf(),
            final(self)@ == old(self)@.toggled(),
    {
        proof {
            lemma_refilled_valid(self@, !self@.numeric, self@.cache);
        }
        self.numeric = !self.numeric;
        self.update_table();
    }

    /// Records the totals that a walk found and fills the table again. A
    /// total that was known stays as it was.
    pub fn compute_sizes(&mut self, found: &Vec<(TreeId, Summary)>)
        requires
            old(self).wf(),
        ensures
            final(self).wf(),
            final(self)@ == old(self)@.sized(found@),
    {
        proof {
            lemma_refilled_valid(
                self@,
                self@.numeric,
                absorbed(self@.cache, found@, found@.len() as int),
            );
        }
        self.summary_map.absorb(found);
        self.update_table();
    }

    /// Takes over the row that the table has selected. A row that the
    /// directory does not have is not selected.
    pub fn select(&mut self, row: Option<usize>)
        requires
            old(self).wf(),
        ensures
            final(self).wf(),
            final(self)@ == old(self)@.selecting(row),
    {
        proof {
            lemma_selecting_valid(self@, row, self@.screen);
        }
        match row {
            Some(i) => {
                if i < self.tree.nodes.len() {
                    self.table.selected = row;
                }
            },
            None => {
                self.table.selected = row;
            },
        }
    }

    /// Writes the path of an entry of the directory on display.
    fn entry_path(&self, name: &String) -> (s: String)
        ensures
            s@ == self@.entry_path(name@),
    {
        let mut s = join_path(&self.path);
        proof {
            reveal_strlit("/");
            assert(self@.path.push(name@).drop_last() =~= self@.path);
        }
        if self.path.len() > 0 {
            s.append("/");
        }
        s.append(name.as_str());
        assert(s@ =~= self@.entry_path(name@));
        s
    }

    /// Writes the label of an entry of the directory on display.
    fn label(&self, name: &String) -> (s: String)
        ensures
            s@ == self@.label_text(name@),
    {
        let mut s = self.snapshot.id.clone();
        s.append(":/");
        s.append(self.entry_path(name).as_str());
        s
    }

    /// Writes the target that is offered for restoring an entry.
    fn target(&self, name: &String) -> (s: String)
        ensures
            s@ == self@.target_text(name@),
    {
        if self.absolute {
            let mut s = String::from_str("/");
            s.append(self.entry_path(name).as_str());
            s
        } else {
            self.entry_path(name)
        }
    }

    /// Opens the file viewer on `bytes`, read from the selected file, if
    /// they are text. Where the repository is cold, no file is selected,
    /// or the bytes are no text, nothing changes.
    pub fn view_file(&mut self, bytes: Vec<u8>)
        requires
            old(self).wf(),
        ensures
            final(self).wf(),
            final(self)@ == old(self)@.viewing(bytes@),
    {
        proof {
            lemma_selecting_valid(self@, None, self@.viewing(bytes@).screen);
        }
        if self.cold {
            return ;
        }
        let title = match self.selected_node() {
            Some(node) => {
                if !node.is_file() {
                    return ;
                }
                self.label(&node.name)
            },
            None => {
                return ;
            },
        };
        let lines = count_lines(&bytes);
        let rows: u16 = if lines >= 39 {
            VIEW_ROWS
        } else {
            (lines + 1) as u16
        };
        match utf8_text(bytes) {
            Some(content) => {
                self.current_screen = CurrentScreen::ShowFile(FileView { title, content, rows });
            },
            None => {},
        }
    }

    /// Begins the restore dialogue with the selected entry. Where nothing
    /// is selected nothing changes.
    pub fn restore(&mut self)
        requires
            old(self).wf(),
        ensures
            final(self).wf(),
            final(self)@ == old(self)@.restoring(),
    {
        proof {
            lemma_selecting_valid(self@, None, self@.restoring().screen);
        }
        let task = match self.selected_node() {
            Some(node) => RestoreTask {
                entry: node.clone(),
                label: self.label(&node.name),
                target: self.target(&node.name),
            },
            None => {
                return ;
            },
        };
        self.current_screen = CurrentScreen::Restore(task);
    }

    /// The outside work that `event` calls for in the present state.
    pub fn request(&self, event: &Event) -> (request: Request)
        ensures
            request == self@.asked(*event),
    {
        match self.current_screen.mode() {
            Mode::Snapshot => match event {
                Event::Press(key) => match key {
                    Key::Enter | Key::Right => match self.selected_node() {
                        Some(node) => match node.kind {
                            EntryKind::Dir(sub) => Request::Tree(sub),
                            _ => Request::Nothing,
                        },
                        None => Request::Nothing,
                    },
                    Key::Backspace | Key::Left | Key::Esc => Request::Nothing,
                    Key::Char(c) => {
                        let c = *c;
                        if c == 's' {
                            Request::Sizes(self.tree_id)
                        } else if c == 'v' {
                            match self.selected_node() {
                                Some(node) => {
                                    if !self.cold && node.is_file() {
                                        let length: usize = if node.size >= VIEW_LIMIT {
                                            VIEW_LIMIT as usize
                                        } else {
                                            node.size as usize
                                        };
                                        match self.table.selected {
                                            Some(index) => Request::File { index, length },
                                            None => Request::Nothing,
                                        }
                                    } else {
                                        Request::Nothing
                                    }
                                },
                                None => Request::Nothing,
                            }
                        } else if c == 'q' || c == '?' || c == 'n' || c == 'r' {
                            Request::Nothing
                        } else {
                            Request::Move
                        }
                    },
                    Key::Other => Request::Move,
                },
                Event::Other => Request::Nothing,
            },
            Mode::ShowHelp => Request::Nothing,
            Mode::Restore => Request::Restore,
            Mode::PromptExit => Request::Prompt,
            Mode::ShowFile => Request::Viewer,
        }
    }

    /// Sets the screen's mode.
    fn show(&mut self, screen: CurrentScreen)
        requires
            old(self).wf(),
        ensures
            final(self).wf(),
            final(self)@ == old(self)@.with_screen(screen@),
    {
        proof {
            lemma_selecting_valid(self@, None, screen@);
        }
        self.current_screen = screen;
    }

    /// Takes a key while the directory is browsed.
    fn browse(&mut self, key: Key, reply: Reply) -> (res: SnapshotResult)
        requires
            old(self).wf(),
        ensures
            final(self).wf(),
            (final(self)@, res@) == old(self)@.browse(key, reply@),
    {
        match key {
            Key::Enter | Key::Right => {
                match reply {
                    Reply::Tree(child) => {
                        self.enter(child);
                    },
                    _ => {},
                }
            },
            Key::Backspace | Key::Left => {
                if self.goback() {
                    let mut cache = SummaryMap::new();
                    std::mem::swap(&mut self.summary_map, &mut cache);
                    proof {
                        lemma_refilled_valid(old(self)@, old(self)@.numeric, Map::empty());
                    }
                    self.update_table();
                    return SnapshotResult::Return(cache);
                }
            },
            Key::Esc => {
                self.show(CurrentScreen::PromptExit(exit_prompt()));
            },
            Key::Char(c) => {
                if c == 'q' {
                    self.show(CurrentScreen::PromptExit(exit_prompt()));
                } else if c == '?' {
                    self.show(CurrentScreen::ShowHelp(help()));
                } else if c == 'n' {
                    self.toggle_numeric();
                } else if c == 's' {
                    match reply {
                        Reply::Sizes(found) => {
                            self.compute_sizes(&found);
                        },
                        _ => {},
                    }
                } else if c == 'v' {
                    match reply {
                        Reply::File(bytes) => {
                            self.view_file(bytes);
                        },
                        _ => {},
                    }
                } else if c == 'r' {
                    self.restore();
                } else {
                    self.moved(reply);
                }
            },
            Key::Other => {
                self.moved(reply);
            },
        }
        SnapshotResult::Stay
    }

    /// Takes what the table made of a key that was passed on to it.
    fn moved(&mut self, reply: Reply)
        requires
            old(self).wf(),
        ensures
            final(self).wf(),
            final(self)@ == old(self)@.moved(reply@),
    {
        match reply {
            Reply::Selection(row) => {
                self.select(row);
            },
            _ => {},
        }
    }

    /// Takes one event, `reply` being the answer to what `request` asked
    /// for on it. The event goes to the mode that is active, and to no
    /// other; an answer to something that was not asked changes nothing.
    pub fn input(&mut self, event: Event, reply: Reply) -> (res: SnapshotResult)
        requires
            old(self).wf(),
        ensures
            final(self).wf(),
            (final(self)@, res@) == old(self)@.step(event, reply@),
    {
        match self.current_screen.mode() {
            Mode::Snapshot => match event {
                Event::Press(key) => {
                    return self.browse(key, reply);
                },
                Event::Other => {},
            },
            Mode::ShowHelp => {
                if closes_the_help(event) {
                    self.show(CurrentScreen::Snapshot);
                }
            },
            Mode::Restore => {
                match reply {
                    Reply::Restore(done) => {
                        if done {
                            self.show(CurrentScreen::Snapshot);
                        }
                    },
                    _ => {},
                }
            },
            Mode::PromptExit => {
                match reply {
                    Reply::Prompt(answer) => match answer {
                        PromptResult::Accept => {
                            return SnapshotResult::Exit;
                        },
                        PromptResult::Cancel => {
                            self.show(CurrentScreen::Snapshot);
                        },
                        PromptResult::Pending => {},
                    },
                    _ => {},
                }
            },
            Mode::ShowFile => {
                match reply {
                    Reply::Viewer(answer) => match answer {
                        TextInputResult::Cancel | TextInputResult::Input => {
                            self.show(CurrentScreen::Snapshot);
                        },
                        TextInputResult::Pending => {},
                    },
                    _ => {},
                }
            },
        }
        SnapshotResult::Stay
    }

    /// What is to be drawn, from the bottom up. The restore dialogue has
    /// the whole area to itself. In every other mode the table and the
    /// line of hints are drawn, and the open box, if there is one, on top.
    pub fn draw(&self) -> (layers: Vec<Layer>)
        ensures
            layers@ == self@.layers(),
    {
        let mut layers: Vec<Layer> = Vec::new();
        match self.current_screen.mode() {
            Mode::Restore => {
                layers.push(Layer::Restore);
            },
            mode => {
                layers.push(Layer::Table);
                layers.push(Layer::Hints);
                match mode {
                    Mode::ShowHelp => {
                        layers.push(Layer::Help);
                    },
                    Mode::PromptExit => {
                        layers.push(Layer::Prompt);
                    },
                    Mode::ShowFile => {
                        layers.push(Layer::File);
                    },
                    _ => {},
                }
            },
        }
        assert(layers@ =~= self@.layers());
        layers
    }
}

/// The help, as the screen carries it.
pub fn help() -> (popup: PopUp)
    ensures
        popup@ == help_popup(),
{
    PopUp { title: String::from_str("help"), text: String::from_str(HELP_TEXT) }
}

/// The exit prompt, as the screen carries it.
pub fn exit_prompt() -> (popup: PopUp)
    ensures
        popup@ == exit_popup(),
{
    PopUp {
        title: String::from_str("exit rustic"),
        text: String::from_str("do you want to exit? (y/n)"),
    }
}

/// Whether this event closes the help.
pub fn closes_the_help(event: Event) -> (closes: bool)
    ensures
        closes == closes_help(event),
{
    match event {
        Event::Press(key) => match key {
            Key::Esc => true,
            Key::Enter => true,
            Key::Char(c) => c == 'q' || c == ' ' || c == '?',
            _ => false,
        },
        Event::Other => false,
    }
}

} // verus!
